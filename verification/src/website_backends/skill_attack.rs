//! Typed records of the Skill Attack (secondary) service: the legacy song
//! list keyed by small local indices, and per-player score tables, plus the
//! verified pieces of that service's payload handling.

use std::collections::HashMap;

use crate::ddr_song::SongId;
use crate::error::Error;
use crate::scores::Scores;
use crate::text::occurs_at;
use vstd::prelude::*;

verus! {

/// The local song index of the Skill Attack service, stable only within one
/// dataset pull.
pub type SkillAttackIndex = u16;

/// One row of the Skill Attack master song list.
#[derive(Debug, Clone, PartialEq)]
pub struct SkillAttackSong {
    pub skill_attack_index: SkillAttackIndex,
    pub song_id: SongId,
    pub gsp: Option<u8>,
    pub bsp: Option<u8>,
    pub dsp: Option<u8>,
    pub esp: Option<u8>,
    pub csp: Option<u8>,
    pub bdp: Option<u8>,
    pub ddp: Option<u8>,
    pub edp: Option<u8>,
    pub cdp: Option<u8>,
    pub song_name: String,
    pub artist_name: String,
}

/// A player's Skill Attack scores, one table per local song index.
pub type SkillAttackScores = HashMap<SkillAttackIndex, Scores>;

/// Cuts the Skill Attack score page down to the part that starts at the
/// player-name marker, where the score arrays follow; rejects a page without
/// the marker.
pub fn cut_webpage<'a>(webpage: &'a str) -> (r: Result<&'a str, Error>)
    ensures
        match r {
            Ok(rest) => exists|i: int|
                {
                    &&& #[trigger] occurs_at(webpage@, "sName"@, i)
                    &&& rest@ == webpage@.skip(i)
                    &&& forall|j: int| 0 <= j < i ==> !occurs_at(webpage@, "sName"@, j)
                },
            Err(e) => e matches Error::OtherParseError(_) && forall|j: int|
                !occurs_at(webpage@, "sName"@, j),
        },
{
    let len = webpage.unicode_len();
    match crate::text::find_sub(webpage, "sName") {
        Some(i) => {
            let rest = webpage.substring_char(i, len);
            proof {
                assert(webpage@.subrange(i as int, len as int) =~= webpage@.skip(i as int));
            }
            Ok(rest)
        },
        None => Err(Error::OtherParseError("couldn't find \"sName\" in html")),
    }
}

/// A decimal digit for number parsing.
pub open spec fn spec_is_digit(c: char) -> bool {
    '0' as int <= c as int && c as int <= '9' as int
}

/// The decimal digits of the sequence, in order, everything else dropped.
pub open spec fn spec_digits(s: Seq<char>) -> Seq<char>
    decreases s.len(),
{
    if s.len() == 0 {
        Seq::empty()
    } else {
        spec_digits(s.drop_last()) + if spec_is_digit(s.last()) {
            seq![s.last()]
        } else {
            Seq::empty()
        }
    }
}

/// The value of a digit sequence read in base ten, truncated to 32 bits the
/// way the score parser accumulates it.
pub open spec fn spec_digits_value(ds: Seq<char>) -> int
    decreases ds.len(),
{
    if ds.len() == 0 {
        0
    } else {
        (spec_digits_value(ds.drop_last()) * 10 + (ds.last() as int - '0' as int)) % 0x100000000
    }
}

/// Reads a score cell of the Skill Attack page: empty and "-" cells mean no
/// score; otherwise the digits of the cell are read in base ten, ignoring the
/// comma separators (and every other non-digit).
pub fn parse_number_with_commas(input: &str) -> (r: Option<u32>)
    ensures
        r is None <==> (input@.len() == 0 || input@ =~= seq!['-']),
        r matches Some(n) ==> n as int == spec_digits_value(spec_digits(input@)),
{
    let len = input.unicode_len();
    if len == 0 {
        return None;
    }
    if len == 1 && input.get_char(0) == '-' {
        proof {
            assert(input@ =~= seq!['-']);
        }
        return None;
    }
    proof {
        if input@ =~= seq!['-'] {
            assert(input@[0] == '-');
        }
    }
    let mut n: u32 = 0;
    let mut i: usize = 0;
    while i < len
        invariant
            i <= len,
            len == input@.len(),
            n as int == spec_digits_value(spec_digits(input@.take(i as int))),
        decreases len - i,
    {
        let c = input.get_char(i);
        proof {
            assert(input@.take(i as int + 1).drop_last() =~= input@.take(i as int));
            assert(input@.take(i as int + 1).last() == input@[i as int]);
        }
        if '0' <= c && c <= '9' {
            let d: u32 = (c as u32) - 48;
            let wide: u64 = (n as u64) * 10 + (d as u64);
            n = (wide % 0x100000000) as u32;
            proof {
                let ds = spec_digits(input@.take(i as int + 1));
                assert(ds.drop_last() =~= spec_digits(input@.take(i as int)));
                assert(ds.last() == input@[i as int]);
            }
        }
        i = i + 1;
    }
    proof {
        assert(input@.take(len as int) =~= input@);
    }
    Some(n)
}

} // verus!
