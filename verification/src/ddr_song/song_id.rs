//! The canonical song identifier: a 32-character string over a fixed
//! 16-character alphabet, packed into a `u128` (4 bits per character) for
//! cheap comparison and map keying.

use crate::text::push_char;
use vstd::prelude::*;

verus! {

/// The character standing for one 4-bit digit value, in the id alphabet.
pub open spec fn spec_alphabet_char(d: u8) -> char {
    if d == 0 {
        '0'
    } else if d == 1 {
        '1'
    } else if d == 2 {
        '6'
    } else if d == 3 {
        '8'
    } else if d == 4 {
        '9'
    } else if d == 5 {
        'D'
    } else if d == 6 {
        'I'
    } else if d == 7 {
        'O'
    } else if d == 8 {
        'P'
    } else if d == 9 {
        'Q'
    } else if d == 10 {
        'b'
    } else if d == 11 {
        'd'
    } else if d == 12 {
        'i'
    } else if d == 13 {
        'l'
    } else if d == 14 {
        'o'
    } else {
        'q'
    }
}

/// The digit value of a character of the id alphabet, or `None` for any other
/// character.
pub open spec fn spec_alphabet_index(c: char) -> Option<u8> {
    if c == '0' {
        Some(0u8)
    } else if c == '1' {
        Some(1u8)
    } else if c == '6' {
        Some(2u8)
    } else if c == '8' {
        Some(3u8)
    } else if c == '9' {
        Some(4u8)
    } else if c == 'D' {
        Some(5u8)
    } else if c == 'I' {
        Some(6u8)
    } else if c == 'O' {
        Some(7u8)
    } else if c == 'P' {
        Some(8u8)
    } else if c == 'Q' {
        Some(9u8)
    } else if c == 'b' {
        Some(10u8)
    } else if c == 'd' {
        Some(11u8)
    } else if c == 'i' {
        Some(12u8)
    } else if c == 'l' {
        Some(13u8)
    } else if c == 'o' {
        Some(14u8)
    } else if c == 'q' {
        Some(15u8)
    } else {
        None
    }
}

/// The alphabet index is a partial inverse of the alphabet character.
pub proof fn lemma_alphabet_roundtrip(c: char)
    ensures
        spec_alphabet_index(c) matches Some(d) ==> spec_alphabet_char(d) == c,
{
}

/// The value of the `i`-th 4-bit digit of a packed id.
pub open spec fn nibble(bytes: u128, i: int) -> u128 {
    (bytes >> ((4 * i) as u128)) & 0xf
}

/// The 32-character string a packed id stands for, lowest digit first.
pub open spec fn id_chars(bytes: u128) -> Seq<char> {
    Seq::new(32, |i: int| spec_alphabet_char(nibble(bytes, i) as u8))
}

/// A digit extracted from a packed value is always below 16.
proof fn lemma_nibble_bound(b: u128, s: u128)
    ensures
        ((b >> s) & 0xf) < 16,
{
    assert(((b >> s) & 0xf) < 16) by (bit_vector);
}

/// The zero value has every digit zero.
proof fn lemma_nibble_of_zero(s: u128)
    ensures
        ((0u128 >> s) & 0xf) == 0,
{
    assert(((0u128 >> s) & 0xf) == 0) by (bit_vector);
}

/// Writing a digit into a clear 4-bit-aligned position sets exactly that
/// digit and leaves every other aligned digit unchanged.
proof fn lemma_or_set(b: u128, p: u128, s: u128, t: u128)
    requires
        s < 128,
        t < 128,
        s % 4 == 0,
        t % 4 == 0,
        p < 16,
        ((b >> s) & 0xf) == 0,
    ensures
        (((b | (p << s)) >> s) & 0xf) == p,
        s != t ==> (((b | (p << s)) >> t) & 0xf) == ((b >> t) & 0xf),
{
    assert((((b | (p << s)) >> s) & 0xf) == p) by (bit_vector)
        requires
            s < 128,
            s % 4 == 0,
            p < 16,
            ((b >> s) & 0xf) == 0,
    ;
    assert(s != t ==> (((b | (p << s)) >> t) & 0xf) == ((b >> t) & 0xf)) by (bit_vector)
        requires
            s < 128,
            t < 128,
            s % 4 == 0,
            t % 4 == 0,
            p < 16,
    ;
}

/// A compact representation of a song id: the id string packed 4 bits per
/// character into a `u128`, used for comparisons and as a map key.
#[derive(Debug, Clone, Copy, PartialEq, Eq, Hash, Structural)]
pub struct SongId {
    pub bytes: u128,
}

/// The ways a song id string can fail to parse.
#[derive(Debug, Clone, Copy, PartialEq, Eq, Structural)]
pub enum SongIdParseError {
    /// The string contained this character, which is not in the id alphabet.
    InvalidChar(char),
    /// The string had this length instead of the expected 32 characters.
    InvalidLength(usize),
}

impl SongId {
    /// The packed 128-bit value of the id.
    pub fn packed(&self) -> (r: u128)
        ensures
            r == self.bytes,
    {
        self.bytes
    }

    /// Parses a 32-character id string over the id alphabet. Returns the
    /// packed id whose digits are the alphabet indices of the characters,
    /// lowest digit first; rejects any other length, and otherwise the first
    /// character outside the alphabet.
    pub fn parse(s: &str) -> (r: Result<SongId, SongIdParseError>)
        ensures
            match r {
                Ok(id) => id_chars(id.bytes) =~= s@,
                Err(SongIdParseError::InvalidLength(l)) => l == s@.len() && s@.len() != 32,
                Err(SongIdParseError::InvalidChar(c)) => s@.len() == 32 && exists|i: int|
                    0 <= i < 32 && s@[i] == c && spec_alphabet_index(c) is None,
            },
            r is Ok <==> (s@.len() == 32 && forall|i: int|
                0 <= i < 32 ==> spec_alphabet_index(s@[i]) is Some),
    {
        let len = s.unicode_len();
        if len != 32 {
            return Err(SongIdParseError::InvalidLength(len));
        }
        let mut bytes: u128 = 0;
        let mut i: usize = 0;
        proof {
            assert forall|j: int| 0 <= j < 32 implies nibble(0u128, j) == 0 by {
                lemma_nibble_of_zero((4 * j) as u128);
            }
        }
        while i < 32
            invariant
                i <= 32,
                s@.len() == 32,
                forall|j: int| 0 <= j < i ==> spec_alphabet_index(s@[j]) is Some,
                forall|j: int|
                    0 <= j < i ==> #[trigger] nibble(bytes, j) == spec_alphabet_index(
                        s@[j],
                    ).unwrap() as u128,
                forall|j: int| i <= j < 32 ==> nibble(bytes, j) == 0,
            decreases 32 - i,
        {
            let c = s.get_char(i);
            let pos: u8 = match alphabet_index(c) {
                Some(p) => p,
                None => {
                    return Err(SongIdParseError::InvalidChar(c));
                },
            };
            let ghost old_bytes = bytes;
            let shift: u32 = 4 * (i as u32);
            bytes = bytes | ((pos as u128) << shift);
            proof {
                let s_amt = (4 * (i as int)) as u128;
                assert(nibble(old_bytes, i as int) == 0);
                assert forall|j: int| 0 <= j < 32 implies #[trigger] nibble(bytes, j) == (if j
                    == i as int {
                    pos as u128
                } else {
                    nibble(old_bytes, j)
                }) by {
                    lemma_or_set(old_bytes, pos as u128, s_amt, (4 * j) as u128);
                }
            }
            i = i + 1;
        }
        proof {
            assert forall|j: int| 0 <= j < 32 implies id_chars(bytes)[j] == s@[j] by {
                lemma_alphabet_roundtrip(s@[j]);
                lemma_nibble_bound(bytes, (4 * j) as u128);
            }
        }
        Ok(SongId { bytes })
    }

    /// Writes the id back out as its 32-character string.
    pub fn to_string(&self) -> (r: String)
        ensures
            r@ =~= id_chars(self.bytes),
    {
        let mut out = String::new();
        let mut i: usize = 0;
        while i < 32
            invariant
                i <= 32,
                out@.len() == i,
                forall|j: int| 0 <= j < i ==> out@[j] == id_chars(self.bytes)[j],
            decreases 32 - i,
        {
            let shift: u32 = 4 * (i as u32);
            let digit: u128 = (self.bytes >> shift) & 0xf;
            proof {
                lemma_nibble_bound(self.bytes, (4 * (i as int)) as u128);
            }
            let c = alphabet_char(digit as u8);
            push_char(&mut out, c);
            i = i + 1;
        }
        out
    }
}

/// The digit value of a character of the id alphabet, or `None` for any other
/// character.
pub fn alphabet_index(c: char) -> (r: Option<u8>)
    ensures
        r == spec_alphabet_index(c),
        r matches Some(d) ==> d < 16,
{
    match c {
        '0' => Some(0),
        '1' => Some(1),
        '6' => Some(2),
        '8' => Some(3),
        '9' => Some(4),
        'D' => Some(5),
        'I' => Some(6),
        'O' => Some(7),
        'P' => Some(8),
        'Q' => Some(9),
        'b' => Some(10),
        'd' => Some(11),
        'i' => Some(12),
        'l' => Some(13),
        'o' => Some(14),
        'q' => Some(15),
        _ => None,
    }
}

/// The character standing for one 4-bit digit value of the id alphabet.
pub fn alphabet_char(d: u8) -> (c: char)
    requires
        d < 16,
    ensures
        c == spec_alphabet_char(d),
{
    match d {
        0 => '0',
        1 => '1',
        2 => '6',
        3 => '8',
        4 => '9',
        5 => 'D',
        6 => 'I',
        7 => 'O',
        8 => 'P',
        9 => 'Q',
        10 => 'b',
        11 => 'd',
        12 => 'i',
        13 => 'l',
        14 => 'o',
        _ => 'q',
    }
}

impl core::str::FromStr for SongId {
    type Err = SongIdParseError;

    fn from_str(s: &str) -> Result<SongId, SongIdParseError> {
        SongId::parse(s)
    }
}

} // verus!
