//! Interactive lookup over the canonical catalog: parsing a free-text query
//! into a title plus chart-and-level constraint, and resolving it against the
//! song list.

use crate::ddr_song::Chart;
use crate::text::run_start;
use crate::text::spec_is_space;
use crate::text::spec_trim;
use crate::text::trailing_ws_end;
use crate::text::trim;
use crate::text::is_space;
use crate::text::str_eq;
use crate::website_backends::skill_attack::SkillAttackIndex;
use crate::website_backends::skill_attack::spec_is_digit;
use vstd::prelude::*;

verus! {

/// Represents the different possibilities of parsing the search query,
/// either having only level information, chart information, or both.
#[derive(Debug, Copy, Clone, PartialEq, Eq, Structural)]
pub enum ChartAndLevel {
    /// The level of the song, from 1-19
    Level(u8),
    /// The chart of the song, like DSP or ESP
    Chart(Chart),
    /// both level and chart
    Both(Chart, u8),
}

/// What forcing doubles does to a constraint: a singles chart becomes its
/// doubles counterpart, a doubles chart stays, a bare level stays.
pub open spec fn spec_force_doubles(c: ChartAndLevel) -> ChartAndLevel {
    match c {
        ChartAndLevel::Level(l) => ChartAndLevel::Level(l),
        ChartAndLevel::Chart(ch) => ChartAndLevel::Chart(spec_doubles_chart(ch)),
        ChartAndLevel::Both(ch, l) => ChartAndLevel::Both(spec_doubles_chart(ch), l),
    }
}

/// The doubles counterpart of a chart.
pub open spec fn spec_doubles_chart(c: Chart) -> Chart {
    match c {
        Chart::GSP => Chart::BDP,
        Chart::BSP => Chart::BDP,
        Chart::DSP => Chart::DDP,
        Chart::ESP => Chart::EDP,
        Chart::CSP => Chart::CDP,
        _ => c,
    }
}

impl ChartAndLevel {
    /// Whether the constraint names a doubles chart.
    pub fn is_doubles_chart(&self) -> (r: bool)
        ensures
            r == match *self {
                ChartAndLevel::Chart(c) => c.slot() > 4,
                ChartAndLevel::Both(c, _) => c.slot() > 4,
                ChartAndLevel::Level(_) => false,
            },
    {
        match self {
            ChartAndLevel::Chart(c) => c.is_doubles(),
            ChartAndLevel::Both(c, _) => c.is_doubles(),
            ChartAndLevel::Level(_) => false,
        }
    }

    /// Replaces a singles chart with its doubles counterpart.
    pub fn force_doubles(&mut self)
        ensures
            *final(self) == spec_force_doubles(*old(self)),
    {
        let doubled = match *self {
            ChartAndLevel::Chart(c) => ChartAndLevel::Chart(doubles_chart(c)),
            ChartAndLevel::Both(c, l) => ChartAndLevel::Both(doubles_chart(c), l),
            ChartAndLevel::Level(l) => ChartAndLevel::Level(l),
        };
        *self = doubled;
    }
}

/// The doubles counterpart of a chart.
pub fn doubles_chart(c: Chart) -> (r: Chart)
    ensures
        r == spec_doubles_chart(c),
{
    match c {
        Chart::GSP | Chart::BSP => Chart::BDP,
        Chart::DSP => Chart::DDP,
        Chart::ESP => Chart::EDP,
        Chart::CSP => Chart::CDP,
        Chart::BDP => Chart::BDP,
        Chart::DDP => Chart::DDP,
        Chart::EDP => Chart::EDP,
        Chart::CDP => Chart::CDP,
    }
}

/// Internal type to help with parsing: the last query token read either as a
/// chart or as a level.
#[derive(Debug, Copy, Clone, PartialEq, Eq, Structural)]
pub enum DifficultyOrLevel {
    Difficulty(Chart),
    Level(u8),
}

/// The constraint a parsed token stands for.
pub open spec fn spec_dol_cal(d: DifficultyOrLevel) -> ChartAndLevel {
    match d {
        DifficultyOrLevel::Difficulty(c) => ChartAndLevel::Chart(c),
        DifficultyOrLevel::Level(l) => ChartAndLevel::Level(l),
    }
}

/// Whether every character is a decimal digit.
pub open spec fn all_digits(ds: Seq<char>) -> bool {
    forall|i: int| 0 <= i < ds.len() ==> spec_is_digit(#[trigger] ds[i])
}

/// The value of a digit sequence read in base ten, clipped at 20: enough to
/// decide whether it names a level between 1 and 19.
pub open spec fn level_value(ds: Seq<char>) -> int
    decreases ds.len(),
{
    if ds.len() == 0 {
        0
    } else {
        let p = level_value(ds.drop_last());
        let d = ds.last() as int - '0' as int;
        if p * 10 + d > 19 {
            20
        } else {
            p * 10 + d
        }
    }
}

/// The level a token names: a digit-only token whose value lies between 1
/// and 19.
pub open spec fn spec_parse_level(tok: Seq<char>) -> Option<u8> {
    if tok.len() > 0 && all_digits(tok) && 0 < level_value(tok) < 20 {
        Some(level_value(tok) as u8)
    } else {
        None
    }
}

/// Reads a level token.
pub fn parse_level(tok: &str) -> (r: Option<u8>)
    ensures
        r == spec_parse_level(tok@),
{
    let len = tok.unicode_len();
    if len == 0 {
        return None;
    }
    let mut v: u32 = 0;
    let mut i: usize = 0;
    while i < len
        invariant
            i <= len,
            len == tok@.len(),
            v as int == level_value(tok@.take(i as int)),
            v <= 20,
            forall|j: int| 0 <= j < i ==> spec_is_digit(#[trigger] tok@[j]),
        decreases len - i,
    {
        let c = tok.get_char(i);
        if !('0' <= c && c <= '9') {
            return None;
        }
        let d: u32 = (c as u32) - 48;
        proof {
            assert(tok@.take(i as int + 1).drop_last() =~= tok@.take(i as int));
            assert(tok@.take(i as int + 1).last() == tok@[i as int]);
        }
        v = if v * 10 + d > 19 {
            20
        } else {
            v * 10 + d
        };
        i = i + 1;
    }
    proof {
        assert(tok@.take(len as int) =~= tok@);
    }
    if 0 < v && v < 20 {
        Some(v as u8)
    } else {
        None
    }
}

/// The value of a digit sequence read in base ten, clipped just above the
/// largest secondary-service index.
pub open spec fn sa_index_value(ds: Seq<char>) -> int
    decreases ds.len(),
{
    if ds.len() == 0 {
        0
    } else {
        let p = sa_index_value(ds.drop_last());
        let d = ds.last() as int - '0' as int;
        if p * 10 + d > 65535 {
            65536
        } else {
            p * 10 + d
        }
    }
}

/// The secondary-service index a title names, when it is all digits and fits.
pub open spec fn spec_parse_sa_index(tok: Seq<char>) -> Option<SkillAttackIndex> {
    if tok.len() > 0 && all_digits(tok) && sa_index_value(tok) <= 65535 {
        Some(sa_index_value(tok) as u16)
    } else {
        None
    }
}

/// Reads a secondary-service index token.
pub fn parse_sa_index(tok: &str) -> (r: Option<SkillAttackIndex>)
    ensures
        r == spec_parse_sa_index(tok@),
{
    let len = tok.unicode_len();
    if len == 0 {
        return None;
    }
    let mut v: u32 = 0;
    let mut i: usize = 0;
    while i < len
        invariant
            i <= len,
            len == tok@.len(),
            v as int == sa_index_value(tok@.take(i as int)),
            v <= 65536,
            forall|j: int| 0 <= j < i ==> spec_is_digit(#[trigger] tok@[j]),
        decreases len - i,
    {
        let c = tok.get_char(i);
        if !('0' <= c && c <= '9') {
            return None;
        }
        let d: u32 = (c as u32) - 48;
        proof {
            assert(tok@.take(i as int + 1).drop_last() =~= tok@.take(i as int));
            assert(tok@.take(i as int + 1).last() == tok@[i as int]);
        }
        v = if v * 10 + d > 65535 {
            65536
        } else {
            v * 10 + d
        };
        i = i + 1;
    }
    proof {
        assert(tok@.take(len as int) =~= tok@);
    }
    if v <= 65535 {
        Some(v as u16)
    } else {
        None
    }
}

/// The chart or level the last query token names: the chart mnemonics in
/// their accepted spellings, else a level between 1 and 19.
pub open spec fn spec_parse_dol(tok: Seq<char>) -> Option<DifficultyOrLevel> {
    if tok == "gsp"@ || tok == "GSP"@ || tok == "Gsp"@ || tok == "bSP"@ {
        Some(DifficultyOrLevel::Difficulty(Chart::GSP))
    } else if tok == "bsp"@ || tok == "BSP"@ || tok == "Bsp"@ {
        Some(DifficultyOrLevel::Difficulty(Chart::BSP))
    } else if tok == "dsp"@ || tok == "DSP"@ || tok == "Dsp"@ {
        Some(DifficultyOrLevel::Difficulty(Chart::DSP))
    } else if tok == "esp"@ || tok == "ESP"@ || tok == "Esp"@ {
        Some(DifficultyOrLevel::Difficulty(Chart::ESP))
    } else if tok == "csp"@ || tok == "CSP"@ || tok == "Csp"@ {
        Some(DifficultyOrLevel::Difficulty(Chart::CSP))
    } else if tok == "bdp"@ || tok == "BDP"@ || tok == "Bdp"@ {
        Some(DifficultyOrLevel::Difficulty(Chart::BDP))
    } else if tok == "ddp"@ || tok == "DDP"@ || tok == "Ddp"@ {
        Some(DifficultyOrLevel::Difficulty(Chart::DDP))
    } else if tok == "edp"@ || tok == "EDP"@ || tok == "Edp"@ {
        Some(DifficultyOrLevel::Difficulty(Chart::EDP))
    } else if tok == "cdp"@ || tok == "CDP"@ || tok == "Cdp"@ {
        Some(DifficultyOrLevel::Difficulty(Chart::CDP))
    } else {
        match spec_parse_level(tok) {
            Some(l) => Some(DifficultyOrLevel::Level(l)),
            None => None,
        }
    }
}

/// Reads the last query token as a chart mnemonic or a level.
pub fn parse_difficulty_or_level(tok: &str) -> (r: Option<DifficultyOrLevel>)
    ensures
        r == spec_parse_dol(tok@),
{
    if str_eq(tok, "gsp") || str_eq(tok, "GSP") || str_eq(tok, "Gsp") || str_eq(tok, "bSP") {
        Some(DifficultyOrLevel::Difficulty(Chart::GSP))
    } else if str_eq(tok, "bsp") || str_eq(tok, "BSP") || str_eq(tok, "Bsp") {
        Some(DifficultyOrLevel::Difficulty(Chart::BSP))
    } else if str_eq(tok, "dsp") || str_eq(tok, "DSP") || str_eq(tok, "Dsp") {
        Some(DifficultyOrLevel::Difficulty(Chart::DSP))
    } else if str_eq(tok, "esp") || str_eq(tok, "ESP") || str_eq(tok, "Esp") {
        Some(DifficultyOrLevel::Difficulty(Chart::ESP))
    } else if str_eq(tok, "csp") || str_eq(tok, "CSP") || str_eq(tok, "Csp") {
        Some(DifficultyOrLevel::Difficulty(Chart::CSP))
    } else if str_eq(tok, "bdp") || str_eq(tok, "BDP") || str_eq(tok, "Bdp") {
        Some(DifficultyOrLevel::Difficulty(Chart::BDP))
    } else if str_eq(tok, "ddp") || str_eq(tok, "DDP") || str_eq(tok, "Ddp") {
        Some(DifficultyOrLevel::Difficulty(Chart::DDP))
    } else if str_eq(tok, "edp") || str_eq(tok, "EDP") || str_eq(tok, "Edp") {
        Some(DifficultyOrLevel::Difficulty(Chart::EDP))
    } else if str_eq(tok, "cdp") || str_eq(tok, "CDP") || str_eq(tok, "Cdp") {
        Some(DifficultyOrLevel::Difficulty(Chart::CDP))
    } else {
        match parse_level(tok) {
            Some(l) => Some(DifficultyOrLevel::Level(l)),
            None => None,
        }
    }
}

/// The query did not hold both a title and a trailing chart-or-level token.
#[derive(Debug, Copy, Clone, PartialEq, Eq, Structural)]
pub struct NotEnoughArguments;

/// What a well-formed query parses to: the trimmed title before the last
/// whitespace-separated token, and the constraint that token names, doubled
/// when doubles are forced. A query without at least two tokens, or whose
/// last token names no chart or level, parses to nothing.
pub open spec fn spec_query_parts(q: Seq<char>, force: bool) -> Option<(Seq<char>, ChartAndLevel)> {
    let e = trailing_ws_end(q);
    let st = run_start(q, e);
    let last_tok = q.subrange(st, e);
    if e > 0 && (exists|j: int| 0 <= j < st && !spec_is_space(#[trigger] q[j])) {
        match spec_parse_dol(last_tok) {
            Some(dol) => {
                let cal = spec_dol_cal(dol);
                Some(
                    (
                        spec_trim(q.take(st)),
                        if force {
                            spec_force_doubles(cal)
                        } else {
                            cal
                        },
                    ),
                )
            },
            None => None,
        }
    } else {
        None
    }
}

} // verus!

use crate::text::lemma_run_start_is;
use crate::text::lemma_trailing_ws_end_is;

verus! {

/// A parsed lookup query: a title to search for, or a bare secondary-service
/// index, each with the chart-and-level constraint of the trailing token.
#[derive(Debug, Clone, Copy)]
pub enum SearchQuery<'query> {
    ByTitle { song_title: &'query str, chart_and_level: ChartAndLevel, force_doubles: bool },
    BySkillAttackIndex {
        sa_index: SkillAttackIndex,
        chart_and_level: ChartAndLevel,
        force_doubles: bool,
    },
}

impl<'query> SearchQuery<'query> {
    /// Splits a free-text query into everything before its last
    /// whitespace-separated token — the title, trimmed — and that token read
    /// as a chart or level. A title that is itself a small number is taken as
    /// a secondary-service index lookup instead. Rejects a query without at
    /// least two tokens or whose last token names no chart or level.
    pub fn parse_query(query: &'query str, force_doubles: bool) -> (r: Result<
        Self,
        NotEnoughArguments,
    >)
        ensures
            r is Ok <==> spec_query_parts(query@, force_doubles) is Some,
            match r {
                Ok(sq) => match spec_query_parts(query@, force_doubles) {
                    Some(parts) => match sq {
                        SearchQuery::ByTitle { song_title, chart_and_level, force_doubles: fd } => {
                            &&& song_title@ == parts.0
                            &&& chart_and_level == parts.1
                            &&& fd == force_doubles
                            &&& spec_parse_sa_index(parts.0) is None
                        },
                        SearchQuery::BySkillAttackIndex {
                            sa_index,
                            chart_and_level,
                            force_doubles: fd,
                        } => {
                            &&& Some(sa_index) == spec_parse_sa_index(parts.0)
                            &&& chart_and_level == parts.1
                            &&& fd == force_doubles
                        },
                    },
                    None => false,
                },
                Err(_) => true,
            },
    {
        let len = query.unicode_len();
        let mut end: usize = len;
        while end > 0 && is_space(query.get_char(end - 1))
            invariant
                end <= len,
                len == query@.len(),
                forall|j: int| end <= j < len ==> spec_is_space(#[trigger] query@[j]),
            decreases end,
        {
            end = end - 1;
        }
        if end == 0 {
            proof {
                lemma_trailing_ws_end_is(query@, 0);
            }
            return Err(NotEnoughArguments);
        }
        proof {
            lemma_trailing_ws_end_is(query@, end as int);
        }
        let mut start: usize = end;
        while start > 0 && !is_space(query.get_char(start - 1))
            invariant
                start <= end,
                end <= len,
                len == query@.len(),
                forall|j: int| start <= j < end ==> !spec_is_space(#[trigger] query@[j]),
            decreases start,
        {
            start = start - 1;
        }
        proof {
            assert(start < end);
            lemma_run_start_is(query@, end as int, start as int);
        }
        let mut has_head = false;
        let mut h: usize = 0;
        while h < start
            invariant_except_break
                has_head == false,
            invariant
                h <= start,
                start <= len,
                len == query@.len(),
                forall|j: int| 0 <= j < h ==> spec_is_space(#[trigger] query@[j]),
                has_head ==> h < start && !spec_is_space(query@[h as int]),
            ensures
                has_head == exists|j: int| 0 <= j < start && !spec_is_space(#[trigger] query@[j]),
            decreases start - h,
        {
            if !is_space(query.get_char(h)) {
                has_head = true;
                break ;
            }
            h = h + 1;
        }
        if !has_head {
            return Err(NotEnoughArguments);
        }
        let last_tok = query.substring_char(start, end);
        let dol = match parse_difficulty_or_level(last_tok) {
            Some(d) => d,
            None => {
                return Err(NotEnoughArguments);
            },
        };
        let mut chart_and_level = match dol {
            DifficultyOrLevel::Difficulty(c) => ChartAndLevel::Chart(c),
            DifficultyOrLevel::Level(l) => ChartAndLevel::Level(l),
        };
        if force_doubles {
            chart_and_level.force_doubles();
        }
        let song_title = trim(query.substring_char(0, start));
        proof {
            assert(query@.subrange(0, start as int) =~= query@.take(start as int));
        }
        match parse_sa_index(song_title) {
            Some(sa_index) => Ok(
                SearchQuery::BySkillAttackIndex { sa_index, chart_and_level, force_doubles },
            ),
            None => Ok(SearchQuery::ByTitle { song_title, chart_and_level, force_doubles }),
        }
    }
}

} // verus!

use crate::ddr_song::DDRSong;
use crate::text::find_sub;
use crate::text::first_occ;
use crate::text::lemma_first_occ_none;
use crate::text::lemma_first_occ_some;
use crate::text::lower_of;
use crate::text::lowercase;
use crate::text::spec_tokens;
use crate::text::split_ws;
use crate::text::views_of;
use crate::website_backends::sanbai::Difficulties;

verus! {

/// The character sequences of a sequence of borrowed strings.
pub open spec fn str_views(v: Seq<&str>) -> Seq<Seq<char>> {
    v.map_values(|p: &str| p@)
}

/// What is left of one name part after a word is cut out of it at position
/// `c`: the trimmed text before the word and the trimmed text after it, each
/// kept only when non-empty.
pub open spec fn mid_parts(p: Seq<char>, c: int, wlen: int) -> Seq<Seq<char>> {
    let left = spec_trim(p.take(c));
    let right = spec_trim(p.skip(c + wlen));
    (if left.len() > 0 {
        seq![left]
    } else {
        Seq::<Seq<char>>::empty()
    }) + (if right.len() > 0 {
        seq![right]
    } else {
        Seq::<Seq<char>>::empty()
    })
}

/// Cutting one query word out of the name parts: the first part containing
/// the word loses its first occurrence of it, splitting into its trimmed
/// remainders; when no part contains the word the match fails.
pub open spec fn consume_word(parts: Seq<Seq<char>>, w: Seq<char>) -> Option<Seq<Seq<char>>>
    decreases parts.len(),
{
    if parts.len() == 0 {
        None
    } else {
        let c = first_occ(parts[0], w);
        if c >= 0 {
            Some(mid_parts(parts[0], c, w.len() as int) + parts.drop_first())
        } else {
            match consume_word(parts.drop_first(), w) {
                Some(rest) => Some(seq![parts[0]] + rest),
                None => None,
            }
        }
    }
}

/// Cutting every query word out in turn.
pub open spec fn consume_all(parts: Seq<Seq<char>>, words: Seq<Seq<char>>) -> Option<
    Seq<Seq<char>>,
>
    decreases words.len(),
{
    if words.len() == 0 {
        Some(parts)
    } else {
        match consume_word(parts, words[0]) {
            Some(p2) => consume_all(p2, words.drop_first()),
            None => None,
        }
    }
}

/// Whether a search name matches every query word, each word consuming a
/// disjoint piece of the name so one piece cannot satisfy two words.
pub open spec fn spec_fuzzy_matches(name: Seq<char>, words: Seq<Seq<char>>) -> bool {
    consume_all(seq![name], words) is Some
}

/// The word cut is pinned by where the word first occurs: no earlier part
/// holds it, and in the part that does it is cut at its first occurrence.
proof fn lemma_consume_word_at(parts: Seq<Seq<char>>, w: Seq<char>, i: int, c: int)
    requires
        0 <= i < parts.len(),
        forall|j: int| 0 <= j < i ==> first_occ(#[trigger] parts[j], w) == -1,
        first_occ(parts[i], w) == c,
        c >= 0,
    ensures
        consume_word(parts, w) == Some(
            parts.take(i) + mid_parts(parts[i], c, w.len() as int) + parts.skip(i + 1),
        ),
    decreases i,
{
    if i == 0 {
        assert(parts.take(0) + mid_parts(parts[0], c, w.len() as int) + parts.skip(1)
            =~= mid_parts(parts[0], c, w.len() as int) + parts.drop_first());
    } else {
        lemma_consume_word_at(parts.drop_first(), w, i - 1, c);
        assert(parts.drop_first()[i - 1] == parts[i]);
        assert(parts.drop_first().take(i - 1) =~= parts.take(i).drop_first());
        assert(seq![parts[0]] + (parts.drop_first().take(i - 1) + mid_parts(
            parts[i],
            c,
            w.len() as int,
        ) + parts.drop_first().skip(i)) =~= parts.take(i) + mid_parts(parts[i], c, w.len() as int)
            + parts.skip(i + 1));
    }
}

/// When no part holds the word, the cut fails.
proof fn lemma_consume_word_none(parts: Seq<Seq<char>>, w: Seq<char>)
    requires
        forall|j: int| 0 <= j < parts.len() ==> first_occ(#[trigger] parts[j], w) == -1,
    ensures
        consume_word(parts, w) is None,
    decreases parts.len(),
{
    if parts.len() == 0 {
    } else {
        lemma_consume_word_none(parts.drop_first(), w);
    }
}

/// Cuts one query word out of the name parts in place; reports whether any
/// part held the word.
fn consume_word_exec<'a>(parts: &mut Vec<&'a str>, w: &str) -> (found: bool)
    ensures
        match consume_word(str_views(old(parts)@), w@) {
            Some(p2) => found && str_views(final(parts)@) == p2,
            None => !found && final(parts)@ == old(parts)@,
        },
{
    let w_len = w.unicode_len();
    let mut i: usize = 0;
    while i < parts.len()
        invariant
            i <= parts@.len(),
            parts@ == old(parts)@,
            w_len == w@.len(),
            forall|j: int| 0 <= j < i ==> first_occ(#[trigger] str_views(parts@)[j], w@) == -1,
        decreases parts@.len() - i,
    {
        match find_sub(parts[i], w) {
            Some(c) => {
                proof {
                    lemma_first_occ_some(parts@[i as int]@, w@, c as int);
                }
                let p: &'a str = parts[i];
                let p_len = p.unicode_len();
                let left = trim(p.substring_char(0, c));
                let right = trim(p.substring_char(c + w_len, p_len));
                let ghost before = parts@;
                parts.remove(i);
                let right_empty = right.unicode_len() == 0;
                let left_empty = left.unicode_len() == 0;
                if !right_empty {
                    parts.insert(i, right);
                }
                if !left_empty {
                    parts.insert(i, left);
                }
                proof {
                    let bv = str_views(before);
                    assert(left@ == spec_trim(bv[i as int].take(c as int))) by {
                        assert(p@.subrange(0, c as int) =~= bv[i as int].take(c as int));
                    }
                    assert(right@ == spec_trim(bv[i as int].skip(c as int + w@.len() as int)))
                        by {
                        assert(p@.subrange(c as int + w@.len() as int, p@.len() as int)
                            =~= bv[i as int].skip(c as int + w@.len() as int));
                    }
                    lemma_consume_word_at(bv, w@, i as int, c as int);
                    assert(str_views(parts@) =~= bv.take(i as int) + mid_parts(
                        bv[i as int],
                        c as int,
                        w@.len() as int,
                    ) + bv.skip(i as int + 1));
                }
                return true;
            },
            None => {
                proof {
                    lemma_first_occ_none(parts@[i as int]@, w@);
                }
                i = i + 1;
            },
        }
    }
    proof {
        lemma_consume_word_none(str_views(parts@), w@);
    }
    false
}

/// Whether a search name matches every query word disjointly.
pub fn fuzzy_match_name(name: &str, words: &Vec<String>) -> (r: bool)
    ensures
        r == spec_fuzzy_matches(name@, views_of(words@)),
{
    let mut parts: Vec<&str> = Vec::new();
    parts.push(name);
    proof {
        assert(str_views(parts@) =~= seq![name@]);
        assert(views_of(words@).skip(0) =~= views_of(words@));
    }
    let mut k: usize = 0;
    while k < words.len()
        invariant
            k <= words@.len(),
            consume_all(seq![name@], views_of(words@)) == consume_all(
                str_views(parts@),
                views_of(words@).skip(k as int),
            ),
        decreases words@.len() - k,
    {
        let ghost before = str_views(parts@);
        let ok = consume_word_exec(&mut parts, words[k].as_str());
        proof {
            let all_words = views_of(words@);
            assert(all_words.skip(k as int)[0] == all_words[k as int]);
            assert(all_words.skip(k as int).drop_first() =~= all_words.skip(k as int + 1));
        }
        if !ok {
            return false;
        }
        k = k + 1;
    }
    proof {
        assert(views_of(words@).skip(words@.len() as int).len() == 0);
    }
    true
}

} // verus!

verus! {

/// The chart labels of the five singles slots.
pub open spec fn singles_chart_seq() -> Seq<Chart> {
    seq![Chart::GSP, Chart::BSP, Chart::DSP, Chart::ESP, Chart::CSP]
}

/// The chart labels of the four doubles slots.
pub open spec fn doubles_chart_seq() -> Seq<Chart> {
    seq![Chart::BDP, Chart::DDP, Chart::EDP, Chart::CDP]
}

/// The first chart-and-rating pair the constraint accepts: a bare level takes
/// the first slot rated exactly that level; a bare chart takes its own slot
/// if the song has it; both together demand the exact pair.
pub open spec fn spec_pick(charts: Seq<Chart>, levels: Seq<u8>, cal: ChartAndLevel) -> Option<
    (Chart, u8),
>
    decreases charts.len(),
{
    if charts.len() == 0 || levels.len() == 0 {
        None
    } else {
        let hit = match cal {
            ChartAndLevel::Level(lv) => levels[0] == lv,
            ChartAndLevel::Chart(ch) => charts[0] == ch && levels[0] != 0,
            ChartAndLevel::Both(ch, lv) => charts[0] == ch && levels[0] == lv,
        };
        if hit {
            Some((charts[0], levels[0]))
        } else {
            spec_pick(charts.drop_first(), levels.drop_first(), cal)
        }
    }
}

/// The chart and level a found song resolves to under the constraint,
/// searching the doubles slots when doubles are asked for and the singles
/// slots otherwise.
pub open spec fn spec_make_result(
    ratings: Difficulties,
    cal: ChartAndLevel,
    force: bool,
) -> Option<(Chart, u8)> {
    let doubles = force || match cal {
        ChartAndLevel::Chart(c) => c.slot() > 4,
        ChartAndLevel::Both(c, _) => c.slot() > 4,
        ChartAndLevel::Level(_) => false,
    };
    if doubles {
        spec_pick(doubles_chart_seq(), ratings.0@.skip(5), cal)
    } else {
        spec_pick(singles_chart_seq(), ratings.0@.take(5), cal)
    }
}

/// A song resolved by a search: the song and the chart and level the query's
/// constraint picked.
#[derive(Debug, Copy, Clone)]
pub struct SearchResult<'ddr_song> {
    pub song: &'ddr_song DDRSong,
    pub chart: Chart,
    pub level: u8,
}

impl<'ddr_song> SearchResult<'ddr_song> {
    /// Resolves the constraint against one song's rating table.
    pub fn new(
        song: &'ddr_song DDRSong,
        chart_and_level: ChartAndLevel,
        force_doubles: bool,
    ) -> (r: Option<Self>)
        ensures
            match r {
                Some(res) => *res.song == *song && Some((res.chart, res.level))
                    == spec_make_result(song.ratings, chart_and_level, force_doubles),
                None => spec_make_result(song.ratings, chart_and_level, force_doubles) is None,
            },
    {
        let doubles = force_doubles || chart_and_level.is_doubles_chart();
        if doubles {
            let levels = song.ratings.doubles_difficulties();
            let charts = [Chart::BDP, Chart::DDP, Chart::EDP, Chart::CDP];
            let ghost cs = doubles_chart_seq();
            let ghost ls = song.ratings.0@.skip(5);
            proof {
                assert(charts@ =~= cs);
                assert(levels@ =~= ls);
                assert(cs.skip(0) =~= cs);
                assert(ls.skip(0) =~= ls);
            }
            let mut i: usize = 0;
            while i < 4
                invariant
                    force_doubles || match chart_and_level {
                        ChartAndLevel::Chart(c) => c.slot() > 4,
                        ChartAndLevel::Both(c, _) => c.slot() > 4,
                        ChartAndLevel::Level(_) => false,
                    },
                    i <= 4,
                    cs == doubles_chart_seq(),
                    ls == song.ratings.0@.skip(5),
                    cs.len() == 4,
                    ls.len() == 4,
                    charts@ == cs,
                    levels@ == ls,
                    spec_pick(cs, ls, chart_and_level) == spec_pick(
                        cs.skip(i as int),
                        ls.skip(i as int),
                        chart_and_level,
                    ),
                decreases 4 - i,
            {
                let hit = match chart_and_level {
                    ChartAndLevel::Level(lv) => levels[i] == lv,
                    ChartAndLevel::Chart(ch) => charts[i] == ch && levels[i] != 0,
                    ChartAndLevel::Both(ch, lv) => charts[i] == ch && levels[i] == lv,
                };
                proof {
                    assert(cs.skip(i as int).len() == cs.len() - i);
                    assert(ls.skip(i as int).len() == ls.len() - i);
                    assert(cs.skip(i as int)[0] == cs[i as int]);
                    assert(ls.skip(i as int)[0] == ls[i as int]);
                    assert(cs.skip(i as int).drop_first() =~= cs.skip(i as int + 1));
                    assert(ls.skip(i as int).drop_first() =~= ls.skip(i as int + 1));
                }
                if hit {
                    proof {
                        assert(spec_pick(cs.skip(i as int), ls.skip(i as int), chart_and_level)
                            == Some((cs[i as int], ls[i as int])));
                        assert(spec_make_result(song.ratings, chart_and_level, force_doubles)
                            == spec_pick(cs, ls, chart_and_level));
                        assert(charts@[i as int] == cs[i as int]);
                        assert(levels@[i as int] == ls[i as int]);
                    }
                    return Some(SearchResult { song, chart: charts[i], level: levels[i] });
                }
                i = i + 1;
            }
            proof {
                assert(cs.skip(4).len() == 0);
            }
            None
        } else {
            let levels = song.ratings.single_difficulties();
            let charts = [Chart::GSP, Chart::BSP, Chart::DSP, Chart::ESP, Chart::CSP];
            let ghost cs = singles_chart_seq();
            let ghost ls = song.ratings.0@.take(5);
            proof {
                assert(charts@ =~= cs);
                assert(levels@ =~= ls);
                assert(cs.skip(0) =~= cs);
                assert(ls.skip(0) =~= ls);
            }
            let mut i: usize = 0;
            while i < 5
                invariant
                    !(force_doubles || match chart_and_level {
                        ChartAndLevel::Chart(c) => c.slot() > 4,
                        ChartAndLevel::Both(c, _) => c.slot() > 4,
                        ChartAndLevel::Level(_) => false,
                    }),
                    i <= 5,
                    cs == singles_chart_seq(),
                    ls == song.ratings.0@.take(5),
                    cs.len() == 5,
                    ls.len() == 5,
                    charts@ == cs,
                    levels@ == ls,
                    spec_pick(cs, ls, chart_and_level) == spec_pick(
                        cs.skip(i as int),
                        ls.skip(i as int),
                        chart_and_level,
                    ),
                decreases 5 - i,
            {
                let hit = match chart_and_level {
                    ChartAndLevel::Level(lv) => levels[i] == lv,
                    ChartAndLevel::Chart(ch) => charts[i] == ch && levels[i] != 0,
                    ChartAndLevel::Both(ch, lv) => charts[i] == ch && levels[i] == lv,
                };
                proof {
                    assert(cs.skip(i as int).len() == cs.len() - i);
                    assert(ls.skip(i as int).len() == ls.len() - i);
                    assert(cs.skip(i as int)[0] == cs[i as int]);
                    assert(ls.skip(i as int)[0] == ls[i as int]);
                    assert(cs.skip(i as int).drop_first() =~= cs.skip(i as int + 1));
                    assert(ls.skip(i as int).drop_first() =~= ls.skip(i as int + 1));
                }
                if hit {
                    proof {
                        assert(spec_pick(cs.skip(i as int), ls.skip(i as int), chart_and_level)
                            == Some((cs[i as int], ls[i as int])));
                        assert(spec_make_result(song.ratings, chart_and_level, force_doubles)
                            == spec_pick(cs, ls, chart_and_level));
                        assert(charts@[i as int] == cs[i as int]);
                        assert(levels@[i as int] == ls[i as int]);
                    }
                    return Some(SearchResult { song, chart: charts[i], level: levels[i] });
                }
                i = i + 1;
            }
            proof {
                assert(cs.skip(5).len() == 0);
            }
            None
        }
    }
}

} // verus!

verus! {

/// Whether a song passes the query's filters: a challenge constraint demands
/// a challenge chart (and a non-challenge constraint the opposite), and a
/// level constraint demands a chart rated exactly that level on the side —
/// singles or doubles — the query asks for.
pub open spec fn passes_filters(song: DDRSong, cal: ChartAndLevel, force: bool) -> bool {
    let challenge_ok = match cal {
        ChartAndLevel::Level(_) => true,
        ChartAndLevel::Chart(c) => if c == Chart::CSP || c == Chart::CDP {
            song.ratings.0@[4] > 0
        } else {
            song.ratings.0@[0] > 0
        },
        ChartAndLevel::Both(c, _) => if c == Chart::CSP || c == Chart::CDP {
            song.ratings.0@[4] > 0
        } else {
            song.ratings.0@[0] > 0
        },
    };
    let doubles = force || match cal {
        ChartAndLevel::Chart(c) => c.slot() > 4,
        ChartAndLevel::Both(c, _) => c.slot() > 4,
        ChartAndLevel::Level(_) => false,
    };
    let level_ok = match cal {
        ChartAndLevel::Level(l) => if doubles {
            exists|i: int| 5 <= i < 9 && song.ratings.0@[i] == l
        } else {
            exists|i: int| 0 <= i < 5 && song.ratings.0@[i] == l
        },
        ChartAndLevel::Both(_, l) => if doubles {
            exists|i: int| 5 <= i < 9 && song.ratings.0@[i] == l
        } else {
            exists|i: int| 0 <= i < 5 && song.ratings.0@[i] == l
        },
        ChartAndLevel::Chart(_) => true,
    };
    challenge_ok && level_ok
}

/// Whether a song passes the query's filters.
pub fn song_passes(song: &DDRSong, cal: ChartAndLevel, force: bool) -> (r: bool)
    ensures
        r == passes_filters(*song, cal, force),
{
    let challenge_ok = match cal {
        ChartAndLevel::Level(_) => true,
        ChartAndLevel::Chart(c) => if c.is_challenge() || matches!(c, Chart::CDP) {
            song.ratings.has_challenge_chart()
        } else {
            song.ratings.has_non_challenge_charts()
        },
        ChartAndLevel::Both(c, _) => if c.is_challenge() || matches!(c, Chart::CDP) {
            song.ratings.has_challenge_chart()
        } else {
            song.ratings.has_non_challenge_charts()
        },
    };
    let doubles = force || cal.is_doubles_chart();
    let level_ok = match cal {
        ChartAndLevel::Level(l) => if doubles {
            song.ratings.contains_doubles(l)
        } else {
            song.ratings.contains_single(l)
        },
        ChartAndLevel::Both(_, l) => if doubles {
            song.ratings.contains_doubles(l)
        } else {
            song.ratings.contains_single(l)
        },
        ChartAndLevel::Chart(_) => true,
    };
    challenge_ok && level_ok
}

/// Whether some search name of the song is exactly the lowercased query.
pub open spec fn has_exact_name(song: DDRSong, q: Seq<char>) -> bool {
    exists|k: int| 0 <= k < song.search_names@.len() && (#[trigger] song.search_names@[k])@ == q
}

/// Whether some search name of the song matches every query word disjointly.
pub open spec fn has_fuzzy_name(song: DDRSong, words: Seq<Seq<char>>) -> bool {
    exists|k: int|
        0 <= k < song.search_names@.len() && spec_fuzzy_matches(
            (#[trigger] song.search_names@[k])@,
            words,
        )
}

/// Whether some search name is exactly the query.
pub fn song_has_exact(song: &DDRSong, q: &str) -> (r: bool)
    ensures
        r == has_exact_name(*song, q@),
{
    let mut k: usize = 0;
    while k < song.search_names.len()
        invariant
            k <= song.search_names@.len(),
            forall|j: int| 0 <= j < k ==> (#[trigger] song.search_names@[j])@ != q@,
        decreases song.search_names@.len() - k,
    {
        if str_eq(song.search_names[k].as_str(), q) {
            return true;
        }
        k = k + 1;
    }
    false
}

/// Whether some search name matches every query word disjointly.
pub fn song_has_fuzzy(song: &DDRSong, words: &Vec<String>) -> (r: bool)
    ensures
        r == has_fuzzy_name(*song, views_of(words@)),
{
    let mut k: usize = 0;
    while k < song.search_names.len()
        invariant
            k <= song.search_names@.len(),
            forall|j: int|
                0 <= j < k ==> !spec_fuzzy_matches(
                    (#[trigger] song.search_names@[j])@,
                    views_of(words@),
                ),
        decreases song.search_names@.len() - k,
    {
        if fuzzy_match_name(song.search_names[k].as_str(), words) {
            return true;
        }
        k = k + 1;
    }
    false
}

/// The position of the first song that passes the filters and has an exact
/// name match, or -1.
pub open spec fn first_exact_idx(
    songs: Seq<DDRSong>,
    cal: ChartAndLevel,
    force: bool,
    q: Seq<char>,
) -> int
    decreases songs.len(),
{
    if songs.len() == 0 {
        -1
    } else if passes_filters(songs[0], cal, force) && has_exact_name(songs[0], q) {
        0
    } else if first_exact_idx(songs.drop_first(), cal, force, q) < 0 {
        -1
    } else {
        first_exact_idx(songs.drop_first(), cal, force, q) + 1
    }
}

/// The position of the first song that passes the filters and has a fuzzy
/// name match, or -1.
pub open spec fn first_fuzzy_idx(
    songs: Seq<DDRSong>,
    cal: ChartAndLevel,
    force: bool,
    words: Seq<Seq<char>>,
) -> int
    decreases songs.len(),
{
    if songs.len() == 0 {
        -1
    } else if passes_filters(songs[0], cal, force) && has_fuzzy_name(songs[0], words) {
        0
    } else if first_fuzzy_idx(songs.drop_first(), cal, force, words) < 0 {
        -1
    } else {
        first_fuzzy_idx(songs.drop_first(), cal, force, words) + 1
    }
}

/// The first exact hit is pinned by the songs: none before it qualifies.
proof fn lemma_first_exact_is(
    songs: Seq<DDRSong>,
    cal: ChartAndLevel,
    force: bool,
    q: Seq<char>,
    k: int,
)
    requires
        0 <= k <= songs.len(),
        forall|j: int|
            0 <= j < k ==> !(passes_filters(#[trigger] songs[j], cal, force) && has_exact_name(
                songs[j],
                q,
            )),
        k < songs.len() ==> passes_filters(songs[k], cal, force) && has_exact_name(songs[k], q),
    ensures
        k < songs.len() ==> first_exact_idx(songs, cal, force, q) == k,
        k == songs.len() ==> first_exact_idx(songs, cal, force, q) == -1,
    decreases k, songs.len(),
{
    if k == 0 {
    } else {
        lemma_first_exact_is(songs.drop_first(), cal, force, q, k - 1);
    }
}

/// The first fuzzy hit is pinned by the songs: none before it qualifies.
proof fn lemma_first_fuzzy_is(
    songs: Seq<DDRSong>,
    cal: ChartAndLevel,
    force: bool,
    words: Seq<Seq<char>>,
    k: int,
)
    requires
        0 <= k <= songs.len(),
        forall|j: int|
            0 <= j < k ==> !(passes_filters(#[trigger] songs[j], cal, force) && has_fuzzy_name(
                songs[j],
                words,
            )),
        k < songs.len() ==> passes_filters(songs[k], cal, force) && has_fuzzy_name(
            songs[k],
            words,
        ),
    ensures
        k < songs.len() ==> first_fuzzy_idx(songs, cal, force, words) == k,
        k == songs.len() ==> first_fuzzy_idx(songs, cal, force, words) == -1,
    decreases k, songs.len(),
{
    if k == 0 {
    } else {
        lemma_first_fuzzy_is(songs.drop_first(), cal, force, words, k - 1);
    }
}

/// The song a title query settles on: the first passing song with an exact
/// name match; only when no song matches exactly, the first passing song with
/// a fuzzy match.
pub open spec fn chosen_idx(
    songs: Seq<DDRSong>,
    cal: ChartAndLevel,
    force: bool,
    q: Seq<char>,
    words: Seq<Seq<char>>,
) -> int {
    if first_exact_idx(songs, cal, force, q) >= 0 {
        first_exact_idx(songs, cal, force, q)
    } else {
        first_fuzzy_idx(songs, cal, force, words)
    }
}

/// What an index query must resolve to: the first song linked to the index,
/// resolved through the constraint, or nothing when there is no such song or
/// the constraint cannot resolve it.
pub open spec fn sa_outcome<'a>(
    songs: Seq<DDRSong>,
    sa_index: SkillAttackIndex,
    cal: ChartAndLevel,
    force: bool,
    r: Option<SearchResult<'a>>,
) -> bool {
    match r {
        Some(res) => exists|i: int|
            #[trigger] first_sa_match(songs, sa_index, i) && *res.song == songs[i] && Some(
                (res.chart, res.level),
            ) == spec_make_result(songs[i].ratings, cal, force),
        None => forall|i: int|
            #[trigger] first_sa_match(songs, sa_index, i) ==> spec_make_result(
                songs[i].ratings,
                cal,
                force,
            ) is None,
    }
}

/// The first song linked to the given secondary index, at position i.
pub open spec fn first_sa_match(songs: Seq<DDRSong>, idx: SkillAttackIndex, i: int) -> bool {
    &&& 0 <= i < songs.len()
    &&& songs[i].skill_attack_index == Some(idx)
    &&& forall|j: int| 0 <= j < i ==> (#[trigger] songs[j]).skill_attack_index != Some(idx)
}

impl<'query> SearchQuery<'query> {
    /// Resolves the query against the song list. A title query lowercases the
    /// title, filters the songs by the chart-and-level constraint, and takes
    /// the first filtered song one of whose search names equals the query —
    /// or, when none does, the first filtered song one of whose names
    /// contains every query word disjointly. An index query takes the first
    /// song linked to that secondary index. The chosen song resolves to a
    /// chart and level through the constraint; a chosen song the constraint
    /// cannot resolve yields nothing.
    #[verifier::rlimit(60)]
    pub fn search<'ddr_song>(&self, song_list: &'ddr_song [DDRSong]) -> (r: Option<
        SearchResult<'ddr_song>,
    >)
        ensures
            (*self matches SearchQuery::ByTitle { song_title, chart_and_level, force_doubles }
                ==> {
                let q = lower_of(song_title@);
                let words = spec_tokens(q);
                let pick = chosen_idx(song_list@, chart_and_level, force_doubles, q, words);
                match r {
                    Some(res) => pick >= 0 && *res.song == song_list@[pick] && Some(
                        (res.chart, res.level),
                    ) == spec_make_result(
                        song_list@[pick].ratings,
                        chart_and_level,
                        force_doubles,
                    ),
                    None => pick < 0 || spec_make_result(
                        song_list@[pick].ratings,
                        chart_and_level,
                        force_doubles,
                    ) is None,
                }
            }),
            (*self matches SearchQuery::BySkillAttackIndex {
                sa_index,
                chart_and_level,
                force_doubles,
            } ==> sa_outcome(song_list@, sa_index, chart_and_level, force_doubles, r)),
    {
        match *self {
            SearchQuery::ByTitle { song_title, chart_and_level, force_doubles } => {
                let query = lowercase(song_title);
                let words = split_ws(query.as_str());
                let mut candidate: Option<&'ddr_song DDRSong> = None;
                let ghost mut cand_idx: int = -1;
                let mut i: usize = 0;
                while i < song_list.len()
                    invariant
                        *self == (SearchQuery::ByTitle {
                            song_title,
                            chart_and_level,
                            force_doubles,
                        }),
                        i <= song_list@.len(),
                        query@ == lower_of(song_title@),
                        views_of(words@) == spec_tokens(lower_of(song_title@)),
                        forall|j: int|
                            0 <= j < i ==> !(passes_filters(
                                #[trigger] song_list@[j],
                                chart_and_level,
                                force_doubles,
                            ) && has_exact_name(song_list@[j], lower_of(song_title@))),
                        match candidate {
                            None => forall|j: int|
                                0 <= j < i ==> !(passes_filters(
                                    #[trigger] song_list@[j],
                                    chart_and_level,
                                    force_doubles,
                                ) && has_fuzzy_name(
                                    song_list@[j],
                                    spec_tokens(lower_of(song_title@)),
                                )),
                            Some(cs) => {
                                &&& 0 <= cand_idx < i
                                &&& passes_filters(
                                    song_list@[cand_idx],
                                    chart_and_level,
                                    force_doubles,
                                )
                                &&& has_fuzzy_name(
                                    song_list@[cand_idx],
                                    spec_tokens(lower_of(song_title@)),
                                )
                                &&& *cs == song_list@[cand_idx]
                                &&& forall|j: int|
                                    0 <= j < cand_idx ==> !(passes_filters(
                                        #[trigger] song_list@[j],
                                        chart_and_level,
                                        force_doubles,
                                    ) && has_fuzzy_name(
                                        song_list@[j],
                                        spec_tokens(lower_of(song_title@)),
                                    ))
                            },
                        },
                    decreases song_list@.len() - i,
                {
                    let song = &song_list[i];
                    if song_passes(song, chart_and_level, force_doubles) {
                        if song_has_exact(song, query.as_str()) {
                            proof {
                                lemma_first_exact_is(
                                    song_list@,
                                    chart_and_level,
                                    force_doubles,
                                    lower_of(song_title@),
                                    i as int,
                                );
                                assert(first_exact_idx(
                                    song_list@,
                                    chart_and_level,
                                    force_doubles,
                                    lower_of(song_title@),
                                ) == i as int);
                                assert(chosen_idx(
                                    song_list@,
                                    chart_and_level,
                                    force_doubles,
                                    lower_of(song_title@),
                                    spec_tokens(lower_of(song_title@)),
                                ) == i as int);
                            }
                            let out = SearchResult::new(song, chart_and_level, force_doubles);
                            proof {
                                let q = lower_of(song_title@);
                                let w = spec_tokens(q);
                                let pick = chosen_idx(
                                    song_list@,
                                    chart_and_level,
                                    force_doubles,
                                    q,
                                    w,
                                );
                                assert(pick == i as int);
                                match out {
                                    Some(res) => {
                                        assert(*res.song == song_list@[pick]);
                                        assert(Some((res.chart, res.level)) == spec_make_result(
                                            song_list@[pick].ratings,
                                            chart_and_level,
                                            force_doubles,
                                        ));
                                    },
                                    None => {
                                        assert(spec_make_result(
                                            song_list@[pick].ratings,
                                            chart_and_level,
                                            force_doubles,
                                        ) is None);
                                    },
                                }
                            }
                            return out;
                        }
                        if candidate.is_none() && song_has_fuzzy(song, &words) {
                            candidate = Some(song);
                            proof {
                                cand_idx = i as int;
                            }
                        }
                    }
                    i = i + 1;
                }
                proof {
                    lemma_first_exact_is(
                        song_list@,
                        chart_and_level,
                        force_doubles,
                        lower_of(song_title@),
                        song_list@.len() as int,
                    );
                }
                match candidate {
                    Some(song) => {
                        proof {
                            lemma_first_fuzzy_is(
                                song_list@,
                                chart_and_level,
                                force_doubles,
                                spec_tokens(lower_of(song_title@)),
                                cand_idx,
                            );
                        }
                        SearchResult::new(song, chart_and_level, force_doubles)
                    },
                    None => {
                        proof {
                            lemma_first_fuzzy_is(
                                song_list@,
                                chart_and_level,
                                force_doubles,
                                spec_tokens(lower_of(song_title@)),
                                song_list@.len() as int,
                            );
                        }
                        None
                    },
                }
            },
            SearchQuery::BySkillAttackIndex { sa_index, chart_and_level, force_doubles } => {
                let mut i: usize = 0;
                while i < song_list.len()
                    invariant
                        *self == (SearchQuery::BySkillAttackIndex {
                            sa_index,
                            chart_and_level,
                            force_doubles,
                        }),
                        i <= song_list@.len(),
                        forall|j: int|
                            0 <= j < i ==> (#[trigger] song_list@[j]).skill_attack_index != Some(
                                sa_index,
                            ),
                    decreases song_list@.len() - i,
                {
                    let song = &song_list[i];
                    let hit = match song.skill_attack_index {
                        Some(x) => x == sa_index,
                        None => false,
                    };
                    if hit {
                        proof {
                            assert(first_sa_match(song_list@, sa_index, i as int));
                        }
                        let out = SearchResult::new(song, chart_and_level, force_doubles);
                        proof {
                            assert forall|j: int| #[trigger] first_sa_match(
                                song_list@,
                                sa_index,
                                j,
                            ) implies j == i as int by {
                                if j < i as int {
                                    assert(song_list@[j].skill_attack_index != Some(sa_index));
                                } else if j > i as int {
                                    assert(song_list@[i as int].skill_attack_index == Some(
                                        sa_index,
                                    ));
                                }
                            }
                            match out {
                                Some(res) => {
                                    assert(first_sa_match(song_list@, sa_index, i as int)
                                        && *res.song == song_list@[i as int] && Some(
                                        (res.chart, res.level),
                                    ) == spec_make_result(
                                        song_list@[i as int].ratings,
                                        chart_and_level,
                                        force_doubles,
                                    ));
                                },
                                None => {
                                    assert forall|j: int| #[trigger] first_sa_match(
                                        song_list@,
                                        sa_index,
                                        j,
                                    ) implies spec_make_result(
                                        song_list@[j].ratings,
                                        chart_and_level,
                                        force_doubles,
                                    ) is None by {
                                        assert(j == i as int);
                                    }
                                },
                            }
                            assert(sa_outcome(
                                song_list@,
                                sa_index,
                                chart_and_level,
                                force_doubles,
                                out,
                            ));
                        }
                        return out;
                    }
                    i = i + 1;
                }
                proof {
                    assert forall|i: int|
                        !(#[trigger] first_sa_match(song_list@, sa_index, i)) by {}
                    assert(sa_outcome(
                        song_list@,
                        sa_index,
                        chart_and_level,
                        force_doubles,
                        None::<SearchResult<'ddr_song>>,
                    ));
                }
                None
            },
        }
    }
}

} // verus!
