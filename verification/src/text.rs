//! Character-level text helpers: appending to strings, case folding, and the
//! lexicographic order used to keep the catalog sorted.

use vstd::prelude::*;

verus! {

/// Relies on String::push: appends exactly the one character.
#[verifier::external_body]
pub(crate) fn push_char(s: &mut String, c: char)
    ensures
        final(s)@ == old(s)@ + seq![c],
{
    s.push(c);
}

/// What str::to_lowercase returns for a given character sequence; the result
/// depends on the characters alone.
pub uninterp spec fn lower_of(s: Seq<char>) -> Seq<char>;

/// Relies on str::to_lowercase: the result is a function of the characters
/// alone, and an empty string stays empty.
#[verifier::external_body]
pub(crate) fn lowercase(s: &str) -> (r: String)
    ensures
        r@ == lower_of(s@),
        s@.len() == 0 ==> r@.len() == 0,
{
    s.to_lowercase()
}

/// Strict lexicographic order on character sequences, comparing scalar
/// values position by position; a proper prefix comes first.
pub open spec fn seq_lt(a: Seq<char>, b: Seq<char>) -> bool
    decreases a.len(),
{
    if b.len() == 0 {
        false
    } else if a.len() == 0 {
        true
    } else if (a[0] as int) < (b[0] as int) {
        true
    } else if (a[0] as int) > (b[0] as int) {
        false
    } else {
        seq_lt(a.drop_first(), b.drop_first())
    }
}

/// Non-strict lexicographic order on character sequences.
pub open spec fn seq_le(a: Seq<char>, b: Seq<char>) -> bool {
    a == b || seq_lt(a, b)
}

/// Two sequences that agree on a prefix and then diverge — either because the
/// first ends or because the first differing character is smaller — are in
/// strict lexicographic order.
pub proof fn lemma_prefix_lt(a: Seq<char>, b: Seq<char>, i: int)
    requires
        0 <= i <= a.len(),
        i <= b.len(),
        a.take(i) =~= b.take(i),
        (i == a.len() && i < b.len()) || (i < a.len() && i < b.len() && (a[i] as int) < (
        b[i] as int)),
    ensures
        seq_lt(a, b),
    decreases i,
{
    if i == 0 {
    } else {
        assert(a.take(i)[0] == a[0]);
        assert(b.take(i)[0] == b[0]);
        assert(a.drop_first().take(i - 1) =~= b.drop_first().take(i - 1)) by {
            assert forall|j: int| 0 <= j < i - 1 implies #[trigger] a.drop_first().take(i - 1)[j]
                == b.drop_first().take(i - 1)[j] by {
                assert(a.take(i)[j + 1] == b.take(i)[j + 1]);
            }
        }
        lemma_prefix_lt(a.drop_first(), b.drop_first(), i - 1);
    }
}

/// The strict lexicographic order is asymmetric and irreflexive.
pub proof fn lemma_lt_asym(a: Seq<char>, b: Seq<char>)
    requires
        seq_lt(a, b),
    ensures
        !seq_lt(b, a),
        a != b,
    decreases a.len(),
{
    if b.len() == 0 || a.len() == 0 {
    } else if (a[0] as int) < (b[0] as int) {
        assert(a[0] != b[0]);
    } else {
        lemma_lt_asym(a.drop_first(), b.drop_first());
        assert(a != b) by {
            if a == b {
                assert(a.drop_first() =~= b.drop_first());
            }
        }
    }
}

/// The lexicographic order relates every pair of sequences one way or the
/// other.
pub proof fn lemma_seq_le_total(a: Seq<char>, b: Seq<char>)
    ensures
        seq_le(a, b) || seq_le(b, a),
    decreases a.len(),
{
    if b.len() == 0 {
        if a.len() == 0 {
            assert(a =~= b);
        }
    } else if a.len() == 0 {
    } else if (a[0] as int) < (b[0] as int) || (a[0] as int) > (b[0] as int) {
    } else {
        lemma_seq_le_total(a.drop_first(), b.drop_first());
        if a.drop_first() == b.drop_first() {
            assert(a[0] == b[0]) by {
                assert(a[0] as int == b[0] as int);
            }
            assert(a.len() == b.len()) by {
                assert(a.drop_first().len() == b.drop_first().len());
            }
            assert(a =~= b) by {
                assert forall|j: int| 0 <= j < a.len() implies a[j] == b[j] by {
                    if j > 0 {
                        assert(a.drop_first()[j - 1] == b.drop_first()[j - 1]);
                        assert(a.drop_first()[j - 1] == a[j]);
                        assert(b.drop_first()[j - 1] == b[j]);
                    }
                }
            }
        }
    }
}

/// The strict lexicographic order is transitive.
pub proof fn lemma_seq_lt_trans(a: Seq<char>, b: Seq<char>, c: Seq<char>)
    requires
        seq_lt(a, b),
        seq_lt(b, c),
    ensures
        seq_lt(a, c),
    decreases a.len(),
{
    if c.len() == 0 || a.len() == 0 {
    } else {
        if (a[0] as int) < (c[0] as int) {
        } else {
            lemma_seq_lt_trans(a.drop_first(), b.drop_first(), c.drop_first());
        }
    }
}

/// The non-strict lexicographic order is transitive.
pub proof fn lemma_seq_le_trans(a: Seq<char>, b: Seq<char>, c: Seq<char>)
    requires
        seq_le(a, b),
        seq_le(b, c),
    ensures
        seq_le(a, c),
{
    if a == b || b == c {
    } else {
        lemma_seq_lt_trans(a, b, c);
    }
}

/// Compares two strings in the lexicographic order of their characters.
pub fn str_le(a: &str, b: &str) -> (r: bool)
    ensures
        r == seq_le(a@, b@),
{
    let a_len = a.unicode_len();
    let b_len = b.unicode_len();
    let mut i: usize = 0;
    while i < a_len && i < b_len
        invariant
            i <= a_len,
            i <= b_len,
            a_len == a@.len(),
            b_len == b@.len(),
            a@.take(i as int) =~= b@.take(i as int),
        decreases a_len - i,
    {
        let ca = a.get_char(i);
        let cb = b.get_char(i);
        if (ca as u32) < (cb as u32) {
            proof {
                lemma_prefix_lt(a@, b@, i as int);
            }
            return true;
        }
        if (ca as u32) > (cb as u32) {
            proof {
                lemma_prefix_lt(b@, a@, i as int);
                lemma_lt_asym(b@, a@);
            }
            return false;
        }
        proof {
            assert(a@.take(i as int + 1) =~= b@.take(i as int + 1));
        }
        i = i + 1;
    }
    if a_len == b_len {
        proof {
            assert(i == a_len);
            assert(a@ =~= b@) by {
                assert forall|j: int| 0 <= j < a@.len() implies a@[j] == b@[j] by {
                    assert(a@.take(i as int)[j] == b@.take(i as int)[j]);
                }
            }
        }
        true
    } else if i == a_len {
        proof {
            lemma_prefix_lt(a@, b@, i as int);
        }
        true
    } else {
        proof {
            lemma_prefix_lt(b@, a@, i as int);
            lemma_lt_asym(b@, a@);
        }
        false
    }
}

} // verus!

verus! {

/// The fixed set of characters stripped as whitespace before titles are
/// compared: the ASCII blanks plus the no-break and ideographic spaces.
pub open spec fn spec_is_space(c: char) -> bool {
    c == ' ' || c == '\t' || c == '\n' || c == '\r' || c == '\u{00a0}' || c == '\u{3000}'
}

/// Whether the character counts as whitespace for title normalization.
pub fn is_space(c: char) -> (r: bool)
    ensures
        r == spec_is_space(c),
{
    c == ' ' || c == '\t' || c == '\n' || c == '\r' || c == '\u{00a0}' || c == '\u{3000}'
}

/// The fixed fold applied to one character of a title: full-width ASCII
/// variants fold to their ASCII form, the known smart quotes and diacritic
/// variants fold to their plain form, and the single ellipsis glyph expands
/// to three literal periods. Everything else stays as it is.
pub open spec fn spec_fold_char(c: char) -> Seq<char> {
    if 0xff01 <= c as int && c as int <= 0xff5e {
        seq![((c as int - 0xfee0) as u8) as char]
    } else if c == '\u{201c}' || c == '\u{201d}' {
        seq!['"']
    } else if c == '\u{2019}' {
        seq!['\'']
    } else if c == '\u{00e3}' || c == '\u{0101}' {
        seq!['a']
    } else if c == '\u{2026}' {
        seq!['.', '.', '.']
    } else {
        seq![c]
    }
}

/// Applies the fixed fold to one character, appending the folded form.
fn push_folded(out: &mut String, c: char)
    ensures
        final(out)@ == old(out)@ + spec_fold_char(c),
{
    let v = c as u32;
    if 0xff01 <= v && v <= 0xff5e {
        push_char(out, (v - 0xfee0) as u8 as char);
    } else if c == '\u{201c}' || c == '\u{201d}' {
        push_char(out, '"');
    } else if c == '\u{2019}' {
        push_char(out, '\'');
    } else if c == '\u{00e3}' || c == '\u{0101}' {
        push_char(out, 'a');
    } else if c == '\u{2026}' {
        push_char(out, '.');
        push_char(out, '.');
        push_char(out, '.');
    } else {
        push_char(out, c);
    }
}

/// A title after normalization: whitespace stripped and every character
/// passed through the fixed fold, in order.
pub open spec fn spec_normalize(s: Seq<char>) -> Seq<char>
    decreases s.len(),
{
    if s.len() == 0 {
        Seq::empty()
    } else {
        spec_normalize(s.drop_last()) + if spec_is_space(s.last()) {
            Seq::empty()
        } else {
            spec_fold_char(s.last())
        }
    }
}

/// Normalizes a song title so that the slight, known irregularities in how
/// the two services spell a name are ignored when titles are compared.
pub fn normalize_title(s: &str) -> (r: String)
    ensures
        r@ == spec_normalize(s@),
{
    let len = s.unicode_len();
    let mut out = String::new();
    let mut i: usize = 0;
    while i < len
        invariant
            i <= len,
            len == s@.len(),
            out@ == spec_normalize(s@.take(i as int)),
        decreases len - i,
    {
        let c = s.get_char(i);
        if !is_space(c) {
            push_folded(&mut out, c);
        }
        proof {
            assert(s@.take(i as int + 1).drop_last() =~= s@.take(i as int));
            assert(s@.take(i as int + 1).last() == s@[i as int]);
        }
        i = i + 1;
    }
    proof {
        assert(s@.take(len as int) =~= s@);
    }
    out
}

} // verus!

verus! {

/// Whether the pattern occurs in `s` starting at position `i`.
pub open spec fn occurs_at(s: Seq<char>, pat: Seq<char>, i: int) -> bool {
    0 <= i && i + pat.len() <= s.len() && s.subrange(i, i + pat.len()) == pat
}

/// Whether the pattern occurs at the given position, by direct comparison.
pub fn match_at(s: &str, pat: &str, i: usize, s_len: usize, pat_len: usize) -> (r: bool)
    requires
        s_len == s@.len(),
        pat_len == pat@.len(),
        i + pat_len <= s_len,
    ensures
        r == occurs_at(s@, pat@, i as int),
{
    let mut k: usize = 0;
    while k < pat_len
        invariant
            k <= pat_len,
            s_len == s@.len(),
            pat_len == pat@.len(),
            i + pat_len <= s_len,
            forall|j: int| 0 <= j < k ==> s@[i + j] == pat@[j],
        decreases pat_len - k,
    {
        if s.get_char(i + k) != pat.get_char(k) {
            proof {
                assert(s@.subrange(i as int, i + pat@.len())[k as int] == s@[i + k]);
            }
            return false;
        }
        k = k + 1;
    }
    proof {
        assert(s@.subrange(i as int, i + pat@.len()) =~= pat@);
    }
    true
}

/// The first position at which the pattern occurs in `s`, if it occurs at
/// all, counted in characters.
pub fn find_sub(s: &str, pat: &str) -> (r: Option<usize>)
    ensures
        match r {
            Some(i) => occurs_at(s@, pat@, i as int) && forall|j: int|
                0 <= j < i ==> !occurs_at(s@, pat@, j),
            None => forall|j: int| !occurs_at(s@, pat@, j),
        },
{
    let n = s.unicode_len();
    let m = pat.unicode_len();
    if m > n {
        return None;
    }
    if m == 0 {
        proof {
            assert(s@.subrange(0, 0) =~= pat@);
        }
        return Some(0);
    }
    let mut i: usize = 0;
    while i <= n - m
        invariant
            1 <= m <= n,
            n == s@.len(),
            m == pat@.len(),
            i <= n - m + 1,
            forall|j: int| 0 <= j < i ==> !occurs_at(s@, pat@, j),
        decreases n - i,
    {
        if match_at(s, pat, i, n, m) {
            return Some(i);
        }
        i = i + 1;
    }
    None
}

/// The number of leading whitespace characters.
pub open spec fn leading_ws(s: Seq<char>) -> int
    decreases s.len(),
{
    if s.len() == 0 {
        0
    } else if !spec_is_space(s[0]) {
        0
    } else {
        1 + leading_ws(s.drop_first())
    }
}

/// One past the last non-whitespace character; 0 when the whole sequence is
/// whitespace.
pub open spec fn trailing_ws_end(s: Seq<char>) -> int
    decreases s.len(),
{
    if s.len() == 0 {
        0
    } else if !spec_is_space(s.last()) {
        s.len() as int
    } else {
        trailing_ws_end(s.drop_last())
    }
}

/// The sequence with leading and trailing whitespace removed.
pub open spec fn spec_trim(s: Seq<char>) -> Seq<char> {
    if leading_ws(s) < trailing_ws_end(s) {
        s.subrange(leading_ws(s), trailing_ws_end(s))
    } else {
        Seq::empty()
    }
}

/// A count of leading whitespace is pinned by the characters: everything
/// before it is whitespace and the character at it, if any, is not.
pub proof fn lemma_leading_ws_is(s: Seq<char>, k: int)
    requires
        0 <= k <= s.len(),
        forall|j: int| 0 <= j < k ==> spec_is_space(s[j]),
        k < s.len() ==> !spec_is_space(s[k]),
    ensures
        leading_ws(s) == k,
    decreases k,
{
    if k == 0 {
    } else {
        assert(spec_is_space(s[0]));
        lemma_leading_ws_is(s.drop_first(), k - 1);
    }
}

/// The end of the last token is pinned by the characters: everything from it
/// on is whitespace and the character before it, if any, is not.
pub proof fn lemma_trailing_ws_end_is(s: Seq<char>, k: int)
    requires
        0 <= k <= s.len(),
        forall|j: int| k <= j < s.len() ==> spec_is_space(s[j]),
        k > 0 ==> !spec_is_space(s[k - 1]),
    ensures
        trailing_ws_end(s) == k,
    decreases s.len(),
{
    if s.len() == 0 {
    } else if k == s.len() {
    } else {
        assert(spec_is_space(s.last()));
        lemma_trailing_ws_end_is(s.drop_last(), k);
    }
}

/// The start of the whitespace-free run that ends just before position `b`.
pub open spec fn run_start(s: Seq<char>, b: int) -> int
    decreases b,
{
    if b <= 0 {
        0
    } else if spec_is_space(s[b - 1]) {
        b
    } else {
        run_start(s, b - 1)
    }
}

/// A run start is pinned by the characters: the run itself is free of
/// whitespace and the character before it, if any, is whitespace.
pub proof fn lemma_run_start_is(s: Seq<char>, b: int, k: int)
    requires
        0 <= k <= b <= s.len(),
        forall|j: int| k <= j < b ==> !spec_is_space(s[j]),
        k > 0 ==> spec_is_space(s[k - 1]),
        k < b,
    ensures
        run_start(s, b) == k,
    decreases b - k,
{
    if k == b - 1 {
        assert(run_start(s, b) == run_start(s, b - 1));
        if k <= 0 {
        } else {
            assert(spec_is_space(s[k - 1]));
            assert(run_start(s, k) == k);
        }
    } else {
        lemma_run_start_is(s, b - 1, k);
    }
}

/// Removes leading and trailing whitespace, returning a borrowed slice of the
/// input.
pub fn trim<'a>(s: &'a str) -> (r: &'a str)
    ensures
        r@ == spec_trim(s@),
{
    let len = s.unicode_len();
    let mut start: usize = 0;
    while start < len && is_space(s.get_char(start))
        invariant
            start <= len,
            len == s@.len(),
            forall|j: int| 0 <= j < start ==> spec_is_space(s@[j]),
        decreases len - start,
    {
        start = start + 1;
    }
    proof {
        lemma_leading_ws_is(s@, start as int);
    }
    if start == len {
        proof {
            lemma_trailing_ws_end_is(s@, 0);
        }
        return s.substring_char(0, 0);
    }
    let mut end: usize = len;
    while end > start && is_space(s.get_char(end - 1))
        invariant
            start <= end <= len,
            len == s@.len(),
            forall|j: int| end <= j < len ==> spec_is_space(s@[j]),
        decreases end,
    {
        end = end - 1;
    }
    proof {
        assert(!spec_is_space(s@[start as int]));
        assert(end > start);
        lemma_trailing_ws_end_is(s@, end as int);
    }
    s.substring_char(start, end)
}

} // verus!

verus! {

/// The position of the first occurrence of the separator, or -1 when the
/// separator does not occur.
pub open spec fn first_sep(s: Seq<char>, sep: char) -> int
    decreases s.len(),
{
    if s.len() == 0 {
        -1
    } else if s[0] == sep {
        0
    } else if first_sep(s.drop_first(), sep) < 0 {
        -1
    } else {
        first_sep(s.drop_first(), sep) + 1
    }
}

/// The first separator position is pinned by the characters: none occurs
/// before it, and it holds one unless the sequence is exhausted.
pub proof fn lemma_first_sep_is(s: Seq<char>, sep: char, k: int)
    requires
        0 <= k <= s.len(),
        forall|j: int| 0 <= j < k ==> s[j] != sep,
        k < s.len() ==> s[k] == sep,
    ensures
        k < s.len() ==> first_sep(s, sep) == k,
        k == s.len() ==> first_sep(s, sep) == -1,
    decreases k, s.len(),
{
    if k == 0 {
        if s.len() > 0 && k == s.len() {
        }
    } else {
        assert(s[0] != sep);
        lemma_first_sep_is(s.drop_first(), sep, k - 1);
    }
}

/// The segments of `s` between occurrences of the separator, in order,
/// keeping empty segments, as str::split does.
pub open spec fn spec_split(s: Seq<char>, sep: char) -> Seq<Seq<char>>
    decreases s.len(),
{
    let i = first_sep(s, sep);
    if i < 0 || i >= s.len() {
        seq![s]
    } else {
        seq![s.take(i)] + spec_split(s.skip(i + 1), sep)
    }
}

/// The character sequences of a sequence of strings.
pub open spec fn views_of(v: Seq<String>) -> Seq<Seq<char>> {
    v.map_values(|x: String| x@)
}

/// Splits on the separator character, keeping empty segments.
pub fn split_on(s: &str, sep: char) -> (parts: Vec<String>)
    ensures
        views_of(parts@) == spec_split(s@, sep),
{
    let len = s.unicode_len();
    let mut parts: Vec<String> = Vec::new();
    let mut seg_start: usize = 0;
    let mut i: usize = 0;
    proof {
        assert(s@.skip(0) =~= s@);
        assert(views_of(parts@) + spec_split(s@.skip(0), sep) =~~= spec_split(s@, sep));
    }
    while i < len
        invariant
            seg_start <= i <= len,
            len == s@.len(),
            forall|j: int| seg_start <= j < i ==> s@[j] != sep,
            views_of(parts@) + spec_split(s@.skip(seg_start as int), sep) =~~= spec_split(
                s@,
                sep,
            ),
        decreases len - i,
    {
        let c = s.get_char(i);
        if c == sep {
            let piece = s.substring_char(seg_start, i).to_owned();
            proof {
                let rest = s@.skip(seg_start as int);
                let idx = i - seg_start as int;
                assert forall|j: int| 0 <= j < idx implies rest[j] != sep by {
                    assert(rest[j] == s@[seg_start + j]);
                }
                assert(rest[idx] == s@[i as int]);
                lemma_first_sep_is(rest, sep, idx);
                assert(rest.take(idx) =~= s@.subrange(seg_start as int, i as int));
                assert(rest.skip(idx + 1) =~= s@.skip(i as int + 1));
            }
            let ghost old_parts = parts@;
            parts.push(piece);
            proof {
                assert(views_of(parts@) =~~= views_of(old_parts) + seq![piece@]);
                assert(views_of(parts@) + spec_split(s@.skip(i as int + 1), sep) =~~= spec_split(
                    s@,
                    sep,
                ));
            }
            seg_start = i + 1;
        }
        i = i + 1;
    }
    let piece = s.substring_char(seg_start, len).to_owned();
    proof {
        let rest = s@.skip(seg_start as int);
        assert forall|j: int| 0 <= j < rest.len() implies rest[j] != sep by {
            assert(rest[j] == s@[seg_start + j]);
        }
        lemma_first_sep_is(rest, sep, rest.len() as int);
        assert(piece@ == s@.subrange(seg_start as int, len as int));
        assert(rest =~= s@.subrange(seg_start as int, len as int));
    }
    let ghost old_parts = parts@;
    parts.push(piece);
    proof {
        assert(views_of(parts@) =~~= views_of(old_parts) + seq![piece@]);
        assert(views_of(parts@) =~~= spec_split(s@, sep));
    }
    parts
}

/// The length of the whitespace-free run at the head of the sequence.
pub open spec fn token_end(s: Seq<char>) -> int
    decreases s.len(),
{
    if s.len() == 0 {
        0
    } else if spec_is_space(s[0]) {
        0
    } else {
        1 + token_end(s.drop_first())
    }
}

/// The head run length is pinned by the characters.
pub proof fn lemma_token_end_is(s: Seq<char>, k: int)
    requires
        0 <= k <= s.len(),
        forall|j: int| 0 <= j < k ==> !spec_is_space(s[j]),
        k < s.len() ==> spec_is_space(s[k]),
    ensures
        token_end(s) == k,
    decreases k,
{
    if k == 0 {
    } else {
        lemma_token_end_is(s.drop_first(), k - 1);
    }
}

/// The whitespace-separated tokens of the sequence, in order, without empty
/// tokens, as str::split_whitespace produces them.
pub open spec fn spec_tokens(s: Seq<char>) -> Seq<Seq<char>>
    decreases s.len(),
{
    if s.len() == 0 {
        Seq::empty()
    } else if spec_is_space(s[0]) {
        spec_tokens(s.drop_first())
    } else {
        let e = token_end(s);
        if 1 <= e && e <= s.len() {
            seq![s.take(e)] + spec_tokens(s.skip(e))
        } else {
            seq![s]
        }
    }
}

/// Splits into whitespace-separated tokens.
pub fn split_ws(s: &str) -> (parts: Vec<String>)
    ensures
        views_of(parts@) == spec_tokens(s@),
{
    let len = s.unicode_len();
    let mut parts: Vec<String> = Vec::new();
    let mut i: usize = 0;
    proof {
        assert(s@.skip(0) =~= s@);
        assert(views_of(parts@) + spec_tokens(s@.skip(0)) =~~= spec_tokens(s@));
    }
    while i < len
        invariant
            i <= len,
            len == s@.len(),
            views_of(parts@) + spec_tokens(s@.skip(i as int)) =~~= spec_tokens(s@),
        decreases len - i,
    {
        let c = s.get_char(i);
        if is_space(c) {
            proof {
                let rest = s@.skip(i as int);
                assert(rest[0] == s@[i as int]);
                assert(rest.drop_first() =~= s@.skip(i as int + 1));
            }
            i = i + 1;
        } else {
            let mut j: usize = i + 1;
            while j < len && !is_space(s.get_char(j))
                invariant
                    i < j <= len,
                    len == s@.len(),
                    forall|k: int| i <= k < j ==> !spec_is_space(s@[k]),
                    !spec_is_space(s@[i as int]),
                decreases len - j,
            {
                j = j + 1;
            }
            let piece = s.substring_char(i, j).to_owned();
            proof {
                let rest = s@.skip(i as int);
                let e = j - i as int;
                assert forall|k: int| 0 <= k < e implies !spec_is_space(rest[k]) by {
                    assert(rest[k] == s@[i + k]);
                }
                if e < rest.len() {
                    assert(rest[e] == s@[j as int]);
                }
                lemma_token_end_is(rest, e);
                assert(rest[0] == s@[i as int]);
                assert(rest.take(e) =~= s@.subrange(i as int, j as int));
                assert(rest.skip(e) =~= s@.skip(j as int));
            }
            let ghost old_parts = parts@;
            parts.push(piece);
            proof {
                assert(views_of(parts@) =~~= views_of(old_parts) + seq![piece@]);
                assert(views_of(parts@) + spec_tokens(s@.skip(j as int)) =~~= spec_tokens(s@));
            }
            i = j;
        }
    }
    proof {
        assert(s@.skip(len as int).len() == 0);
        assert(views_of(parts@) =~~= spec_tokens(s@));
    }
    parts
}

} // verus!

verus! {

/// Whether two strings hold the same characters.
pub fn str_eq(a: &str, b: &str) -> (r: bool)
    ensures
        r == (a@ == b@),
{
    let a_len = a.unicode_len();
    let b_len = b.unicode_len();
    if a_len != b_len {
        return false;
    }
    let mut i: usize = 0;
    while i < a_len
        invariant
            i <= a_len,
            a_len == a@.len(),
            a_len == b@.len(),
            forall|j: int| 0 <= j < i ==> a@[j] == b@[j],
        decreases a_len - i,
    {
        if a.get_char(i) != b.get_char(i) {
            return false;
        }
        i = i + 1;
    }
    proof {
        assert(a@ =~= b@);
    }
    true
}

} // verus!

verus! {

/// The position of the first occurrence of the pattern, or -1 when it does
/// not occur.
pub open spec fn first_occ(s: Seq<char>, pat: Seq<char>) -> int
    decreases s.len(),
{
    if pat.len() > s.len() {
        -1
    } else if s.len() == 0 {
        0
    } else if s.take(pat.len() as int) == pat {
        0
    } else if first_occ(s.drop_first(), pat) < 0 {
        -1
    } else {
        first_occ(s.drop_first(), pat) + 1
    }
}

/// The first occurrence is pinned by the characters: the pattern occurs
/// there and nowhere earlier.
pub proof fn lemma_first_occ_some(s: Seq<char>, pat: Seq<char>, k: int)
    requires
        occurs_at(s, pat, k),
        forall|j: int| 0 <= j < k ==> !occurs_at(s, pat, j),
    ensures
        first_occ(s, pat) == k,
    decreases k,
{
    if k == 0 {
        assert(s.take(pat.len() as int) =~= s.subrange(0, pat.len() as int));
    } else {
        assert(!occurs_at(s, pat, 0));
        if pat.len() == 0 {
            assert(s.subrange(0, 0) =~= pat);
            assert(occurs_at(s, pat, 0));
        }
        assert(s.take(pat.len() as int) != pat) by {
            if s.take(pat.len() as int) == pat {
                assert(s.subrange(0, pat.len() as int) =~= s.take(pat.len() as int));
            }
        }
        assert(occurs_at(s.drop_first(), pat, k - 1)) by {
            assert(s.drop_first().subrange(k - 1, k - 1 + pat.len()) =~= s.subrange(
                k,
                k + pat.len(),
            )) by {
                assert forall|m: int|
                    0 <= m < pat.len() implies #[trigger] s.drop_first().subrange(
                    k - 1,
                    k - 1 + pat.len(),
                )[m] == s.subrange(k, k + pat.len())[m] by {
                    assert(s.drop_first()[k - 1 + m] == s[k + m]);
                }
            }
        }
        assert forall|j: int| 0 <= j < k - 1 implies !occurs_at(s.drop_first(), pat, j) by {
            if occurs_at(s.drop_first(), pat, j) {
                assert(s.subrange(j + 1, j + 1 + pat.len()) =~= s.drop_first().subrange(
                    j,
                    j + pat.len(),
                )) by {
                    assert forall|m: int|
                        0 <= m < pat.len() implies #[trigger] s.subrange(j + 1, j + 1 + pat.len())[m]
                        == s.drop_first().subrange(j, j + pat.len())[m] by {
                        assert(s.drop_first()[j + m] == s[j + 1 + m]);
                    }
                }
                assert(occurs_at(s, pat, j + 1));
            }
        }
        lemma_first_occ_some(s.drop_first(), pat, k - 1);
    }
}

/// When the pattern occurs nowhere, there is no first occurrence.
pub proof fn lemma_first_occ_none(s: Seq<char>, pat: Seq<char>)
    requires
        forall|j: int| !occurs_at(s, pat, j),
    ensures
        first_occ(s, pat) == -1,
    decreases s.len(),
{
    if pat.len() > s.len() {
    } else {
        if pat.len() == 0 {
            assert(s.subrange(0, 0) =~= pat);
            assert(occurs_at(s, pat, 0));
        }
        assert(s.take(pat.len() as int) != pat) by {
            if s.take(pat.len() as int) == pat {
                assert(s.subrange(0, pat.len() as int) =~= s.take(pat.len() as int));
                assert(occurs_at(s, pat, 0));
            }
        }
        assert forall|j: int| !occurs_at(s.drop_first(), pat, j) by {
            if occurs_at(s.drop_first(), pat, j) {
                assert(s.subrange(j + 1, j + 1 + pat.len()) =~= s.drop_first().subrange(
                    j,
                    j + pat.len(),
                )) by {
                    assert forall|m: int|
                        0 <= m < pat.len() implies #[trigger] s.subrange(j + 1, j + 1 + pat.len())[m]
                        == s.drop_first().subrange(j, j + pat.len())[m] by {
                        assert(s.drop_first()[j + m] == s[j + 1 + m]);
                    }
                }
                assert(occurs_at(s, pat, j + 1));
            }
        }
        if s.len() > 0 {
            lemma_first_occ_none(s.drop_first(), pat);
        }
    }
}

} // verus!
