//! Character classes and low-level scanning helpers used by the message
//! grammar: word characters, lowercase checks, line splitting primitives.

use vstd::prelude::*;

verus! {

/// A word character: ASCII letter, digit, or underscore.
pub open spec fn is_word_char(c: char) -> bool {
    ('a' <= c && c <= 'z') || ('A' <= c && c <= 'Z') || ('0' <= c && c <= '9') || c == '_'
}

/// An uppercase ASCII letter.
pub open spec fn is_upper_char(c: char) -> bool {
    'A' <= c && c <= 'Z'
}

/// A lowercase ASCII letter.
pub open spec fn is_lower_alpha(c: char) -> bool {
    'a' <= c && c <= 'z'
}

/// A whitespace character, as the footer-key rule understands it.
pub open spec fn is_ws_char(c: char) -> bool {
    c == ' ' || c == '\t' || c == '\r' || c == '\n'
}

/// True when the sequence holds no uppercase ASCII letter.
pub open spec fn has_no_upper(s: Seq<char>) -> bool {
    forall|i: int| 0 <= i < s.len() ==> !is_upper_char(#[trigger] s[i])
}

/// True when every character of the sequence is a word character.
pub open spec fn all_word_chars(s: Seq<char>) -> bool {
    forall|i: int| 0 <= i < s.len() ==> is_word_char(#[trigger] s[i])
}

/// True when the sequence holds no whitespace character.
pub open spec fn has_no_ws(s: Seq<char>) -> bool {
    forall|i: int| 0 <= i < s.len() ==> !is_ws_char(#[trigger] s[i])
}

pub fn char_is_word(c: char) -> (r: bool)
    ensures
        r == is_word_char(c),
{
    ('a' <= c && c <= 'z') || ('A' <= c && c <= 'Z') || ('0' <= c && c <= '9') || c == '_'
}

pub fn char_is_upper(c: char) -> (r: bool)
    ensures
        r == is_upper_char(c),
{
    'A' <= c && c <= 'Z'
}

pub fn char_is_lower_alpha(c: char) -> (r: bool)
    ensures
        r == is_lower_alpha(c),
{
    'a' <= c && c <= 'z'
}

pub fn char_is_ws(c: char) -> (r: bool)
    ensures
        r == is_ws_char(c),
{
    c == ' ' || c == '\t' || c == '\r' || c == '\n'
}

/// First index at or after `from` whose character is not a word character
/// (the length when word characters run to the end).
pub fn scan_word_chars(s: &str, from: usize) -> (j: usize)
    requires
        from <= s@.len(),
    ensures
        from <= j <= s@.len(),
        forall|k: int| from <= k < j ==> is_word_char(#[trigger] s@[k]),
        j < s@.len() ==> !is_word_char(s@[j as int]),
{
    let len = s.unicode_len();
    let mut j = from;
    while j < len
        invariant
            from <= j <= len,
            len == s@.len(),
            forall|k: int| from <= k < j ==> is_word_char(#[trigger] s@[k]),
        decreases len - j,
    {
        if !char_is_word(s.get_char(j)) {
            return j;
        }
        j = j + 1;
    }
    j
}

/// Whether any character in `s@[from..to]` is an uppercase ASCII letter.
pub fn range_has_upper(s: &str, from: usize, to: usize) -> (r: bool)
    requires
        from <= to <= s@.len(),
    ensures
        r == !has_no_upper(s@.subrange(from as int, to as int)),
{
    let mut j = from;
    while j < to
        invariant
            from <= j <= to <= s@.len(),
            forall|k: int| from <= k < j ==> !is_upper_char(#[trigger] s@[k]),
        decreases to - j,
    {
        if char_is_upper(s.get_char(j)) {
            assert(s@.subrange(from as int, to as int)[j - from] == s@[j as int]);
            return true;
        }
        j = j + 1;
    }
    assert forall|i: int| 0 <= i < to - from implies !is_upper_char(
        #[trigger] s@.subrange(from as int, to as int)[i],
    ) by {
        assert(s@.subrange(from as int, to as int)[i] == s@[from + i]);
    }
    false
}

/// First position `i >= from` where `s@[i] == ':'` and `s@[i + 1] == ' '`
/// (`None` when no such pair follows).
pub fn find_colon_space(s: &str, from: usize) -> (r: Option<usize>)
    requires
        from <= s@.len(),
    ensures
        match r {
            Some(i) => from <= i && i + 2 <= s@.len() && s@[i as int] == ':' && s@[i + 1] == ' '
                && forall|k: int|
                    from <= k < i ==> !(s@[k] == ':' && #[trigger] s@[k + 1] == ' '),
            None => forall|k: int|
                from <= k && k + 2 <= s@.len() ==> !(s@[k] == ':' && #[trigger] s@[k + 1] == ' '),
        },
{
    let len = s.unicode_len();
    if len < 2 {
        return None;
    }
    let mut j = from;
    while j <= len - 2
        invariant
            from <= j,
            j <= len,
            2 <= len == s@.len(),
            forall|k: int| from <= k < j ==> !(s@[k] == ':' && #[trigger] s@[k + 1] == ' '),
        decreases len - j,
    {
        if s.get_char(j) == ':' && s.get_char(j + 1) == ' ' {
            return Some(j);
        }
        j = j + 1;
    }
    None
}

/// The views of a sequence of strings.
pub open spec fn seq_views(v: Seq<String>) -> Seq<Seq<char>> {
    v.map_values(|s: String| s@)
}

/// A sequence with its leading whitespace removed.
pub open spec fn trim_start_ws(s: Seq<char>) -> Seq<char>
    decreases s.len(),
{
    if s.len() > 0 && is_ws_char(s[0]) {
        trim_start_ws(s.skip(1))
    } else {
        s
    }
}

/// A sequence with its trailing whitespace removed.
pub open spec fn trim_end_ws(s: Seq<char>) -> Seq<char>
    decreases s.len(),
{
    if s.len() > 0 && is_ws_char(s.last()) {
        trim_end_ws(s.drop_last())
    } else {
        s
    }
}

/// A sequence with whitespace removed at both ends.
pub open spec fn spec_trim_ws(s: Seq<char>) -> Seq<char> {
    trim_end_ws(trim_start_ws(s))
}

proof fn lemma_trim_start_at(s: Seq<char>, a: int)
    requires
        0 <= a <= s.len(),
        forall|k: int| 0 <= k < a ==> is_ws_char(#[trigger] s[k]),
        a < s.len() ==> !is_ws_char(s[a]),
    ensures
        trim_start_ws(s) == s.skip(a),
    decreases a,
{
    if a == 0 {
        assert(s.skip(0) =~= s);
    } else {
        let d = s.skip(1);
        assert(forall|k: int| 0 <= k < a - 1 ==> d[k] == s[k + 1]);
        if a - 1 < d.len() {
            assert(d[a - 1] == s[a]);
        }
        lemma_trim_start_at(d, a - 1);
        assert(d.skip(a - 1) =~= s.skip(a));
    }
}

proof fn lemma_trim_end_at(s: Seq<char>, b: int)
    requires
        0 <= b <= s.len(),
        forall|k: int| b <= k < s.len() ==> is_ws_char(#[trigger] s[k]),
        b > 0 ==> !is_ws_char(s[b - 1]),
    ensures
        trim_end_ws(s) == s.take(b),
    decreases s.len(),
{
    if s.len() > b {
        let d = s.drop_last();
        assert forall|k: int| b <= k < d.len() implies is_ws_char(#[trigger] d[k]) by {
            assert(d[k] == s[k]);
        }
        if b > 0 {
            assert(d[b - 1] == s[b - 1]);
        }
        lemma_trim_end_at(d, b);
        assert(d.take(b) =~= s.take(b));
    } else {
        if s.len() > 0 {
            assert(!is_ws_char(s.last()));
        }
        assert(s.take(b) =~= s);
    }
}

/// Copies `s` with whitespace removed at both ends.
pub fn trim_ws(s: &str) -> (r: String)
    ensures
        r@ == spec_trim_ws(s@),
{
    let len = s.unicode_len();
    let mut a: usize = 0;
    loop
        invariant_except_break
            a <= len,
            len == s@.len(),
            forall|k: int| 0 <= k < a ==> is_ws_char(#[trigger] s@[k]),
        ensures
            a <= len,
            len == s@.len(),
            forall|k: int| 0 <= k < a ==> is_ws_char(#[trigger] s@[k]),
            a < len ==> !is_ws_char(s@[a as int]),
        decreases len - a,
    {
        if a == len {
            break;
        }
        if !char_is_ws(s.get_char(a)) {
            break;
        }
        a = a + 1;
    }
    let mut b: usize = len;
    loop
        invariant_except_break
            a <= b <= len,
            len == s@.len(),
            a < len ==> !is_ws_char(s@[a as int]),
            forall|k: int| b <= k < len ==> is_ws_char(#[trigger] s@[k]),
        ensures
            a <= b <= len,
            len == s@.len(),
            forall|k: int| b <= k < len ==> is_ws_char(#[trigger] s@[k]),
            b > a ==> !is_ws_char(s@[b - 1]),
        decreases b,
    {
        if b == a {
            break;
        }
        if !char_is_ws(s.get_char(b - 1)) {
            break;
        }
        b = b - 1;
    }
    proof {
        lemma_trim_start_at(s@, a as int);
        let t = s@.skip(a as int);
        assert(forall|k: int| 0 <= k < t.len() ==> t[k] == s@[a + k]);
        if b > a {
            assert(t[b - a - 1] == s@[b - 1]);
        }
        lemma_trim_end_at(t, b - a);
        assert(t.take(b - a) =~= s@.subrange(a as int, b as int));
    }
    string_of_range(s, a, b)
}

proof fn lemma_trim_start_no_lead(s: Seq<char>)
    ensures
        trim_start_ws(s).len() > 0 ==> !is_ws_char(trim_start_ws(s)[0]),
    decreases s.len(),
{
    if s.len() > 0 && is_ws_char(s[0]) {
        lemma_trim_start_no_lead(s.skip(1));
    }
}

proof fn lemma_trim_end_no_trail(s: Seq<char>)
    ensures
        trim_end_ws(s).len() > 0 ==> !is_ws_char(trim_end_ws(s).last()),
    decreases s.len(),
{
    if s.len() > 0 && is_ws_char(s.last()) {
        lemma_trim_end_no_trail(s.drop_last());
    }
}

proof fn lemma_trim_end_keeps_first(s: Seq<char>)
    ensures
        trim_end_ws(s).len() > 0 ==> trim_end_ws(s)[0] == s[0],
    decreases s.len(),
{
    if s.len() > 0 && is_ws_char(s.last()) {
        lemma_trim_end_keeps_first(s.drop_last());
    }
}

/// Trimming is idempotent: a trimmed sequence trims to itself.
pub proof fn lemma_trim_ws_idempotent(s: Seq<char>)
    ensures
        spec_trim_ws(spec_trim_ws(s)) == spec_trim_ws(s),
{
    let u = trim_start_ws(s);
    let t = trim_end_ws(u);
    lemma_trim_start_no_lead(s);
    lemma_trim_end_no_trail(u);
    lemma_trim_end_keeps_first(u);
    if t.len() > 0 {
        assert(!is_ws_char(t[0]));
    }
    assert(trim_start_ws(t) == t);
    assert(trim_end_ws(t) == t);
}

/// Whether `prefix` stands at the start of `s`.
pub fn starts_with_str(s: &str, prefix: &str) -> (r: bool)
    ensures
        r == (prefix@.len() <= s@.len() && s@.take(prefix@.len() as int) == prefix@),
{
    let plen = prefix.unicode_len();
    let slen = s.unicode_len();
    if plen > slen {
        return false;
    }
    let mut i: usize = 0;
    while i < plen
        invariant
            i <= plen <= slen,
            plen == prefix@.len(),
            slen == s@.len(),
            forall|k: int| 0 <= k < i ==> s@[k] == prefix@[k],
        decreases plen - i,
    {
        if s.get_char(i) != prefix.get_char(i) {
            assert(s@.take(plen as int)[i as int] != prefix@[i as int]);
            return false;
        }
        i = i + 1;
    }
    assert(s@.take(plen as int) =~= prefix@);
    true
}

/// Whether `pat` stands in `s` at position `pos`.
pub fn matches_at(s: &str, pos: usize, pat: &str) -> (r: bool)
    requires
        pos + pat@.len() <= s@.len(),
    ensures
        r == (s@.subrange(pos as int, pos + pat@.len()) == pat@),
{
    let plen = pat.unicode_len();
    let slen = s.unicode_len();
    let mut i: usize = 0;
    while i < plen
        invariant
            i <= plen,
            plen == pat@.len(),
            slen == s@.len(),
            pos + plen <= slen,
            forall|k: int| 0 <= k < i ==> s@[pos + k] == pat@[k],
        decreases plen - i,
    {
        if s.get_char(pos + i) != pat.get_char(i) {
            assert(s@.subrange(pos as int, pos + plen)[i as int] != pat@[i as int]);
            return false;
        }
        i = i + 1;
    }
    assert(s@.subrange(pos as int, pos + plen) =~= pat@);
    true
}

/// Copies the character range `[from, to)` of `s` into an owned string.
pub fn string_of_range(s: &str, from: usize, to: usize) -> (r: String)
    requires
        from <= to <= s@.len(),
    ensures
        r@ == s@.subrange(from as int, to as int),
{
    s.substring_char(from, to).to_owned()
}

} // verus!
