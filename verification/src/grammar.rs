//! The mathematical model of the conventional-commit grammar: line
//! splitting, the subject-line shape, the footer `key: value` shape, the
//! line-by-line parse machine, and the canonical formatting function.
//!
//! The executable parser and formatter are specified against these
//! functions, and the round-trip law is proved about them.

use vstd::prelude::*;

use crate::chars::{has_no_upper, has_no_ws, is_lower_alpha, is_word_char};
use crate::error::ConvcoError;

verus! {

/// The abstract value of a conventional-commit message: every field as a
/// plain character sequence, the footer as its ordered key/value pairs.
#[verifier::ext_equal]
pub struct MessageView {
    pub typ: Seq<char>,
    pub scope: Option<Seq<char>>,
    pub is_breaking: bool,
    pub desc: Seq<char>,
    pub body: Option<Seq<char>>,
    pub footer: Option<Seq<(Seq<char>, Seq<char>)>>,
}

/// The abstract value of a parsed subject line.
pub struct SubjectView {
    pub typ: Seq<char>,
    pub scope: Option<Seq<char>>,
    pub breaking: bool,
    pub desc: Seq<char>,
}

/// The literal footer key that announces a breaking change.
pub open spec fn bc_key() -> Seq<char> {
    seq!['B', 'R', 'E', 'A', 'K', 'I', 'N', 'G', ' ', 'C', 'H', 'A', 'N', 'G', 'E']
}

/// A footer key is valid when it holds no whitespace, or is exactly the
/// breaking-change key.
pub open spec fn is_valid_footer_key(k: Seq<char>) -> bool {
    has_no_ws(k) || k == bc_key()
}

// ------------------------------------------------------------------
// Line splitting
// ------------------------------------------------------------------
/// Index of the first newline in `s`, or `s.len()` when there is none.
pub open spec fn find_nl(s: Seq<char>) -> int
    decreases s.len(),
{
    if s.len() == 0 {
        0
    } else if s[0] == '\n' {
        0
    } else {
        1 + find_nl(s.drop_first())
    }
}

/// A line with one trailing carriage return removed.
pub open spec fn strip_cr(s: Seq<char>) -> Seq<char> {
    if s.len() > 0 && s.last() == '\r' {
        s.drop_last()
    } else {
        s
    }
}

/// The lines of a text: segments split on `'\n'`, each stripped of one
/// trailing `'\r'`; an empty text has no lines, and a trailing newline does
/// not open a final empty line.
pub open spec fn spec_lines(s: Seq<char>) -> Seq<Seq<char>>
    decreases s.len(),
    via spec_lines_decreases
{
    if s.len() == 0 {
        Seq::empty()
    } else {
        let i = find_nl(s);
        if i == s.len() {
            seq![strip_cr(s)]
        } else {
            seq![strip_cr(s.take(i))] + spec_lines(s.skip(i + 1))
        }
    }
}

#[via_fn]
proof fn spec_lines_decreases(s: Seq<char>) {
    lemma_find_nl_range(s);
}

pub proof fn lemma_find_nl_range(s: Seq<char>)
    ensures
        0 <= find_nl(s) <= s.len(),
        find_nl(s) < s.len() ==> s[find_nl(s)] == '\n',
        forall|k: int| 0 <= k < find_nl(s) ==> #[trigger] s[k] != '\n',
    decreases s.len(),
{
    if s.len() > 0 && s[0] != '\n' {
        lemma_find_nl_range(s.drop_first());
        assert forall|k: int| 0 <= k < find_nl(s) implies #[trigger] s[k] != '\n' by {
            if k > 0 {
                assert(s.drop_first()[k - 1] == s[k]);
            }
        }
        if find_nl(s) < s.len() {
            assert(s.drop_first()[find_nl(s) - 1] == s[find_nl(s)]);
        }
    }
}

/// The first-newline index is characterized by what stands before it.
pub proof fn lemma_find_nl_at(s: Seq<char>, j: int)
    requires
        0 <= j <= s.len(),
        forall|k: int| 0 <= k < j ==> #[trigger] s[k] != '\n',
        j < s.len() ==> s[j] == '\n',
    ensures
        find_nl(s) == j,
    decreases j,
{
    if j == 0 {
    } else {
        assert(s[0] != '\n');
        assert forall|k: int| 0 <= k < j - 1 implies #[trigger] s.drop_first()[k] != '\n' by {
            assert(s.drop_first()[k] == s[k + 1]);
        }
        if j - 1 < s.drop_first().len() {
            assert(s.drop_first()[j - 1] == s[j]);
        }
        lemma_find_nl_at(s.drop_first(), j - 1);
    }
}

// ------------------------------------------------------------------
// Scanning within a line
// ------------------------------------------------------------------
/// First index at or after `i` whose character is not a word character
/// (the length when word characters run to the end).
pub open spec fn scan_word_idx(s: Seq<char>, i: int) -> int
    decreases s.len() - i,
{
    if i < 0 || i >= s.len() {
        i
    } else if is_word_char(s[i]) {
        scan_word_idx(s, i + 1)
    } else {
        i
    }
}

pub proof fn lemma_scan_word_at(s: Seq<char>, from: int, j: int)
    requires
        0 <= from <= j <= s.len(),
        forall|k: int| from <= k < j ==> is_word_char(#[trigger] s[k]),
        j < s.len() ==> !is_word_char(s[j]),
    ensures
        scan_word_idx(s, from) == j,
    decreases j - from,
{
    if from < j {
        lemma_scan_word_at(s, from + 1, j);
    }
}

/// First index `i` at or after `from` with `s[i] == ':'` and
/// `s[i + 1] == ' '`, or `s.len()` when no such pair follows.
#[verifier::opaque]
pub open spec fn first_colon_space(s: Seq<char>, i: int) -> int
    decreases s.len() - i,
{
    if i < 0 || i + 2 > s.len() {
        s.len() as int
    } else if s[i] == ':' && s[i + 1] == ' ' {
        i
    } else {
        first_colon_space(s, i + 1)
    }
}

pub proof fn lemma_first_colon_space_at(s: Seq<char>, from: int, j: int)
    requires
        0 <= from <= j,
        j + 2 <= s.len(),
        forall|k: int| from <= k < j ==> !(s[k] == ':' && #[trigger] s[k + 1] == ' '),
        s[j] == ':' && s[j + 1] == ' ',
    ensures
        first_colon_space(s, from) == j,
    decreases j - from,
{
    reveal(first_colon_space);
    if from < j {
        lemma_first_colon_space_at(s, from + 1, j);
    }
}

pub proof fn lemma_first_colon_space_none(s: Seq<char>, from: int)
    requires
        0 <= from,
        forall|k: int| from <= k && k + 2 <= s.len() ==> !(s[k] == ':' && #[trigger] s[k + 1] == ' '),
    ensures
        first_colon_space(s, from) == s.len(),
    decreases s.len() - from,
{
    reveal(first_colon_space);
    if from + 2 <= s.len() {
        lemma_first_colon_space_none(s, from + 1);
    }
}

// ------------------------------------------------------------------
// Subject line
// ------------------------------------------------------------------
/// Parse of the subject line: `type(scope)?!?: description`, with the type
/// a non-empty lowercase word token, the scope non-empty lowercase word
/// characters in parentheses, and the description non-empty and starting
/// with a lowercase letter.
pub open spec fn spec_subject(line: Seq<char>) -> Result<SubjectView, ConvcoError> {
    let j = scan_word_idx(line, 0);
    if j == 0 {
        if first_colon_space(line, 0) < line.len() {
            Err(ConvcoError::MissingType)
        } else {
            Err(ConvcoError::MissingSeparator)
        }
    } else if !has_no_upper(line.take(j)) {
        Err(ConvcoError::MissingType)
    } else if j < line.len() && line[j] == '(' {
        let k = scan_word_idx(line, j + 1);
        if k == j + 1 {
            Err(ConvcoError::InvalidScope)
        } else if !(k < line.len() && line[k] == ')') {
            Err(ConvcoError::InvalidScope)
        } else if !has_no_upper(line.subrange(j + 1, k)) {
            Err(ConvcoError::InvalidScope)
        } else {
            spec_subject_tail(line, line.take(j), Some(line.subrange(j + 1, k)), k + 1)
        }
    } else {
        spec_subject_tail(line, line.take(j), None, j)
    }
}

/// The rest of the subject line after the type and scope: an optional
/// breaking marker, the `": "` separator, and the description.
pub open spec fn spec_subject_tail(
    line: Seq<char>,
    typ: Seq<char>,
    scope: Option<Seq<char>>,
    p: int,
) -> Result<SubjectView, ConvcoError> {
    let breaking = p < line.len() && line[p] == '!';
    let q = if breaking {
        p + 1
    } else {
        p
    };
    if q + 2 <= line.len() && line[q] == ':' && line[q + 1] == ' ' {
        let desc = line.skip(q + 2);
        if desc.len() == 0 || !is_lower_alpha(desc[0]) {
            Err(ConvcoError::InvalidDescription)
        } else {
            Ok(SubjectView { typ, scope, breaking, desc })
        }
    } else {
        Err(ConvcoError::MissingSeparator)
    }
}

/// The raw capture groups of the subject-line shape, before any case
/// validation: the type token, the scope with its parentheses, the breaking
/// marker, and the description. A malformed optional part is simply absent,
/// and the match is anchored at the start of the line.
pub struct SubjectCapturesView {
    pub typ: Seq<char>,
    pub scope: Option<Seq<char>>,
    pub breaking: Option<Seq<char>>,
    pub desc: Seq<char>,
}

/// The subject-line shape match, without case validation.
pub open spec fn spec_subject_shape(line: Seq<char>) -> Option<SubjectCapturesView> {
    let j = scan_word_idx(line, 0);
    if j == 0 {
        None
    } else {
        let sp = if j < line.len() && line[j] == '(' {
            let k = scan_word_idx(line, j + 1);
            if k > j + 1 && k < line.len() && line[k] == ')' {
                (Some(line.subrange(j, k + 1)), k + 1)
            } else {
                (None, j)
            }
        } else {
            (None, j)
        };
        let bq = if sp.1 < line.len() && line[sp.1] == '!' {
            (Some(seq!['!']), sp.1 + 1)
        } else {
            (None, sp.1)
        };
        if bq.1 + 2 <= line.len() && line[bq.1] == ':' && line[bq.1 + 1] == ' ' {
            Some(
                SubjectCapturesView {
                    typ: line.take(j),
                    scope: sp.0,
                    breaking: bq.0,
                    desc: line.skip(bq.1 + 2),
                },
            )
        } else {
            None
        }
    }
}

// ------------------------------------------------------------------
// Footer lines
// ------------------------------------------------------------------
/// Split of a `key: value` line at the first `": "`; `None` when the line
/// holds no such separator.
pub open spec fn spec_footer_split(line: Seq<char>) -> Option<(Seq<char>, Seq<char>)> {
    let i = first_colon_space(line, 0);
    if i < line.len() {
        Some((line.take(i), line.skip(i + 2)))
    } else {
        None
    }
}

/// Whether a line opens (or continues) a footer: a `key: value` shape with
/// a valid key.
pub open spec fn is_footer_start(line: Seq<char>) -> bool {
    match spec_footer_split(line) {
        Some(kv) => is_valid_footer_key(kv.0),
        None => false,
    }
}

/// Inserting into an ordered key/value list: an existing key keeps its
/// place and its value is replaced; a new key is appended last.
pub open spec fn spec_footer_insert(
    ps: Seq<(Seq<char>, Seq<char>)>,
    k: Seq<char>,
    v: Seq<char>,
) -> Seq<(Seq<char>, Seq<char>)>
    decreases ps.len(),
{
    if ps.len() == 0 {
        seq![(k, v)]
    } else if ps[0].0 == k {
        seq![(ps[0].0, v)] + ps.drop_first()
    } else {
        seq![ps[0]] + spec_footer_insert(ps.drop_first(), k, v)
    }
}

/// Whether the ordered key/value list holds the key.
pub open spec fn footer_has_key(ps: Seq<(Seq<char>, Seq<char>)>, k: Seq<char>) -> bool {
    exists|i: int| 0 <= i < ps.len() && (#[trigger] ps[i]).0 == k
}

/// Keys of the ordered key/value list are pairwise distinct.
pub open spec fn footer_keys_unique(ps: Seq<(Seq<char>, Seq<char>)>) -> bool {
    forall|i: int, j: int|
        0 <= i < j < ps.len() ==> (#[trigger] ps[i]).0 != (#[trigger] ps[j]).0
}

// ------------------------------------------------------------------
// The parse machine over lines
// ------------------------------------------------------------------
/// A body buffer with its trailing newline characters removed (the
/// artifact of the blank line that separates the body from the footer).
pub open spec fn strip_trailing_nl(s: Seq<char>) -> Seq<char>
    decreases s.len(),
{
    if s.len() > 0 && s.last() == '\n' {
        strip_trailing_nl(s.drop_last())
    } else {
        s
    }
}

/// The stripped buffer is characterized by the first index after which only
/// newlines stand.
pub proof fn lemma_strip_trailing_nl_at(s: Seq<char>, e: int)
    requires
        0 <= e <= s.len(),
        forall|k: int| e <= k < s.len() ==> s[k] == '\n',
        e > 0 ==> s[e - 1] != '\n',
    ensures
        strip_trailing_nl(s) == s.take(e),
    decreases s.len(),
{
    if s.len() > e {
        assert(s.last() == '\n');
        let d = s.drop_last();
        assert forall|k: int| e <= k < d.len() implies #[trigger] d[k] == '\n' by {
            assert(d[k] == s[k]);
        }
        if e > 0 {
            assert(d[e - 1] == s[e - 1]);
        }
        lemma_strip_trailing_nl_at(d, e);
        assert(d.take(e) =~= s.take(e));
    } else {
        if s.len() > 0 {
            assert(s.last() != '\n');
        }
        assert(s.take(e) =~= s);
    }
}

/// Assembles the final message once every line is consumed.
pub open spec fn finish_msg(
    subj: SubjectView,
    body: Option<Seq<char>>,
    footer: Option<Seq<(Seq<char>, Seq<char>)>>,
) -> MessageView {
    MessageView {
        typ: subj.typ,
        scope: subj.scope,
        is_breaking: subj.breaking,
        desc: subj.desc,
        body,
        footer,
    }
}

/// The footer state: every remaining line must be a valid `key: value`
/// pair; pairs are inserted with update-in-place on a duplicate key.
pub open spec fn spec_parse_footer(
    lines: Seq<Seq<char>>,
    i: int,
    subj: SubjectView,
    body: Option<Seq<char>>,
    ps: Seq<(Seq<char>, Seq<char>)>,
) -> Result<MessageView, ConvcoError>
    decreases lines.len() - i,
{
    if i < 0 || i >= lines.len() {
        Ok(finish_msg(subj, body, Some(ps)))
    } else {
        match spec_footer_split(lines[i]) {
            Some(kv) => {
                if is_valid_footer_key(kv.0) {
                    spec_parse_footer(lines, i + 1, subj, body, spec_footer_insert(ps, kv.0, kv.1))
                } else {
                    Err(ConvcoError::InvalidFooterLine)
                }
            },
            None => Err(ConvcoError::InvalidFooterLine),
        }
    }
}

/// The body state: a `key: value` line with a valid key right after a
/// blank line opens the footer; any other line is appended to the body.
pub open spec fn spec_parse_body(
    lines: Seq<Seq<char>>,
    i: int,
    subj: SubjectView,
    body: Option<Seq<char>>,
    prev_blank: bool,
) -> Result<MessageView, ConvcoError>
    decreases lines.len() - i,
{
    if i < 0 || i >= lines.len() {
        Ok(finish_msg(subj, body, None))
    } else if prev_blank && is_footer_start(lines[i]) {
        let kv = spec_footer_split(lines[i])->Some_0;
        let trimmed = match body {
            Some(b) => Some(strip_trailing_nl(b)),
            None => None,
        };
        spec_parse_footer(lines, i + 1, subj, trimmed, seq![(kv.0, kv.1)])
    } else {
        let nb = match body {
            Some(b) => b + seq!['\n'] + lines[i],
            None => lines[i],
        };
        spec_parse_body(lines, i + 1, subj, Some(nb), lines[i].len() == 0)
    }
}

/// The whole parse over the lines of a message: the subject line, then a
/// mandatory blank line, then body and footer.
pub open spec fn spec_parse_lines(lines: Seq<Seq<char>>) -> Result<MessageView, ConvcoError> {
    if lines.len() == 0 {
        Err(ConvcoError::MissingSeparator)
    } else {
        match spec_subject(lines[0]) {
            Err(e) => Err(e),
            Ok(subj) => {
                if lines.len() == 1 {
                    Ok(finish_msg(subj, None, None))
                } else if lines[1].len() != 0 {
                    Err(ConvcoError::MissingBodySeparator)
                } else {
                    spec_parse_body(lines, 2, subj, None, true)
                }
            },
        }
    }
}

/// The parse of a message text.
pub open spec fn spec_parse(s: Seq<char>) -> Result<MessageView, ConvcoError> {
    spec_parse_lines(spec_lines(s))
}

// ------------------------------------------------------------------
// Formatting
// ------------------------------------------------------------------
/// One footer line: `key: value`.
pub open spec fn footer_line_seq(p: (Seq<char>, Seq<char>)) -> Seq<char> {
    p.0 + seq![':', ' '] + p.1
}

/// The footer lines of an ordered key/value list.
pub open spec fn footer_lines_of(ps: Seq<(Seq<char>, Seq<char>)>) -> Seq<Seq<char>> {
    ps.map_values(|p: (Seq<char>, Seq<char>)| footer_line_seq(p))
}

/// Lines joined with single newlines, no trailing newline.
pub open spec fn join_nl(ls: Seq<Seq<char>>) -> Seq<char>
    decreases ls.len(),
{
    if ls.len() == 0 {
        Seq::empty()
    } else if ls.len() == 1 {
        ls[0]
    } else {
        join_nl(ls.drop_last()) + seq!['\n'] + ls.last()
    }
}

/// The subject line of a formatted message.
pub open spec fn spec_subject_line(m: MessageView) -> Seq<char> {
    let scope_part = match m.scope {
        Some(sc) => seq!['('] + sc + seq![')'],
        None => Seq::empty(),
    };
    let bang = if m.is_breaking {
        seq!['!']
    } else {
        Seq::<char>::empty()
    };
    m.typ + scope_part + bang + seq![':', ' '] + m.desc
}

/// The canonical text of a message: the subject line; a blank line and the
/// body when one is present; a blank line and the `key: value` footer
/// lines when the footer holds at least one entry.
pub open spec fn spec_format(m: MessageView) -> Seq<char> {
    let body_block = match m.body {
        Some(b) => seq!['\n', '\n'] + b,
        None => Seq::<char>::empty(),
    };
    let footer_block = match m.footer {
        Some(ps) => if ps.len() > 0 {
            seq!['\n', '\n'] + join_nl(footer_lines_of(ps))
        } else {
            Seq::<char>::empty()
        },
        None => Seq::<char>::empty(),
    };
    spec_subject_line(m) + body_block + footer_block
}

} // verus!
