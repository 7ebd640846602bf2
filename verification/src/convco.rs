//! The conventional-commit message: the structured type, its parser and its
//! canonical formatter, specified against the grammar model in
//! [`crate::grammar`].

use vstd::prelude::*;
use vstd::string::*;

use indexmap::IndexMap;

use crate::chars::{
    char_is_lower_alpha, char_is_ws, find_colon_space, has_no_ws, is_ws_char, scan_word_chars,
    string_of_range,
};
use crate::error::ConvcoError;
use crate::footer::{
    footer_contains_key, footer_get_index, footer_insert, footer_len, footer_new, footer_pairs,
};
use crate::chars::range_has_upper;
use crate::grammar::{
    bc_key, finish_msg, footer_has_key, footer_line_seq, is_footer_start, is_valid_footer_key,
    join_nl, lemma_find_nl_at, lemma_first_colon_space_at, lemma_first_colon_space_none,
    lemma_scan_word_at, lemma_strip_trailing_nl_at, spec_footer_insert, spec_footer_split,
    spec_format, spec_lines, spec_parse, spec_parse_body, spec_parse_footer, spec_parse_lines,
    spec_subject, spec_subject_line, spec_subject_shape, spec_subject_tail, strip_cr,
    strip_trailing_nl, MessageView, SubjectCapturesView, SubjectView,
};

verus! {

/// The footer key that announces a breaking change.
pub const BREAKING_CHANGE_KEY: &'static str = "BREAKING CHANGE";

/// The dashed spelling of the breaking-change footer key.
pub const BREAKING_CHANGE_KEY_DASH: &'static str = "BREAKING-CHANGE";

/// The literal `"BREAKING CHANGE"` views as the model's breaking-change key.
pub proof fn lemma_bc_key_literal()
    ensures
        BREAKING_CHANGE_KEY@ == bc_key(),
{
    reveal_strlit("BREAKING CHANGE");
    assert(BREAKING_CHANGE_KEY@ =~= bc_key());
}

/// The view of an optional string.
pub open spec fn view_opt_str(o: Option<String>) -> Option<Seq<char>> {
    match o {
        Some(s) => Some(s@),
        None => None,
    }
}

/// The view of an optional footer map: its entries in order.
pub open spec fn view_opt_footer(o: Option<IndexMap<String, String>>) -> Option<
    Seq<(Seq<char>, Seq<char>)>,
> {
    match o {
        Some(m) => Some(footer_pairs(m)),
        None => None,
    }
}

/// A conventional-commit message.
#[derive(Debug)]
pub struct ConvcoMessage {
    /// Commit type: a non-empty lowercase word token.
    pub typ: String,
    /// Optional scope: a non-empty lowercase word token.
    pub scope: Option<String>,
    /// Whether the subject carries the `!` breaking marker.
    pub is_breaking: bool,
    /// Description: non-empty, first character lowercase.
    pub desc: String,
    /// Optional multi-line body.
    pub body: Option<String>,
    /// Optional footer: ordered `key: value` entries, keys unique.
    pub footer: Option<IndexMap<String, String>>,
}

impl View for ConvcoMessage {
    type V = MessageView;

    open spec fn view(&self) -> MessageView {
        MessageView {
            typ: self.typ@,
            scope: view_opt_str(self.scope),
            is_breaking: self.is_breaking,
            desc: self.desc@,
            body: view_opt_str(self.body),
            footer: view_opt_footer(self.footer),
        }
    }
}

/// The derived breaking-change predicate of a message value: the subject
/// marker, or a `BREAKING CHANGE` footer entry.
pub open spec fn spec_is_breaking_change(m: MessageView) -> bool {
    m.is_breaking || (m.footer is Some && footer_has_key(m.footer->Some_0, bc_key()))
}

impl ConvcoMessage {
    /// Checks if the message signals a breaking change, either by the `!`
    /// subject marker or by a `BREAKING CHANGE` footer entry.
    pub fn is_breaking_change(&self) -> (r: bool)
        ensures
            r == spec_is_breaking_change(self@),
    {
        if self.is_breaking {
            return true;
        }
        match &self.footer {
            Some(entries) => {
                proof {
                    lemma_bc_key_literal();
                }
                footer_contains_key(entries, BREAKING_CHANGE_KEY)
            },
            None => false,
        }
    }

    /// Inserts a footer note, creating the footer when the message has none;
    /// an existing key keeps its place and its value is updated.
    pub fn add_footer_note(&mut self, key: &str, value: &str)
        ensures
            final(self)@ == (MessageView {
                footer: Some(
                    spec_footer_insert(
                        match old(self)@.footer {
                            Some(ps) => ps,
                            None => Seq::empty(),
                        },
                        key@,
                        value@,
                    ),
                ),
                ..old(self)@
            }),
    {
        match &mut self.footer {
            Some(entries) => {
                footer_insert(entries, key.to_owned(), value.to_owned());
            },
            None => {
                let mut entries = footer_new();
                footer_insert(&mut entries, key.to_owned(), value.to_owned());
                self.footer = Some(entries);
            },
        }
    }

    /// Marks the message as breaking; when a footer exists, also records the
    /// description under the `BREAKING CHANGE` key.
    pub fn add_breaking_change(&mut self, desc: &str)
        ensures
            final(self)@ == (MessageView {
                is_breaking: true,
                footer: match old(self)@.footer {
                    Some(ps) => Some(spec_footer_insert(ps, bc_key(), desc@)),
                    None => None,
                },
                ..old(self)@
            }),
    {
        self.is_breaking = true;
        match &mut self.footer {
            Some(entries) => {
                proof {
                    lemma_bc_key_literal();
                }
                footer_insert(entries, BREAKING_CHANGE_KEY.to_owned(), desc.to_owned());
            },
            None => {},
        }
    }
}

impl ConvcoMessage {
    /// Renders the message in its canonical text form: the subject line,
    /// then the body and the footer blocks, each preceded by a blank line
    /// when present, with no trailing newline.
    pub fn to_text(&self) -> (r: String)
        ensures
            r@ == spec_format(self@),
    {
        proof {
            reveal_strlit("(");
            reveal_strlit(")");
            reveal_strlit("!");
            reveal_strlit(": ");
            reveal_strlit("\n\n");
            reveal_strlit("\n");
        }
        let mut out = String::new();
        out.append(self.typ.as_str());
        match &self.scope {
            Some(sc) => {
                out.append("(");
                out.append(sc.as_str());
                out.append(")");
            },
            None => {},
        }
        if self.is_breaking {
            out.append("!");
        }
        out.append(": ");
        out.append(self.desc.as_str());
        assert(out@ =~= spec_subject_line(self@));
        match &self.body {
            Some(b) => {
                out.append("\n\n");
                out.append(b.as_str());
            },
            None => {},
        }
        let ghost head = out@;
        match &self.footer {
            Some(f) => {
                let n = footer_len(f);
                if n > 0 {
                    out.append("\n\n");
                    let ghost base = out@;
                    let ghost fls = crate::grammar::footer_lines_of(footer_pairs(*f));
                    assert(fls.len() == n);
                    let mut idx: usize = 0;
                    while idx < n
                        invariant
                            idx <= n,
                            n == footer_pairs(*f).len(),
                            fls == crate::grammar::footer_lines_of(footer_pairs(*f)),
                            out@ == base + join_nl(fls.take(idx as int)),
                        decreases n - idx,
                    {
                        let ghost prev = out@;
                        match footer_get_index(f, idx) {
                            Some(kv) => {
                                if idx > 0 {
                                    out.append("\n");
                                }
                                out.append(kv.0.as_str());
                                out.append(": ");
                                out.append(kv.1.as_str());
                                proof {
                                    reveal_strlit(": ");
                                    reveal_strlit("\n");
                                    assert(": "@ =~= seq![':', ' ']);
                                    assert("\n"@ =~= seq!['\n']);
                                    assert(fls[idx as int] == footer_line_seq(
                                        footer_pairs(*f)[idx as int],
                                    ));
                                    assert(fls[idx as int] =~= kv.0@ + seq![':', ' '] + kv.1@);
                                    assert(fls.take(idx as int + 1).drop_last() =~= fls.take(
                                        idx as int,
                                    ));
                                    assert(fls.take(idx as int + 1).last() == fls[idx as int]);
                                    if idx == 0 {
                                        assert(join_nl(fls.take(1)) == fls[0]);
                                        assert(out@ =~= base + join_nl(fls.take(1)));
                                    } else {
                                        assert(out@ =~= base + (join_nl(fls.take(idx as int))
                                            + seq!['\n'] + fls[idx as int]));
                                    }
                                }
                            },
                            None => {
                                proof {
                                    assert(false);
                                }
                            },
                        }
                        idx = idx + 1;
                    }
                    assert(fls.take(n as int) =~= fls);
                    assert(out@ =~= spec_format(self@));
                } else {
                    assert(out@ =~= spec_format(self@));
                }
            },
            None => {
                assert(out@ =~= spec_format(self@));
            },
        }
        out
    }
}

/// The shape of an issue reference: `#` followed by at least one digit.
pub open spec fn spec_is_issue_ref(v: Seq<char>) -> bool {
    v.len() >= 2 && v[0] == '#' && forall|i: int|
        1 <= i < v.len() ==> '0' <= #[trigger] v[i] && v[i] <= '9'
}

/// The authoring-time verdict on the footer entries from position `i` on:
/// the first ill-shaped issue reference is rejected.
pub open spec fn spec_check_footer_refs(ps: Seq<(Seq<char>, Seq<char>)>, i: int) -> Result<
    (),
    ConvcoError,
>
    decreases ps.len() - i,
{
    if i < 0 || i >= ps.len() {
        Ok(())
    } else if ps[i].0 == "Closes"@ && !spec_is_issue_ref(ps[i].1) {
        Err(ConvcoError::InvalidIssueReference)
    } else {
        spec_check_footer_refs(ps, i + 1)
    }
}

/// The authoring-time verdict on a composed message under the configured
/// type list: the type must be configured; the two spellings of the
/// breaking-change trailer must not both be present; an issue-reference
/// trailer must hold `#` and a number.
pub open spec fn spec_validate(m: MessageView, types: Seq<Seq<char>>) -> Result<(), ConvcoError> {
    if !(exists|i: int| 0 <= i < types.len() && types[i] == m.typ) {
        Err(ConvcoError::MissingType)
    } else {
        match m.footer {
            Some(ps) => if footer_has_key(ps, "BREAKING CHANGE"@) && footer_has_key(
                ps,
                "BREAKING-CHANGE"@,
            ) {
                Err(ConvcoError::DuplicateBreakingChange)
            } else {
                spec_check_footer_refs(ps, 0)
            },
            None => Ok(()),
        }
    }
}

/// Whether a footer value has the shape of an issue reference.
fn is_issue_ref(v: &str) -> (r: bool)
    ensures
        r == spec_is_issue_ref(v@),
{
    let len = v.unicode_len();
    if len < 2 {
        return false;
    }
    if v.get_char(0) != '#' {
        return false;
    }
    let mut i: usize = 1;
    while i < len
        invariant
            1 <= i <= len,
            len == v@.len(),
            forall|k: int| 1 <= k < i ==> '0' <= #[trigger] v@[k] && v@[k] <= '9',
        decreases len - i,
    {
        let c = v.get_char(i);
        if !('0' <= c && c <= '9') {
            return false;
        }
        i = i + 1;
    }
    true
}

impl ConvcoMessage {
    /// Authoring-time validation, stricter than the grammar: the caller may
    /// apply it before accepting a newly composed message. The type must be
    /// among the configured commit types; the footer must not carry both
    /// spellings of the breaking-change trailer; and a `Closes` trailer
    /// must reference an issue as `#` and a number.
    pub fn validate(&self, cfg: &crate::config::CommitsConfig) -> (r: Result<(), ConvcoError>)
        ensures
            r == spec_validate(self@, crate::config::type_keys(cfg.types@)),
    {
        let ghost keys = crate::config::type_keys(cfg.types@);
        let n = cfg.types.len();
        let mut i: usize = 0;
        let mut found = false;
        while i < n && !found
            invariant
                i <= n,
                n == cfg.types@.len(),
                keys == crate::config::type_keys(cfg.types@),
                found ==> exists|k: int| 0 <= k < keys.len() && keys[k] == self.typ@,
                !found ==> forall|k: int| 0 <= k < i ==> #[trigger] keys[k] != self.typ@,
            decreases n - i,
        {
            assert(keys[i as int] == cfg.types@[i as int].0@);
            if cfg.types[i].0 == self.typ {
                found = true;
            }
            i = i + 1;
        }
        if !found {
            return Err(ConvcoError::MissingType);
        }
        match &self.footer {
            Some(f) => {
                if footer_contains_key(f, BREAKING_CHANGE_KEY) && footer_contains_key(
                    f,
                    BREAKING_CHANGE_KEY_DASH,
                ) {
                    return Err(ConvcoError::DuplicateBreakingChange);
                }
                let ghost ps = footer_pairs(*f);
                let m = footer_len(f);
                let closes: String = "Closes".to_owned();
                let mut j: usize = 0;
                while j < m
                    invariant
                        j <= m,
                        m == footer_pairs(*f).len(),
                        ps == footer_pairs(*f),
                        self@.footer == Some(ps),
                        closes@ == "Closes"@,
                        exists|k: int|
                            0 <= k < crate::config::type_keys(cfg.types@).len()
                                && crate::config::type_keys(cfg.types@)[k] == self@.typ,
                        !(footer_has_key(ps, "BREAKING CHANGE"@) && footer_has_key(
                            ps,
                            "BREAKING-CHANGE"@,
                        )),
                        spec_check_footer_refs(ps, 0) == spec_check_footer_refs(ps, j as int),
                    decreases m - j,
                {
                    match footer_get_index(f, j) {
                        Some(kv) => {
                            if kv.0 == closes {
                                if !is_issue_ref(kv.1.as_str()) {
                                    return Err(ConvcoError::InvalidIssueReference);
                                }
                            }
                        },
                        None => {
                            proof {
                                assert(false);
                            }
                        },
                    }
                    j = j + 1;
                }
                Ok(())
            },
            None => Ok(()),
        }
    }
}

/// Checks if a string is a valid footer key: no whitespace, with the one
/// exception of the literal `"BREAKING CHANGE"`.
pub fn is_valid_footer_token(value: &str) -> (r: bool)
    ensures
        r == is_valid_footer_key(value@),
{
    let len = value.unicode_len();
    let mut i: usize = 0;
    let mut seen_ws = false;
    while i < len
        invariant
            i <= len,
            len == value@.len(),
            seen_ws == !has_no_ws(value@.take(i as int)),
        decreases len - i,
    {
        let c_ws = char_is_ws(value.get_char(i));
        proof {
            let pre = value@.take(i as int);
            let post = value@.take(i + 1);
            assert(forall|k: int| 0 <= k < i ==> pre[k] == #[trigger] post[k]);
            if c_ws {
                assert(post[i as int] == value@[i as int]);
            } else if !seen_ws {
                assert forall|k: int| 0 <= k < i + 1 implies !is_ws_char(#[trigger] post[k]) by {
                    if k < i {
                        assert(pre[k] == post[k]);
                    } else {
                        assert(post[k] == value@[i as int]);
                    }
                }
            } else {
                let w = choose|w: int| 0 <= w < pre.len() && is_ws_char(pre[w]);
                assert(is_ws_char(post[w]));
            }
        }
        seen_ws = seen_ws || c_ws;
        i = i + 1;
    }
    assert(value@.take(len as int) =~= value@);
    if !seen_ws {
        return true;
    }
    proof {
        lemma_bc_key_literal();
    }
    let bc: String = BREAKING_CHANGE_KEY.to_owned();
    value.to_owned() == bc
}

/// The capture groups of the subject-line shape: the type token, the scope
/// with its parentheses, the breaking marker, and the description, with no
/// case validation. The match is anchored at the start of the line.
pub struct SubjectCaptures {
    pub typ: String,
    pub scope: Option<String>,
    pub breaking: Option<String>,
    pub desc: String,
}

/// Matches the subject-line shape `type(scope)?!?: description` and hands
/// back its raw capture groups; `None` when the line has no such shape.
pub fn subject_captures(line: &str) -> (r: Option<SubjectCaptures>)
    ensures
        match r {
            Some(c) => spec_subject_shape(line@) == Some(
                SubjectCapturesView {
                    typ: c.typ@,
                    scope: view_opt_str(c.scope),
                    breaking: view_opt_str(c.breaking),
                    desc: c.desc@,
                },
            ),
            None => spec_subject_shape(line@) is None,
        },
{
    let len = line.unicode_len();
    let j = scan_word_chars(line, 0);
    proof {
        lemma_scan_word_at(line@, 0, j as int);
    }
    if j == 0 {
        return None;
    }
    let mut scope: Option<String> = None;
    let mut p = j;
    if j < len && line.get_char(j) == '(' {
        let k = scan_word_chars(line, j + 1);
        proof {
            lemma_scan_word_at(line@, j + 1, k as int);
        }
        if k > j + 1 && k < len && line.get_char(k) == ')' {
            scope = Some(string_of_range(line, j, k + 1));
            p = k + 1;
        }
    }
    let mut breaking: Option<String> = None;
    if p < len && line.get_char(p) == '!' {
        proof {
            reveal_strlit("!");
        }
        let bang: String = "!".to_owned();
        assert(bang@ =~= seq!['!']);
        breaking = Some(bang);
        p = p + 1;
    }
    if p < len && p + 1 < len && line.get_char(p) == ':' && line.get_char(p + 1) == ' ' {
        let typ = string_of_range(line, 0, j);
        let desc = string_of_range(line, p + 2, len);
        assert(typ@ =~= line@.take(j as int));
        assert(desc@ =~= line@.skip(p + 2));
        Some(SubjectCaptures { typ, scope, breaking, desc })
    } else {
        None
    }
}

/// Parses the subject line with its case validation, naming the exact error
/// for each way the line can be rejected.
fn parse_subject(line: &str) -> (r: Result<(String, Option<String>, bool, String), ConvcoError>)
    ensures
        match r {
            Ok(t) => spec_subject(line@) == Ok::<SubjectView, ConvcoError>(
                SubjectView { typ: t.0@, scope: view_opt_str(t.1), breaking: t.2, desc: t.3@ },
            ),
            Err(e) => spec_subject(line@) == Err::<SubjectView, ConvcoError>(e),
        },
{
    let len = line.unicode_len();
    let j = scan_word_chars(line, 0);
    proof {
        lemma_scan_word_at(line@, 0, j as int);
    }
    if j == 0 {
        match find_colon_space(line, 0) {
            Some(i) => {
                proof {
                    lemma_first_colon_space_at(line@, 0, i as int);
                }
                return Err(ConvcoError::MissingType);
            },
            None => {
                proof {
                    lemma_first_colon_space_none(line@, 0);
                }
                return Err(ConvcoError::MissingSeparator);
            },
        }
    }
    if range_has_upper(line, 0, j) {
        return Err(ConvcoError::MissingType);
    }
    assert(line@.take(j as int) =~= line@.subrange(0, j as int));
    let typ = string_of_range(line, 0, j);
    if j < len && line.get_char(j) == '(' {
        let k = scan_word_chars(line, j + 1);
        proof {
            lemma_scan_word_at(line@, j + 1, k as int);
        }
        if k == j + 1 {
            return Err(ConvcoError::InvalidScope);
        }
        if !(k < len && line.get_char(k) == ')') {
            return Err(ConvcoError::InvalidScope);
        }
        if range_has_upper(line, j + 1, k) {
            return Err(ConvcoError::InvalidScope);
        }
        let scope = string_of_range(line, j + 1, k);
        parse_subject_tail(line, typ, Some(scope), k + 1)
    } else {
        parse_subject_tail(line, typ, None, j)
    }
}

/// The rest of the subject line after the type and scope: the optional
/// breaking marker, the separator, and the description.
fn parse_subject_tail(line: &str, typ: String, scope: Option<String>, p: usize) -> (r: Result<
    (String, Option<String>, bool, String),
    ConvcoError,
>)
    requires
        p <= line@.len(),
    ensures
        match r {
            Ok(t) => spec_subject_tail(line@, typ@, view_opt_str(scope), p as int) == Ok::<
                SubjectView,
                ConvcoError,
            >(SubjectView { typ: t.0@, scope: view_opt_str(t.1), breaking: t.2, desc: t.3@ }),
            Err(e) => spec_subject_tail(line@, typ@, view_opt_str(scope), p as int) == Err::<
                SubjectView,
                ConvcoError,
            >(e),
        },
{
    let len = line.unicode_len();
    let breaking = p < len && line.get_char(p) == '!';
    let q = if breaking {
        p + 1
    } else {
        p
    };
    if q < len && q + 1 < len && line.get_char(q) == ':' && line.get_char(q + 1) == ' ' {
        if q + 2 == len {
            return Err(ConvcoError::InvalidDescription);
        }
        assert(line@.skip(q + 2)[0] == line@[q + 2]);
        if !char_is_lower_alpha(line.get_char(q + 2)) {
            return Err(ConvcoError::InvalidDescription);
        }
        let desc = string_of_range(line, q + 2, len);
        assert(desc@ =~= line@.skip(q + 2));
        Ok((typ, scope, breaking, desc))
    } else {
        Err(ConvcoError::MissingSeparator)
    }
}

/// Splits a text into its lines: segments split on `'\n'`, each stripped of
/// one trailing `'\r'`.
fn split_lines(s: &str) -> (lines: Vec<String>)
    ensures
        lines@.map_values(|l: String| l@) == spec_lines(s@),
{
    let len = s.unicode_len();
    let mut lines: Vec<String> = Vec::new();
    let mut pos: usize = 0;
    proof {
        assert(s@.skip(0) =~= s@);
    }
    while pos < len
        invariant
            pos <= len,
            len == s@.len(),
            spec_lines(s@) == lines@.map_values(|l: String| l@) + spec_lines(s@.skip(pos as int)),
        decreases len - pos,
    {
        let ghost prefix = lines@.map_values(|l: String| l@);
        let mut j = pos;
        loop
            invariant_except_break
                pos <= j <= len,
                len == s@.len(),
                forall|k: int| pos <= k < j ==> s@[k] != '\n',
            ensures
                pos <= j <= len,
                forall|k: int| pos <= k < j ==> s@[k] != '\n',
                j < len ==> s@[j as int] == '\n',
                len == s@.len(),
            decreases len - j,
        {
            if j == len {
                break;
            }
            if s.get_char(j) == '\n' {
                break;
            }
            j = j + 1;
        }
        let line_end = if j > pos && s.get_char(j - 1) == '\r' {
            j - 1
        } else {
            j
        };
        let line = string_of_range(s, pos, line_end);
        proof {
            let rem = s@.skip(pos as int);
            assert forall|k: int| 0 <= k < j - pos implies #[trigger] rem[k] != '\n' by {
                assert(rem[k] == s@[pos + k]);
            }
            if j < len {
                assert(rem[j - pos] == s@[j as int]);
            }
            lemma_find_nl_at(rem, j - pos);
            let seg = if j == len {
                rem
            } else {
                rem.take(j - pos)
            };
            assert(seg =~= s@.subrange(pos as int, j as int));
            assert(strip_cr(seg) =~= line@);
            assert((lines@.push(line)).map_values(|l: String| l@) =~= prefix.push(line@));
            if j == len {
                assert(spec_lines(rem) == seq![strip_cr(seg)]);
                assert(s@.skip(len as int) =~= Seq::<char>::empty());
                assert(prefix.push(line@) + spec_lines(s@.skip(len as int)) =~= prefix + seq![
                    line@,
                ]);
            } else {
                assert(rem.skip(j - pos + 1) =~= s@.skip(j + 1));
                assert(spec_lines(rem) == seq![strip_cr(seg)] + spec_lines(s@.skip(j + 1)));
                assert(prefix + spec_lines(rem) =~= prefix.push(line@) + spec_lines(
                    s@.skip(j + 1),
                ));
            }
        }
        lines.push(line);
        pos = if j < len {
            j + 1
        } else {
            len
        };
    }
    proof {
        assert(s@.skip(len as int) =~= Seq::<char>::empty());
        assert(lines@.map_values(|l: String| l@) + spec_lines(s@.skip(len as int))
            =~= lines@.map_values(|l: String| l@));
    }
    lines
}

/// A buffer with its trailing newline characters removed.
fn strip_newline_suffix(s: &str) -> (r: String)
    ensures
        r@ == strip_trailing_nl(s@),
{
    let len = s.unicode_len();
    let mut e = len;
    loop
        invariant_except_break
            e <= len,
            len == s@.len(),
            forall|k: int| e <= k < len ==> s@[k] == '\n',
        ensures
            e <= len,
            len == s@.len(),
            forall|k: int| e <= k < len ==> s@[k] == '\n',
            e > 0 ==> s@[e - 1] != '\n',
        decreases e,
    {
        if e == 0 {
            break;
        }
        if s.get_char(e - 1) != '\n' {
            break;
        }
        e = e - 1;
    }
    proof {
        lemma_strip_trailing_nl_at(s@, e as int);
    }
    string_of_range(s, 0, e)
}

impl ConvcoMessage {
    /// Parses a message text against the conventional-commit grammar: the
    /// subject line, a mandatory blank line, then body lines until a valid
    /// `key: value` line right after a blank line opens the footer. The
    /// result, success or the exact error, is the grammar model's verdict
    /// on the text.
    pub fn parse(s: &str) -> (r: Result<ConvcoMessage, ConvcoError>)
        ensures
            match r {
                Ok(m) => spec_parse(s@) == Ok::<MessageView, ConvcoError>(m@),
                Err(e) => spec_parse(s@) == Err::<MessageView, ConvcoError>(e),
            },
    {
        let lines = split_lines(s);
        let ghost lv = lines@.map_values(|l: String| l@);
        if lines.len() == 0 {
            return Err(ConvcoError::MissingSeparator);
        }
        assert(lv[0] == lines@[0]@);
        let subj = match parse_subject(lines[0].as_str()) {
            Ok(t) => t,
            Err(e) => {
                return Err(e);
            },
        };
        let (typ, scope, is_breaking, desc) = subj;
        let ghost subjv = SubjectView {
            typ: typ@,
            scope: view_opt_str(scope),
            breaking: is_breaking,
            desc: desc@,
        };
        if lines.len() == 1 {
            let m = ConvcoMessage { typ, scope, is_breaking, desc, body: None, footer: None };
            return Ok(m);
        }
        assert(lv[1] == lines@[1]@);
        if lines[1].as_str().unicode_len() != 0 {
            return Err(ConvcoError::MissingBodySeparator);
        }
        let mut i: usize = 2;
        let mut body: Option<String> = None;
        let mut prev_blank = true;
        let mut fmap = footer_new();
        let mut in_footer = false;
        while i < lines.len()
            invariant
                2 <= i <= lines.len(),
                lv == lines@.map_values(|l: String| l@),
                lv == spec_lines(s@),
                !in_footer ==> footer_pairs(fmap) == Seq::<(Seq<char>, Seq<char>)>::empty(),
                spec_parse_lines(lv) == (if in_footer {
                    spec_parse_footer(lv, i as int, subjv, view_opt_str(body), footer_pairs(fmap))
                } else {
                    spec_parse_body(lv, i as int, subjv, view_opt_str(body), prev_blank)
                }),
            decreases lines.len() - i,
        {
            assert(lv[i as int] == lines@[i as int]@);
            if in_footer {
                match footer_captures(lines[i].as_str()) {
                    Some(kv) => {
                        let (k, v) = kv;
                        if is_valid_footer_token(k.as_str()) {
                            footer_insert(&mut fmap, k, v);
                            assert(spec_parse_lines(lv) == spec_parse_footer(
                                lv,
                                i as int + 1,
                                subjv,
                                view_opt_str(body),
                                footer_pairs(fmap),
                            ));
                        } else {
                            return Err(ConvcoError::InvalidFooterLine);
                        }
                    },
                    None => {
                        return Err(ConvcoError::InvalidFooterLine);
                    },
                }
            } else {
                if prev_blank {
                    if let Some(kv) = footer_captures(lines[i].as_str()) {
                        let (k, v) = kv;
                        if is_valid_footer_token(k.as_str()) {
                            assert(is_footer_start(lv[i as int]));
                            body = match body {
                                Some(b) => Some(strip_newline_suffix(b.as_str())),
                                None => None,
                            };
                            let ghost kq = k@;
                            let ghost vq = v@;
                            footer_insert(&mut fmap, k, v);
                            assert(footer_pairs(fmap) =~= seq![(kq, vq)]);
                            in_footer = true;
                            assert(spec_parse_lines(lv) == spec_parse_footer(
                                lv,
                                i as int + 1,
                                subjv,
                                view_opt_str(body),
                                footer_pairs(fmap),
                            ));
                        } else {
                            assert(!is_footer_start(lv[i as int]));
                        }
                    }
                }
                if !in_footer {
                    assert(!(prev_blank && is_footer_start(lv[i as int])));
                    let blank = lines[i].as_str().unicode_len() == 0;
                    proof {
                        reveal_strlit("\n");
                    }
                    body = match body {
                        Some(mut b) => {
                            let ghost oldb = b@;
                            b.append("\n");
                            b.append(lines[i].as_str());
                            assert(b@ =~= oldb + seq!['\n'] + lv[i as int]);
                            Some(b)
                        },
                        None => Some(lines[i].clone()),
                    };
                    prev_blank = blank;
                    assert(spec_parse_lines(lv) == spec_parse_body(
                        lv,
                        i as int + 1,
                        subjv,
                        view_opt_str(body),
                        prev_blank,
                    ));
                }
            }
            i = i + 1;
        }
        if in_footer {
            let m = ConvcoMessage { typ, scope, is_breaking, desc, body, footer: Some(fmap) };
            assert(m@ == finish_msg(subjv, view_opt_str(m.body), Some(footer_pairs(fmap))));
            Ok(m)
        } else {
            let m = ConvcoMessage { typ, scope, is_breaking, desc, body, footer: None };
            assert(m@ == finish_msg(subjv, view_opt_str(m.body), None));
            Ok(m)
        }
    }
}

/// The `key: value` shape of a footer line: the key before the first `": "`,
/// the value after it; `None` when the line holds no such separator.
pub fn footer_captures(line: &str) -> (r: Option<(String, String)>)
    ensures
        match r {
            Some(kv) => spec_footer_split(line@) == Some((kv.0@, kv.1@)),
            None => spec_footer_split(line@) is None,
        },
{
    let len = line.unicode_len();
    match find_colon_space(line, 0) {
        Some(i) => {
            proof {
                lemma_first_colon_space_at(line@, 0, i as int);
            }
            let key = string_of_range(line, 0, i);
            let value = string_of_range(line, i + 2, len);
            assert(key@ =~= line@.take(i as int));
            assert(value@ =~= line@.skip(i + 2));
            Some((key, value))
        },
        None => {
            proof {
                lemma_first_colon_space_none(line@, 0);
            }
            None
        },
    }
}

} // verus!
