//! The laws of the library, stated and proved over the grammar and walk
//! models: purity of classification, monotonicity of the aggregated
//! increment, validity of every parsed footer key, and the parse/format
//! round trip.

use vstd::prelude::*;

use crate::chars::{
    all_word_chars, has_no_upper, has_no_ws, is_lower_alpha, is_word_char, is_ws_char,
};
use crate::error::ConvcoError;
use crate::grammar::{
    bc_key, find_nl, finish_msg, footer_keys_unique, footer_line_seq, footer_lines_of,
    is_footer_start, is_valid_footer_key, join_nl, lemma_find_nl_at, lemma_first_colon_space_at,
    lemma_first_colon_space_none, lemma_scan_word_at, lemma_strip_trailing_nl_at,
    spec_footer_insert, spec_footer_split, spec_format, spec_lines, spec_parse, spec_parse_body,
    spec_parse_footer, spec_subject, spec_subject_line, strip_cr, strip_trailing_nl, MessageView,
    SubjectView,
};
use crate::history::{
    spec_conv_message, spec_latest_release_tag, spec_max_incr, GitCommitView, TagView,
};
use crate::version::{incr_rank, spec_classify, VersionIncr};

verus! {

// ------------------------------------------------------------------
// Classification is a pure function
// ------------------------------------------------------------------
/// Classification depends on nothing but the parsed message and the minor
/// types: identical inputs always yield the identical increment.
pub proof fn lemma_classify_deterministic(
    m1: Option<MessageView>,
    m2: Option<MessageView>,
    t1: Seq<Seq<char>>,
    t2: Seq<Seq<char>>,
)
    requires
        m1 == m2,
        t1 == t2,
    ensures
        spec_classify(m1, t1) == spec_classify(m2, t2),
{
}

// ------------------------------------------------------------------
// Monotonicity of the aggregated increment
// ------------------------------------------------------------------
/// Walking one more commit never decreases the aggregated increment, and a
/// Major-classified commit that is not covered by a release makes it Major.
pub proof fn lemma_max_incr_monotonic(
    cs: Seq<GitCommitView>,
    ts: Seq<TagView>,
    minor: Seq<Seq<char>>,
    i: int,
)
    requires
        i >= 1,
    ensures
        incr_rank(spec_max_incr(cs, ts, minor, i - 1)) <= incr_rank(spec_max_incr(cs, ts, minor, i)),
        (spec_latest_release_tag(cs, ts, i) is None && spec_classify(
            spec_conv_message(cs[i - 1].message),
            minor,
        ) == VersionIncr::Major) ==> spec_max_incr(cs, ts, minor, i) == VersionIncr::Major,
{
}

/// The walk model only reads the commits before the walk index: appending a
/// commit to the list changes none of the aggregates over the old prefix.
pub proof fn lemma_walk_frame(cs: Seq<GitCommitView>, ts: Seq<TagView>, minor: Seq<Seq<char>>, c: GitCommitView, i: int)
    requires
        0 <= i <= cs.len(),
    ensures
        spec_latest_release_tag(cs.push(c), ts, i) == spec_latest_release_tag(cs, ts, i),
        spec_max_incr(cs.push(c), ts, minor, i) == spec_max_incr(cs, ts, minor, i),
    decreases i,
{
    if i > 0 {
        assert(cs.push(c)[i - 1] == cs[i - 1]);
        lemma_walk_frame(cs, ts, minor, c, i - 1);
    }
}

/// Appending a commit whose change classifies as `Major` to a history whose
/// tail stays unreleased never decreases the aggregated increment — it
/// forces it to `Major`.
pub proof fn lemma_append_major_commit(
    cs: Seq<GitCommitView>,
    ts: Seq<TagView>,
    minor: Seq<Seq<char>>,
    c: GitCommitView,
)
    requires
        spec_latest_release_tag(cs.push(c), ts, cs.len() as int + 1) is None,
        spec_classify(spec_conv_message(c.message), minor) == VersionIncr::Major,
    ensures
        spec_max_incr(cs.push(c), ts, minor, cs.len() as int + 1) == VersionIncr::Major,
        incr_rank(spec_max_incr(cs, ts, minor, cs.len() as int)) <= incr_rank(
            spec_max_incr(cs.push(c), ts, minor, cs.len() as int + 1),
        ),
{
    lemma_walk_frame(cs, ts, minor, c, cs.len() as int);
    assert(cs.push(c)[cs.len() as int] == c);
    lemma_max_incr_monotonic(cs.push(c), ts, minor, cs.len() as int + 1);
}

// ------------------------------------------------------------------
// Every parsed footer key is valid
// ------------------------------------------------------------------
/// Every key of an ordered key/value list is a valid footer key.
pub open spec fn all_keys_valid(ps: Seq<(Seq<char>, Seq<char>)>) -> bool {
    forall|i: int| 0 <= i < ps.len() ==> is_valid_footer_key((#[trigger] ps[i]).0)
}

proof fn lemma_insert_keeps_valid(ps: Seq<(Seq<char>, Seq<char>)>, k: Seq<char>, v: Seq<char>)
    requires
        all_keys_valid(ps),
        is_valid_footer_key(k),
    ensures
        all_keys_valid(spec_footer_insert(ps, k, v)),
    decreases ps.len(),
{
    if ps.len() == 0 {
        assert(spec_footer_insert(ps, k, v) =~= seq![(k, v)]);
    } else if ps[0].0 == k {
        let r = seq![(ps[0].0, v)] + ps.drop_first();
        assert forall|i: int| 0 <= i < r.len() implies is_valid_footer_key(
            (#[trigger] r[i]).0,
        ) by {
            if i > 0 {
                assert(r[i] == ps[i]);
            }
        }
    } else {
        assert(forall|i: int|
            0 <= i < ps.drop_first().len() ==> #[trigger] ps.drop_first()[i] == ps[i + 1]);
        lemma_insert_keeps_valid(ps.drop_first(), k, v);
        let r = seq![ps[0]] + spec_footer_insert(ps.drop_first(), k, v);
        assert forall|i: int| 0 <= i < r.len() implies is_valid_footer_key(
            (#[trigger] r[i]).0,
        ) by {
            if i > 0 {
                assert(r[i] == spec_footer_insert(ps.drop_first(), k, v)[i - 1]);
            }
        }
    }
}

proof fn lemma_footer_walk_keys_valid(
    lines: Seq<Seq<char>>,
    i: int,
    subj: crate::grammar::SubjectView,
    body: Option<Seq<char>>,
    ps: Seq<(Seq<char>, Seq<char>)>,
)
    requires
        all_keys_valid(ps),
    ensures
        match spec_parse_footer(lines, i, subj, body, ps) {
            Ok(m) => m.footer is Some && all_keys_valid(m.footer->Some_0),
            Err(e) => true,
        },
    decreases lines.len() - i,
{
    if 0 <= i < lines.len() {
        match spec_footer_split(lines[i]) {
            Some(kv) => {
                if is_valid_footer_key(kv.0) {
                    lemma_insert_keeps_valid(ps, kv.0, kv.1);
                    lemma_footer_walk_keys_valid(
                        lines,
                        i + 1,
                        subj,
                        body,
                        spec_footer_insert(ps, kv.0, kv.1),
                    );
                }
            },
            None => {},
        }
    }
}

proof fn lemma_body_walk_keys_valid(
    lines: Seq<Seq<char>>,
    i: int,
    subj: crate::grammar::SubjectView,
    body: Option<Seq<char>>,
    prev_blank: bool,
)
    ensures
        match spec_parse_body(lines, i, subj, body, prev_blank) {
            Ok(m) => match m.footer {
                Some(ps) => all_keys_valid(ps),
                None => true,
            },
            Err(e) => true,
        },
    decreases lines.len() - i,
{
    if 0 <= i < lines.len() {
        if prev_blank && is_footer_start(lines[i]) {
            let kv = spec_footer_split(lines[i])->Some_0;
            let trimmed = match body {
                Some(b) => Some(crate::grammar::strip_trailing_nl(b)),
                None => None,
            };
            assert(all_keys_valid(seq![(kv.0, kv.1)]));
            lemma_footer_walk_keys_valid(lines, i + 1, subj, trimmed, seq![(kv.0, kv.1)]);
        } else {
            let nb = match body {
                Some(b) => b + seq!['\n'] + lines[i],
                None => lines[i],
            };
            lemma_body_walk_keys_valid(lines, i + 1, subj, Some(nb), lines[i].len() == 0);
        }
    }
}

/// Footer-key validity: any footer of a successfully parsed message holds
/// only valid keys — no key with whitespace but the literal breaking-change
/// key can enter it.
pub proof fn lemma_parsed_footer_keys_valid(s: Seq<char>, m: MessageView)
    requires
        spec_parse(s) == Ok::<MessageView, ConvcoError>(m),
        m.footer is Some,
    ensures
        all_keys_valid(m.footer->Some_0),
{
    let lines = crate::grammar::spec_lines(s);
    match crate::grammar::spec_subject(lines[0]) {
        Ok(subj) => {
            if lines.len() > 1 && lines[1].len() == 0 {
                lemma_body_walk_keys_valid(lines, 2, subj, None, true);
            }
        },
        Err(e) => {},
    }
}

// ------------------------------------------------------------------
// Round trip: helper lemmas on lines and joining
// ------------------------------------------------------------------
/// A sequence that can stand as one line: no newline, no carriage return.
pub open spec fn line_clean(s: Seq<char>) -> bool {
    forall|i: int| 0 <= i < s.len() ==> #[trigger] s[i] != '\n' && s[i] != '\r'
}

proof fn lemma_join_concat(ls1: Seq<Seq<char>>, ls2: Seq<Seq<char>>)
    requires
        ls1.len() >= 1,
        ls2.len() >= 1,
    ensures
        join_nl(ls1 + ls2) == join_nl(ls1) + seq!['\n'] + join_nl(ls2),
    decreases ls2.len(),
{
    if ls2.len() == 1 {
        assert((ls1 + ls2).drop_last() =~= ls1);
        assert((ls1 + ls2).last() == ls2[0]);
        assert(join_nl(ls2) == ls2[0]);
    } else {
        assert((ls1 + ls2).drop_last() =~= ls1 + ls2.drop_last());
        assert((ls1 + ls2).last() == ls2.last());
        lemma_join_concat(ls1, ls2.drop_last());
        assert(join_nl(ls1) + seq!['\n'] + join_nl(ls2.drop_last()) + seq!['\n'] + ls2.last()
            =~= join_nl(ls1) + seq!['\n'] + (join_nl(ls2.drop_last()) + seq!['\n'] + ls2.last()));
    }
}

/// Splitting the join of clean lines gives the lines back.
proof fn lemma_lines_of_join(ls: Seq<Seq<char>>)
    requires
        ls.len() >= 1,
        forall|i: int| 0 <= i < ls.len() ==> line_clean(#[trigger] ls[i]),
        ls.last().len() > 0,
    ensures
        spec_lines(join_nl(ls)) == ls,
    decreases ls.len(),
{
    if ls.len() == 1 {
        let l = ls[0];
        assert(join_nl(ls) == l);
        assert(l.len() > 0);
        lemma_find_nl_at(l, l.len() as int);
        assert(strip_cr(l) == l);
        assert(spec_lines(l) =~= ls);
    } else {
        let l0 = ls[0];
        let rest = ls.drop_first();
        assert(seq![l0] + rest =~= ls);
        lemma_join_concat(seq![l0], rest);
        assert(join_nl(seq![l0]) == l0);
        let s = join_nl(ls);
        assert(s =~= l0 + seq!['\n'] + join_nl(rest));
        let j = l0.len() as int;
        assert forall|k: int| 0 <= k < j implies #[trigger] s[k] != '\n' by {
            assert(s[k] == l0[k]);
        }
        assert(s[j] == '\n');
        assert(s.len() > 0);
        lemma_find_nl_at(s, j);
        assert(s.take(j) =~= l0);
        assert(strip_cr(l0) == l0);
        assert(s.skip(j + 1) =~= join_nl(rest));
        assert(forall|i: int| 0 <= i < rest.len() ==> rest[i] == #[trigger] ls[i + 1]);
        lemma_lines_of_join(rest);
        assert(spec_lines(s) == seq![l0] + rest);
        assert(seq![l0] + rest =~= ls);
    }
}

/// The lines of a text without carriage returns are clean.
proof fn lemma_lines_clean(s: Seq<char>)
    requires
        forall|i: int| 0 <= i < s.len() ==> #[trigger] s[i] != '\r',
    ensures
        forall|j: int| 0 <= j < spec_lines(s).len() ==> line_clean(#[trigger] spec_lines(s)[j]),
    decreases s.len(),
{
    if s.len() > 0 {
        crate::grammar::lemma_find_nl_range(s);
        let i = find_nl(s);
        if i == s.len() {
            assert(strip_cr(s) == s);
            assert(line_clean(s));
        } else {
            let l = s.take(i);
            assert forall|k: int| 0 <= k < l.len() implies #[trigger] l[k] != '\n' && l[k]
                != '\r' by {
                assert(l[k] == s[k]);
            }
            assert(strip_cr(l) == l);
            let rest = s.skip(i + 1);
            assert(forall|k: int| 0 <= k < rest.len() ==> #[trigger] rest[k] == s[k + i + 1]);
            lemma_lines_clean(rest);
            assert forall|j: int|
                0 <= j < spec_lines(s).len() implies line_clean(#[trigger] spec_lines(s)[j]) by {
                if j > 0 {
                    assert(spec_lines(s)[j] == spec_lines(rest)[j - 1]);
                }
            }
        }
    }
}

/// A text that does not end in a newline ends in a non-empty line.
proof fn lemma_lines_last(s: Seq<char>)
    requires
        s.len() > 0,
        s.last() != '\n',
        forall|i: int| 0 <= i < s.len() ==> #[trigger] s[i] != '\r',
    ensures
        spec_lines(s).len() >= 1,
        spec_lines(s).last().len() > 0,
    decreases s.len(),
{
    crate::grammar::lemma_find_nl_range(s);
    let i = find_nl(s);
    if i == s.len() {
        assert(strip_cr(s) == s);
    } else {
        let rest = s.skip(i + 1);
        assert(rest.len() > 0) by {
            if i + 1 == s.len() {
                assert(s.last() == s[i]);
            }
        }
        assert(rest.last() == s.last());
        assert(forall|k: int| 0 <= k < rest.len() ==> #[trigger] rest[k] == s[k + i + 1]);
        lemma_lines_last(rest);
        assert(spec_lines(s).last() == spec_lines(rest).last());
    }
}

/// Joining the lines of a text without carriage returns and without a
/// trailing newline gives the text back.
proof fn lemma_join_lines_id(s: Seq<char>)
    requires
        s.len() > 0,
        s.last() != '\n',
        forall|i: int| 0 <= i < s.len() ==> #[trigger] s[i] != '\r',
    ensures
        join_nl(spec_lines(s)) == s,
    decreases s.len(),
{
    crate::grammar::lemma_find_nl_range(s);
    let i = find_nl(s);
    if i == s.len() {
        assert(strip_cr(s) == s);
        assert(join_nl(seq![s]) == s);
    } else {
        let l = s.take(i);
        assert(strip_cr(l) == l) by {
            if l.len() > 0 {
                assert(l.last() == s[i - 1]);
            }
        }
        let rest = s.skip(i + 1);
        assert(rest.len() > 0) by {
            if i + 1 == s.len() {
                assert(s.last() == s[i]);
            }
        }
        assert(rest.last() == s.last());
        assert(forall|k: int| 0 <= k < rest.len() ==> #[trigger] rest[k] == s[k + i + 1]);
        lemma_join_lines_id(rest);
        lemma_lines_last(rest);
        assert(spec_lines(s) == seq![l] + spec_lines(rest));
        lemma_join_concat(seq![l], spec_lines(rest));
        assert(join_nl(seq![l]) == l);
        assert(l + seq!['\n'] + rest =~= s);
    }
}

/// One more line joined onto a prefix of lines.
proof fn lemma_join_take_step(ls: Seq<Seq<char>>, t: int)
    requires
        1 <= t < ls.len(),
    ensures
        join_nl(ls.take(t + 1)) == join_nl(ls.take(t)) + seq!['\n'] + ls[t],
{
    assert(ls.take(t + 1).drop_last() =~= ls.take(t));
    assert(ls.take(t + 1).last() == ls[t]);
}

// ------------------------------------------------------------------
// Round trip: the subject line
// ------------------------------------------------------------------
/// A valid footer key holds neither a newline nor a carriage return.
proof fn lemma_valid_key_clean(k: Seq<char>)
    requires
        is_valid_footer_key(k),
    ensures
        line_clean(k),
{
    if has_no_ws(k) {
        assert forall|i: int| 0 <= i < k.len() implies #[trigger] k[i] != '\n' && k[i] != '\r' by {
            assert(!is_ws_char(k[i]));
        }
    } else {
        assert(k == bc_key());
        assert forall|i: int| 0 <= i < k.len() implies #[trigger] k[i] != '\n' && k[i] != '\r' by {
            assert(bc_key()[i] == k[i]);
        }
    }
}

/// A valid footer key holds no `": "` pair.
proof fn lemma_valid_key_no_sep(k: Seq<char>)
    requires
        is_valid_footer_key(k),
    ensures
        forall|p: int| 0 <= p && p + 1 < k.len() ==> !(k[p] == ':' && #[trigger] k[p + 1] == ' '),
{
    if has_no_ws(k) {
        assert forall|p: int| 0 <= p && p + 1 < k.len() implies !(k[p] == ':' && #[trigger] k[p
            + 1] == ' ') by {
            assert(!is_ws_char(k[p + 1]));
        }
    } else {
        assert(k == bc_key());
        assert forall|p: int| 0 <= p && p + 1 < k.len() implies !(k[p] == ':' && #[trigger] k[p
            + 1] == ' ') by {
            assert(bc_key()[p] == k[p]);
        }
    }
}

/// The split of a formatted footer line recovers its key and value.
proof fn lemma_footer_line_split(k: Seq<char>, v: Seq<char>)
    requires
        is_valid_footer_key(k),
    ensures
        spec_footer_split(footer_line_seq((k, v))) == Some((k, v)),
        is_footer_start(footer_line_seq((k, v))),
{
    let line = footer_line_seq((k, v));
    lemma_valid_key_no_sep(k);
    assert forall|p: int| 0 <= p < k.len() implies !(line[p] == ':' && #[trigger] line[p + 1]
        == ' ') by {
        if p + 1 < k.len() {
            assert(line[p] == k[p] && line[p + 1] == k[p + 1]);
        } else {
            assert(line[p + 1] == ':');
        }
    }
    assert(line[k.len() as int] == ':' && line[k.len() as int + 1] == ' ');
    lemma_first_colon_space_at(line, 0, k.len() as int);
    assert(line.take(k.len() as int) =~= k);
    assert(line.skip(k.len() as int + 2) =~= v);
}

/// The empty line does not open a footer.
proof fn lemma_empty_line_not_footer()
    ensures
        !is_footer_start(Seq::<char>::empty()),
{
    let e = Seq::<char>::empty();
    lemma_first_colon_space_none(e, 0);
}

/// No line of the body can be mistaken for the start of the footer: the
/// first body line is not footer-shaped, and no body line right after a
/// blank one is. This is the documented ambiguity of the grammar.
pub open spec fn no_footer_ambiguity(b: Seq<char>) -> bool {
    let bl = spec_lines(b);
    &&& (bl.len() > 0 ==> !is_footer_start(bl[0]))
    &&& forall|i: int| 1 <= i < bl.len() ==> (bl[i - 1].len() == 0 ==> !is_footer_start(#[trigger] bl[i]))
}

/// A body the formatter can write and the parser read back: non-empty, no
/// carriage return, no trailing newline, and no footer ambiguity.
pub open spec fn body_rt_wf(b: Seq<char>) -> bool {
    &&& b.len() > 0
    &&& b.last() != '\n'
    &&& (forall|i: int| 0 <= i < b.len() ==> #[trigger] b[i] != '\r')
    &&& no_footer_ambiguity(b)
}

/// A footer the formatter can write and the parser read back: at least one
/// entry, valid and pairwise distinct keys, single-line values.
pub open spec fn footer_rt_wf(ps: Seq<(Seq<char>, Seq<char>)>) -> bool {
    &&& ps.len() > 0
    &&& footer_keys_unique(ps)
    &&& all_keys_valid(ps)
    &&& forall|i: int| 0 <= i < ps.len() ==> line_clean((#[trigger] ps[i]).1)
}

/// A message value producible by the formatter from valid fields, without
/// the grammar's documented ambiguities: the round-trip law holds of
/// exactly these.
pub open spec fn rt_wf(m: MessageView) -> bool {
    &&& m.typ.len() > 0 && all_word_chars(m.typ) && has_no_upper(m.typ)
    &&& match m.scope {
        Some(sc) => sc.len() > 0 && all_word_chars(sc) && has_no_upper(sc),
        None => true,
    }
    &&& m.desc.len() > 0 && is_lower_alpha(m.desc[0]) && line_clean(m.desc)
    &&& match m.body {
        Some(b) => body_rt_wf(b),
        None => true,
    }
    &&& match m.footer {
        Some(ps) => footer_rt_wf(ps),
        None => true,
    }
}

/// The parse of a well-formed message's subject line recovers its parts.
proof fn lemma_subject_round_trip(m: MessageView)
    requires
        rt_wf(m),
    ensures
        spec_subject(spec_subject_line(m)) == Ok::<SubjectView, ConvcoError>(
            SubjectView { typ: m.typ, scope: m.scope, breaking: m.is_breaking, desc: m.desc },
        ),
{
    let line = spec_subject_line(m);
    let tl = m.typ.len() as int;
    assert(forall|k: int| 0 <= k < tl ==> #[trigger] line[k] == m.typ[k]);
    let p = match m.scope {
        Some(sc) => tl + 2 + sc.len() as int,
        None => tl,
    };
    let q = if m.is_breaking {
        p + 1
    } else {
        p
    };
    assert(line[q] == ':' && line[q + 1] == ' ');
    match m.scope {
        Some(sc) => {
            assert(line[tl] == '(');
            assert(forall|k: int| tl + 1 <= k < tl + 1 + sc.len() ==> #[trigger] line[k] == sc[k
                - (tl + 1)]);
            assert(line[tl + 1 + sc.len()] == ')');
        },
        None => {
            if m.is_breaking {
                assert(line[tl] == '!');
            } else {
                assert(line[tl] == ':');
            }
        },
    }
    lemma_scan_word_at(line, 0, tl);
    assert(line.take(tl) =~= m.typ);
    match m.scope {
        Some(sc) => {
            let k = tl + 1 + sc.len() as int;
            lemma_scan_word_at(line, tl + 1, k);
            assert(line.subrange(tl + 1, k) =~= sc);
            if m.is_breaking {
                assert(line[k + 1] == '!');
            }
        },
        None => {},
    }
    if m.is_breaking {
        assert(line[p] == '!');
    } else {
        assert(line[p] == ':');
    }
    let desc = line.skip(q + 2);
    assert(desc =~= m.desc);
}

// ------------------------------------------------------------------
// Round trip: the line machine run over a formatted message
// ------------------------------------------------------------------
proof fn lemma_insert_fresh(ps: Seq<(Seq<char>, Seq<char>)>, k: Seq<char>, v: Seq<char>)
    requires
        forall|i: int| 0 <= i < ps.len() ==> (#[trigger] ps[i]).0 != k,
    ensures
        spec_footer_insert(ps, k, v) == ps.push((k, v)),
    decreases ps.len(),
{
    if ps.len() == 0 {
        assert(spec_footer_insert(ps, k, v) =~= ps.push((k, v)));
    } else {
        assert(ps[0].0 != k);
        assert(forall|i: int|
            0 <= i < ps.drop_first().len() ==> #[trigger] ps.drop_first()[i] == ps[i + 1]);
        lemma_insert_fresh(ps.drop_first(), k, v);
        assert(seq![ps[0]] + ps.drop_first().push((k, v)) =~= ps.push((k, v)));
    }
}

/// Running the footer state over the remaining formatted footer lines
/// accumulates exactly the remaining pairs.
proof fn lemma_footer_walk_rt(
    lines: Seq<Seq<char>>,
    i: int,
    subj: SubjectView,
    body: Option<Seq<char>>,
    ps: Seq<(Seq<char>, Seq<char>)>,
    t: int,
)
    requires
        footer_rt_wf(ps),
        1 <= t <= ps.len(),
        0 <= i <= lines.len(),
        lines.len() - i == ps.len() - t,
        forall|x: int|
            0 <= x < ps.len() - t ==> lines[i + x] == footer_line_seq(#[trigger] ps[t + x]),
    ensures
        spec_parse_footer(lines, i, subj, body, ps.take(t)) == Ok::<MessageView, ConvcoError>(
            finish_msg(subj, body, Some(ps)),
        ),
    decreases ps.len() - t,
{
    if t == ps.len() {
        assert(ps.take(t) =~= ps);
    } else {
        assert(lines[i] == footer_line_seq(ps[t + 0]));
        lemma_footer_line_split(ps[t].0, ps[t].1);
        assert forall|j: int| 0 <= j < t implies (#[trigger] ps.take(t)[j]).0 != ps[t].0 by {
            assert(ps.take(t)[j] == ps[j]);
        }
        lemma_insert_fresh(ps.take(t), ps[t].0, ps[t].1);
        assert(ps.take(t).push((ps[t].0, ps[t].1)) =~= ps.take(t + 1));
        assert forall|x: int|
            0 <= x < ps.len() - (t + 1) implies lines[i + 1 + x] == footer_line_seq(
            #[trigger] ps[t + 1 + x],
        ) by {
            assert(lines[i + (x + 1)] == footer_line_seq(ps[t + (x + 1)]));
        }
        lemma_footer_walk_rt(lines, i + 1, subj, body, ps, t + 1);
    }
}

/// The end of a body followed by a footer: the blank line is consumed into
/// the body buffer, trimmed away again when the first footer line opens the
/// footer, and the footer walk finishes the message.
#[verifier::rlimit(100)]
proof fn lemma_body_end_tail(
    lines: Seq<Seq<char>>,
    i: int,
    subj: SubjectView,
    b: Seq<char>,
    bl: Seq<Seq<char>>,
    ps: Seq<(Seq<char>, Seq<char>)>,
)
    requires
        body_rt_wf(b),
        footer_rt_wf(ps),
        bl == spec_lines(b),
        bl.len() >= 1,
        0 <= i,
        lines.len() - i == 1 + ps.len(),
        lines[i] == Seq::<char>::empty(),
        forall|x: int|
            0 <= x < ps.len() ==> lines[i + 1 + x] == footer_line_seq(#[trigger] ps[x]),
    ensures
        spec_parse_body(lines, i, subj, Some(join_nl(bl)), bl[bl.len() - 1].len() == 0) == Ok::<
            MessageView,
            ConvcoError,
        >(finish_msg(subj, Some(b), Some(ps))),
{
    lemma_join_lines_id(b);
    lemma_empty_line_not_footer();
    let acc1 = join_nl(bl) + seq!['\n'] + lines[i];
    assert(acc1 =~= b + seq!['\n']);
    assert(lines[i + 1] == footer_line_seq(ps[0]));
    lemma_footer_line_split(ps[0].0, ps[0].1);
    lemma_strip_trailing_nl_at(b + seq!['\n'], b.len() as int);
    assert((b + seq!['\n']).take(b.len() as int) =~= b);
    assert(strip_trailing_nl(acc1) == b);
    assert(seq![(ps[0].0, ps[0].1)] =~= ps.take(1));
    assert forall|x: int|
        0 <= x < ps.len() - 1 implies lines[i + 2 + x] == footer_line_seq(
        #[trigger] ps[1 + x],
    ) by {
        assert(lines[i + 1 + (x + 1)] == footer_line_seq(ps[x + 1]));
    }
    lemma_footer_walk_rt(lines, i + 2, subj, Some(b), ps, 1);
    assert(spec_parse_body(lines, i + 1, subj, Some(acc1), true) == Ok::<
        MessageView,
        ConvcoError,
    >(finish_msg(subj, Some(b), Some(ps))));
}

/// Running the body state over the remaining formatted body lines of a
/// message without a footer rebuilds exactly the body.
#[verifier::rlimit(100)]
proof fn lemma_body_walk_none(
    lines: Seq<Seq<char>>,
    i: int,
    subj: SubjectView,
    b: Seq<char>,
    bl: Seq<Seq<char>>,
    t: int,
)
    requires
        body_rt_wf(b),
        bl == spec_lines(b),
        1 <= t <= bl.len(),
        0 <= i <= lines.len(),
        lines.len() - i == bl.len() - t,
        forall|x: int| 0 <= x < bl.len() - t ==> lines[i + x] == #[trigger] bl[t + x],
    ensures
        spec_parse_body(lines, i, subj, Some(join_nl(bl.take(t))), bl[t - 1].len() == 0) == Ok::<
            MessageView,
            ConvcoError,
        >(finish_msg(subj, Some(b), None)),
    decreases bl.len() - t,
{
    if t < bl.len() {
        assert(lines[i] == bl[t + 0]);
        if bl[t - 1].len() == 0 {
            assert(!is_footer_start(bl[t]));
        }
        lemma_join_take_step(bl, t);
        assert(join_nl(bl.take(t)) + seq!['\n'] + lines[i] =~= join_nl(bl.take(t + 1)));
        assert forall|x: int|
            0 <= x < bl.len() - (t + 1) implies lines[i + 1 + x] == #[trigger] bl[t + 1 + x] by {
            assert(lines[i + (x + 1)] == bl[t + (x + 1)]);
        }
        lemma_body_walk_none(lines, i + 1, subj, b, bl, t + 1);
    } else {
        lemma_join_lines_id(b);
        assert(bl.take(t) =~= bl);
        assert(finish_msg(subj, Some(join_nl(bl.take(t))), None) =~= finish_msg(
            subj,
            Some(b),
            None,
        ));
    }
}

/// Running the body state over the remaining formatted body lines, with the
/// footer block following, rebuilds exactly the body and footer.
#[verifier::rlimit(100)]
proof fn lemma_body_walk_tail(
    lines: Seq<Seq<char>>,
    i: int,
    subj: SubjectView,
    b: Seq<char>,
    bl: Seq<Seq<char>>,
    t: int,
    ps: Seq<(Seq<char>, Seq<char>)>,
)
    requires
        body_rt_wf(b),
        footer_rt_wf(ps),
        bl == spec_lines(b),
        1 <= t <= bl.len(),
        0 <= i <= lines.len(),
        lines.len() - i == (bl.len() - t) + 1 + ps.len(),
        forall|x: int| 0 <= x < bl.len() - t ==> lines[i + x] == #[trigger] bl[t + x],
        lines[i + (bl.len() - t)] == Seq::<char>::empty(),
        forall|x: int|
            0 <= x < ps.len() ==> lines[i + (bl.len() - t) + 1 + x] == footer_line_seq(
                #[trigger] ps[x],
            ),
    ensures
        spec_parse_body(lines, i, subj, Some(join_nl(bl.take(t))), bl[t - 1].len() == 0) == Ok::<
            MessageView,
            ConvcoError,
        >(finish_msg(subj, Some(b), Some(ps))),
    decreases bl.len() - t,
{
    if t < bl.len() {
        assert(lines[i] == bl[t + 0]);
        if bl[t - 1].len() == 0 {
            assert(!is_footer_start(bl[t]));
        }
        lemma_join_take_step(bl, t);
        assert(join_nl(bl.take(t)) + seq!['\n'] + lines[i] =~= join_nl(bl.take(t + 1)));
        assert forall|x: int|
            0 <= x < bl.len() - (t + 1) implies lines[i + 1 + x] == #[trigger] bl[t + 1 + x] by {
            assert(lines[i + (x + 1)] == bl[t + (x + 1)]);
        }
        assert(lines[i + 1 + (bl.len() - (t + 1))] == Seq::<char>::empty());
        assert forall|x: int|
            0 <= x < ps.len() implies lines[i + 1 + (bl.len() - (t + 1)) + 1 + x]
                == footer_line_seq(#[trigger] ps[x]) by {
            assert(lines[i + (bl.len() - t) + 1 + x] == footer_line_seq(ps[x]));
        }
        lemma_body_walk_tail(lines, i + 1, subj, b, bl, t + 1, ps);
    } else {
        assert(bl.take(t) =~= bl);
        lemma_body_end_tail(lines, i, subj, b, bl, ps);
    }
}

/// A sequence of word characters is a clean line.
proof fn lemma_word_clean(s: Seq<char>)
    requires
        all_word_chars(s),
    ensures
        line_clean(s),
{
    assert forall|i: int| 0 <= i < s.len() implies #[trigger] s[i] != '\n' && s[i] != '\r' by {
        assert(is_word_char(s[i]));
    }
}

/// The subject line of a well-formed message is one clean, non-empty line.
proof fn lemma_subject_line_clean(m: MessageView)
    requires
        rt_wf(m),
    ensures
        line_clean(spec_subject_line(m)),
        spec_subject_line(m).len() > 0,
{
    let line = spec_subject_line(m);
    lemma_word_clean(m.typ);
    match m.scope {
        Some(sc) => {
            lemma_word_clean(sc);
        },
        None => {},
    }
    let tl = m.typ.len() as int;
    let p = match m.scope {
        Some(sc) => tl + 2 + sc.len() as int,
        None => tl,
    };
    let q = if m.is_breaking {
        p + 1
    } else {
        p
    };
    assert forall|i: int| 0 <= i < line.len() implies #[trigger] line[i] != '\n' && line[i]
        != '\r' by {
        if i < tl {
            assert(line[i] == m.typ[i]);
        } else if i < p {
            match m.scope {
                Some(sc) => {
                    if i == tl {
                        assert(line[i] == '(');
                    } else if i < tl + 1 + sc.len() {
                        assert(line[i] == sc[i - (tl + 1)]);
                    } else {
                        assert(line[i] == ')');
                    }
                },
                None => {},
            }
        } else if i < q {
            assert(line[i] == '!');
        } else if i == q {
            assert(line[i] == ':');
        } else if i == q + 1 {
            assert(line[i] == ' ');
        } else {
            assert(line[i] == m.desc[i - (q + 2)]);
        }
    }
}

/// Every footer line of a well-formed footer is one clean, non-empty line.
proof fn lemma_footer_line_clean(p: (Seq<char>, Seq<char>))
    requires
        is_valid_footer_key(p.0),
        line_clean(p.1),
    ensures
        line_clean(footer_line_seq(p)),
        footer_line_seq(p).len() > 0,
{
    let line = footer_line_seq(p);
    lemma_valid_key_clean(p.0);
    let kl = p.0.len() as int;
    assert forall|i: int| 0 <= i < line.len() implies #[trigger] line[i] != '\n' && line[i]
        != '\r' by {
        if i < kl {
            assert(line[i] == p.0[i]);
        } else if i == kl {
            assert(line[i] == ':');
        } else if i == kl + 1 {
            assert(line[i] == ' ');
        } else {
            assert(line[i] == p.1[i - (kl + 2)]);
        }
    }
}

proof fn lemma_join_pair(a: Seq<char>, b: Seq<char>)
    ensures
        join_nl(seq![a, b]) == a + seq!['\n'] + b,
{
    let ls = seq![a, b];
    assert(ls.drop_last() =~= seq![a]);
    assert(join_nl(seq![a]) == a);
    assert(ls.last() == b);
}

proof fn lemma_rt_case_subject_only(m: MessageView)
    requires
        rt_wf(m),
        m.body is None,
        m.footer is None,
    ensures
        spec_parse(spec_format(m)) == Ok::<MessageView, ConvcoError>(m),
{
    let subj_line = spec_subject_line(m);
    let sv = SubjectView { typ: m.typ, scope: m.scope, breaking: m.is_breaking, desc: m.desc };
    lemma_subject_round_trip(m);
    lemma_subject_line_clean(m);
    assert(spec_format(m) =~= subj_line);
    assert(join_nl(seq![subj_line]) == subj_line);
    lemma_lines_of_join(seq![subj_line]);
    assert(spec_lines(spec_format(m)) == seq![subj_line]);
    assert(finish_msg(sv, None, None) =~= m);
}

#[verifier::rlimit(60)]
proof fn lemma_rt_case_footer_only(m: MessageView)
    requires
        rt_wf(m),
        m.body is None,
        m.footer is Some,
    ensures
        spec_parse(spec_format(m)) == Ok::<MessageView, ConvcoError>(m),
{
    let subj_line = spec_subject_line(m);
    let sv = SubjectView { typ: m.typ, scope: m.scope, breaking: m.is_breaking, desc: m.desc };
    let blank = Seq::<char>::empty();
    lemma_subject_round_trip(m);
    lemma_subject_line_clean(m);
    let ps = m.footer->Some_0;
    let fls = footer_lines_of(ps);
    assert(fls.len() == ps.len());
    let all = seq![subj_line, blank] + fls;
    lemma_join_concat(seq![subj_line, blank], fls);
    lemma_join_pair(subj_line, blank);
    assert(join_nl(all) =~= subj_line + seq!['\n', '\n'] + join_nl(fls));
    assert(spec_format(m) =~= join_nl(all));
    assert forall|i: int| 0 <= i < all.len() implies line_clean(#[trigger] all[i]) by {
        if i >= 2 {
            assert(all[i] == fls[i - 2]);
            assert(fls[i - 2] == footer_line_seq(ps[i - 2]));
            lemma_footer_line_clean(ps[i - 2]);
        }
    }
    assert(all.last() == footer_line_seq(ps[ps.len() - 1]));
    lemma_footer_line_clean(ps[ps.len() - 1]);
    lemma_lines_of_join(all);
    assert(spec_lines(spec_format(m)) == all);
    assert(all[0] == subj_line && all[1] == blank);
    assert(all[2] == fls[0] && fls[0] == footer_line_seq(ps[0]));
    lemma_footer_line_split(ps[0].0, ps[0].1);
    assert(seq![(ps[0].0, ps[0].1)] =~= ps.take(1));
    assert forall|x: int|
        0 <= x < ps.len() - 1 implies all[3 + x] == footer_line_seq(#[trigger] ps[1 + x]) by {
        assert(all[3 + x] == fls[1 + x]);
    }
    lemma_footer_walk_rt(all, 3, sv, None, ps, 1);
    assert(finish_msg(sv, None, Some(ps)) =~= m);
}

#[verifier::rlimit(60)]
proof fn lemma_rt_case_body_only(m: MessageView)
    requires
        rt_wf(m),
        m.body is Some,
        m.footer is None,
    ensures
        spec_parse(spec_format(m)) == Ok::<MessageView, ConvcoError>(m),
{
    let subj_line = spec_subject_line(m);
    let sv = SubjectView { typ: m.typ, scope: m.scope, breaking: m.is_breaking, desc: m.desc };
    let blank = Seq::<char>::empty();
    lemma_subject_round_trip(m);
    lemma_subject_line_clean(m);
    let b = m.body->Some_0;
    let bl = spec_lines(b);
    lemma_lines_clean(b);
    lemma_lines_last(b);
    lemma_join_lines_id(b);
    let all = seq![subj_line, blank] + bl;
    lemma_join_concat(seq![subj_line, blank], bl);
    lemma_join_pair(subj_line, blank);
    assert(join_nl(all) =~= subj_line + seq!['\n', '\n'] + b);
    assert(spec_format(m) =~= join_nl(all));
    assert forall|i: int| 0 <= i < all.len() implies line_clean(#[trigger] all[i]) by {
        if i >= 2 {
            assert(all[i] == bl[i - 2]);
        }
    }
    assert(all.last() == bl.last());
    lemma_lines_of_join(all);
    assert(spec_lines(spec_format(m)) == all);
    assert(all[0] == subj_line && all[1] == blank);
    assert(all[2] == bl[0]);
    assert(!is_footer_start(bl[0]));
    assert(bl.take(1) =~= seq![bl[0]]);
    assert(join_nl(bl.take(1)) == bl[0]);
    assert forall|x: int| 0 <= x < bl.len() - 1 implies all[3 + x] == #[trigger] bl[1 + x] by {
        assert(all[3 + x] == bl[(3 + x) - 2]);
    }
    lemma_body_walk_none(all, 3, sv, b, bl, 1);
    assert(finish_msg(sv, Some(b), None) =~= m);
}

/// The lines of a formatted message with both a body and a footer.
spec fn spec_all_lines_d(m: MessageView) -> Seq<Seq<char>> {
    seq![spec_subject_line(m), Seq::<char>::empty()] + spec_lines(m.body->Some_0) + seq![
        Seq::<char>::empty(),
    ] + footer_lines_of(m.footer->Some_0)
}

#[verifier::rlimit(100)]
proof fn lemma_rt_case_d_lines(m: MessageView)
    requires
        rt_wf(m),
        m.body is Some,
        m.footer is Some,
    ensures
        spec_lines(spec_format(m)) == spec_all_lines_d(m),
{
    let subj_line = spec_subject_line(m);
    let blank = Seq::<char>::empty();
    lemma_subject_line_clean(m);
    let b = m.body->Some_0;
    let ps = m.footer->Some_0;
    let bl = spec_lines(b);
    lemma_lines_clean(b);
    lemma_lines_last(b);
    lemma_join_lines_id(b);
    let head = seq![subj_line, blank] + bl;
    lemma_join_concat(seq![subj_line, blank], bl);
    lemma_join_pair(subj_line, blank);
    assert(join_nl(head) =~= subj_line + seq!['\n', '\n'] + b);
    let fls = footer_lines_of(ps);
    assert(fls.len() == ps.len());
    let tail = seq![blank] + fls;
    let all = head + tail;
    assert(all =~= spec_all_lines_d(m));
    lemma_join_concat(head, tail);
    lemma_join_concat(seq![blank], fls);
    assert(join_nl(seq![blank]) == blank);
    assert(join_nl(tail) =~= seq!['\n'] + join_nl(fls));
    assert(join_nl(all) =~= subj_line + seq!['\n', '\n'] + b + seq!['\n', '\n'] + join_nl(fls));
    assert(spec_format(m) =~= join_nl(all));
    assert forall|i: int| 0 <= i < all.len() implies line_clean(#[trigger] all[i]) by {
        if 2 <= i < 2 + bl.len() {
            assert(all[i] == bl[i - 2]);
        } else if i == 2 + bl.len() {
            assert(all[i] == blank);
        } else if i > 2 + bl.len() {
            assert(all[i] == fls[i - (3 + bl.len())]);
            assert(fls[i - (3 + bl.len())] == footer_line_seq(ps[i - (3 + bl.len())]));
            lemma_footer_line_clean(ps[i - (3 + bl.len())]);
        }
    }
    assert(all.last() == fls[ps.len() - 1]);
    lemma_footer_line_clean(ps[ps.len() - 1]);
    lemma_lines_of_join(all);
    assert(spec_lines(spec_format(m)) == all);
}

#[verifier::rlimit(100)]
proof fn lemma_rt_case_body_and_footer(m: MessageView)
    requires
        rt_wf(m),
        m.body is Some,
        m.footer is Some,
    ensures
        spec_parse(spec_format(m)) == Ok::<MessageView, ConvcoError>(m),
{
    let subj_line = spec_subject_line(m);
    let sv = SubjectView { typ: m.typ, scope: m.scope, breaking: m.is_breaking, desc: m.desc };
    let blank = Seq::<char>::empty();
    lemma_subject_round_trip(m);
    let b = m.body->Some_0;
    let ps = m.footer->Some_0;
    let bl = spec_lines(b);
    lemma_lines_last(b);
    let fls = footer_lines_of(ps);
    let all = spec_all_lines_d(m);
    lemma_rt_case_d_lines(m);
    assert(all.len() == 2 + bl.len() + 1 + ps.len());
    assert(all[0] == subj_line && all[1] == blank);
    assert(all[2] == bl[0]);
    assert(!is_footer_start(bl[0]));
    assert(bl.take(1) =~= seq![bl[0]]);
    assert(join_nl(bl.take(1)) == bl[0]);
    assert forall|x: int| 0 <= x < bl.len() - 1 implies all[3 + x] == #[trigger] bl[1 + x] by {
        assert(all[3 + x] == bl[(3 + x) - 2]);
    }
    assert(all[3 + (bl.len() - 1)] == blank);
    assert forall|x: int|
        0 <= x < ps.len() implies all[3 + (bl.len() - 1) + 1 + x] == footer_line_seq(
        #[trigger] ps[x],
    ) by {
        assert(all[3 + (bl.len() - 1) + 1 + x] == fls[x]);
        assert(fls[x] == footer_line_seq(ps[x]));
    }
    lemma_body_walk_tail(all, 3, sv, b, bl, 1, ps);
    assert(finish_msg(sv, Some(b), Some(ps)) =~= m);
}

/// Round trip: a message producible by the formatter from valid fields —
/// without the grammar's documented blank-line ambiguity — parses back from
/// its canonical text to the same value.
pub proof fn lemma_parse_format_round_trip(m: MessageView)
    requires
        rt_wf(m),
    ensures
        spec_parse(spec_format(m)) == Ok::<MessageView, ConvcoError>(m),
{
    match m.body {
        None => match m.footer {
            None => lemma_rt_case_subject_only(m),
            Some(ps) => lemma_rt_case_footer_only(m),
        },
        Some(b) => match m.footer {
            None => lemma_rt_case_body_only(m),
            Some(ps) => lemma_rt_case_body_and_footer(m),
        },
    }
}

} // verus!
