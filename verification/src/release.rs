//! Release helpers: the pure part of running the bump commands — the
//! version substituted for its `{{version}}` tag, and the command text
//! split into its program and arguments. Running the command is the
//! caller's business.

use vstd::prelude::*;
use vstd::string::*;

use crate::chars::{matches_at, string_of_range};

verus! {

/// A text with every occurrence of a non-empty pattern replaced, scanning
/// left to right over non-overlapping matches.
pub open spec fn spec_replace(s: Seq<char>, pat: Seq<char>, to: Seq<char>) -> Seq<char>
    decreases s.len(),
{
    if pat.len() == 0 || s.len() < pat.len() {
        s
    } else if s.take(pat.len() as int) == pat {
        to + spec_replace(s.skip(pat.len() as int), pat, to)
    } else {
        s.take(1) + spec_replace(s.skip(1), pat, to)
    }
}

/// A bump command with the version substituted for each `{{version}}` tag.
pub fn substitute_version(cmd: &str, version: &str) -> (r: String)
    ensures
        r@ == spec_replace(cmd@, "{{version}}"@, version@),
{
    let pat = "{{version}}";
    let plen = pat.unicode_len();
    let len = cmd.unicode_len();
    let mut out = String::new();
    let mut pos: usize = 0;
    proof {
        assert(cmd@.skip(0) =~= cmd@);
    }
    while pos < len
        invariant
            pos <= len,
            len == cmd@.len(),
            plen == pat@.len(),
            pat@ == "{{version}}"@,
            spec_replace(cmd@, "{{version}}"@, version@) == out@ + spec_replace(
                cmd@.skip(pos as int),
                "{{version}}"@,
                version@,
            ),
        decreases len - pos,
    {
        proof {
            reveal_strlit("{{version}}");
        }
        let ghost rem = cmd@.skip(pos as int);
        if plen <= len - pos && matches_at(cmd, pos, pat) {
            out.append(version);
            proof {
                assert(rem.take(plen as int) =~= cmd@.subrange(pos as int, pos + plen));
                assert(rem.skip(plen as int) =~= cmd@.skip(pos + plen));
            }
            pos = pos + plen;
        } else {
            let piece = string_of_range(cmd, pos, pos + 1);
            out.append(piece.as_str());
            proof {
                if plen <= rem.len() {
                    assert(rem.take(plen as int) =~= cmd@.subrange(pos as int, pos + plen));
                }
                assert(rem.take(1) =~= cmd@.subrange(pos as int, pos as int + 1));
                assert(rem.skip(1) =~= cmd@.skip(pos as int + 1));
            }
            pos = pos + 1;
        }
    }
    proof {
        assert(cmd@.skip(len as int) =~= Seq::<char>::empty());
    }
    out
}

/// Index of the first occurrence of the character, or the length when there
/// is none.
pub open spec fn find_char_idx(s: Seq<char>, c: char) -> int
    decreases s.len(),
{
    if s.len() == 0 {
        0
    } else if s[0] == c {
        0
    } else {
        1 + find_char_idx(s.drop_first(), c)
    }
}

proof fn lemma_find_char_range(s: Seq<char>, c: char)
    ensures
        0 <= find_char_idx(s, c) <= s.len(),
    decreases s.len(),
{
    if s.len() > 0 && s[0] != c {
        lemma_find_char_range(s.drop_first(), c);
    }
}

proof fn lemma_find_char_at(s: Seq<char>, c: char, j: int)
    requires
        0 <= j <= s.len(),
        forall|k: int| 0 <= k < j ==> #[trigger] s[k] != c,
        j < s.len() ==> s[j] == c,
    ensures
        find_char_idx(s, c) == j,
    decreases j,
{
    if j > 0 {
        assert(forall|k: int|
            0 <= k < s.drop_first().len() ==> #[trigger] s.drop_first()[k] == s[k + 1]);
        lemma_find_char_at(s.drop_first(), c, j - 1);
    }
}

/// The pieces of a text split on a character: one more piece than there are
/// separators, empty pieces kept.
pub open spec fn spec_split_char(s: Seq<char>, c: char) -> Seq<Seq<char>>
    decreases s.len(),
    via spec_split_char_decreases
{
    let i = find_char_idx(s, c);
    if i == s.len() {
        seq![s]
    } else {
        seq![s.take(i)] + spec_split_char(s.skip(i + 1), c)
    }
}

#[via_fn]
proof fn spec_split_char_decreases(s: Seq<char>, c: char) {
    lemma_find_char_range(s, c);
}

/// A bump command split into its space-separated parts: the program first,
/// then its arguments; empty parts are kept as the shell split would not.
pub fn split_command(cmd: &str) -> (parts: Vec<String>)
    ensures
        parts@.map_values(|p: String| p@) == spec_split_char(cmd@, ' '),
        parts@.len() >= 1,
{
    let len = cmd.unicode_len();
    let mut parts: Vec<String> = Vec::new();
    let mut pos: usize = 0;
    proof {
        assert(cmd@.skip(0) =~= cmd@);
    }
    loop
        invariant_except_break
            pos <= len,
            len == cmd@.len(),
            spec_split_char(cmd@, ' ') == parts@.map_values(|p: String| p@) + spec_split_char(
                cmd@.skip(pos as int),
                ' ',
            ),
        ensures
            parts@.map_values(|p: String| p@) == spec_split_char(cmd@, ' '),
            parts@.len() >= 1,
        decreases len - pos + 1,
    {
        let ghost prefix = parts@.map_values(|p: String| p@);
        let ghost rem = cmd@.skip(pos as int);
        let mut j = pos;
        loop
            invariant_except_break
                pos <= j <= len,
                len == cmd@.len(),
                forall|k: int| pos <= k < j ==> cmd@[k] != ' ',
            ensures
                pos <= j <= len,
                forall|k: int| pos <= k < j ==> cmd@[k] != ' ',
                j < len ==> cmd@[j as int] == ' ',
                len == cmd@.len(),
            decreases len - j,
        {
            if j == len {
                break;
            }
            if cmd.get_char(j) == ' ' {
                break;
            }
            j = j + 1;
        }
        proof {
            assert forall|k: int| 0 <= k < j - pos implies #[trigger] rem[k] != ' ' by {
                assert(rem[k] == cmd@[pos + k]);
            }
            if j < len {
                assert(rem[j - pos] == cmd@[j as int]);
            }
            lemma_find_char_at(rem, ' ', j - pos);
        }
        let piece = string_of_range(cmd, pos, j);
        parts.push(piece);
        proof {
            assert(parts@.map_values(|p: String| p@) =~= prefix.push(
                cmd@.subrange(pos as int, j as int),
            ));
        }
        if j == len {
            proof {
                assert(rem.take(j - pos) =~= rem);
                assert(spec_split_char(rem, ' ') =~= seq![cmd@.subrange(pos as int, j as int)]);
                assert(prefix.push(cmd@.subrange(pos as int, j as int)) =~= prefix + seq![
                    cmd@.subrange(pos as int, j as int),
                ]);
            }
            break;
        }
        proof {
            assert(rem.take(j - pos) =~= cmd@.subrange(pos as int, j as int));
            assert(rem.skip(j - pos + 1) =~= cmd@.skip(j + 1));
            assert(prefix.push(cmd@.subrange(pos as int, j as int)) + spec_split_char(
                cmd@.skip(j + 1),
                ' ',
            ) =~= prefix + (seq![cmd@.subrange(pos as int, j as int)] + spec_split_char(
                cmd@.skip(j + 1),
                ' ',
            )));
        }
        pos = j + 1;
    }
    parts
}

} // verus!
