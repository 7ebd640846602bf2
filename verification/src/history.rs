//! The commit-history resolver: a single backward walk over the commit log
//! (newest first) that parses each message, attaches the tag that targets
//! the commit and the nearest release tag reachable toward the head,
//! aggregates the increments of the unreleased commits, and computes the
//! current and next version.

use vstd::prelude::*;
use vstd::string::*;

use crate::chars::{seq_views, string_of_range};
use crate::config::Config;
use crate::convco::ConvcoMessage;
use crate::grammar::{find_nl, lemma_find_nl_at, spec_parse, strip_cr, MessageView};
use crate::version::{
    classify, spec_apply_incr, spec_classify, spec_incr_max, spec_semver_lt, spec_semver_str,
    spec_tag_version, tag_version, SemVer, VersionIncr,
};

verus! {

/// A raw commit, as the version-control collaborator hands it over: plain
/// identifiers and text, the date as a Unix timestamp in seconds.
#[derive(Debug)]
pub struct GitCommit {
    /// ID (hash).
    pub id: String,
    /// Commit date, as a Unix timestamp in seconds.
    pub timestamp: i64,
    /// Author name.
    pub author_name: String,
    /// Author email.
    pub author_email: String,
    /// Committer name.
    pub committer_name: String,
    /// Committer email.
    pub committer_email: String,
    /// Raw message.
    pub message: String,
}

/// The abstract value of a raw commit.
pub struct GitCommitView {
    pub id: Seq<char>,
    pub timestamp: i64,
    pub author_name: Seq<char>,
    pub author_email: Seq<char>,
    pub committer_name: Seq<char>,
    pub committer_email: Seq<char>,
    pub message: Seq<char>,
}

impl View for GitCommit {
    type V = GitCommitView;

    open spec fn view(&self) -> GitCommitView {
        GitCommitView {
            id: self.id@,
            timestamp: self.timestamp,
            author_name: self.author_name@,
            author_email: self.author_email@,
            committer_name: self.committer_name@,
            committer_email: self.committer_email@,
            message: self.message@,
        }
    }
}

/// A git tag; a lightweight tag has no message of its own.
#[derive(Debug)]
pub struct Tag {
    /// ID (hash).
    pub id: String,
    /// Tag date, as a Unix timestamp in seconds.
    pub timestamp: i64,
    /// Name (short).
    pub name: String,
    /// Full reference name.
    pub name_full: String,
    /// Tag message; `None` for a lightweight tag.
    pub message: Option<String>,
    /// ID (hash) of the commit the tag targets.
    pub commit_id: String,
}

/// The abstract value of a tag.
pub struct TagView {
    pub id: Seq<char>,
    pub timestamp: i64,
    pub name: Seq<char>,
    pub name_full: Seq<char>,
    pub message: Option<Seq<char>>,
    pub commit_id: Seq<char>,
}

impl View for Tag {
    type V = TagView;

    open spec fn view(&self) -> TagView {
        TagView {
            id: self.id@,
            timestamp: self.timestamp,
            name: self.name@,
            name_full: self.name_full@,
            message: match self.message {
                Some(m) => Some(m@),
                None => None,
            },
            commit_id: self.commit_id@,
        }
    }
}

impl Clone for Tag {
    /// A clone carries the same value in every field.
    fn clone(&self) -> (r: Self)
        ensures
            r == *self,
    {
        Tag {
            id: self.id.clone(),
            timestamp: self.timestamp,
            name: self.name.clone(),
            name_full: self.name_full.clone(),
            message: match &self.message {
                Some(m) => Some(m.clone()),
                None => None,
            },
            commit_id: self.commit_id.clone(),
        }
    }
}

impl Tag {
    /// Whether the tag is annotated, that is, carries its own message.
    pub fn is_annotated(&self) -> (r: bool)
        ensures
            r == (self@.message is Some),
    {
        self.message.is_some()
    }
}

/// The views of a sequence of raw commits.
pub open spec fn gviews(v: Seq<GitCommit>) -> Seq<GitCommitView> {
    v.map_values(|c: GitCommit| c@)
}

/// The views of a sequence of tags.
pub open spec fn tviews(v: Seq<Tag>) -> Seq<TagView> {
    v.map_values(|t: Tag| t@)
}

/// The view of an optional tag.
pub open spec fn view_opt_tag(o: Option<Tag>) -> Option<TagView> {
    match o {
        Some(t) => Some(t@),
        None => None,
    }
}

/// The view of an optional message.
pub open spec fn view_opt_msg(o: Option<ConvcoMessage>) -> Option<MessageView> {
    match o {
        Some(m) => Some(m@),
        None => None,
    }
}

/// The parse of a commit message: its value when it is conventional,
/// nothing otherwise.
pub open spec fn spec_conv_message(m: Seq<char>) -> Option<MessageView> {
    match spec_parse(m) {
        Ok(x) => Some(x),
        Err(e) => None,
    }
}

/// The tag targeting a commit: of the tags whose target is the commit, the
/// last one in the index order.
pub open spec fn spec_find_tag(tags: Seq<TagView>, id: Seq<char>) -> Option<TagView>
    decreases tags.len(),
{
    if tags.len() == 0 {
        None
    } else if tags.last().commit_id == id {
        Some(tags.last())
    } else {
        spec_find_tag(tags.drop_last(), id)
    }
}

/// A release tag: annotated, and its name (less an optional leading `v`)
/// a valid semantic version.
pub open spec fn spec_is_release_tag(t: TagView) -> bool {
    t.message is Some && spec_tag_version(t.name) is Some
}

/// The version a release tag carries; nothing for a tag that is not one.
pub open spec fn spec_release_version(t: TagView) -> Option<SemVer> {
    if t.message is Some {
        match spec_tag_version(t.name) {
            Some(v) => Some(SemVer { major: v.0, minor: v.1, patch: v.2 }),
            None => None,
        }
    } else {
        None
    }
}

/// The nearest release tag seen after walking the first `i` commits
/// (newest first): the release tag of the last commit among them that
/// carries one.
pub open spec fn spec_latest_release_tag(
    cs: Seq<GitCommitView>,
    ts: Seq<TagView>,
    i: int,
) -> Option<TagView>
    decreases i,
{
    if i <= 0 {
        None
    } else {
        match spec_find_tag(ts, cs[i - 1].id) {
            Some(t) => if spec_is_release_tag(t) {
                Some(t)
            } else {
                spec_latest_release_tag(cs, ts, i - 1)
            },
            None => spec_latest_release_tag(cs, ts, i - 1),
        }
    }
}

/// The current version after walking the first `i` commits: the version of
/// the first (newest) release tag found.
pub open spec fn spec_curr_version(
    cs: Seq<GitCommitView>,
    ts: Seq<TagView>,
    i: int,
) -> Option<SemVer>
    decreases i,
{
    if i <= 0 {
        None
    } else {
        match spec_curr_version(cs, ts, i - 1) {
            Some(v) => Some(v),
            None => match spec_find_tag(ts, cs[i - 1].id) {
                Some(t) => spec_release_version(t),
                None => None,
            },
        }
    }
}

/// The largest increment among the unreleased commits of the first `i`: a
/// commit covered by a release tag (its own included) contributes nothing.
pub open spec fn spec_max_incr(
    cs: Seq<GitCommitView>,
    ts: Seq<TagView>,
    minor: Seq<Seq<char>>,
    i: int,
) -> VersionIncr
    decreases i,
{
    if i <= 0 {
        VersionIncr::NoChange
    } else {
        let prev = spec_max_incr(cs, ts, minor, i - 1);
        if spec_latest_release_tag(cs, ts, i) is Some {
            prev
        } else {
            spec_incr_max(prev, spec_classify(spec_conv_message(cs[i - 1].message), minor))
        }
    }
}

/// The ids of the commits among the first `i` whose message is not
/// conventional, in walk order.
pub open spec fn spec_warnings(cs: Seq<GitCommitView>, i: int) -> Seq<Seq<char>>
    decreases i,
{
    if i <= 0 {
        Seq::empty()
    } else {
        let w = spec_warnings(cs, i - 1);
        if spec_conv_message(cs[i - 1].message) is None {
            w.push(cs[i - 1].id)
        } else {
            w
        }
    }
}

/// A decorated commit: the raw commit joined with its parsed message, the
/// tag that targets it, and the release tag it belongs to.
#[derive(Debug)]
pub struct Commit {
    /// ID (hash).
    pub id: String,
    /// Commit date, as a Unix timestamp in seconds.
    pub timestamp: i64,
    /// Author name.
    pub author_name: String,
    /// Author email.
    pub author_email: String,
    /// Committer name.
    pub committer_name: String,
    /// Committer email.
    pub committer_email: String,
    /// Raw message.
    pub raw_message: String,
    /// Parsed conventional message; `None` if the raw message does not
    /// satisfy the grammar.
    pub conv_message: Option<ConvcoMessage>,
    /// Tag directly targeting this commit, lightweight or annotated.
    pub tag: Option<Tag>,
    /// Release tag the commit belongs to; `None` means unreleased.
    pub version_tag: Option<Tag>,
}

/// The first line of a text.
pub open spec fn spec_first_line(s: Seq<char>) -> Seq<char> {
    strip_cr(s.take(find_nl(s)))
}

/// The abstract value of a decorated commit.
pub struct CommitView {
    pub id: Seq<char>,
    pub timestamp: i64,
    pub author_name: Seq<char>,
    pub author_email: Seq<char>,
    pub committer_name: Seq<char>,
    pub committer_email: Seq<char>,
    pub raw_message: Seq<char>,
    pub conv_message: Option<MessageView>,
    pub tag: Option<TagView>,
    pub version_tag: Option<TagView>,
}

impl View for Commit {
    type V = CommitView;

    open spec fn view(&self) -> CommitView {
        CommitView {
            id: self.id@,
            timestamp: self.timestamp,
            author_name: self.author_name@,
            author_email: self.author_email@,
            committer_name: self.committer_name@,
            committer_email: self.committer_email@,
            raw_message: self.raw_message@,
            conv_message: view_opt_msg(self.conv_message),
            tag: view_opt_tag(self.tag),
            version_tag: view_opt_tag(self.version_tag),
        }
    }
}

/// The views of a sequence of decorated commits.
pub open spec fn cviews(v: Seq<Commit>) -> Seq<CommitView> {
    v.map_values(|c: Commit| c@)
}

impl Commit {
    /// Returns the short id: the first seven characters of the id.
    pub fn short_id(&self) -> (r: String)
        ensures
            r@ == (if self.id@.len() <= 7 {
                self.id@
            } else {
                self.id@.take(7)
            }),
    {
        let len = self.id.as_str().unicode_len();
        if len <= 7 {
            let r = self.id.clone();
            assert(r@ =~= self.id@);
            r
        } else {
            string_of_range(self.id.as_str(), 0, 7)
        }
    }

    /// Returns the commit subject: the first line of the raw message.
    pub fn subject(&self) -> (r: String)
        ensures
            r@ == spec_first_line(self.raw_message@),
    {
        let s = self.raw_message.as_str();
        let len = s.unicode_len();
        let mut j: usize = 0;
        loop
            invariant_except_break
                j <= len,
                len == s@.len(),
                forall|k: int| 0 <= k < j ==> s@[k] != '\n',
            ensures
                j <= len,
                forall|k: int| 0 <= k < j ==> s@[k] != '\n',
                j < len ==> s@[j as int] == '\n',
                len == s@.len(),
            decreases len - j,
        {
            if j == len {
                break;
            }
            if s.get_char(j) == '\n' {
                break;
            }
            j = j + 1;
        }
        proof {
            lemma_find_nl_at(s@, j as int);
        }
        let line_end = if j > 0 && s.get_char(j - 1) == '\r' {
            j - 1
        } else {
            j
        };
        let r = string_of_range(s, 0, line_end);
        assert(r@ =~= spec_first_line(s@));
        r
    }
}

/// The decorated commit at position `j` is exactly what the walk model
/// gives: the raw commit's fields, its parsed message, its tag, and the
/// nearest release tag known once the walk has passed it.
pub open spec fn spec_commit_ok(
    c: Commit,
    cs: Seq<GitCommitView>,
    ts: Seq<TagView>,
    j: int,
) -> bool {
    &&& c.id@ == cs[j].id
    &&& c.timestamp == cs[j].timestamp
    &&& c.author_name@ == cs[j].author_name
    &&& c.author_email@ == cs[j].author_email
    &&& c.committer_name@ == cs[j].committer_name
    &&& c.committer_email@ == cs[j].committer_email
    &&& c.raw_message@ == cs[j].message
    &&& view_opt_msg(c.conv_message) == spec_conv_message(cs[j].message)
    &&& view_opt_tag(c.tag) == spec_find_tag(ts, cs[j].id)
    &&& view_opt_tag(c.version_tag) == spec_latest_release_tag(cs, ts, j + 1)
}

/// The commit history: the decorated commits (newest first), the current
/// version from the nearest release tag, the computed next version, and
/// the ids of the commits whose message is not conventional.
#[derive(Debug)]
pub struct CommitHistory {
    /// Commits, the newest first.
    pub commits: Vec<Commit>,
    /// Current version, from the nearest release tag; `None` when no
    /// qualifying tag exists.
    pub curr_version: Option<SemVer>,
    /// Next version, computed from the unreleased increments.
    pub next_version: SemVer,
    /// Ids of the commits whose message is not conventional, in walk order.
    pub warnings: Vec<String>,
}

impl CommitHistory {
    /// The next version rendered as a tag name with a leading `v`.
    pub fn next_version_str(&self) -> (r: String)
        ensures
            r@ == seq!['v'] + spec_semver_str(self.next_version),
    {
        self.next_version.to_tag()
    }
}

/// The tag targeting a commit: of the tags whose target is the commit, the
/// last one in the index order (a later entry shadows an earlier one).
fn find_tag(tags: &Vec<Tag>, id: &String) -> (r: Option<Tag>)
    ensures
        view_opt_tag(r) == spec_find_tag(tviews(tags@), id@),
{
    let ghost tv = tviews(tags@);
    let n = tags.len();
    proof {
        assert(tv.take(n as int) =~= tv);
    }
    let mut j = n;
    while j > 0
        invariant
            j <= n,
            n == tags@.len(),
            tv == tviews(tags@),
            spec_find_tag(tv, id@) == spec_find_tag(tv.take(j as int), id@),
        decreases j,
    {
        proof {
            assert(tv[j - 1] == tags@[j - 1]@);
            assert(tv.take(j as int).last() == tv[j - 1]);
            assert(tv.take(j as int).drop_last() =~= tv.take(j - 1));
        }
        if tags[j - 1].commit_id == *id {
            return Some(tags[j - 1].clone());
        }
        j = j - 1;
    }
    proof {
        assert(tv.take(0) =~= Seq::<TagView>::empty());
    }
    None
}

/// Resolves the history of commits against the tag index: one backward
/// walk, newest first, per the walk model's four aggregates.
pub fn commit_history(commits: &Vec<GitCommit>, tags: &Vec<Tag>, cfg: &Config) -> (h: CommitHistory)
    ensures
        h.commits@.len() == commits@.len(),
        forall|j: int|
            0 <= j < commits@.len() ==> spec_commit_ok(
                #[trigger] h.commits@[j],
                gviews(commits@),
                tviews(tags@),
                j,
            ),
        h.curr_version == spec_curr_version(gviews(commits@), tviews(tags@), commits@.len() as int),
        h.next_version == spec_apply_incr(
            spec_max_incr(
                gviews(commits@),
                tviews(tags@),
                seq_views(cfg.version.types_incr_minor@),
                commits@.len() as int,
            ),
            h.curr_version,
        ),
        seq_views(h.warnings@) == spec_warnings(gviews(commits@), commits@.len() as int),
{
    let ghost gcv = gviews(commits@);
    let ghost tgv = tviews(tags@);
    let ghost minorv = seq_views(cfg.version.types_incr_minor@);
    let n = commits.len();
    let mut out: Vec<Commit> = Vec::new();
    let mut curr_version: Option<SemVer> = None;
    let mut latest_tag: Option<Tag> = None;
    let mut max_incr = VersionIncr::NoChange;
    let mut warnings: Vec<String> = Vec::new();
    let mut i: usize = 0;
    while i < n
        invariant
            i <= n,
            n == commits@.len(),
            gcv == gviews(commits@),
            tgv == tviews(tags@),
            minorv == seq_views(cfg.version.types_incr_minor@),
            out@.len() == i,
            forall|j: int| 0 <= j < i ==> spec_commit_ok(#[trigger] out@[j], gcv, tgv, j),
            view_opt_tag(latest_tag) == spec_latest_release_tag(gcv, tgv, i as int),
            curr_version == spec_curr_version(gcv, tgv, i as int),
            max_incr == spec_max_incr(gcv, tgv, minorv, i as int),
            seq_views(warnings@) == spec_warnings(gcv, i as int),
        decreases n - i,
    {
        assert(gcv[i as int] == commits@[i as int]@);
        let ghost warn_pre = seq_views(warnings@);
        let conv: Option<ConvcoMessage> = match ConvcoMessage::parse(commits[i].message.as_str()) {
            Ok(m) => Some(m),
            Err(_) => {
                warnings.push(commits[i].id.clone());
                proof {
                    assert(seq_views(warnings@) =~= warn_pre.push(gcv[i as int].id));
                }
                None
            },
        };
        let tag = find_tag(tags, &commits[i].id);
        if let Some(t) = &tag {
            if t.message.is_some() {
                match tag_version(t.name.as_str()) {
                    Some(v) => {
                        latest_tag = Some(t.clone());
                        if curr_version.is_none() {
                            curr_version = Some(v);
                        }
                    },
                    None => {},
                }
            }
        }
        assert(view_opt_tag(latest_tag) == spec_latest_release_tag(gcv, tgv, i as int + 1));
        assert(curr_version == spec_curr_version(gcv, tgv, i as int + 1));
        if latest_tag.is_none() {
            let k = classify(conv.as_ref(), &cfg.version.types_incr_minor);
            max_incr = max_incr.max_with(k);
        }
        assert(max_incr == spec_max_incr(gcv, tgv, minorv, i as int + 1));
        let version_tag = match &latest_tag {
            Some(t) => Some(t.clone()),
            None => None,
        };
        let c = Commit {
            id: commits[i].id.clone(),
            timestamp: commits[i].timestamp,
            author_name: commits[i].author_name.clone(),
            author_email: commits[i].author_email.clone(),
            committer_name: commits[i].committer_name.clone(),
            committer_email: commits[i].committer_email.clone(),
            raw_message: commits[i].message.clone(),
            conv_message: conv,
            tag,
            version_tag,
        };
        assert(spec_commit_ok(c, gcv, tgv, i as int));
        out.push(c);
        i = i + 1;
    }
    let next_version = max_incr.apply(&curr_version);
    CommitHistory { commits: out, curr_version, next_version, warnings }
}

/// The highest semantic version among all qualifying release tags across
/// the whole index. This is a different notion from the nearest release
/// tag toward the head: tags created out of order can make the two differ.
pub fn latest_version(tags: &Vec<Tag>) -> (r: Option<SemVer>)
    ensures
        match r {
            Some(v) => (exists|i: int|
                0 <= i < tags@.len() && spec_release_version(#[trigger] tags@[i]@) == Some(v))
                && (forall|i: int|
                0 <= i < tags@.len() ==> match spec_release_version(#[trigger] tags@[i]@) {
                    Some(w) => !spec_semver_lt(v, w),
                    None => true,
                }),
            None => forall|i: int|
                0 <= i < tags@.len() ==> spec_release_version(#[trigger] tags@[i]@) is None,
        },
{
    let n = tags.len();
    let mut best: Option<SemVer> = None;
    let mut i: usize = 0;
    while i < n
        invariant
            i <= n,
            n == tags@.len(),
            match best {
                Some(v) => (exists|j: int|
                    0 <= j < i && spec_release_version(#[trigger] tags@[j]@) == Some(v)) && (
                forall|j: int|
                    0 <= j < i ==> match spec_release_version(#[trigger] tags@[j]@) {
                        Some(w) => !spec_semver_lt(v, w),
                        None => true,
                    }),
                None => forall|j: int|
                    0 <= j < i ==> spec_release_version(#[trigger] tags@[j]@) is None,
            },
        decreases n - i,
    {
        let t = &tags[i];
        if t.message.is_some() {
            match tag_version(t.name.as_str()) {
                Some(v) => {
                    assert(spec_release_version(tags@[i as int]@) == Some(v));
                    let take_it = match &best {
                        Some(b) => !v.precedes(b),
                        None => true,
                    };
                    if take_it {
                        best = Some(v);
                    }
                },
                None => {
                    assert(spec_release_version(tags@[i as int]@) is None);
                },
            }
        } else {
            assert(spec_release_version(tags@[i as int]@) is None);
        }
        i = i + 1;
    }
    best
}

} // verus!
