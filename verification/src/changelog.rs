//! The changelog: grouping of the decorated commit history into releases
//! and sections, ready for rendering.

use vstd::prelude::*;
use vstd::string::*;

use crate::chars::seq_views;
use crate::config::Config;
use crate::convco::view_opt_str;
use crate::grammar::MessageView;
use crate::history::{cviews, spec_first_line, Commit, CommitHistory, CommitView, TagView};
use crate::version::{spec_tag_version, tag_version, SemVer};

verus! {

/// Changelog configuration: the release sections, each a label with the
/// commit types it gathers, in a fixed order.
#[derive(Debug)]
pub struct ChangelogConfig {
    /// Release sections: the label and the commit types it gathers.
    pub sections: Vec<(String, Vec<String>)>,
}

/// The labels of the default changelog sections, in order.
pub open spec fn default_section_labels() -> Seq<Seq<char>> {
    seq![
        "New features"@,
        "Bug fixes"@,
        "Documentation"@,
        "Performance improvements"@,
        "Tooling"@,
    ]
}

impl Default for ChangelogConfig {
    /// The default sections.
    fn default() -> (r: Self)
        ensures
            r.sections@.map_values(|p: (String, Vec<String>)| p.0@) == default_section_labels(),
    {
        let mut sections: Vec<(String, Vec<String>)> = Vec::new();
        let mut feat: Vec<String> = Vec::new();
        feat.push("feat".to_owned());
        sections.push(("New features".to_owned(), feat));
        let mut fix: Vec<String> = Vec::new();
        fix.push("fix".to_owned());
        sections.push(("Bug fixes".to_owned(), fix));
        let mut docs: Vec<String> = Vec::new();
        docs.push("docs".to_owned());
        sections.push(("Documentation".to_owned(), docs));
        let mut perf: Vec<String> = Vec::new();
        perf.push("perf".to_owned());
        sections.push(("Performance improvements".to_owned(), perf));
        let mut tooling: Vec<String> = Vec::new();
        tooling.push("build".to_owned());
        tooling.push("ci".to_owned());
        tooling.push("cd".to_owned());
        sections.push(("Tooling".to_owned(), tooling));
        assert(sections@.map_values(|p: (String, Vec<String>)| p.0@)
            =~= default_section_labels());
        ChangelogConfig { sections }
    }
}

/// The label of the section gathering a commit type, if a section lists it.
pub open spec fn spec_section_for(
    sections: Seq<(Seq<char>, Seq<Seq<char>>)>,
    t: Seq<char>,
) -> Option<Seq<char>>
    decreases sections.len(),
{
    if sections.len() == 0 {
        None
    } else if sections[0].1.contains(t) {
        Some(sections[0].0)
    } else {
        spec_section_for(sections.drop_first(), t)
    }
}

/// The view of the section list: each label with the views of its types.
pub open spec fn spec_sections(v: Seq<(String, Vec<String>)>) -> Seq<(Seq<char>, Seq<Seq<char>>)> {
    v.map_values(|p: (String, Vec<String>)| (p.0@, seq_views(p.1@)))
}

/// Whether a list of strings holds the given text.
pub fn vec_contains_str(v: &Vec<String>, t: &String) -> (r: bool)
    ensures
        r == seq_views(v@).contains(t@),
{
    let n = v.len();
    let mut i: usize = 0;
    while i < n
        invariant
            i <= n,
            n == v@.len(),
            forall|k: int| 0 <= k < i ==> #[trigger] v@[k]@ != t@,
        decreases n - i,
    {
        if v[i] == *t {
            assert(seq_views(v@)[i as int] == t@);
            return true;
        }
        i = i + 1;
    }
    assert forall|k: int| 0 <= k < seq_views(v@).len() implies #[trigger] seq_views(v@)[k]
        != t@ by {
        assert(seq_views(v@)[k] == v@[k]@);
    }
    false
}

impl ChangelogConfig {
    /// Returns the label of the first section that gathers this commit type.
    pub fn find_section_for_commit_type(&self, t: &str) -> (r: Option<String>)
        ensures
            match r {
                Some(l) => spec_section_for(spec_sections(self.sections@), t@) == Some(l@),
                None => spec_section_for(spec_sections(self.sections@), t@) is None,
            },
    {
        let ghost sv = spec_sections(self.sections@);
        proof {
            assert(sv.skip(0) =~= sv);
        }
        let ts = t.to_owned();
        let n = self.sections.len();
        let mut i: usize = 0;
        while i < n
            invariant
                i <= n,
                ts@ == t@,
                n == self.sections@.len(),
                sv == spec_sections(self.sections@),
                spec_section_for(sv, t@) == spec_section_for(sv.skip(i as int), t@),
            decreases n - i,
        {
            proof {
                assert(sv[i as int] == (self.sections@[i as int].0@, seq_views(
                    self.sections@[i as int].1@,
                )));
                assert(sv.skip(i as int)[0] == sv[i as int]);
                assert(sv.skip(i as int).drop_first() =~= sv.skip(i as int + 1));
            }
            if vec_contains_str(&self.sections[i].1, &ts) {
                return Some(self.sections[i].0.clone());
            }
            i = i + 1;
        }
        proof {
            assert(sv.skip(n as int) =~= Seq::<(Seq<char>, Seq<Seq<char>>)>::empty());
        }
        None
    }
}

// ------------------------------------------------------------------
// The changelog data
// ------------------------------------------------------------------
/// A changelog section: a label and the commit entries under it.
#[derive(Debug)]
pub struct Section {
    /// Section label.
    pub label: String,
    /// Section items, one line per commit.
    pub items: Vec<String>,
}

/// The views of a list of sections.
pub open spec fn sections_views(v: Seq<Section>) -> Seq<(Seq<char>, Seq<Seq<char>>)> {
    v.map_values(|s: Section| (s.label@, seq_views(s.items@)))
}

/// A changelog release: a version name, its date, a link, and its sections.
#[derive(Debug)]
pub struct Release {
    /// Version name (a tag name, or `Unreleased`).
    pub version: String,
    /// Release date, as a Unix timestamp in seconds.
    pub date: i64,
    /// A link to the release.
    pub url: Option<String>,
    /// Sections.
    pub sections: Vec<Section>,
}

/// The abstract value of a release.
pub struct ReleaseView {
    pub version: Seq<char>,
    pub date: i64,
    pub url: Option<Seq<char>>,
    pub sections: Seq<(Seq<char>, Seq<Seq<char>>)>,
}

impl View for Release {
    type V = ReleaseView;

    open spec fn view(&self) -> ReleaseView {
        ReleaseView {
            version: self.version@,
            date: self.date,
            url: view_opt_str(self.url),
            sections: sections_views(self.sections@),
        }
    }
}

/// The views of a list of releases.
pub open spec fn rviews(v: Seq<Release>) -> Seq<ReleaseView> {
    v.map_values(|r: Release| r@)
}

/// A changelog: the releases, the latest first.
#[derive(Debug)]
pub struct Changelog {
    /// Releases (latest first).
    pub releases: Vec<Release>,
}

/// Changelog build options.
#[derive(Debug)]
pub struct ChangelogBuildOptions {
    /// Origin name (`origin` by default).
    pub origin_name: Option<String>,
    /// Includes all commits, the hidden types too.
    pub all: bool,
}

impl Default for ChangelogBuildOptions {
    /// By default the default origin is used and hidden types stay hidden.
    fn default() -> (r: Self)
        ensures
            r.origin_name is None,
            !r.all,
    {
        ChangelogBuildOptions { origin_name: None, all: false }
    }
}

// ------------------------------------------------------------------
// The grouping model
// ------------------------------------------------------------------
/// The short form of a commit id: its first seven characters.
pub open spec fn spec_short_id(id: Seq<char>) -> Seq<char> {
    if id.len() <= 7 {
        id
    } else {
        id.take(7)
    }
}

/// The one-line changelog entry of a commit: its subject, its short id, and
/// a link to the commit under the origin URL.
pub open spec fn spec_commit_oneliner(origin: Seq<char>, c: CommitView) -> Seq<char> {
    spec_first_line(c.raw_message) + " ["@ + spec_short_id(c.id) + "]("@ + origin + "/commit/"@
        + c.id + ")"@
}

/// The URL of a release under the origin URL.
pub open spec fn spec_release_url(origin: Seq<char>, version: Seq<char>) -> Seq<char> {
    origin + "/releases/tag/"@ + version
}

/// The section label of the commits no configured section gathers.
pub open spec fn uncategorized_label() -> Seq<char> {
    "Uncategorized"@
}

/// The internal label of the commits whose type is not part of the
/// changelog; they are shown only when all commits are asked for.
pub open spec fn hidden_label() -> Seq<char> {
    "__Hidden__"@
}

/// The section label a commit falls under: the section gathering its type,
/// the hidden label when no section does, and the uncategorized label for a
/// commit that is not conventional.
pub open spec fn spec_label_of(
    sections: Seq<(Seq<char>, Seq<Seq<char>>)>,
    conv: Option<MessageView>,
) -> Seq<char> {
    match conv {
        Some(m) => match spec_section_for(sections, m.typ) {
            Some(l) => l,
            None => hidden_label(),
        },
        None => uncategorized_label(),
    }
}

/// The first position of a label in a list of labels (the length when the
/// label does not occur).
pub open spec fn spec_label_idx(labels: Seq<Seq<char>>, l: Seq<char>) -> int
    decreases labels.len(),
{
    if labels.len() == 0 {
        0
    } else if labels[0] == l {
        0
    } else {
        1 + spec_label_idx(labels.drop_first(), l)
    }
}

proof fn lemma_label_idx_at(labels: Seq<Seq<char>>, l: Seq<char>, i: int)
    requires
        0 <= i <= labels.len(),
        forall|k: int| 0 <= k < i ==> #[trigger] labels[k] != l,
        i < labels.len() ==> labels[i] == l,
    ensures
        spec_label_idx(labels, l) == i,
    decreases i,
{
    if i > 0 {
        assert(forall|k: int|
            0 <= k < labels.drop_first().len() ==> #[trigger] labels.drop_first()[k] == labels[k
                + 1]);
        lemma_label_idx_at(labels.drop_first(), l, i - 1);
    }
}

/// The section labels of a changelog: the configured ones, then the
/// uncategorized and the hidden labels.
pub open spec fn spec_all_labels(sections: Seq<(Seq<char>, Seq<Seq<char>>)>) -> Seq<Seq<char>> {
    sections.map_values(|p: (Seq<char>, Seq<Seq<char>>)| p.0) + seq![
        uncategorized_label(),
        hidden_label(),
    ]
}

/// The entries under the section at position `idx`, over the commits of the
/// group `[s, e)`, in order: a commit contributes when its label stands
/// first at that position, and hidden commits only when all are asked for.
pub open spec fn spec_group_items(
    origin: Seq<char>,
    sections: Seq<(Seq<char>, Seq<Seq<char>>)>,
    all: bool,
    cs: Seq<CommitView>,
    s: int,
    e: int,
    idx: int,
) -> Seq<Seq<char>>
    decreases e - s,
{
    if s < 0 || s >= e {
        Seq::empty()
    } else {
        let rest = spec_group_items(origin, sections, all, cs, s + 1, e, idx);
        let l = spec_label_of(sections, cs[s].conv_message);
        if (all || l != hidden_label()) && spec_label_idx(spec_all_labels(sections), l) == idx {
            seq![spec_commit_oneliner(origin, cs[s])] + rest
        } else {
            rest
        }
    }
}

/// The non-empty sections of a group, in label order.
pub open spec fn spec_group_sections_from(
    origin: Seq<char>,
    sections: Seq<(Seq<char>, Seq<Seq<char>>)>,
    all: bool,
    cs: Seq<CommitView>,
    s: int,
    e: int,
    idx: int,
) -> Seq<(Seq<char>, Seq<Seq<char>>)>
    decreases spec_all_labels(sections).len() - idx,
{
    let labels = spec_all_labels(sections);
    if idx < 0 || idx >= labels.len() {
        Seq::empty()
    } else {
        let items = spec_group_items(origin, sections, all, cs, s, e, idx);
        let rest = spec_group_sections_from(origin, sections, all, cs, s, e, idx + 1);
        if items.len() > 0 {
            seq![(labels[idx], items)] + rest
        } else {
            rest
        }
    }
}

/// The release built from the commit group `[s, e)`: named and dated by the
/// group's release tag, or `Unreleased` and dated now.
pub open spec fn spec_group_release(
    origin: Seq<char>,
    sections: Seq<(Seq<char>, Seq<Seq<char>>)>,
    all: bool,
    now: i64,
    cs: Seq<CommitView>,
    s: int,
    e: int,
) -> ReleaseView {
    let secs = spec_group_sections_from(origin, sections, all, cs, s, e, 0);
    match cs[s].version_tag {
        Some(t) => ReleaseView {
            version: t.name,
            date: t.timestamp,
            url: Some(spec_release_url(origin, t.name)),
            sections: secs,
        },
        None => ReleaseView { version: "Unreleased"@, date: now, url: None, sections: secs },
    }
}

/// Two commits belong to the same release group when their release tags are
/// both absent, or name the same tag.
pub open spec fn spec_same_group(a: Option<TagView>, b: Option<TagView>) -> bool {
    match (a, b) {
        (Some(x), Some(y)) => x.id == y.id,
        (None, None) => true,
        _ => false,
    }
}

/// The end of the release group that starts at `s`: the first position
/// whose commit belongs to another group.
pub open spec fn spec_group_end(cs: Seq<CommitView>, s: int) -> int
    decreases cs.len() - s,
{
    if s + 1 < cs.len() && spec_same_group(cs[s].version_tag, cs[s + 1].version_tag) {
        spec_group_end(cs, s + 1)
    } else {
        s + 1
    }
}

pub proof fn lemma_group_end_bounds(cs: Seq<CommitView>, s: int)
    requires
        0 <= s < cs.len(),
    ensures
        s < spec_group_end(cs, s) <= cs.len(),
    decreases cs.len() - s,
{
    if s + 1 < cs.len() && spec_same_group(cs[s].version_tag, cs[s + 1].version_tag) {
        lemma_group_end_bounds(cs, s + 1);
    }
}

proof fn lemma_group_end_at(cs: Seq<CommitView>, s: int, e: int)
    requires
        0 <= s < e <= cs.len(),
        forall|k: int| s <= k < e - 1 ==> spec_same_group((#[trigger] cs[k]).version_tag, cs[k + 1].version_tag),
        e < cs.len() ==> !spec_same_group(cs[e - 1].version_tag, cs[e].version_tag),
    ensures
        spec_group_end(cs, s) == e,
    decreases e - s,
{
    if s + 1 < e {
        assert(spec_same_group(cs[s].version_tag, cs[s + 1].version_tag));
        lemma_group_end_at(cs, s + 1, e);
    }
}

/// The releases of the history from group boundary `s` on: one release per
/// maximal run of commits with the same release tag.
pub open spec fn spec_releases(
    origin: Seq<char>,
    sections: Seq<(Seq<char>, Seq<Seq<char>>)>,
    all: bool,
    now: i64,
    cs: Seq<CommitView>,
    s: int,
) -> Seq<ReleaseView>
    decreases cs.len() - s,
    via spec_releases_decreases
{
    if s < 0 || s >= cs.len() {
        Seq::empty()
    } else {
        let e = spec_group_end(cs, s);
        seq![spec_group_release(origin, sections, all, now, cs, s, e)] + spec_releases(
            origin,
            sections,
            all,
            now,
            cs,
            e,
        )
    }
}

#[via_fn]
proof fn spec_releases_decreases(
    origin: Seq<char>,
    sections: Seq<(Seq<char>, Seq<Seq<char>>)>,
    all: bool,
    now: i64,
    cs: Seq<CommitView>,
    s: int,
) {
    if 0 <= s < cs.len() {
        lemma_group_end_bounds(cs, s);
    }
}

// ------------------------------------------------------------------
// Building the changelog
// ------------------------------------------------------------------
/// Builds the URL of a release under the origin URL.
pub fn build_release_url(origin_url: &str, version: &str) -> (r: String)
    ensures
        r@ == spec_release_url(origin_url@, version@),
{
    let mut s = origin_url.to_owned();
    s.append("/releases/tag/");
    s.append(version);
    s
}

/// Builds the one-line changelog entry of a commit.
pub fn commit_oneliner(origin_url: &str, commit: &Commit) -> (r: String)
    ensures
        r@ == spec_commit_oneliner(origin_url@, commit@),
{
    let mut s = commit.subject();
    s.append(" [");
    let short = commit.short_id();
    s.append(short.as_str());
    s.append("](");
    s.append(origin_url);
    s.append("/commit/");
    s.append(commit.id.as_str());
    s.append(")");
    s
}

/// Whether two optional release tags name the same group.
fn same_group(a: &Option<crate::history::Tag>, b: &Option<crate::history::Tag>) -> (r: bool)
    ensures
        r == spec_same_group(crate::history::view_opt_tag(*a), crate::history::view_opt_tag(*b)),
{
    match (a, b) {
        (Some(x), Some(y)) => x.id == y.id,
        (None, None) => true,
        _ => false,
    }
}

/// The first position of a label among the section labels.
fn label_index(labels: &Vec<String>, l: &String) -> (r: usize)
    ensures
        r as int == spec_label_idx(seq_views(labels@), l@),
        r <= labels@.len(),
{
    let n = labels.len();
    let mut i: usize = 0;
    while i < n
        invariant
            i <= n,
            n == labels@.len(),
            forall|k: int| 0 <= k < i ==> #[trigger] labels@[k]@ != l@,
        decreases n - i,
    {
        if labels[i] == *l {
            proof {
                assert forall|k: int| 0 <= k < i implies #[trigger] seq_views(labels@)[k]
                    != l@ by {
                    assert(seq_views(labels@)[k] == labels@[k]@);
                }
                assert(seq_views(labels@)[i as int] == l@);
                lemma_label_idx_at(seq_views(labels@), l@, i as int);
            }
            return i;
        }
        i = i + 1;
    }
    proof {
        assert forall|k: int| 0 <= k < n implies #[trigger] seq_views(labels@)[k] != l@ by {
            assert(seq_views(labels@)[k] == labels@[k]@);
        }
        lemma_label_idx_at(seq_views(labels@), l@, n as int);
    }
    n
}

/// The section label a commit falls under.
fn label_of(cfg: &ChangelogConfig, commit: &Commit) -> (r: String)
    ensures
        r@ == spec_label_of(spec_sections(cfg.sections@), commit@.conv_message),
{
    match &commit.conv_message {
        Some(m) => match cfg.find_section_for_commit_type(m.typ.as_str()) {
            Some(l) => l,
            None => "__Hidden__".to_owned(),
        },
        None => "Uncategorized".to_owned(),
    }
}

impl Changelog {
    /// The version of the first (most recent) release, when its name
    /// carries one.
    pub fn latest_version(&self) -> (r: Option<SemVer>)
        ensures
            match r {
                Some(v) => self.releases@.len() > 0 && spec_tag_version(self.releases@[0].version@)
                    == Some((v.major, v.minor, v.patch)),
                None => self.releases@.len() == 0 || spec_tag_version(
                    self.releases@[0].version@,
                ) is None,
            },
    {
        if self.releases.len() == 0 {
            return None;
        }
        tag_version(self.releases[0].version.as_str())
    }
}

/// Builds the changelog from the resolved history: the commits are grouped
/// into releases by their release tag, and each release's commits are
/// gathered into the configured sections, with an `Uncategorized` section
/// for the commits that are not conventional. Hidden commit types appear
/// only when all commits are asked for. The origin URL names the repository
/// the entry links point into; the timestamp dates the unreleased group.
pub fn build_changelog(
    origin_url: &str,
    cfg: &Config,
    history: &CommitHistory,
    opts: &ChangelogBuildOptions,
    now_ts: i64,
) -> (r: Changelog)
    ensures
        rviews(r.releases@) == spec_releases(
            origin_url@,
            spec_sections(cfg.changelog.sections@),
            opts.all,
            now_ts,
            cviews(history.commits@),
            0,
        ),
{
    let ghost csv = cviews(history.commits@);
    let ghost cfgv = spec_sections(cfg.changelog.sections@);
    let all = opts.all;
    let n = history.commits.len();
    // the section labels, in order
    let mut labels: Vec<String> = Vec::new();
    let mut li: usize = 0;
    let cn = cfg.changelog.sections.len();
    while li < cn
        invariant
            li <= cn,
            cn == cfg.changelog.sections@.len(),
            labels@.len() == li,
            forall|k: int| 0 <= k < li ==> #[trigger] labels@[k]@ == cfg.changelog.sections@[k].0@,
        decreases cn - li,
    {
        labels.push(cfg.changelog.sections[li].0.clone());
        li = li + 1;
    }
    labels.push("Uncategorized".to_owned());
    labels.push("__Hidden__".to_owned());
    proof {
        assert forall|k: int| 0 <= k < seq_views(labels@).len() implies #[trigger] seq_views(
            labels@,
        )[k] == spec_all_labels(cfgv)[k] by {
            assert(seq_views(labels@)[k] == labels@[k]@);
            if k < cn {
                assert(spec_all_labels(cfgv)[k] == cfgv[k].0);
                assert(cfgv[k] == (cfg.changelog.sections@[k].0@, seq_views(
                    cfg.changelog.sections@[k].1@,
                )));
            }
        }
        assert(seq_views(labels@) =~= spec_all_labels(cfgv));
    }
    let ln = labels.len();
    // walk the groups
    let mut releases: Vec<Release> = Vec::new();
    let mut s: usize = 0;
    while s < n
        invariant
            s <= n,
            n == history.commits@.len(),
            csv == cviews(history.commits@),
            cfgv == spec_sections(cfg.changelog.sections@),
            seq_views(labels@) == spec_all_labels(cfgv),
            ln == labels@.len(),
            all == opts.all,
            spec_releases(origin_url@, cfgv, all, now_ts, csv, 0) == rviews(releases@)
                + spec_releases(origin_url@, cfgv, all, now_ts, csv, s as int),
        decreases n - s,
    {
        let ghost rel_prefix = rviews(releases@);
        // find the end of the group
        let mut e: usize = s + 1;
        loop
            invariant_except_break
                s < e <= n,
                n == history.commits@.len(),
                csv == cviews(history.commits@),
                forall|k: int|
                    s <= k < e - 1 ==> spec_same_group(
                        (#[trigger] csv[k]).version_tag,
                        csv[k + 1].version_tag,
                    ),
            ensures
                s < e <= n,
                forall|k: int|
                    s <= k < e - 1 ==> spec_same_group(
                        (#[trigger] csv[k]).version_tag,
                        csv[k + 1].version_tag,
                    ),
                e < n ==> !spec_same_group(csv[e - 1].version_tag, csv[e as int].version_tag),
                n == history.commits@.len(),
                csv == cviews(history.commits@),
            decreases n - e,
        {
            if e == n {
                break;
            }
            assert(csv[e - 1] == history.commits@[e - 1]@);
            assert(csv[e as int] == history.commits@[e as int]@);
            if !same_group(&history.commits[e - 1].version_tag, &history.commits[e].version_tag) {
                break;
            }
            e = e + 1;
        }
        proof {
            lemma_group_end_at(csv, s as int, e as int);
        }
        // gather the sections of the group
        let mut sections: Vec<Section> = Vec::new();
        let mut idx: usize = 0;
        while idx < ln
            invariant
                idx <= ln,
                ln == labels@.len(),
                s < e <= n,
                n == history.commits@.len(),
                csv == cviews(history.commits@),
                cfgv == spec_sections(cfg.changelog.sections@),
                seq_views(labels@) == spec_all_labels(cfgv),
                all == opts.all,
                spec_group_sections_from(origin_url@, cfgv, all, csv, s as int, e as int, 0)
                    == sections_views(sections@) + spec_group_sections_from(
                    origin_url@,
                    cfgv,
                    all,
                    csv,
                    s as int,
                    e as int,
                    idx as int,
                ),
            decreases ln - idx,
        {
            let ghost sec_prefix = sections_views(sections@);
            let mut items: Vec<String> = Vec::new();
            let mut j: usize = s;
            while j < e
                invariant
                    s <= j <= e <= n,
                    idx < ln,
                    ln == labels@.len(),
                    n == history.commits@.len(),
                    csv == cviews(history.commits@),
                    cfgv == spec_sections(cfg.changelog.sections@),
                    seq_views(labels@) == spec_all_labels(cfgv),
                    all == opts.all,
                    spec_group_items(origin_url@, cfgv, all, csv, s as int, e as int, idx as int)
                        == seq_views(items@) + spec_group_items(
                        origin_url@,
                        cfgv,
                        all,
                        csv,
                        j as int,
                        e as int,
                        idx as int,
                    ),
                decreases e - j,
            {
                assert(csv[j as int] == history.commits@[j as int]@);
                let ghost items_prefix = seq_views(items@);
                let l = label_of(&cfg.changelog, &history.commits[j]);
                let hidden: String = "__Hidden__".to_owned();
                if all || !(l == hidden) {
                    if label_index(&labels, &l) == idx {
                        let entry = commit_oneliner(origin_url, &history.commits[j]);
                        items.push(entry);
                        proof {
                            assert(seq_views(items@) =~= items_prefix.push(
                                spec_commit_oneliner(origin_url@, csv[j as int]),
                            ));
                            assert(items_prefix.push(
                                spec_commit_oneliner(origin_url@, csv[j as int]),
                            ) + spec_group_items(
                                origin_url@,
                                cfgv,
                                all,
                                csv,
                                j as int + 1,
                                e as int,
                                idx as int,
                            ) =~= items_prefix + (seq![
                                spec_commit_oneliner(origin_url@, csv[j as int]),
                            ] + spec_group_items(
                                origin_url@,
                                cfgv,
                                all,
                                csv,
                                j as int + 1,
                                e as int,
                                idx as int,
                            )));
                        }
                    }
                }
                j = j + 1;
            }
            if items.len() > 0 {
                let sec = Section { label: labels[idx].clone(), items };
                proof {
                    assert(seq_views(labels@)[idx as int] == labels@[idx as int]@);
                }
                let ghost secv = (sec.label@, seq_views(sec.items@));
                sections.push(sec);
                proof {
                    assert(sections_views(sections@) =~= sec_prefix.push(secv));
                    assert(sec_prefix.push(secv) + spec_group_sections_from(
                        origin_url@,
                        cfgv,
                        all,
                        csv,
                        s as int,
                        e as int,
                        idx as int + 1,
                    ) =~= sec_prefix + (seq![secv] + spec_group_sections_from(
                        origin_url@,
                        cfgv,
                        all,
                        csv,
                        s as int,
                        e as int,
                        idx as int + 1,
                    )));
                }
            }
            idx = idx + 1;
        }
        // the release metadata from the group's tag
        let release = match &history.commits[s].version_tag {
            Some(t) => {
                let url = build_release_url(origin_url, t.name.as_str());
                Release { version: t.name.clone(), date: t.timestamp, url: Some(url), sections }
            },
            None => Release {
                version: "Unreleased".to_owned(),
                date: now_ts,
                url: None,
                sections,
            },
        };
        proof {
            assert(csv[s as int] == history.commits@[s as int]@);
            assert(release@ =~= spec_group_release(
                origin_url@,
                cfgv,
                all,
                now_ts,
                csv,
                s as int,
                e as int,
            ));
        }
        let ghost relv = release@;
        releases.push(release);
        proof {
            assert(rviews(releases@) =~= rel_prefix.push(relv));
            assert(rel_prefix.push(relv) + spec_releases(
                origin_url@,
                cfgv,
                all,
                now_ts,
                csv,
                e as int,
            ) =~= rel_prefix + (seq![relv] + spec_releases(
                origin_url@,
                cfgv,
                all,
                now_ts,
                csv,
                e as int,
            )));
        }
        s = e;
    }
    proof {
        assert(rviews(releases@) + spec_releases(origin_url@, cfgv, all, now_ts, csv, n as int)
            =~= rviews(releases@));
    }
    Changelog { releases }
}

} // verus!
