//! Semantic versions and version increments: the version triple with its
//! decimal rendering and ordering, the totally ordered increment kind, the
//! increment classifier, and the bump rules that compute the next version.

use vstd::prelude::*;
use vstd::string::*;

use crate::chars::{seq_views, spec_trim_ws};
use crate::chars::trim_ws;
use crate::config::VersioningConfig;
use crate::convco::{spec_is_breaking_change, ConvcoMessage};
use crate::grammar::MessageView;

verus! {

/// A semantic version: the `major.minor.patch` triple with its standard
/// precedence ordering.
#[derive(Debug, Clone, Copy, PartialEq, Eq, Structural)]
pub struct SemVer {
    pub major: u64,
    pub minor: u64,
    pub patch: u64,
}

/// The decimal digit character of `d`, for `0 <= d <= 9`.
pub open spec fn dec_digit(d: int) -> char {
    if d == 0 {
        '0'
    } else if d == 1 {
        '1'
    } else if d == 2 {
        '2'
    } else if d == 3 {
        '3'
    } else if d == 4 {
        '4'
    } else if d == 5 {
        '5'
    } else if d == 6 {
        '6'
    } else if d == 7 {
        '7'
    } else if d == 8 {
        '8'
    } else {
        '9'
    }
}

/// The decimal rendering of a non-negative integer, without leading zeros.
pub open spec fn dec_seq(n: int) -> Seq<char>
    decreases n,
{
    if n < 10 {
        seq![dec_digit(n)]
    } else {
        dec_seq(n / 10).push(dec_digit(n % 10))
    }
}

/// The decimal rendering `major.minor.patch` of a version triple.
pub open spec fn spec_version_str(a: u64, b: u64, c: u64) -> Seq<char> {
    dec_seq(a as int) + seq!['.'] + dec_seq(b as int) + seq!['.'] + dec_seq(c as int)
}

/// The rendering of a semantic version.
pub open spec fn spec_semver_str(v: SemVer) -> Seq<char> {
    spec_version_str(v.major, v.minor, v.patch)
}

/// The standard precedence order on version triples.
pub open spec fn spec_semver_lt(a: SemVer, b: SemVer) -> bool {
    a.major < b.major || (a.major == b.major && (a.minor < b.minor || (a.minor == b.minor
        && a.patch < b.patch)))
}

fn digit_str(d: u64) -> (r: &'static str)
    requires
        d <= 9,
    ensures
        r@ == seq![dec_digit(d as int)],
{
    proof {
        reveal_strlit("0");
        reveal_strlit("1");
        reveal_strlit("2");
        reveal_strlit("3");
        reveal_strlit("4");
        reveal_strlit("5");
        reveal_strlit("6");
        reveal_strlit("7");
        reveal_strlit("8");
        reveal_strlit("9");
    }
    let r = match d {
        0 => "0",
        1 => "1",
        2 => "2",
        3 => "3",
        4 => "4",
        5 => "5",
        6 => "6",
        7 => "7",
        8 => "8",
        _ => "9",
    };
    assert(r@ =~= seq![dec_digit(d as int)]);
    r
}

/// Renders a number in decimal, without leading zeros.
pub fn u64_to_dec(n: u64) -> (r: String)
    ensures
        r@ == dec_seq(n as int),
    decreases n,
{
    if n < 10 {
        digit_str(n).to_owned()
    } else {
        let mut s = u64_to_dec(n / 10);
        s.append(digit_str(n % 10));
        assert(s@ =~= dec_seq(n as int / 10).push(dec_digit(n as int % 10)));
        s
    }
}

impl SemVer {
    /// Builds a version from its three parts.
    pub fn new(major: u64, minor: u64, patch: u64) -> (r: SemVer)
        ensures
            r == (SemVer { major, minor, patch }),
    {
        SemVer { major, minor, patch }
    }

    /// Renders the version as `major.minor.patch`.
    pub fn to_text(&self) -> (r: String)
        ensures
            r@ == spec_semver_str(*self),
    {
        proof {
            reveal_strlit(".");
        }
        let mut s = u64_to_dec(self.major);
        s.append(".");
        let minor = u64_to_dec(self.minor);
        s.append(minor.as_str());
        s.append(".");
        let patch = u64_to_dec(self.patch);
        s.append(patch.as_str());
        assert(s@ =~= spec_semver_str(*self));
        s
    }

    /// Renders the version as a tag name with a leading `v`.
    pub fn to_tag(&self) -> (r: String)
        ensures
            r@ == seq!['v'] + spec_semver_str(*self),
    {
        proof {
            reveal_strlit("v");
        }
        let mut s: String = "v".to_owned();
        let text = self.to_text();
        s.append(text.as_str());
        assert(s@ =~= seq!['v'] + spec_semver_str(*self));
        s
    }

    /// Whether this version precedes the other in the standard order.
    pub fn precedes(&self, other: &SemVer) -> (r: bool)
        ensures
            r == spec_semver_lt(*self, *other),
    {
        self.major < other.major || (self.major == other.major && (self.minor < other.minor || (
        self.minor == other.minor && self.patch < other.patch)))
    }
}

/// The kind of increment a change asks of the next version, totally ordered
/// `None < Patch < Minor < Major`.
#[derive(Debug, Clone, Copy, PartialEq, Eq, Structural)]
pub enum VersionIncr {
    NoChange,
    Patch,
    Minor,
    Major,
}

/// The rank embedding the total order on increments.
pub open spec fn incr_rank(k: VersionIncr) -> int {
    match k {
        VersionIncr::NoChange => 0,
        VersionIncr::Patch => 1,
        VersionIncr::Minor => 2,
        VersionIncr::Major => 3,
    }
}

/// The larger of two increments in the total order.
pub open spec fn spec_incr_max(a: VersionIncr, b: VersionIncr) -> VersionIncr {
    if incr_rank(a) >= incr_rank(b) {
        a
    } else {
        b
    }
}

/// A counter bumped by one, saturating at the largest representable value.
pub open spec fn spec_bump(x: u64) -> u64 {
    if x == u64::MAX {
        x
    } else {
        (x + 1) as u64
    }
}

/// The next version an increment asks for:
/// - with no current version, the first release is `0.1.0` whatever the
///   increment;
/// - before `1.0.0`, a `Minor` or `Major` increment bumps the minor field
///   and resets the patch, a `Patch` increment bumps the patch, and `None`
///   leaves the version unchanged (the pre-1.0 series never bumps the major
///   field on its own);
/// - from `1.0.0` on, the standard rules apply.
pub open spec fn spec_apply_incr(k: VersionIncr, v: Option<SemVer>) -> SemVer {
    match v {
        None => SemVer { major: 0, minor: 1, patch: 0 },
        Some(v) => if v.major == 0 {
            match k {
                VersionIncr::NoChange => v,
                VersionIncr::Patch => SemVer { major: 0, minor: v.minor, patch: spec_bump(v.patch) },
                VersionIncr::Minor => SemVer { major: 0, minor: spec_bump(v.minor), patch: 0 },
                VersionIncr::Major => SemVer { major: 0, minor: spec_bump(v.minor), patch: 0 },
            }
        } else {
            match k {
                VersionIncr::NoChange => v,
                VersionIncr::Patch => SemVer {
                    major: v.major,
                    minor: v.minor,
                    patch: spec_bump(v.patch),
                },
                VersionIncr::Minor => SemVer {
                    major: v.major,
                    minor: spec_bump(v.minor),
                    patch: 0,
                },
                VersionIncr::Major => SemVer { major: spec_bump(v.major), minor: 0, patch: 0 },
            }
        },
    }
}

fn bump(x: u64) -> (r: u64)
    ensures
        r == spec_bump(x),
{
    if x == u64::MAX {
        x
    } else {
        x + 1
    }
}

impl VersionIncr {
    /// The rank of the increment in the total order.
    pub fn rank(&self) -> (r: u8)
        ensures
            r as int == incr_rank(*self),
    {
        match self {
            VersionIncr::NoChange => 0,
            VersionIncr::Patch => 1,
            VersionIncr::Minor => 2,
            VersionIncr::Major => 3,
        }
    }

    /// The larger of two increments in the total order.
    pub fn max_with(self, other: VersionIncr) -> (r: VersionIncr)
        ensures
            r == spec_incr_max(self, other),
    {
        if self.rank() >= other.rank() {
            self
        } else {
            other
        }
    }

    /// The short label of the increment kind.
    pub fn label(&self) -> (r: &'static str)
        ensures
            match self {
                VersionIncr::NoChange => r@ == "na"@,
                VersionIncr::Patch => r@ == "patch"@,
                VersionIncr::Minor => r@ == "minor"@,
                VersionIncr::Major => r@ == "major"@,
            },
    {
        match self {
            VersionIncr::NoChange => "na",
            VersionIncr::Patch => "patch",
            VersionIncr::Minor => "minor",
            VersionIncr::Major => "major",
        }
    }

    /// Applies the increment to an optional current version.
    pub fn apply(&self, version: &Option<SemVer>) -> (r: SemVer)
        ensures
            r == spec_apply_incr(*self, *version),
    {
        match version {
            None => SemVer { major: 0, minor: 1, patch: 0 },
            Some(v) => {
                if v.major == 0 {
                    match self {
                        VersionIncr::NoChange => *v,
                        VersionIncr::Patch => SemVer {
                            major: 0,
                            minor: v.minor,
                            patch: bump(v.patch),
                        },
                        VersionIncr::Minor => SemVer { major: 0, minor: bump(v.minor), patch: 0 },
                        VersionIncr::Major => SemVer { major: 0, minor: bump(v.minor), patch: 0 },
                    }
                } else {
                    match self {
                        VersionIncr::NoChange => *v,
                        VersionIncr::Patch => SemVer {
                            major: v.major,
                            minor: v.minor,
                            patch: bump(v.patch),
                        },
                        VersionIncr::Minor => SemVer {
                            major: v.major,
                            minor: bump(v.minor),
                            patch: 0,
                        },
                        VersionIncr::Major => SemVer { major: bump(v.major), minor: 0, patch: 0 },
                    }
                }
            },
        }
    }
}

// ------------------------------------------------------------------
// Classification
// ------------------------------------------------------------------
/// Whether a type token stands in a list of type tokens.
pub open spec fn spec_type_listed(types: Seq<Seq<char>>, t: Seq<char>) -> bool {
    exists|i: int| 0 <= i < types.len() && types[i] == t
}

/// The increment a message asks for: a message that is not conventional
/// counts as `Patch`; a breaking change asks for `Major`; a type among the
/// configured minor types asks for `Minor`; everything else for `Patch`.
pub open spec fn spec_classify(m: Option<MessageView>, minor_types: Seq<Seq<char>>) -> VersionIncr {
    match m {
        None => VersionIncr::Patch,
        Some(mv) => if spec_is_breaking_change(mv) {
            VersionIncr::Major
        } else if spec_type_listed(minor_types, mv.typ) {
            VersionIncr::Minor
        } else {
            VersionIncr::Patch
        },
    }
}

/// Classifies a message into its version increment. A pure function of the
/// message value and the configured minor types.
pub fn classify(msg: Option<&ConvcoMessage>, minor_types: &Vec<String>) -> (r: VersionIncr)
    ensures
        r == spec_classify(
            match msg {
                Some(m) => Some(m@),
                None => None,
            },
            seq_views(minor_types@),
        ),
{
    match msg {
        None => VersionIncr::Patch,
        Some(m) => {
            if m.is_breaking_change() {
                return VersionIncr::Major;
            }
            let ghost tv = seq_views(minor_types@);
            let n = minor_types.len();
            let mut i: usize = 0;
            while i < n
                invariant
                    i <= n,
                    n == minor_types@.len(),
                    tv == seq_views(minor_types@),
                    msg == Some(m),
                    !spec_is_breaking_change(m@),
                    forall|k: int| 0 <= k < i ==> tv[k] != m.typ@,
                decreases n - i,
            {
                assert(tv[i as int] == minor_types@[i as int]@);
                if minor_types[i] == m.typ {
                    assert(tv[i as int] == m.typ@);
                    assert(spec_type_listed(tv, m.typ@));
                    return VersionIncr::Minor;
                }
                i = i + 1;
            }
            VersionIncr::Patch
        },
    }
}

/// Determines the version increment of a conventional message under a
/// versioning configuration.
pub trait ConvcoMessageExt {
    /// The kind of version increment this message asks for.
    fn version_incr_kind(&self, cfg: &VersioningConfig) -> (r: VersionIncr);
}

impl ConvcoMessageExt for ConvcoMessage {
    /// The classifier applied to this message.
    fn version_incr_kind(&self, cfg: &VersioningConfig) -> (r: VersionIncr)
        ensures
            r == spec_classify(Some(self@), seq_views(cfg.types_incr_minor@)),
    {
        classify(Some(self), &cfg.types_incr_minor)
    }
}

// ------------------------------------------------------------------
// Reading a version from a tag name
// ------------------------------------------------------------------
/// What `semver::Version::parse` returns on a string: the numeric triple of
/// a valid SemVer string, `None` on an invalid one.
pub uninterp spec fn semver_parse_of(s: Seq<char>) -> Option<(u64, u64, u64)>;

/// Relies on semver::Version::parse: the result is a function of the text
/// alone; a canonical `major.minor.patch` decimal rendering is a valid
/// SemVer string and parses to exactly that triple.
#[verifier::external_body]
fn parse_semver_triple(s: &str) -> (r: Option<(u64, u64, u64)>)
    ensures
        r == semver_parse_of(s@),
        forall|a: u64, b: u64, c: u64| s@ == spec_version_str(a, b, c) ==> r == Some((a, b, c)),
{
    match semver::Version::parse(s) {
        Ok(v) => Some((v.major, v.minor, v.patch)),
        Err(_) => None,
    }
}

/// The version a tag name carries: the name is trimmed of surrounding
/// whitespace, an optional leading `v` is removed, and the rest must be a
/// valid SemVer string.
pub open spec fn spec_tag_version(name: Seq<char>) -> Option<(u64, u64, u64)> {
    let t = spec_trim_ws(name);
    let u = if t.len() > 0 && t[0] == 'v' {
        t.skip(1)
    } else {
        t
    };
    semver_parse_of(u)
}

/// Reads the semantic version out of a tag name, if it carries one.
pub fn tag_version(name: &str) -> (r: Option<SemVer>)
    ensures
        match r {
            Some(v) => spec_tag_version(name@) == Some((v.major, v.minor, v.patch)),
            None => spec_tag_version(name@) is None,
        },
{
    let trimmed = trim_ws(name);
    let tlen = trimmed.as_str().unicode_len();
    let stripped: String = if tlen > 0 && trimmed.as_str().get_char(0) == 'v' {
        let s = crate::chars::string_of_range(trimmed.as_str(), 1, tlen);
        assert(s@ =~= spec_trim_ws(name@).skip(1));
        s
    } else {
        trimmed
    };
    match parse_semver_triple(stripped.as_str()) {
        Some(t) => Some(SemVer { major: t.0, minor: t.1, patch: t.2 }),
        None => None,
    }
}

} // verus!
