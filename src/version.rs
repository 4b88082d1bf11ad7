//! Semantic versions and version constraints.
//!
//! A version is kept as its plain parts. Reading a catalog entry, matching a
//! constraint and comparing precedence are done by the `semver` and
//! `lenient_semver` crates; their results are named below.
use std::cmp::Ordering;
use vstd::prelude::*;

verus! {

/// The parts of a semantic version.
pub struct VersionView {
    pub major: u64,
    pub minor: u64,
    pub patch: u64,
    pub pre: Seq<char>,
    pub build: Seq<char>,
}

/// A concrete semantic version: `major.minor.patch`, an optional pre-release
/// and optional build metadata (both empty when absent).
pub struct Version {
    pub major: u64,
    pub minor: u64,
    pub patch: u64,
    pub pre: String,
    pub build: String,
}

impl View for Version {
    type V = VersionView;

    open spec fn view(&self) -> VersionView {
        VersionView {
            major: self.major,
            minor: self.minor,
            patch: self.patch,
            pre: self.pre@,
            build: self.build@,
        }
    }
}

/// The version that `lenient_semver::parse` reads from a text, or `None` where
/// it refuses the text.
pub uninterp spec fn lenient_version(s: Seq<char>) -> Option<VersionView>;

/// Whether `semver::VersionReq::parse` accepts a text.
pub uninterp spec fn req_valid(req: Seq<char>) -> bool;

/// Whether the requirement that `semver::VersionReq::parse` reads from `req`
/// matches the version with the parts `v`; false where either is not valid
/// semver.
pub uninterp spec fn req_matches(req: Seq<char>, v: VersionView) -> bool;

/// `semver::Version::cmp_precedence` of the versions with parts `a` and `b`
/// (build metadata plays no part); `None` where a pre-release is not valid
/// semver.
pub uninterp spec fn precedence(a: VersionView, b: VersionView) -> Option<Ordering>;

/// Relies on `lenient_semver::parse`: the parts of the version it reads from
/// `s`, or `None` where it refuses `s`.
#[verifier::external_body]
fn lenient_parse(s: &str) -> (r: Option<Version>)
    ensures
        match r {
            Some(v) => lenient_version(s@) == Some(v@),
            None => lenient_version(s@) is None,
        },
{
    match lenient_semver::parse(s) {
        Ok(v) => Some(Version {
            major: v.major,
            minor: v.minor,
            patch: v.patch,
            pre: v.pre.as_str().to_string(),
            build: v.build.as_str().to_string(),
        }),
        Err(_) => None,
    }
}

/// Relies on `semver::VersionReq::parse`: whether it accepts `s`.
#[verifier::external_body]
fn req_parses(s: &str) -> (r: bool)
    ensures
        r == req_valid(s@),
{
    semver::VersionReq::parse(s).is_ok()
}

/// Relies on `semver::VersionReq::matches`, on the requirement parsed from
/// `req` and the version rebuilt from the parts of `v`.
#[verifier::external_body]
fn semver_matches(req: &str, v: &Version) -> (r: bool)
    ensures
        r == req_matches(req@, v@),
{
    match (
        semver::VersionReq::parse(req),
        semver::Prerelease::new(&v.pre),
        semver::BuildMetadata::new(&v.build),
    ) {
        (Ok(req), Ok(pre), Ok(build)) => req.matches(
            &semver::Version { major: v.major, minor: v.minor, patch: v.patch, pre, build },
        ),
        _ => false,
    }
}

/// Relies on `semver::Version::cmp_precedence`, on the versions rebuilt from
/// the parts of `a` and `b`.
#[verifier::external_body]
fn semver_precedence(a: &Version, b: &Version) -> (r: Option<Ordering>)
    ensures
        r == precedence(a@, b@),
{
    match (semver::Prerelease::new(&a.pre), semver::Prerelease::new(&b.pre)) {
        (Ok(pa), Ok(pb)) => {
            let mut x = semver::Version::new(a.major, a.minor, a.patch);
            x.pre = pa;
            let mut y = semver::Version::new(b.major, b.minor, b.patch);
            y.pre = pb;
            Some(x.cmp_precedence(&y))
        },
        _ => None,
    }
}

/// Decimal digits of `n`, most significant first.
pub open spec fn decimal(n: nat) -> Seq<char>
    decreases n,
{
    if n < 10 {
        seq![digit_char(n)]
    } else {
        decimal(n / 10) + seq![digit_char(n % 10)]
    }
}

pub open spec fn digit_char(d: nat) -> char {
    if d == 0 { '0' } else if d == 1 { '1' } else if d == 2 { '2' } else if d == 3 { '3' }
    else if d == 4 { '4' } else if d == 5 { '5' } else if d == 6 { '6' } else if d == 7 { '7' }
    else if d == 8 { '8' } else { '9' }
}

/// Relies on `u64`'s `Display`: plain decimal digits, no sign, no padding.
#[verifier::external_body]
fn u64_text(n: u64) -> (r: String)
    ensures
        r@ == decimal(n as nat),
{
    n.to_string()
}

/// A version written as text: `major.minor.patch`, then `-pre` and `+build`
/// where those are not empty.
pub open spec fn version_text(v: VersionView) -> Seq<char> {
    decimal(v.major as nat) + seq!['.'] + decimal(v.minor as nat) + seq!['.'] + decimal(
        v.patch as nat,
    ) + (if v.pre.len() == 0 { Seq::empty() } else { seq!['-'] + v.pre }) + (if v.build.len()
        == 0 {
        Seq::empty()
    } else {
        seq!['+'] + v.build
    })
}

/// Reads a catalog entry leniently (`1`, `1.2`, `v1.2.3`, `1.2.3.Final` are
/// accepted); `None` where the text is no version at all.
pub fn to_version(text: &str) -> (r: Option<Version>)
    ensures
        match r {
            Some(v) => lenient_version(text@) == Some(v@),
            None => lenient_version(text@) is None,
        },
{
    lenient_parse(text)
}

impl Version {
    /// The release `major.minor.patch`, without pre-release or build metadata.
    pub fn new(major: u64, minor: u64, patch: u64) -> (r: Version)
        ensures
            r@ == (VersionView { major, minor, patch, pre: Seq::empty(), build: Seq::empty() }),
    {
        Version { major, minor, patch, pre: String::new(), build: String::new() }
    }

    /// A copy of this version.
    pub fn duplicate(&self) -> (r: Version)
        ensures
            r@ == self@,
    {
        Version {
            major: self.major,
            minor: self.minor,
            patch: self.patch,
            pre: self.pre.clone(),
            build: self.build.clone(),
        }
    }

    /// How this version compares with `other` by semantic-version precedence.
    pub fn cmp_precedence(&self, other: &Version) -> (r: Option<Ordering>)
        ensures
            r == precedence(self@, other@),
    {
        semver_precedence(self, other)
    }

    /// This version as text.
    pub fn to_text(&self) -> (r: String)
        ensures
            r@ == version_text(self@),
    {
        proof {
            reveal_strlit(".");
            reveal_strlit("-");
            reveal_strlit("+");
        }
        let mut s = u64_text(self.major);
        s.append(".");
        let minor = u64_text(self.minor);
        s.append(minor.as_str());
        s.append(".");
        let patch = u64_text(self.patch);
        s.append(patch.as_str());
        if !self.pre.as_str().is_empty() {
            s.append("-");
            s.append(self.pre.as_str());
        }
        if !self.build.as_str().is_empty() {
            s.append("+");
            s.append(self.build.as_str());
        }
        assert(s@ =~= version_text(self@));
        s
    }
}

/// A semantic-version range, kept as the text it was read from.
pub struct VersionConstraint {
    pub text: String,
}

impl View for VersionConstraint {
    type V = Seq<char>;

    open spec fn view(&self) -> Seq<char> {
        self.text@
    }
}

/// The range text is not one `semver` accepts.
pub struct InvalidConstraint {
    pub text: String,
}

impl VersionConstraint {
    /// Reads a range such as `^1.2.0`, `~0.3`, `>=1, <2` or `*`.
    pub fn parse(text: &str) -> (r: Result<VersionConstraint, InvalidConstraint>)
        ensures
            r is Ok <==> req_valid(text@),
            match r {
                Ok(c) => c@ == text@,
                Err(e) => e.text@ == text@,
            },
    {
        if req_parses(text) {
            Ok(VersionConstraint { text: text.to_string() })
        } else {
            Err(InvalidConstraint { text: text.to_string() })
        }
    }

    /// The constraint that matches any release: `*`.
    pub fn any() -> (r: VersionConstraint)
        ensures
            r@ == seq!['*'],
    {
        let text = String::from_str("*");
        proof {
            reveal_strlit("*");
        }
        VersionConstraint { text }
    }

    /// A copy of this constraint.
    pub fn duplicate(&self) -> (r: VersionConstraint)
        ensures
            r@ == self@,
    {
        VersionConstraint { text: self.text.clone() }
    }

    /// Whether `v` satisfies this constraint.
    pub fn matches(&self, v: &Version) -> (r: bool)
        ensures
            r == req_matches(self@, v@),
    {
        semver_matches(self.text.as_str(), v)
    }
}

} // verus!
