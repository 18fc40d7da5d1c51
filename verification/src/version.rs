//! Semantic versions: reading them from text, writing them back, and their
//! precedence. A version is read and ordered by the `semver` crate; the
//! library holds what it read as plain values.

use vstd::prelude::*;
use crate::text::{decimal, push_decimal, push_str, string_of};

verus! {

#[verifier::external_type_specification]
#[verifier::external_body]
pub struct ExVersion(semver::Version);

#[verifier::external_type_specification]
#[verifier::external_body]
pub struct ExSemverError(semver::Error);

/// The parts of a semantic version: the three numbers, the pre-release and
/// the build metadata (each as its text, empty when absent).
pub struct SemVerView {
    pub major: nat,
    pub minor: nat,
    pub patch: nat,
    pub pre: Seq<char>,
    pub build: Seq<char>,
}

/// A semantic version read by `semver::Version::parse`, with its parts as
/// plain values. Only a successful parse makes one, so its parts are always
/// those of the `semver` value it carries.
#[derive(Debug)]
pub struct SemVer {
    major: u64,
    minor: u64,
    patch: u64,
    pre: String,
    build: String,
    version: semver::Version,
}

impl View for SemVer {
    type V = SemVerView;

    closed spec fn view(&self) -> SemVerView {
        SemVerView {
            major: self.major as nat,
            minor: self.minor as nat,
            patch: self.patch as nat,
            pre: self.pre@,
            build: self.build@,
        }
    }
}

/// The version `semver::Version::parse` reads from `text`, or `None` where
/// it reports an error (numbers without leading zeros, pre-release and
/// build identifiers, no white space, as semver.org defines them).
pub uninterp spec fn semver_parse(text: Seq<char>) -> Option<SemVerView>;

/// Whether `a` has lower precedence than `b`, as `semver::Version`'s `<`
/// orders them.
pub uninterp spec fn semver_precedes(a: SemVerView, b: SemVerView) -> bool;

/// Reads a semantic version.
///
/// Wraps `semver::Version::parse` and copies the parsed parts (`major`,
/// `minor`, `patch`, and the text of `pre` and `build`) out of the result.
/// The contract claims that success and the parts read are a function of
/// the text alone, named `semver_parse`.
#[verifier::external_body]
fn parse_version(text: &str) -> (r: Result<SemVer, semver::Error>)
    ensures
        r is Ok <==> semver_parse(text@) is Some,
        r is Ok ==> semver_parse(text@) == Some(r.unwrap()@),
{
    semver::Version::parse(text).map(|v| SemVer {
        major: v.major,
        minor: v.minor,
        patch: v.patch,
        pre: v.pre.as_str().to_owned(),
        build: v.build.as_str().to_owned(),
        version: v,
    })
}

/// Whether the three numbers of `a` come before those of `b`, compared from
/// left to right.
pub open spec fn core_precedes(a: SemVerView, b: SemVerView) -> bool {
    a.major < b.major || (a.major == b.major && (a.minor < b.minor || (a.minor == b.minor
        && a.patch < b.patch)))
}

/// Whether `a` and `b` have the same three numbers.
pub open spec fn same_core(a: SemVerView, b: SemVerView) -> bool {
    a.major == b.major && a.minor == b.minor && a.patch == b.patch
}

/// Whether `a` has lower precedence than `b`.
///
/// Wraps `<` on the `semver::Version` values. Besides naming the answer
/// `semver_precedes`, the contract states what `semver`'s documentation
/// says of the order: it is total, the three numbers are compared first,
/// from left to right, and with equal numbers a pre-release comes before the
/// ordinary release.
#[verifier::external_body]
fn version_precedes(a: &SemVer, b: &SemVer) -> (r: bool)
    ensures
        r == semver_precedes(a@, b@),
        r ==> !semver_precedes(b@, a@),
        a@ == b@ ==> !r,
        core_precedes(a@, b@) ==> r,
        core_precedes(b@, a@) ==> !r,
        same_core(a@, b@) && a@.pre.len() > 0 && b@.pre.len() == 0 ==> r,
        same_core(a@, b@) && a@.pre.len() == 0 && b@.pre.len() > 0 ==> !r,
{
    a.version < b.version
}

/// Text that is not a semantic version.
#[derive(Debug, Clone, PartialEq, Eq)]
pub struct InvalidVersion {
    pub text: String,
}

/// Reads `text` as a semantic version.
pub fn parse_semver(text: &str) -> (r: Result<SemVer, InvalidVersion>)
    ensures
        r is Ok <==> semver_parse(text@) is Some,
        r is Ok ==> semver_parse(text@) == Some(r.unwrap()@),
        r matches Err(e) ==> e.text@ == text@,
{
    match parse_version(text) {
        Ok(v) => Ok(v),
        Err(_) => Err(InvalidVersion { text: text.to_owned() }),
    }
}

/// Whether `latest` has higher precedence than `current`.
pub fn is_newer(latest: &SemVer, current: &SemVer) -> (r: bool)
    ensures
        r == semver_precedes(current@, latest@),
{
    version_precedes(current, latest)
}

/// The text of a version as `semver` displays it: the three numbers joined
/// by `.`, then `-` and the pre-release and `+` and the build metadata where
/// they are present.
pub open spec fn version_text(v: SemVerView) -> Seq<char> {
    decimal(v.major) + seq!['.'] + decimal(v.minor) + seq!['.'] + decimal(v.patch) + (if v.pre.len()
        > 0 {
        seq!['-'] + v.pre
    } else {
        Seq::empty()
    }) + (if v.build.len() > 0 {
        seq!['+'] + v.build
    } else {
        Seq::empty()
    })
}

impl SemVer {
    /// The version's text.
    pub fn to_text(&self) -> (r: String)
        ensures
            r@ == version_text(self@),
    {
        let mut out: Vec<char> = Vec::new();
        push_decimal(&mut out, self.major);
        out.push('.');
        push_decimal(&mut out, self.minor);
        out.push('.');
        push_decimal(&mut out, self.patch);
        let ghost core = out@;
        if !self.pre.as_str().is_empty() {
            out.push('-');
            push_str(&mut out, self.pre.as_str());
        }
        let ghost with_pre = out@;
        if !self.build.as_str().is_empty() {
            out.push('+');
            push_str(&mut out, self.build.as_str());
        }
        proof {
            let v = self@;
            let pre_part: Seq<char> = if v.pre.len() > 0 { seq!['-'] + v.pre } else { Seq::empty() };
            let build_part: Seq<char> = if v.build.len() > 0 { seq!['+'] + v.build } else { Seq::empty() };
            assert(core =~= decimal(v.major) + seq!['.'] + decimal(v.minor) + seq!['.'] + decimal(v.patch));
            assert(with_pre =~= core + pre_part);
            assert(out@ =~= with_pre + build_part);
        }
        string_of(&out)
    }
}

} // verus!
