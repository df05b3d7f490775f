//! Version strings: normalisation and ordering.
//!
//! Two version strings are compared as semantic versions when both parse as one
//! (after the leading `v`s are removed), and as plain strings otherwise.

use vstd::prelude::*;
use std::cmp::Ordering;
use crate::text::{strip_leading, strip_leading_char, lex_order, compare_str, lemma_lex_order_antisymmetric};

verus! {

#[verifier::external_type_specification]
#[verifier::external_body]
pub struct ExSemverVersion(semver::Version);

/// What `semver::Version::parse` yields for a text: `None` where the text is not a
/// semantic version, else its major, minor and patch numbers.
pub uninterp spec fn semver_parse(text: Seq<char>) -> Option<(u64, u64, u64)>;

/// How `Ord::cmp` of `semver::Version` orders the pre-release and build parts of the
/// versions parsed from two texts (-1, 0 or 1), once their numbers are equal.
pub uninterp spec fn semver_suffix_order(a: Seq<char>, b: Seq<char>) -> int;

/// A semantic version parsed from `text`.
pub struct SemVer {
    major: u64,
    minor: u64,
    patch: u64,
    text: String,
    parsed: semver::Version,
}

impl View for SemVer {
    type V = (u64, u64, u64, Seq<char>);

    closed spec fn view(&self) -> (u64, u64, u64, Seq<char>) {
        (self.major, self.minor, self.patch, self.text@)
    }
}

/// -1, 0 or 1 for `Less`, `Equal`, `Greater`.
pub open spec fn ordering_sign(o: Ordering) -> int {
    match o {
        Ordering::Less => -1,
        Ordering::Equal => 0,
        Ordering::Greater => 1,
    }
}

/// Three-way comparison of two numbers: -1, 0 or 1.
pub open spec fn num_order(x: u64, y: u64) -> int {
    if x < y { -1 } else if x > y { 1 } else { 0 }
}

/// The order of two parsed semantic versions: by major, minor and patch number,
/// then by pre-release and build metadata.
pub open spec fn semver_order(a: (u64, u64, u64, Seq<char>), b: (u64, u64, u64, Seq<char>)) -> int {
    if a.0 != b.0 {
        num_order(a.0, b.0)
    } else if a.1 != b.1 {
        num_order(a.1, b.1)
    } else if a.2 != b.2 {
        num_order(a.2, b.2)
    } else {
        semver_suffix_order(a.3, b.3)
    }
}

/// The order of two version strings: -1, 0 or 1.
pub open spec fn version_order(a: Seq<char>, b: Seq<char>) -> int {
    let na = strip_leading(a, 'v');
    let nb = strip_leading(b, 'v');
    match (semver_parse(na), semver_parse(nb)) {
        (Some(x), Some(y)) => semver_order((x.0, x.1, x.2, na), (y.0, y.1, y.2, nb)),
        _ => lex_order(na, nb),
    }
}

/// Calls `semver::Version::parse`. Claims that it succeeds exactly where the name
/// `semver_parse` is `Some`, and that the version it gives has those numbers; the
/// parsed text is kept beside the version.
#[verifier::external_body]
fn parse_semver(text: &str) -> (r: Option<SemVer>)
    ensures
        (r is None) <==> (semver_parse(text@) is None),
        r matches Some(v) ==> semver_parse(text@) == Some((v@.0, v@.1, v@.2)) && v@.3 == text@,
{
    match semver::Version::parse(text) {
        Ok(v) => Some(SemVer { major: v.major, minor: v.minor, patch: v.patch, text: text.to_string(), parsed: v }),
        Err(_) => None,
    }
}

/// Calls `Ord::cmp` of `semver::Version`, whose derived order compares major, minor
/// and patch, then pre-release and build metadata. Claims that order, with the last
/// step named `semver_suffix_order`; that comparing the other way round gives the
/// opposite result; and that versions parsed from the same text compare `Equal`.
#[verifier::external_body]
fn semver_cmp(a: &SemVer, b: &SemVer) -> (r: Ordering)
    ensures
        ordering_sign(r) == (if a@.0 != b@.0 {
            num_order(a@.0, b@.0)
        } else if a@.1 != b@.1 {
            num_order(a@.1, b@.1)
        } else if a@.2 != b@.2 {
            num_order(a@.2, b@.2)
        } else {
            semver_suffix_order(a@.3, b@.3)
        }),
        ordering_sign(r) == -semver_order(b@, a@),
        a@ == b@ ==> r == Ordering::Equal,
{
    a.parsed.cmp(&b.parsed)
}

/// Orders two normalised version strings, given how their parsed semantic versions
/// compare (`None` where one of them is not a semantic version): that comparison
/// where there is one, else the order of the strings.
pub fn order_versions(a: &str, b: &str, semver_result: Option<Ordering>) -> (r: Ordering)
    ensures
        semver_result matches Some(o) ==> r == o,
        (semver_result is None) ==> ordering_sign(r) == lex_order(a@, b@),
{
    match semver_result {
        Some(o) => o,
        None => {
            let c = compare_str(a, b);
            if c < 0 {
                Ordering::Less
            } else if c == 0 {
                Ordering::Equal
            } else {
                Ordering::Greater
            }
        },
    }
}

/// Compares two version strings: as semantic versions when both parse as one after
/// `normalize_version`, else as strings. The order is antisymmetric and every
/// string is equal to itself.
pub fn compare_versions(a: &str, b: &str) -> (r: Ordering)
    ensures
        ordering_sign(r) == version_order(a@, b@),
        ordering_sign(r) == -version_order(b@, a@),
        a@ == b@ ==> r == Ordering::Equal,
{
    let a_norm = normalize_version(a);
    let b_norm = normalize_version(b);
    let pa = parse_semver(a_norm);
    let pb = parse_semver(b_norm);
    let semver_result = match (&pa, &pb) {
        (Some(va), Some(vb)) => Some(semver_cmp(va, vb)),
        _ => None,
    };
    proof {
        lemma_lex_order_antisymmetric(a_norm@, b_norm@);
    }
    order_versions(a_norm, b_norm, semver_result)
}

/// Whether version `a` is newer than version `b`. A version is never newer than
/// itself, and of two versions at most one is newer than the other.
pub fn is_newer(a: &str, b: &str) -> (r: bool)
    ensures
        r == (version_order(a@, b@) == 1),
        r ==> version_order(b@, a@) == -1,
        a@ == b@ ==> !r,
{
    let o = compare_versions(a, b);
    match o {
        Ordering::Greater => true,
        _ => false,
    }
}

/// Removes the common `v` prefix of a version string (every leading `v`).
pub fn normalize_version(ver: &str) -> (r: &str)
    ensures
        r@ == strip_leading(ver@, 'v'),
{
    strip_leading_char(ver, 'v')
}

/// Where both versions, without their leading 'v's, are semantic versions, the one
/// with the larger (major, minor, patch) numbers, compared in that order, is the
/// newer: a larger major, or an equal major and a larger minor, or equal major and
/// minor and a larger patch.
pub proof fn lemma_semver_numbers_decide(a: Seq<char>, b: Seq<char>, x: (u64, u64, u64), y: (u64, u64, u64))
    requires
        semver_parse(strip_leading(a, 'v')) == Some(x),
        semver_parse(strip_leading(b, 'v')) == Some(y),
    ensures
        (x.0 > y.0 || (x.0 == y.0 && x.1 > y.1) || (x.0 == y.0 && x.1 == y.1 && x.2 > y.2)) ==> version_order(a, b)
            == 1,
        (x.0 < y.0 || (x.0 == y.0 && x.1 < y.1) || (x.0 == y.0 && x.1 == y.1 && x.2 < y.2)) ==> version_order(a, b)
            == -1,
{
}

/// A leading 'v' does not change a version: "v1.2.3" orders as "1.2.3" does, on
/// either side.
pub proof fn lemma_leading_v_ignored(a: Seq<char>, b: Seq<char>)
    ensures
        version_order(seq!['v'] + a, b) == version_order(a, b),
        version_order(a, seq!['v'] + b) == version_order(a, b),
{
    assert((seq!['v'] + a).drop_first() =~= a);
    assert((seq!['v'] + b).drop_first() =~= b);
}

/// Where a version, without its leading 'v's, is not a semantic version, the two
/// versions are ordered as strings (again without their leading 'v's).
pub proof fn lemma_non_semver_string_order(a: Seq<char>, b: Seq<char>)
    requires
        semver_parse(strip_leading(a, 'v')) is None || semver_parse(strip_leading(b, 'v')) is None,
    ensures
        version_order(a, b) == lex_order(strip_leading(a, 'v'), strip_leading(b, 'v')),
{
}

} // verus!
