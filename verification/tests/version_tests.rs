use std::cmp::Ordering;
use release_manager::utils::version::{compare_versions, is_newer, normalize_version, order_versions};

#[test]
fn normalize_strips_every_leading_v() {
    assert_eq!(normalize_version("v1.2.3"), "1.2.3");
    assert_eq!(normalize_version("vv1.0"), "1.0");
    assert_eq!(normalize_version("1.0v"), "1.0v");
    assert_eq!(normalize_version("V1.0"), "V1.0");
    assert_eq!(normalize_version(""), "");
    assert_eq!(normalize_version("vvv"), "");
}

#[test]
fn semantic_versions_compare_numerically() {
    // As plain strings "1.10.0" < "1.9.0"; as versions it is newer.
    assert_eq!(compare_versions("1.10.0", "1.9.0"), Ordering::Greater);
    assert_eq!(compare_versions("1.9.0", "1.10.0"), Ordering::Less);
    assert_eq!(compare_versions("v1.2.3", "1.2.3"), Ordering::Equal);
    assert_eq!(compare_versions("vv2.0.0", "1.0.0"), Ordering::Greater);
}

#[test]
fn prerelease_and_build_metadata_order() {
    assert_eq!(compare_versions("1.0.0-alpha", "1.0.0"), Ordering::Less);
    assert_eq!(compare_versions("1.0.0-alpha", "1.0.0-beta"), Ordering::Less);
    assert_eq!(compare_versions("1.0.0-beta.11", "1.0.0-beta.2"), Ordering::Greater);
    assert_eq!(compare_versions("1.0.0+build", "1.0.0"), Ordering::Greater);
}

#[test]
fn non_semantic_versions_compare_as_strings() {
    assert_eq!(compare_versions("abc", "abd"), Ordering::Less);
    assert_eq!(compare_versions("1.0", "1.0.1"), Ordering::Less);
    assert_eq!(compare_versions("2024-01-10", "2024-01-02"), Ordering::Greater);
    // One side a semantic version, the other not: string order ("1" < "r").
    assert_eq!(compare_versions("1.2.3", "release"), Ordering::Less);
    assert_eq!(compare_versions("v1.10", "v1.9"), Ordering::Less);
}

#[test]
fn comparison_is_antisymmetric_and_reflexive() {
    let samples = ["1.0.0", "v1.2.3", "1.10.0", "abc", "", "1.0.0-rc.1", "v", "2.0"];
    for a in samples.iter() {
        assert_eq!(compare_versions(a, a), Ordering::Equal);
        for b in samples.iter() {
            assert_eq!(compare_versions(a, b), compare_versions(b, a).reverse());
        }
    }
}

#[test]
fn is_newer_cases() {
    assert!(is_newer("v2.0.0", "1.9.9"));
    assert!(!is_newer("1.9.9", "v2.0.0"));
    assert!(!is_newer("1.0.0", "1.0.0"));
    assert!(is_newer("1.10.0", "1.9.0"));
    assert!(!is_newer("abc", "abd"));
    assert!(is_newer("abd", "abc"));
}

#[test]
fn order_versions_uses_the_semver_result_when_given() {
    assert_eq!(order_versions("b", "a", Some(Ordering::Less)), Ordering::Less);
    assert_eq!(order_versions("b", "a", None), Ordering::Greater);
    assert_eq!(order_versions("a", "a", None), Ordering::Equal);
    assert_eq!(order_versions("", "a", None), Ordering::Less);
}
