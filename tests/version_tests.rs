use commit_sense::version::{
    calculate_expected_version, create_nightly_version, is_valid_bump_type, should_apply_changes,
    SemanticVersion,
};
use chrono::Utc;

fn version(major: u64, minor: u64, patch: u64, pre: &str, build: &str) -> SemanticVersion {
    SemanticVersion { major, minor, patch, pre: pre.to_string(), build: build.to_string() }
}

#[test]
fn test_calculate_expected_version_major() {
    let current = version(1, 2, 3, "", "");
    let expected = calculate_expected_version(&current, "major");

    assert_eq!(expected.to_string(), "2.0.0");
}

#[test]
fn test_calculate_expected_version_minor() {
    let current = version(1, 2, 3, "", "");
    let expected = calculate_expected_version(&current, "minor");

    assert_eq!(expected.to_string(), "1.3.0");
}

#[test]
fn test_calculate_expected_version_patch() {
    let current = version(1, 2, 3, "", "");
    let expected = calculate_expected_version(&current, "patch");

    assert_eq!(expected.to_string(), "1.2.4");
}

#[test]
fn test_calculate_expected_version_none() {
    let current = version(1, 2, 3, "", "");
    let expected = calculate_expected_version(&current, "none");

    assert_eq!(expected.to_string(), "1.2.3");
}

#[test]
fn test_calculate_expected_version_prerelease() {
    let current = version(1, 2, 3, "alpha.1", "build.123");

    // Major bump should clear pre-release and build metadata
    let expected_major = calculate_expected_version(&current, "major");
    assert_eq!(expected_major.to_string(), "2.0.0");

    // Minor bump should clear pre-release and build metadata
    let expected_minor = calculate_expected_version(&current, "minor");
    assert_eq!(expected_minor.to_string(), "1.3.0");

    // Patch bump should clear pre-release and build metadata
    let expected_patch = calculate_expected_version(&current, "patch");
    assert_eq!(expected_patch.to_string(), "1.2.4");
}

#[test]
fn test_calculate_expected_version_invalid_bump() {
    let current = version(1, 2, 3, "", "");
    let expected = calculate_expected_version(&current, "invalid");

    // Should return the current version unchanged for invalid bump types
    assert_eq!(expected.to_string(), "1.2.3");
}

#[test]
fn test_create_nightly_version() {
    let base = version(1, 2, 3, "", "");
    let today = Utc::now().format("%Y%m%d").to_string();
    let nightly = create_nightly_version(&base, &today);

    // Check that the major, minor, and patch versions remain the same
    assert_eq!(nightly.major, 1);
    assert_eq!(nightly.minor, 2);
    assert_eq!(nightly.patch, 3);

    // Check that the pre-release identifier starts with "nightly."
    assert!(nightly.pre.starts_with("nightly."));

    // Check that the pre-release identifier contains a date in the format YYYYMMDD
    assert!(nightly.pre.contains(&today));

    // Check that the build metadata is empty
    assert!(nightly.build.is_empty());
}

#[test]
fn nightly_version_pads_month_and_day() {
    let base = version(0, 4, 0, "beta", "sha.1");
    let nightly = create_nightly_version(&base, "20250307");
    assert_eq!(nightly.to_string(), "0.4.0-nightly.20250307");
}

#[test]
fn nightly_version_of_a_zero_padded_year_has_no_prerelease() {
    let nightly = create_nightly_version(&version(1, 0, 0, "", ""), "09991231");
    assert_eq!(nightly.pre, "");
}

#[test]
fn version_text_keeps_prerelease_and_build() {
    assert_eq!(version(10, 0, 200, "rc.1", "x.y").to_string(), "10.0.200-rc.1+x.y");
    assert_eq!(version(3, 4, 5, "", "b7").to_string(), "3.4.5+b7");
    assert_eq!(SemanticVersion::new(18446744073709551615, 0, 9).to_string(), "18446744073709551615.0.9");
}

#[test]
fn bump_types_are_recognised() {
    assert!(is_valid_bump_type("major"));
    assert!(is_valid_bump_type("none"));
    assert!(!is_valid_bump_type("Major"));
    assert!(!is_valid_bump_type(""));
}

#[test]
fn files_change_for_a_bump_or_a_nightly() {
    assert!(should_apply_changes("minor", false));
    assert!(!should_apply_changes("none", false));
    assert!(should_apply_changes("none", true));
}

#[test]
fn nightly_version_of_a_bad_day_text_has_no_prerelease() {
    assert_eq!(create_nightly_version(&version(1, 0, 0, "", ""), "2025_01_01").pre, "");
    assert_eq!(create_nightly_version(&version(1, 0, 0, "", ""), "").pre, "");
    assert_eq!(create_nightly_version(&version(1, 0, 0, "", ""), "x-1").pre, "nightly.x-1");
}
