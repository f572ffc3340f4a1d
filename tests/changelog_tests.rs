use commit_sense::changelog::{format_changelog_section, insert_changelog_section};

const HEADER: &str =
    "# Changelog\n\nAll notable changes to this project will be documented in this file.\n\n";

#[test]
fn section_has_heading_date_and_trimmed_changes() {
    let s = format_changelog_section("1.1.0", "\n- Added new feature\n- Fixed critical bug  \n", "2025-04-01");
    assert_eq!(s, "## [1.1.0] - 2025-04-01\n\n- Added new feature\n- Fixed critical bug");
}

#[test]
fn new_changelog_gets_a_header() {
    let r = insert_changelog_section(None, "## [1.1.0] - 2025-04-02\n\n- X");
    assert_eq!(r, format!("{}## [1.1.0] - 2025-04-02\n\n- X\n\n", HEADER));
}

#[test]
fn new_section_goes_before_older_ones() {
    let existing = format!("{}## [1.0.0] - 2025-04-01\n\n- Initial release\n", HEADER);
    let r = insert_changelog_section(Some(&existing), "## [1.1.0] - 2025-04-02\n\n- Added new feature");
    assert_eq!(
        r,
        format!(
            "{}## [1.1.0] - 2025-04-02\n\n- Added new feature\n\n## [1.0.0] - 2025-04-01\n\n- Initial release\n",
            HEADER
        )
    );
}

#[test]
fn without_sections_it_goes_after_the_header_gap() {
    let r = insert_changelog_section(Some("# Log\n\n\nnotes"), "S");
    assert_eq!(r, "# Log\n\nS\n\n\nnotes");
}

#[test]
fn without_sections_or_gap_it_goes_at_the_end() {
    let r = insert_changelog_section(Some("# Log\n"), "S");
    assert_eq!(r, "# Log\nS\n\n");
}
