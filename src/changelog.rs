//! Changelog sections: their text, and where a new one goes in a changelog.

use crate::git::concat;
use crate::text::{chars_of, find_from, find_spec, string_of, trim, trimmed};
use vstd::prelude::*;

verus! {

/// The start of every version section.
pub open spec fn section_marker() -> Seq<char> {
    "## ["@
}

/// The header of a new changelog.
pub open spec fn changelog_header() -> Seq<char> {
    "# Changelog\n\nAll notable changes to this project will be documented in this file.\n\n"@
}

/// The section for `version`, released on `date`, listing `changes`.
pub open spec fn section_text(version: Seq<char>, changes: Seq<char>, date: Seq<char>) -> Seq<
    char,
> {
    "## ["@ + version + "] - "@ + date + "\n\n"@ + trimmed(changes)
}

/// The changelog section for `version`, released on `date` (`YYYY-MM-DD`),
/// with the change list `changes_markdown` trimmed.
pub fn format_changelog_section(version: &str, changes_markdown: &str, date: &str) -> (r: String)
    ensures
        r@ == section_text(version@, changes_markdown@, date@),
{
    let head = concat("## [", version);
    let head = concat(head.as_str(), "] - ");
    let head = concat(head.as_str(), date);
    let head = concat(head.as_str(), "\n\n");
    let changes = trim(changes_markdown);
    concat(head.as_str(), changes.as_str())
}

/// Where a new section goes in an existing changelog: before the first
/// version section; else after the header, taken to end at the first blank
/// line pair (`"\n\n\n"`, the new section going after its first two line
/// breaks); else at the end.
pub open spec fn insertion_point(c: Seq<char>) -> int {
    match find_spec(c, section_marker()) {
        Some(p) => p,
        None => match find_spec(c, "\n\n\n"@) {
            Some(p) => p + 2,
            None => c.len() as int,
        },
    }
}

/// The changelog with `section` added: after the header in a new changelog
/// (`existing` is `None`), else at `insertion_point`; a blank line follows it.
pub open spec fn with_section(existing: Option<Seq<char>>, section: Seq<char>) -> Seq<char> {
    match existing {
        None => changelog_header() + section + "\n\n"@,
        Some(c) => {
            let p = insertion_point(c);
            c.take(p) + section + "\n\n"@ + c.skip(p)
        },
    }
}

/// The changelog with `new_section` added, from its current text, if there
/// is a changelog yet.
pub fn insert_changelog_section(existing: Option<&str>, new_section: &str) -> (r: String)
    ensures
        r@ == with_section(
            match existing {
                Some(c) => Some(c@),
                None => None,
            },
            new_section@,
        ),
{
    match existing {
        None => {
            let header =
                "# Changelog\n\nAll notable changes to this project will be documented in this file.\n\n";
            let r = concat(header, new_section);
            concat(r.as_str(), "\n\n")
        },
        Some(c) => {
            let v = chars_of(c);
            let marker = chars_of("## [");
            let gap = chars_of("\n\n\n");
            let pos: usize = match find_from(&v, &marker, 0) {
                Some(p) => p,
                None => match find_from(&v, &gap, 0) {
                    Some(p) => {
                        proof {
                            reveal_strlit("\n\n\n");
                        }
                        p + 2
                    },
                    None => v.len(),
                },
            };
            let before = string_of(&v, 0, pos);
            let after = string_of(&v, pos, v.len());
            let r = concat(before.as_str(), new_section);
            let r = concat(r.as_str(), "\n\n");
            let r = concat(r.as_str(), after.as_str());
            proof {
                assert(v@.subrange(0, pos as int) =~= c@.take(pos as int));
                assert(v@.subrange(pos as int, v.len() as int) =~= c@.skip(pos as int));
            }
            r
        },
    }
}

} // verus!
