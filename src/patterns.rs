//! Tag filters and tag versions, backed by the `glob`, `regex` and `semver`
//! crates. Each compiled value is kept beside the text it was compiled from,
//! so that what it does can be stated over that text.

use core::cmp::Ordering;
use crate::text::{all_digits, split};
use vstd::prelude::*;

verus! {

#[verifier::external_type_specification]
#[verifier::external_body]
pub struct ExGlobPattern(glob::Pattern);

#[verifier::external_type_specification]
#[verifier::external_body]
pub struct ExGlobPatternError(glob::PatternError);

#[verifier::external_type_specification]
#[verifier::external_body]
pub struct ExRegex(regex::Regex);

#[verifier::external_type_specification]
#[verifier::external_body]
pub struct ExRegexError(regex::Error);

#[verifier::external_type_specification]
#[verifier::external_body]
pub struct ExVersion(semver::Version);

#[verifier::external_type_specification]
#[verifier::external_body]
pub struct ExSemverError(semver::Error);

#[verifier::external_type_specification]
#[verifier::external_body]
pub struct ExPrerelease(semver::Prerelease);

/// Whether `glob::Pattern::new` accepts the pattern text.
pub uninterp spec fn glob_is_valid(pattern: Seq<char>) -> bool;

/// Whether the glob compiled from `pattern` matches `name`.
pub uninterp spec fn glob_accepts(pattern: Seq<char>, name: Seq<char>) -> bool;

/// Whether `regex::Regex::new` accepts the expression text.
pub uninterp spec fn regex_is_valid(expr: Seq<char>) -> bool;

/// Whether the expression compiled from `expr` matches somewhere in `name`.
pub uninterp spec fn regex_accepts(expr: Seq<char>, name: Seq<char>) -> bool;

/// Whether `semver::Version::parse` accepts the text.
pub uninterp spec fn semver_is_valid(text: Seq<char>) -> bool;

/// How the versions parsed from `a` and `b` compare by precedence: major,
/// minor, patch and pre-release, build metadata left aside.
pub uninterp spec fn semver_order(a: Seq<char>, b: Seq<char>) -> Ordering;

/// A character that may stand in a pre-release identifier.
pub open spec fn is_identifier_char(c: char) -> bool {
    ('0' <= c && c <= '9') || ('A' <= c && c <= 'Z') || ('a' <= c && c <= 'z') || c == '-'
}

/// A pre-release identifier: not empty, of `[0-9A-Za-z-]`, and without a
/// leading zero where it is a number of more than one digit.
pub open spec fn is_prerelease_identifier(id: Seq<char>) -> bool {
    &&& id.len() > 0
    &&& forall|k: int| 0 <= k < id.len() ==> is_identifier_char(#[trigger] id[k])
    &&& !(id.len() > 1 && all_digits(id) && id[0] == '0')
}

/// A pre-release: empty, or identifiers separated by single dots.
pub open spec fn prerelease_is_valid(text: Seq<char>) -> bool {
    text.len() == 0 || forall|k: int|
        0 <= k < split(text, seq!['.']).len() ==> is_prerelease_identifier(
            #[trigger] split(text, seq!['.'])[k],
        )
}

/// Relies on `glob::Pattern::new`: it compiles the pattern or says why it
/// cannot, from the pattern text alone.
pub assume_specification[ glob::Pattern::new ](pattern: &str) -> (r: Result<
    glob::Pattern,
    glob::PatternError,
>)
    ensures
        r is Ok <==> glob_is_valid(pattern@),
;

/// Relies on `regex::Regex::new`: it compiles the expression or says why it
/// cannot, from the expression text alone.
pub assume_specification[ regex::Regex::new ](re: &str) -> (r: Result<regex::Regex, regex::Error>)
    ensures
        r is Ok <==> regex_is_valid(re@),
;

/// Relies on `semver::Version::parse`: whether a text is a version depends on
/// the text alone.
pub assume_specification[ semver::Version::parse ](text: &str) -> (r: Result<
    semver::Version,
    semver::Error,
>)
    ensures
        r is Ok <==> semver_is_valid(text@),
;

/// Relies on `semver::Prerelease::new`: it accepts exactly the texts that
/// `prerelease_is_valid` describes.
pub assume_specification[ semver::Prerelease::new ](text: &str) -> (r: Result<
    semver::Prerelease,
    semver::Error,
>)
    ensures
        r is Ok <==> prerelease_is_valid(text@),
;

/// A compiled glob pattern for tag names.
pub struct TagGlob {
    source: String,
    pattern: glob::Pattern,
}

impl TagGlob {
    /// The pattern text.
    pub closed spec fn source(&self) -> Seq<char> {
        self.source@
    }

    /// Compiles `source`.
    pub fn new(source: &str) -> (r: Result<TagGlob, glob::PatternError>)
        ensures
            r is Ok <==> glob_is_valid(source@),
            r matches Ok(g) ==> g.source() == source@,
    {
        match glob::Pattern::new(source) {
            Ok(pattern) => Ok(TagGlob { source: source.to_owned(), pattern }),
            Err(e) => Err(e),
        }
    }

    /// Relies on `glob::Pattern::matches`, on the pattern compiled from
    /// `self.source()` (the fields are set only by `new`).
    #[verifier::external_body]
    pub(crate) fn matches(&self, name: &str) -> (r: bool)
        ensures
            r == glob_accepts(self.source(), name@),
    {
        self.pattern.matches(name)
    }
}

/// A compiled regular expression for tag names.
pub struct TagRegex {
    source: String,
    regex: regex::Regex,
}

impl TagRegex {
    /// The expression text.
    pub closed spec fn source(&self) -> Seq<char> {
        self.source@
    }

    /// Compiles `source`.
    pub fn new(source: &str) -> (r: Result<TagRegex, regex::Error>)
        ensures
            r is Ok <==> regex_is_valid(source@),
            r matches Ok(x) ==> x.source() == source@,
    {
        match regex::Regex::new(source) {
            Ok(regex) => Ok(TagRegex { source: source.to_owned(), regex }),
            Err(e) => Err(e),
        }
    }

    /// Relies on `regex::Regex::is_match`, on the expression compiled from
    /// `self.source()` (the fields are set only by `new`).
    #[verifier::external_body]
    pub(crate) fn is_match(&self, name: &str) -> (r: bool)
        ensures
            r == regex_accepts(self.source(), name@),
    {
        self.regex.is_match(name)
    }
}

/// A semantic version together with the text it was parsed from.
pub struct TagVersion {
    text: String,
    version: semver::Version,
}

impl TagVersion {
    /// The text the version was parsed from.
    pub closed spec fn text(&self) -> Seq<char> {
        self.text@
    }

    /// Parses `text` as a semantic version.
    pub fn parse(text: &str) -> (r: Option<TagVersion>)
        ensures
            r is Some <==> semver_is_valid(text@),
            r matches Some(v) ==> v.text() == text@,
    {
        match semver::Version::parse(text) {
            Ok(version) => Some(TagVersion { text: text.to_owned(), version }),
            Err(_) => None,
        }
    }

    /// Relies on `semver::Version::cmp_precedence`, on the versions parsed
    /// from the two texts (the fields are set only by `parse`).
    #[verifier::external_body]
    pub(crate) fn compare(&self, other: &TagVersion) -> (r: Ordering)
        ensures
            r == semver_order(self.text(), other.text()),
    {
        self.version.cmp_precedence(&other.version)
    }
}

} // verus!
