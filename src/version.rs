//! Semantic versions held as plain values: the next version for a bump, the
//! nightly form of a version, and the text of a version.

use crate::git::concat;
use crate::patterns::prerelease_is_valid;
use crate::text::same_text;
use vstd::prelude::*;

verus! {

/// A semantic version: `major.minor.patch`, with optional pre-release and
/// build metadata (empty where absent).
#[derive(Debug, PartialEq, Eq)]
pub struct SemanticVersion {
    pub major: u64,
    pub minor: u64,
    pub patch: u64,
    pub pre: String,
    pub build: String,
}

pub open spec fn digit_char(d: nat) -> char {
    ((d + 48) as u8) as char
}

/// The decimal digits of `n`, without leading zeros.
pub open spec fn decimal(n: nat) -> Seq<char>
    decreases n,
{
    if n < 10 {
        seq![digit_char(n)]
    } else {
        decimal(n / 10).push(digit_char(n % 10))
    }
}

/// Appends the decimal digits of `n` to `out`.
pub fn push_decimal(out: &mut String, n: u64)
    ensures
        final(out)@ == old(out)@ + decimal(n as nat),
    decreases n,
{
    if n >= 10 {
        push_decimal(out, n / 10);
    }
    let d: u8 = (n % 10) as u8;
    out.push((d + 48) as char);
    proof {
        if n >= 10 {
            assert(decimal(n as nat) == decimal((n / 10) as nat).push(digit_char((n % 10) as nat)));
        }
    }
}

/// The text of a version: `major.minor.patch`, then `-pre` and `+build` where
/// they are not empty.
pub open spec fn version_text(
    major: u64,
    minor: u64,
    patch: u64,
    pre: Seq<char>,
    build: Seq<char>,
) -> Seq<char> {
    let core = decimal(major as nat) + "."@ + decimal(minor as nat) + "."@ + decimal(patch as nat);
    let with_pre = if pre.len() > 0 {
        core + "-"@ + pre
    } else {
        core
    };
    if build.len() > 0 {
        with_pre + "+"@ + build
    } else {
        with_pre
    }
}

/// Whether a bump type is one of `major`, `minor`, `patch` and `none`.
pub open spec fn is_bump_type(b: Seq<char>) -> bool {
    b == "major"@ || b == "minor"@ || b == "patch"@ || b == "none"@
}

/// Whether `bump` is a known bump type.
pub fn is_valid_bump_type(bump: &str) -> (r: bool)
    ensures
        r == is_bump_type(bump@),
{
    same_text(bump, "major") || same_text(bump, "minor") || same_text(bump, "patch") || same_text(
        bump,
        "none",
    )
}

impl SemanticVersion {
    /// The version `major.minor.patch` with no pre-release and no build metadata.
    pub fn new(major: u64, minor: u64, patch: u64) -> (r: SemanticVersion)
        ensures
            r.major == major && r.minor == minor && r.patch == patch,
            r.pre@.len() == 0 && r.build@.len() == 0,
    {
        SemanticVersion { major, minor, patch, pre: String::new(), build: String::new() }
    }

    /// The text of the version.
    pub fn to_string(&self) -> (r: String)
        ensures
            r@ == version_text(self.major, self.minor, self.patch, self.pre@, self.build@),
    {
        let mut r = String::new();
        push_decimal(&mut r, self.major);
        r.push('.');
        push_decimal(&mut r, self.minor);
        r.push('.');
        push_decimal(&mut r, self.patch);
        proof {
            reveal_strlit(".");
            assert(r@ =~= decimal(self.major as nat) + "."@ + decimal(self.minor as nat) + "."@
                + decimal(self.patch as nat));
        }
        if !self.pre.as_str().is_empty() {
            r.push('-');
            r.append(self.pre.as_str());
            proof {
                reveal_strlit("-");
            }
        }
        let ghost with_pre = r@;
        if !self.build.as_str().is_empty() {
            r.push('+');
            r.append(self.build.as_str());
            proof {
                reveal_strlit("+");
                assert(r@ =~= with_pre + "+"@ + self.build@);
            }
        }
        proof {
            if self.pre@.len() > 0 {
                assert(with_pre =~= decimal(self.major as nat) + "."@ + decimal(self.minor as nat)
                    + "."@ + decimal(self.patch as nat) + "-"@ + self.pre@);
            }
        }
        r
    }
}

/// The version that follows `current` for a bump of type `bump_type`: a
/// `major` bump raises the major number and zeroes the others, a `minor` one
/// raises the minor number and zeroes the patch, a `patch` one raises the
/// patch number; each of them drops pre-release and build metadata. Any other
/// bump type, `none` among them, leaves the version as it is.
pub fn calculate_expected_version(current: &SemanticVersion, bump_type: &str) -> (r:
    SemanticVersion)
    requires
        bump_type@ == "major"@ ==> current.major < u64::MAX,
        bump_type@ == "minor"@ ==> current.minor < u64::MAX,
        bump_type@ == "patch"@ ==> current.patch < u64::MAX,
    ensures
        bump_type@ == "major"@ ==> r.major == current.major + 1 && r.minor == 0 && r.patch == 0
            && r.pre@.len() == 0 && r.build@.len() == 0,
        bump_type@ == "minor"@ ==> r.major == current.major && r.minor == current.minor + 1
            && r.patch == 0 && r.pre@.len() == 0 && r.build@.len() == 0,
        bump_type@ == "patch"@ ==> r.major == current.major && r.minor == current.minor && r.patch
            == current.patch + 1 && r.pre@.len() == 0 && r.build@.len() == 0,
        !(bump_type@ == "major"@ || bump_type@ == "minor"@ || bump_type@ == "patch"@) ==> r.major
            == current.major && r.minor == current.minor && r.patch == current.patch && r.pre@
            == current.pre@ && r.build@ == current.build@,
{
    proof {
        reveal_strlit("major");
        reveal_strlit("minor");
        reveal_strlit("patch");
        assert("major"@ != "minor"@) by {
            assert("major"@[1] != "minor"@[1]);
        }
        assert("major"@ != "patch"@) by {
            assert("major"@[0] != "patch"@[0]);
        }
        assert("minor"@ != "patch"@) by {
            assert("minor"@[0] != "patch"@[0]);
        }
    }
    if same_text(bump_type, "major") {
        SemanticVersion::new(current.major + 1, 0, 0)
    } else if same_text(bump_type, "minor") {
        SemanticVersion::new(current.major, current.minor + 1, 0)
    } else if same_text(bump_type, "patch") {
        SemanticVersion::new(current.major, current.minor, current.patch + 1)
    } else {
        SemanticVersion {
            major: current.major,
            minor: current.minor,
            patch: current.patch,
            pre: current.pre.clone(),
            build: current.build.clone(),
        }
    }
}

/// The pre-release of a nightly build of the day `today` (`YYYYMMDD`):
/// `nightly.<today>` where that is a valid pre-release, else none.
pub open spec fn nightly_pre(today: Seq<char>) -> Seq<char> {
    if prerelease_is_valid("nightly."@ + today) {
        "nightly."@ + today
    } else {
        Seq::empty()
    }
}

/// `version` as a nightly build of the day `today` (`YYYYMMDD`): the same
/// numbers, the pre-release `nightly.<today>`, and no build metadata.
pub fn create_nightly_version(version: &SemanticVersion, today: &str) -> (r: SemanticVersion)
    ensures
        r.major == version.major && r.minor == version.minor && r.patch == version.patch,
        r.pre@ == nightly_pre(today@),
        r.build@.len() == 0,
{
    let text = concat("nightly.", today);
    let pre = match semver::Prerelease::new(text.as_str()) {
        Ok(_) => text,
        Err(_) => String::new(),
    };
    SemanticVersion {
        major: version.major,
        minor: version.minor,
        patch: version.patch,
        pre,
        build: String::new(),
    }
}

/// Whether the version file and changelog are written: for a bump other
/// than `none`, and for every nightly build.
pub fn should_apply_changes(bump_type: &str, nightly: bool) -> (r: bool)
    ensures
        r == (bump_type@ != "none"@ || nightly),
{
    !same_text(bump_type, "none") || nightly
}

} // verus!
