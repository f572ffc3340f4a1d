//! Finding the JSON object in a model's free-form reply.

use crate::text::{chars_of, find_from, find_spec, first_match_from, matches_at, string_of, trim, trimmed};
use crate::error::CommitSenseError;
use crate::git::concat;
use crate::patterns::{semver_is_valid, TagVersion};
use crate::version::{is_bump_type, is_valid_bump_type};
use vstd::prelude::*;

verus! {

/// The end (inclusive) of a JSON object whose opening brace lies before `i`,
/// scanning on from `i` with `depth` braces open; inside a string literal
/// braces do not count, and a backslash makes the next character plain.
pub open spec fn object_end(s: Seq<char>, i: int, depth: int, in_string: bool, escape: bool) -> Option<
    int,
>
    decreases s.len() - i,
{
    if i < 0 || i >= s.len() {
        None
    } else if escape {
        object_end(s, i + 1, depth, in_string, false)
    } else if s[i] == '\\' {
        object_end(s, i + 1, depth, in_string, true)
    } else if s[i] == '"' {
        object_end(s, i + 1, depth, !in_string, false)
    } else if s[i] == '{' && !in_string {
        object_end(s, i + 1, depth + 1, in_string, false)
    } else if s[i] == '}' && !in_string {
        if depth - 1 == 0 {
            Some(i)
        } else {
            object_end(s, i + 1, depth - 1, in_string, false)
        }
    } else {
        object_end(s, i + 1, depth, in_string, false)
    }
}

/// The trimmed contents of the first fenced block opened by ```` ```json ````
/// and closed by the next ```` ``` ````.
pub open spec fn fenced_block(s: Seq<char>) -> Option<Seq<char>> {
    match find_spec(s, "```json"@) {
        Some(st) => {
            let cs = st + "```json"@.len();
            match find_spec(s.skip(cs), "```"@) {
                Some(e) => Some(trimmed(s.subrange(cs, cs + e))),
                None => None,
            }
        },
        None => None,
    }
}

/// The object that starts at the first `{`, up to its matching `}`.
pub open spec fn object_block(s: Seq<char>) -> Option<Seq<char>> {
    match find_spec(s, seq!['{']) {
        Some(st) => match object_end(s, st + 1, 1, false, false) {
            Some(e) => Some(s.subrange(st, e + 1)),
            None => None,
        },
        None => None,
    }
}

/// The JSON in a reply: the fenced block where there is a closed one, else
/// the first balanced object.
pub open spec fn json_block(s: Seq<char>) -> Option<Seq<char>> {
    match fenced_block(s) {
        Some(b) => Some(b),
        None => object_block(s),
    }
}

proof fn lemma_first_match_shift(s: Seq<char>, pat: Seq<char>, k: int, i: int)
    requires
        0 <= k <= s.len(),
        0 <= i,
    ensures
        first_match_from(s.skip(k), pat, i) == match first_match_from(s, pat, k + i) {
            Some(p) => Some(p - k),
            None => None::<int>,
        },
    decreases s.len() + 1 - (k + i),
{
    let t = s.skip(k);
    if i + pat.len() > t.len() {
    } else {
        assert(t.subrange(i, i + pat.len()) =~= s.subrange(k + i, k + i + pat.len()));
        if !matches_at(t, pat, i) {
            lemma_first_match_shift(s, pat, k, i + 1);
        }
    }
}


/// The end of the object whose brace is at `start`, as `object_end` says.
fn scan_object(v: &Vec<char>, start: usize) -> (r: Option<usize>)
    requires
        start < v.len(),
    ensures
        match r {
            Some(e) => object_end(v@, start + 1, 1, false, false) == Some(e as int) && start < e
                < v.len(),
            None => object_end(v@, start + 1, 1, false, false) is None,
        },
{
    let n = v.len();
    let mut depth: usize = 1;
    let mut in_string = false;
    let mut escape = false;
    let mut i: usize = start + 1;
    while i < n
        invariant
            start < i <= n == v.len(),
            1 <= depth <= i - start,
            object_end(v@, start + 1, 1, false, false) == object_end(
                v@,
                i as int,
                depth as int,
                in_string,
                escape,
            ),
        decreases n - i,
    {
        let c = v[i];
        if escape {
            escape = false;
        } else if c == '\\' {
            escape = true;
        } else if c == '"' {
            in_string = !in_string;
        } else if c == '{' && !in_string {
            depth = depth + 1;
        } else if c == '}' && !in_string {
            if depth == 1 {
                return Some(i);
            }
            depth = depth - 1;
        }
        i = i + 1;
    }
    None
}

/// The JSON in a model's reply: the contents of a ```` ```json ```` fenced
/// block, trimmed, where the reply has a closed one; else the first balanced
/// `{ ... }` object.
pub fn extract_json_block(text: &str) -> (r: Option<String>)
    ensures
        match json_block(text@) {
            Some(b) => r matches Some(x) && x@ == b,
            None => r is None,
        },
{
    let v = chars_of(text);
    let fence = chars_of("```json");
    let close = chars_of("```");
    proof {
        reveal_strlit("```json");
    }
    if let Some(st) = find_from(&v, &fence, 0) {
        let cs = st + fence.len();
        let found = find_from(&v, &close, cs);
        proof {
            lemma_first_match_shift(v@, close@, cs as int, 0);
        }
        if let Some(e) = found {
            let inner = string_of(&v, cs, e);
            let block = trim(inner.as_str());
            return Some(block);
        }
    }
    let brace = chars_of("{");
    proof {
        reveal_strlit("{");
        assert(brace@ =~= seq!['{']);
    }
    match find_from(&v, &brace, 0) {
        Some(st) => match scan_object(&v, st) {
            Some(e) => Some(string_of(&v, st, e + 1)),
            None => None,
        },
        None => None,
    }
}

/// Accepts a suggestion whose bump type is one of `major`, `minor`, `patch`
/// and `none` and whose next version is a semantic version; an `Api` error
/// for an unknown bump type, else a `Version` error for a version that does
/// not parse.
pub fn check_suggestion(bump: &str, next_version: &str) -> (r: Result<(), CommitSenseError>)
    ensures
        match r {
            Ok(()) => is_bump_type(bump@) && semver_is_valid(next_version@),
            Err(e) => if !is_bump_type(bump@) {
                e is Api
            } else {
                !semver_is_valid(next_version@) && e is Version
            },
        },
{
    if !is_valid_bump_type(bump) {
        let m = concat("Unknown bump type '", bump);
        return Err(CommitSenseError::Api(concat(m.as_str(), "'.")));
    }
    if TagVersion::parse(next_version).is_none() {
        let m = concat("'", next_version);
        return Err(CommitSenseError::Version(concat(m.as_str(), "' is not a semantic version.")));
    }
    Ok(())
}

} // verus!
