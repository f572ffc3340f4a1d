//! Git queries: the commands this library issues, what it makes of their
//! output, and how it settles on the commit of the last release.

pub use crate::error::{NO_INITIAL_COMMIT, NO_VERSION_TAGS};
use crate::error::{CommitSenseError, ResolveFailure};
use crate::patterns::{
    glob_accepts, glob_is_valid, regex_accepts, regex_is_valid, semver_is_valid, TagGlob,
    TagRegex, TagVersion,
};
use crate::selection::{
    latest_by_time, latest_index, pick_semver, semver_pick, timed_view, versioned_view,
};
use crate::text::{
    non_empty, non_empty_lines, nonempty_lines, parse_i64, parse_i64_spec, split, split_on,
    trim, trim_each, trimmed, views, keep_non_empty, lines, lines_of,
};
use vstd::prelude::*;

verus! {

/// Runs git commands for the library.
pub trait GitCommandExecutor {
    /// Runs `git <args>` in `path` and returns its standard output.
    fn run_git_command(&self, path: &str, args: &[String]) -> Result<String, CommitSenseError>;
}

/// An answer of git as the specifications see it: the view of its output,
/// or its error.
pub open spec fn answer_view(a: Result<String, CommitSenseError>) -> Result<Seq<char>, CommitSenseError> {
    match a {
        Ok(s) => Ok(s@),
        Err(e) => Err(e),
    }
}

/// `ask` runs git commands as `o` describes: for each argument list, the
/// standard output, or the error of a command that fails. The library only
/// reads the repository; where it stays as it is while an operation runs,
/// each command has one answer, and some `o` describes `ask`.
pub open spec fn answers_with<F: Fn(Vec<String>) -> Result<String, CommitSenseError>>(
    ask: F,
    o: GitAnswers,
) -> bool {
    forall|args: Vec<String>, out: Result<String, CommitSenseError>|
        #[trigger] call_ensures(ask, (args,), out) ==> answer_view(out) == o(views(args@))
}

/// What git answers to each argument list: its standard output, or the error
/// of a command that fails.
pub type GitAnswers = spec_fn(Seq<Seq<char>>) -> Result<Seq<char>, CommitSenseError>;

/// `ask` accepts every argument list.
pub open spec fn can_ask<F: Fn(Vec<String>) -> Result<String, CommitSenseError>>(ask: F) -> bool {
    forall|args: Vec<String>| #[trigger] call_requires(ask, (args,))
}

/// `a` followed by `b`.
pub fn concat(a: &str, b: &str) -> (r: String)
    ensures
        r@ == a@ + b@,
{
    let mut r = a.to_owned();
    r.append(b);
    r
}

pub open spec fn head_args() -> Seq<Seq<char>> {
    seq!["rev-parse"@, "HEAD"@]
}

pub open spec fn log_format_args(base: Seq<char>, format: Seq<char>) -> Seq<Seq<char>> {
    seq!["log"@, base + "..HEAD"@, "--format="@ + format, "--reverse"@]
}

pub open spec fn latest_tag_args(pattern: Option<Seq<char>>) -> Seq<Seq<char>> {
    match pattern {
        Some(p) => seq!["tag"@, "--sort=-v:refname"@, "--list"@, p],
        None => seq!["tag"@, "--sort=-v:refname"@],
    }
}

/// What `git rev-parse HEAD` answers, as it is, running git through `ask`.
pub fn head_commit<F: Fn(Vec<String>) -> Result<String, CommitSenseError>>(ask: &F) -> (r: Result<
    String,
    CommitSenseError,
>)
    requires
        can_ask(*ask),
    ensures
        forall|o: GitAnswers| #[trigger] answers_with(*ask, o) ==> answer_view(r) == o(head_args()),
{
    let args: Vec<String> = vec!["rev-parse".to_owned(), "HEAD".to_owned()];
    assert(views(args@) =~= head_args());
    run_query(ask, args)
}

/// The lines that `git log <base_oid>..HEAD --format=<format> --reverse`
/// prints, or its error as it came, running git through `ask`.
pub fn log_lines<F: Fn(Vec<String>) -> Result<String, CommitSenseError>>(
    ask: &F,
    base_oid: &str,
    format: &str,
) -> (r: Result<Vec<String>, CommitSenseError>)
    requires
        can_ask(*ask),
    ensures
        forall|o: GitAnswers| #[trigger]
            answers_with(*ask, o) ==> match o(log_format_args(base_oid@, format@)) {
                Ok(out) => r matches Ok(v) && views(v@) == lines_of(out),
                Err(e) => r == Err::<Vec<String>, CommitSenseError>(e),
            },
        r matches Ok(v) ==> exists|out: Seq<char>| views(v@) == #[trigger] lines_of(out),
{
    let range = concat(base_oid, "..HEAD");
    let format_arg = concat("--format=", format);
    let args: Vec<String> = vec!["log".to_owned(), range, format_arg, "--reverse".to_owned()];
    assert(views(args@) =~= log_format_args(base_oid@, format@));
    match run_query(ask, args) {
        Ok(out) => {
            let v = lines(out.as_str());
            assert(views(v@) == lines_of(out@));
            Ok(v)
        },
        Err(e) => Err(e),
    }
}

/// The first line that `git tag --sort=-v:refname [--list <pattern>]`
/// prints: the highest tag by git's version sort; a `NO_VERSION_TAGS` error
/// where it prints no line, and its own error as it came. Git runs through
/// `ask`.
pub fn latest_version_tag<F: Fn(Vec<String>) -> Result<String, CommitSenseError>>(
    ask: &F,
    pattern: Option<&str>,
) -> (r: Result<String, CommitSenseError>)
    requires
        can_ask(*ask),
    ensures
        forall|o: GitAnswers| #[trigger]
            answers_with(*ask, o) ==> match o(latest_tag_args(opt_view(pattern))) {
                Ok(out) => if lines_of(out).len() > 0 {
                    r matches Ok(t) && t@ == lines_of(out)[0]
                } else {
                    r matches Err(CommitSenseError::GitCommand(m)) && m@ == NO_VERSION_TAGS@
                },
                Err(e) => r == Err::<String, CommitSenseError>(e),
            },
        r matches Ok(t) ==> exists|out: Seq<char>|
            lines_of(out).len() > 0 && t@ == #[trigger] lines_of(out)[0],
{
    let mut args: Vec<String> = vec!["tag".to_owned(), "--sort=-v:refname".to_owned()];
    if let Some(p) = pattern {
        args.push("--list".to_owned());
        args.push(p.to_owned());
    }
    assert(views(args@) =~= latest_tag_args(opt_view(pattern)));
    match run_query(ask, args) {
        Ok(out) => {
            let tags = lines(out.as_str());
            if tags.len() == 0 {
                return Err(CommitSenseError::GitCommand(NO_VERSION_TAGS.to_owned()));
            }
            assert(views(tags@)[0] == tags@[0]@);
            assert(lines_of(out@).len() > 0);
            Ok(tags[0].clone())
        },
        Err(e) => Err(e),
    }
}

/// A facade over an executor for the everyday queries.
pub struct GitInterface<E: GitCommandExecutor> {
    executor: Box<E>,
}

impl<E: GitCommandExecutor> GitInterface<E> {
    /// The executor every query goes through.
    pub closed spec fn executor(&self) -> E {
        *self.executor
    }

    pub fn new(executor: Box<E>) -> (r: Self)
        ensures
            r.executor() == *executor,
    {
        GitInterface { executor }
    }

    /// What the executor answers to `git rev-parse HEAD` in `path`, as it
    /// is; see `head_commit`.
    pub fn get_latest_commit_oid(&self, path: &str) -> (r: Result<String, CommitSenseError>) {
        let executor = &self.executor;
        let ask = |args: Vec<String>| -> (out: Result<String, CommitSenseError>)
            { executor.run_git_command(path, args.as_slice()) };
        head_commit(&ask)
    }

    /// The lines that `git log <base_oid>..HEAD --format=<format> --reverse`
    /// prints in `path`, or the executor's error as it came; see `log_lines`.
    pub fn get_commits_since_oid(&self, path: &str, base_oid: &str, format: &str) -> (r: Result<
        Vec<String>,
        CommitSenseError,
    >)
        ensures
            r matches Ok(v) ==> exists|out: Seq<char>| views(v@) == #[trigger] lines_of(out),
    {
        let executor = &self.executor;
        let ask = |args: Vec<String>| -> (out: Result<String, CommitSenseError>)
            { executor.run_git_command(path, args.as_slice()) };
        log_lines(&ask, base_oid, format)
    }

    /// The highest tag by git's version sort in `path`, among those that
    /// `pattern` lists, or the executor's error as it came; see
    /// `latest_version_tag`.
    pub fn find_latest_version_tag(&self, path: &str, pattern: Option<&str>) -> (r: Result<
        String,
        CommitSenseError,
    >)
        ensures
            r matches Ok(tag) ==> exists|out: Seq<char>|
                lines_of(out).len() > 0 && tag@ == #[trigger] lines_of(out)[0],
    {
        let executor = &self.executor;
        let ask = |args: Vec<String>| -> (out: Result<String, CommitSenseError>)
            { executor.run_git_command(path, args.as_slice()) };
        latest_version_tag(&ask, pattern)
    }
}

/// The view of an optional text.
pub open spec fn opt_view(o: Option<&str>) -> Option<Seq<char>> {
    match o {
        Some(s) => Some(s@),
        None => None,
    }
}

/// `a`, then `b`, then `c`.
fn concat3(a: &str, b: &str, c: &str) -> (r: String)
    ensures
        r@ == a@ + b@ + c@,
{
    let mut r = concat(a, b);
    r.append(c);
    r
}

pub open spec fn commit_oid_args(r: Seq<char>) -> Seq<Seq<char>> {
    seq!["rev-parse"@, r + "^{commit}"@]
}

/// The commit that `r` names: what `git rev-parse <r>^{commit}` prints,
/// trimmed, where that is not empty.
pub open spec fn commit_oid_of(o: GitAnswers, r: Seq<char>) -> Option<
    Seq<char>,
> {
    match o(commit_oid_args(r)) {
        Ok(out) => if trimmed(out).len() > 0 {
            Some(trimmed(out))
        } else {
            None
        },
        Err(_) => None,
    }
}

pub open spec fn commit_time_args(r: Seq<char>) -> Seq<Seq<char>> {
    seq!["log"@, "-1"@, "--format=%ct"@, r]
}

/// The commit time, in seconds since the epoch, of the commit that `r` names.
pub open spec fn commit_time_of(o: GitAnswers, r: Seq<char>) -> Option<
    i64,
> {
    match o(commit_time_args(r)) {
        Ok(out) => parse_i64_spec(trimmed(out)),
        Err(_) => None,
    }
}

pub open spec fn tag_list_args() -> Seq<Seq<char>> {
    seq!["tag"@, "--list"@]
}

/// The repository's tags; none where they cannot be listed.
pub open spec fn tags_of(o: GitAnswers) -> Seq<Seq<char>> {
    match o(tag_list_args()) {
        Ok(out) => nonempty_lines(out),
        Err(_) => Seq::empty(),
    }
}

/// The search for the latest commit whose message has a line that starts
/// with `release: `, in any letter case.
pub open spec fn release_search_args() -> Seq<Seq<char>> {
    seq!["log"@, "--grep=^release: "@, "-i"@, "-E"@, "-n"@, "1"@, "--format=%H"@, "HEAD"@]
}

/// The latest conventional release commit, if the search finds one.
pub open spec fn release_commit_of(o: GitAnswers) -> Option<
    Seq<char>,
> {
    match o(release_search_args()) {
        Ok(out) => if trimmed(out).len() > 0 {
            Some(trimmed(out))
        } else {
            None
        },
        Err(_) => None,
    }
}

pub open spec fn root_commit_args() -> Seq<Seq<char>> {
    seq!["rev-list"@, "--max-parents=0"@, "HEAD"@]
}

/// The commits without parents reachable from `HEAD`; none where they
/// cannot be listed.
pub open spec fn roots_of(o: GitAnswers) -> Seq<Seq<char>> {
    match o(root_commit_args()) {
        Ok(out) => nonempty_lines(out),
        Err(_) => Seq::empty(),
    }
}

/// Whether the tag pattern in use selects `name`: the glob where one is
/// given, else the regular expression where one is given, else nothing.
pub open spec fn tag_selected(
    glob: Option<Seq<char>>,
    regex: Option<Seq<char>>,
    name: Seq<char>,
) -> bool {
    match glob {
        Some(p) => glob_accepts(p, name),
        None => match regex {
            Some(x) => regex_accepts(x, name),
            None => false,
        },
    }
}

/// The selected tags whose commit time can be read, with that time, in the
/// order of `tags`.
pub open spec fn matched_candidates(
    o: GitAnswers,
    glob: Option<Seq<char>>,
    regex: Option<Seq<char>>,
    tags: Seq<Seq<char>>,
) -> Seq<(i64, Seq<char>)>
    decreases tags.len(),
{
    if tags.len() == 0 {
        Seq::empty()
    } else {
        let rest = matched_candidates(o, glob, regex, tags.drop_last());
        let t = tags.last();
        if tag_selected(glob, regex, t) && commit_time_of(o, t) is Some {
            rest.push((commit_time_of(o, t)->Some_0, t))
        } else {
            rest
        }
    }
}

/// A tag name without one leading `v`.
pub open spec fn strip_v(t: Seq<char>) -> Seq<char> {
    if t.len() > 0 && t[0] == 'v' {
        t.drop_first()
    } else {
        t
    }
}

/// The tags that read as semantic versions (after one leading `v`) and whose
/// commit time can be read, as `(version text, time, tag)`, in the order of
/// `tags`.
pub open spec fn semver_candidates(
    o: GitAnswers,
    tags: Seq<Seq<char>>,
) -> Seq<(Seq<char>, i64, Seq<char>)>
    decreases tags.len(),
{
    if tags.len() == 0 {
        Seq::empty()
    } else {
        let rest = semver_candidates(o, tags.drop_last());
        let t = tags.last();
        if semver_is_valid(strip_v(t)) && commit_time_of(o, t) is Some {
            rest.push((strip_v(t), commit_time_of(o, t)->Some_0, t))
        } else {
            rest
        }
    }
}

/// The commit of a picked tag.
pub open spec fn tag_outcome(o: GitAnswers, t: Seq<char>) -> Result<
    Seq<char>,
    ResolveFailure,
> {
    match commit_oid_of(o, t) {
        Some(oid) => Ok(oid),
        None => Err(ResolveFailure::TagRef),
    }
}

/// The strategies after the explicit reference, in their order: the latest
/// tag that the pattern selects; the latest conventional release commit; the
/// tag with the highest semantic version; the first root commit.
pub open spec fn fallback_base(
    o: GitAnswers,
    glob: Option<Seq<char>>,
    regex: Option<Seq<char>>,
) -> Result<Seq<char>, ResolveFailure> {
    let tags = tags_of(o);
    let matched = matched_candidates(o, glob, regex, tags);
    if matched.len() > 0 {
        tag_outcome(o, matched[latest_index(matched)].1)
    } else {
        match release_commit_of(o) {
            Some(oid) => Ok(oid),
            None => {
                let versions = semver_candidates(o, tags);
                match semver_pick(versions) {
                    Some(i) => tag_outcome(o, versions[i].2),
                    None => {
                        let roots = roots_of(o);
                        if roots.len() > 0 {
                            Ok(roots[0])
                        } else {
                            Err(ResolveFailure::NoInitialCommit)
                        }
                    },
                }
            },
        }
    }
}

/// The base commit of a release: the commit that the explicit reference
/// names where one is given, else the first strategy of `fallback_base` that
/// finds one, once the tag pattern has compiled.
pub open spec fn resolve_base(
    o: GitAnswers,
    base: Option<Seq<char>>,
    glob: Option<Seq<char>>,
    regex: Option<Seq<char>>,
) -> Result<Seq<char>, ResolveFailure> {
    match base {
        Some(r) => match commit_oid_of(o, r) {
            Some(oid) => Ok(oid),
            None => Err(ResolveFailure::ExplicitRef),
        },
        None => if glob is Some && !glob_is_valid(glob->Some_0) {
            Err(ResolveFailure::InvalidGlob)
        } else if glob is None && regex is Some && !regex_is_valid(regex->Some_0) {
            Err(ResolveFailure::InvalidRegex)
        } else {
            fallback_base(o, glob, regex)
        },
    }
}

/// Runs one query through `ask`.
fn run_query<F: Fn(Vec<String>) -> Result<String, CommitSenseError>>(ask: &F, args: Vec<String>) -> (r: Result<String, CommitSenseError>)
    requires
        can_ask(*ask),
    ensures
        forall|o: GitAnswers| #[trigger] answers_with(*ask, o) ==> answer_view(r) == o(views(args@)),
{
    let ghost a = args;
    let r = ask(args);
    proof {
        assert(call_ensures(*ask, (a,), r));
    }
    r
}

/// Resolves `git_ref` to the commit it names.
fn get_commit_oid<F: Fn(Vec<String>) -> Result<String, CommitSenseError>>(ask: &F, git_ref: &str) -> (r: Result<
    String,
    CommitSenseError,
>)
    requires
        can_ask(*ask),
    ensures
        forall|o: GitAnswers| #[trigger]
            answers_with(*ask, o) ==> match r {
                Ok(oid) => commit_oid_of(o, git_ref@) == Some(oid@),
                Err(e) => commit_oid_of(o, git_ref@) is None && e is GitCommand,
            },
        r matches Ok(oid) ==> oid@.len() > 0,
        r matches Err(e) ==> e is GitCommand,
{
    let target = concat(git_ref, "^{commit}");
    let args: Vec<String> = vec!["rev-parse".to_owned(), target];
    assert(views(args@) =~= commit_oid_args(git_ref@));
    let output = match run_query(ask, args) {
        Ok(out) => out,
        Err(e) => {
            let head = concat3("git rev-parse failed for '", git_ref, "': ");
            let d = e.detail();
            return Err(CommitSenseError::GitCommand(concat(head.as_str(), d.as_str())));
        },
    };
    let oid = trim(output.as_str());
    if oid.as_str().is_empty() {
        return Err(
            CommitSenseError::GitCommand(concat3("Failed to resolve ref '", git_ref, "' to an OID.")),
        );
    }
    Ok(oid)
}

/// The commit time of the commit that `git_ref` names.
fn get_commit_time<F: Fn(Vec<String>) -> Result<String, CommitSenseError>>(ask: &F, git_ref: &str) -> (r: Result<
    i64,
    CommitSenseError,
>)
    requires
        can_ask(*ask),
    ensures
        forall|o: GitAnswers| #[trigger]
            answers_with(*ask, o) ==> match r {
                Ok(t) => commit_time_of(o, git_ref@) == Some(t),
                Err(e) => commit_time_of(o, git_ref@) is None && e is GitCommand,
            },
{
    let args: Vec<String> = vec![
        "log".to_owned(),
        "-1".to_owned(),
        "--format=%ct".to_owned(),
        git_ref.to_owned(),
    ];
    assert(views(args@) =~= commit_time_args(git_ref@));
    let output = match run_query(ask, args) {
        Ok(out) => out,
        Err(_) => {
            return Err(
                CommitSenseError::GitCommand(concat3("Failed to read the commit time of '", git_ref, "'")),
            );
        },
    };
    let time_str = trim(output.as_str());
    match parse_i64(time_str.as_str()) {
        Some(t) => Ok(t),
        None => Err(
            CommitSenseError::GitCommand(concat3("Failed to parse the commit time of '", git_ref, "'")),
        ),
    }
}

/// The repository's tags; none where listing them fails.
fn list_tags<F: Fn(Vec<String>) -> Result<String, CommitSenseError>>(ask: &F) -> (r: Vec<String>)
    requires
        can_ask(*ask),
    ensures
        forall|o: GitAnswers| #[trigger] answers_with(*ask, o) ==> views(r@) == tags_of(o),
{
    let args: Vec<String> = vec!["tag".to_owned(), "--list".to_owned()];
    assert(views(args@) =~= tag_list_args());
    match run_query(ask, args) {
        Ok(out) => non_empty_lines(out.as_str()),
        Err(_) => {
            let r: Vec<String> = Vec::new();
            assert(views(r@) =~= Seq::<Seq<char>>::empty());
            r
        },
    }
}

/// A compiled tag pattern.
pub enum TagFilter {
    Glob(TagGlob),
    Regex(TagRegex),
}

impl TagFilter {
    pub open spec fn selects(&self, name: Seq<char>) -> bool {
        match self {
            TagFilter::Glob(g) => glob_accepts(g.source(), name),
            TagFilter::Regex(x) => regex_accepts(x.source(), name),
        }
    }

    pub fn accepts(&self, name: &str) -> (r: bool)
        ensures
            r == self.selects(name@),
    {
        match self {
            TagFilter::Glob(g) => g.matches(name),
            TagFilter::Regex(x) => x.is_match(name),
        }
    }
}

/// The tags that `filter` selects and whose commit time can be read.
fn collect_matched<F: Fn(Vec<String>) -> Result<String, CommitSenseError>>(
    ask: &F,
    filter: &TagFilter,
    tags: &Vec<String>,
    Ghost(glob): Ghost<Option<Seq<char>>>,
    Ghost(regex): Ghost<Option<Seq<char>>>,
) -> (r: Vec<(i64, String)>)
    requires
        can_ask(*ask),
        forall|n: Seq<char>| #[trigger] filter.selects(n) == tag_selected(glob, regex, n),
    ensures
        forall|o: GitAnswers| #[trigger]
            answers_with(*ask, o) ==> timed_view(r@) == matched_candidates(
                o,
                glob,
                regex,
                views(tags@),
            ),
{
    let ghost tv = views(tags@);
    let mut out: Vec<(i64, String)> = Vec::new();
    let mut i: usize = 0;
    assert forall|o: GitAnswers| #[trigger]
        answers_with(*ask, o) implies timed_view(out@) == matched_candidates(
        o,
        glob,
        regex,
        tv.take(0),
    ) by {
        assert(timed_view(out@) =~= matched_candidates(o, glob, regex, tv.take(0)));
    }
    while i < tags.len()
        invariant
            can_ask(*ask),
            tv == views(tags@),
            i <= tags.len(),
            forall|n: Seq<char>| #[trigger] filter.selects(n) == tag_selected(glob, regex, n),
            forall|o: GitAnswers| #[trigger]
                answers_with(*ask, o) ==> timed_view(out@) == matched_candidates(
                    o,
                    glob,
                    regex,
                    tv.take(i as int),
                ),
        decreases tags.len() - i,
    {
        proof {
            assert(tv.take(i + 1).drop_last() =~= tv.take(i as int));
            assert(tv.take(i + 1).last() == tags@[i as int]@);
        }
        let name = &tags[i];
        let ghost before = timed_view(out@);
        if filter.accepts(name.as_str()) {
            match get_commit_time(ask, name.as_str()) {
                Ok(t) => {
                    out.push((t, name.clone()));
                    proof {
                        assert(timed_view(out@) =~= before.push((t, name@)));
                    }
                },
                Err(_) => {},
            }
        }
        i = i + 1;
    }
    assert forall|o: GitAnswers| #[trigger]
        answers_with(*ask, o) implies timed_view(out@) == matched_candidates(
        o,
        glob,
        regex,
        views(tags@),
    ) by {
        assert(tv.take(i as int) =~= tv);
    }
    out
}

proof fn lemma_nothing_selected(o: GitAnswers, tags: Seq<Seq<char>>)
    ensures
        matched_candidates(o, None, None, tags).len() == 0,
    decreases tags.len(),
{
    if tags.len() > 0 {
        lemma_nothing_selected(o, tags.drop_last());
    }
}

/// A tag name without one leading `v`.
pub fn strip_v_prefix(name: &str) -> (r: String)
    ensures
        r@ == strip_v(name@),
{
    let v = crate::text::chars_of(name);
    if v.len() > 0 && v[0] == 'v' {
        crate::text::string_of(&v, 1, v.len())
    } else {
        assert(v@.subrange(0, v.len() as int) =~= v@);
        crate::text::string_of(&v, 0, v.len())
    }
}

/// The tags that read as semantic versions and whose commit time can be read.
fn collect_semver<F: Fn(Vec<String>) -> Result<String, CommitSenseError>>(ask: &F, tags: &Vec<String>) -> (r: Vec<
    (TagVersion, i64, String),
>)
    requires
        can_ask(*ask),
    ensures
        forall|o: GitAnswers| #[trigger]
            answers_with(*ask, o) ==> versioned_view(r@) == semver_candidates(o, views(tags@)),
{
    let ghost tv = views(tags@);
    let mut out: Vec<(TagVersion, i64, String)> = Vec::new();
    let mut i: usize = 0;
    assert forall|o: GitAnswers| #[trigger]
        answers_with(*ask, o) implies versioned_view(out@) == semver_candidates(o, tv.take(0)) by {
        assert(versioned_view(out@) =~= semver_candidates(o, tv.take(0)));
    }
    while i < tags.len()
        invariant
            can_ask(*ask),
            tv == views(tags@),
            i <= tags.len(),
            forall|o: GitAnswers| #[trigger]
                answers_with(*ask, o) ==> versioned_view(out@) == semver_candidates(
                    o,
                    tv.take(i as int),
                ),
        decreases tags.len() - i,
    {
        proof {
            assert(tv.take(i + 1).drop_last() =~= tv.take(i as int));
            assert(tv.take(i + 1).last() == tags@[i as int]@);
        }
        let name = &tags[i];
        let stripped = strip_v_prefix(name.as_str());
        let ghost before = versioned_view(out@);
        if let Some(version) = TagVersion::parse(stripped.as_str()) {
            match get_commit_time(ask, name.as_str()) {
                Ok(t) => {
                    let ghost vt = version.text();
                    out.push((version, t, name.clone()));
                    proof {
                        assert(versioned_view(out@) =~= before.push((vt, t, name@)));
                    }
                },
                Err(_) => {},
            }
        }
        i = i + 1;
    }
    assert forall|o: GitAnswers| #[trigger]
        answers_with(*ask, o) implies versioned_view(out@) == semver_candidates(o, views(tags@)) by {
        assert(tv.take(i as int) =~= tv);
    }
    out
}

/// The latest conventional release commit, where the search finds one.
fn release_commit<F: Fn(Vec<String>) -> Result<String, CommitSenseError>>(ask: &F) -> (r: Option<String>)
    requires
        can_ask(*ask),
    ensures
        forall|o: GitAnswers| #[trigger]
            answers_with(*ask, o) ==> match r {
                Some(oid) => release_commit_of(o) == Some(oid@),
                None => release_commit_of(o) is None,
            },
        r matches Some(oid) ==> oid@.len() > 0,
{
    let args: Vec<String> = vec![
        "log".to_owned(),
        "--grep=^release: ".to_owned(),
        "-i".to_owned(),
        "-E".to_owned(),
        "-n".to_owned(),
        "1".to_owned(),
        "--format=%H".to_owned(),
        "HEAD".to_owned(),
    ];
    assert(views(args@) =~= release_search_args());
    match run_query(ask, args) {
        Ok(out) => {
            let oid = trim(out.as_str());
            if oid.as_str().is_empty() {
                None
            } else {
                Some(oid)
            }
        },
        Err(_) => None,
    }
}

/// The commits without parents reachable from `HEAD`.
fn root_commits<F: Fn(Vec<String>) -> Result<String, CommitSenseError>>(ask: &F) -> (r: Vec<String>)
    requires
        can_ask(*ask),
    ensures
        forall|o: GitAnswers| #[trigger] answers_with(*ask, o) ==> views(r@) == roots_of(o),
        forall|k: int| 0 <= k < r.len() ==> (#[trigger] r@[k])@.len() > 0,
{
    let args: Vec<String> = vec![
        "rev-list".to_owned(),
        "--max-parents=0".to_owned(),
        "HEAD".to_owned(),
    ];
    assert(views(args@) =~= root_commit_args());
    match run_query(ask, args) {
        Ok(out) => non_empty_lines(out.as_str()),
        Err(_) => {
            let r: Vec<String> = Vec::new();
            assert(views(r@) =~= Seq::<Seq<char>>::empty());
            r
        },
    }
}

/// The commit of a picked tag; a `Version` error where it names none.
fn resolve_tag<F: Fn(Vec<String>) -> Result<String, CommitSenseError>>(ask: &F, tag: &String) -> (r: Result<
    String,
    CommitSenseError,
>)
    requires
        can_ask(*ask),
    ensures
        forall|o: GitAnswers| #[trigger]
            answers_with(*ask, o) ==> match tag_outcome(o, tag@) {
                Ok(oid) => r matches Ok(s) && s@ == oid,
                Err(f) => r matches Err(e) && e.signals(f),
            },
        r matches Ok(oid) ==> oid@.len() > 0,
        r matches Err(e) ==> e is Version,
{
    match get_commit_oid(ask, tag.as_str()) {
        Ok(oid) => Ok(oid),
        Err(e) => {
            let head = concat3("Failed to resolve commit OID for tag '", tag.as_str(), "': ");
            let d = e.detail();
            Err(CommitSenseError::Version(concat(head.as_str(), d.as_str())))
        },
    }
}

/// The start of the message of the error for an explicit reference `b` that
/// names no commit; what git reported follows it.
pub open spec fn explicit_ref_message(b: Seq<char>) -> Seq<char> {
    "Failed to resolve explicit base ref '"@ + b + "'"@
}

/// What a search result shows whatever git answers: a found commit id is not
/// empty; a `Config` error comes from the explicit reference, and from nothing
/// else, and names it before git's own report; a glob or regex error comes exactly from a tag pattern
/// that does not compile.
pub open spec fn found_or_explained(
    r: Result<String, CommitSenseError>,
    base_ref_opt: Option<&str>,
    tag_pattern_opt: Option<&str>,
    tag_regex_opt: Option<&str>,
) -> bool {
    let glob_bad = base_ref_opt is None && tag_pattern_opt is Some && !glob_is_valid(
        opt_view(tag_pattern_opt)->Some_0,
    );
    let regex_bad = base_ref_opt is None && tag_pattern_opt is None && tag_regex_opt is Some
        && !regex_is_valid(opt_view(tag_regex_opt)->Some_0);
    &&& r matches Ok(s) ==> s@.len() > 0
    &&& match base_ref_opt {
        Some(b) => match r {
            Ok(_) => true,
            Err(CommitSenseError::Config(m)) => explicit_ref_message(b@).is_prefix_of(m@),
            Err(_) => false,
        },
        None => !(r matches Err(e) && e is Config),
    }
    &&& glob_bad ==> (r matches Err(e) && e is Glob)
    &&& regex_bad ==> (r matches Err(e) && e is Regex)
    &&& match r {
        Err(CommitSenseError::Glob(_)) => glob_bad,
        Err(CommitSenseError::Regex(_)) => regex_bad,
        _ => true,
    }
}

/// The result `r` of a search is the one that `expected` describes.
pub open spec fn reports(r: Result<String, CommitSenseError>, expected: Result<Seq<char>, ResolveFailure>) -> bool {
    match expected {
        Ok(oid) => r matches Ok(s) && s@ == oid,
        Err(f) => r matches Err(e) && e.signals(f),
    }
}

/// Finds the commit that marks the last release, running git through `ask`.
/// The strategies, in order: the explicit reference `base_ref_opt`; the
/// latest (by commit time) tag that the glob `tag_pattern_opt` or the regular
/// expression `tag_regex_opt` selects; the latest commit with a `release: `
/// line; the tag with the highest semantic version; the first root commit.
pub fn resolve_base_commit<F: Fn(Vec<String>) -> Result<String, CommitSenseError>>(
    ask: &F,
    base_ref_opt: Option<&str>,
    tag_pattern_opt: Option<&str>,
    tag_regex_opt: Option<&str>,
) -> (r: Result<String, CommitSenseError>)
    requires
        can_ask(*ask),
        !(tag_pattern_opt is Some && tag_regex_opt is Some),
    ensures
        forall|o: GitAnswers| #[trigger]
            answers_with(*ask, o) ==> reports(
                r,
                resolve_base(
                    o,
                    opt_view(base_ref_opt),
                    opt_view(tag_pattern_opt),
                    opt_view(tag_regex_opt),
                ),
            ),
        found_or_explained(r, base_ref_opt, tag_pattern_opt, tag_regex_opt),
{
    let ghost glob = opt_view(tag_pattern_opt);
    let ghost regex = opt_view(tag_regex_opt);
    if let Some(base_ref) = base_ref_opt {
        return match get_commit_oid(ask, base_ref) {
            Ok(oid) => Ok(oid),
            Err(e) => {
                let head = concat3("Failed to resolve explicit base ref '", base_ref, "'");
                let d = e.detail();
                let m = concat3(head.as_str(), ": ", d.as_str());
                proof {
                    reveal_strlit(": ");
                    assert((explicit_ref_message(base_ref@) + ": "@ + d@).subrange(
                        0,
                        explicit_ref_message(base_ref@).len() as int,
                    ) =~= explicit_ref_message(base_ref@));
                }
                Err(CommitSenseError::Config(m))
            },
        };
    }
    let all_tags = list_tags(ask);
    let filter: Option<TagFilter> = match tag_pattern_opt {
        Some(p) => match TagGlob::new(p) {
            Ok(g) => Some(TagFilter::Glob(g)),
            Err(e) => {
                return Err(CommitSenseError::Glob(e));
            },
        },
        None => match tag_regex_opt {
            Some(x) => match TagRegex::new(x) {
                Ok(g) => Some(TagFilter::Regex(g)),
                Err(e) => {
                    return Err(CommitSenseError::Regex(e));
                },
            },
            None => None,
        },
    };
    match &filter {
        Some(f) => {
            assert forall|n: Seq<char>| #[trigger] f.selects(n) == tag_selected(glob, regex, n) by {}
            let matched = collect_matched(ask, f, &all_tags, Ghost(glob), Ghost(regex));
            if let Some(i) = latest_by_time(&matched) {
                return resolve_tag(ask, &matched[i].1);
            }
        },
        None => {
            assert forall|o: GitAnswers| #[trigger]
                answers_with(*ask, o) implies matched_candidates(o, glob, regex, views(all_tags@)).len()
                == 0 by {
                lemma_nothing_selected(o, views(all_tags@));
            }
        },
    }
    if let Some(oid) = release_commit(ask) {
        return Ok(oid);
    }
    let versions = collect_semver(ask, &all_tags);
    if let Some(i) = pick_semver(&versions) {
        proof {
            crate::selection::lemma_semver_pick_in_range(versioned_view(versions@));
        }
        return resolve_tag(ask, &versions[i].2);
    }
    let roots = root_commits(ask);
    if roots.len() > 0 {
        assert(roots@[0]@.len() > 0);
        return Ok(roots[0].clone());
    }
    Err(CommitSenseError::GitCommand(NO_INITIAL_COMMIT.to_owned()))
}

/// Finds the commit that marks the last release, running git through
/// `executor` in `project_path`; see `resolve_base_commit`.
pub fn find_base_commit_oid<E: GitCommandExecutor>(
    executor: &E,
    project_path: &str,
    base_ref_opt: Option<&str>,
    tag_pattern_opt: Option<&str>,
    tag_regex_opt: Option<&str>,
) -> (r: Result<String, CommitSenseError>)
    requires
        !(tag_pattern_opt is Some && tag_regex_opt is Some),
    ensures
        found_or_explained(r, base_ref_opt, tag_pattern_opt, tag_regex_opt),
{
    let ask = |args: Vec<String>| -> (out: Result<String, CommitSenseError>)
        { executor.run_git_command(project_path, args.as_slice()) };
    resolve_base_commit(&ask, base_ref_opt, tag_pattern_opt, tag_regex_opt)
}

pub open spec fn commit_messages_args(base: Seq<char>) -> Seq<Seq<char>> {
    seq!["log"@, base + "..HEAD"@, "--format=%B%n<EOM>"@, "--reverse"@]
}

/// The messages in the output of `git log --format=%B%n<EOM>`: the pieces
/// between the end markers, trimmed, the empty ones left out.
pub open spec fn commit_messages_of(out: Seq<char>) -> Seq<Seq<char>> {
    non_empty(split(out, "\n<EOM>\n"@).map_values(|m: Seq<char>| trimmed(m)))
}

/// The full messages of the commits reachable from `HEAD` but not from
/// `base_oid`, oldest first, running git through `ask`; none where `HEAD` is
/// `base_oid`.
pub fn commits_since<F: Fn(Vec<String>) -> Result<String, CommitSenseError>>(ask: &F, base_oid: &str) -> (r: Result<
    Vec<String>,
    CommitSenseError,
>)
    requires
        can_ask(*ask),
    ensures
        forall|o: GitAnswers| #[trigger]
            answers_with(*ask, o) ==> match commit_oid_of(o, "HEAD"@) {
                None => r is Err,
                Some(head) => if head == base_oid@ {
                    r matches Ok(v) && v.len() == 0
                } else {
                    match o(commit_messages_args(base_oid@)) {
                        Ok(out) => r matches Ok(v) && views(v@) == commit_messages_of(out),
                        Err(_) => r is Err,
                    }
                },
            },
        r matches Ok(v) ==> forall|k: int|
            0 <= k < v.len() ==> (#[trigger] v@[k])@.len() > 0 && trimmed(v@[k]@) == v@[k]@,
        r matches Err(e) ==> e is GitCommand,
{
    let head_oid = get_commit_oid(ask, "HEAD")?;
    if crate::text::same_text(head_oid.as_str(), base_oid) {
        return Ok(Vec::new());
    }
    let range = concat(base_oid, "..HEAD");
    let args: Vec<String> = vec![
        "log".to_owned(),
        range,
        "--format=%B%n<EOM>".to_owned(),
        "--reverse".to_owned(),
    ];
    assert(views(args@) =~= commit_messages_args(base_oid@));
    let output = match run_query(ask, args) {
        Ok(out) => out,
        Err(_) => {
            return Err(CommitSenseError::GitCommand("Failed to list the commits since the base".to_owned()));
        },
    };
    let marker = "\n<EOM>\n";
    proof {
        reveal_strlit("\n<EOM>\n");
    }
    let pieces = split_on(output.as_str(), marker);
    let trimmed_pieces = trim_each(&pieces);
    let messages = keep_non_empty(trimmed_pieces);
    proof {
        let tv = views(trimmed_pieces@);
        assert forall|k: int| 0 <= k < tv.len() implies trimmed(#[trigger] tv[k]) == tv[k] by {
            crate::text::lemma_trimmed_is_fixed(views(pieces@)[k]);
        }
        crate::text::lemma_non_empty_keeps_trimmed(tv);
        assert forall|k: int| 0 <= k < messages.len() implies trimmed((#[trigger] messages@[k])@)
            == messages@[k]@ by {
            assert(views(messages@)[k] == messages@[k]@);
        }
    }
    Ok(messages)
}

/// The full messages of the commits since `base_oid`, running git through
/// `executor` in `project_path`; see `commits_since`.
pub fn get_commits_since_oid<E: GitCommandExecutor>(
    executor: &E,
    project_path: &str,
    base_oid: &str,
) -> (r: Result<Vec<String>, CommitSenseError>)
    ensures
        r matches Ok(v) ==> forall|k: int|
            0 <= k < v.len() ==> (#[trigger] v@[k])@.len() > 0 && trimmed(v@[k]@) == v@[k]@,
        r matches Err(e) ==> e is GitCommand,
{
    let ask = |args: Vec<String>| -> (out: Result<String, CommitSenseError>)
        { executor.run_git_command(project_path, args.as_slice()) };
    commits_since(&ask, base_oid)
}

/// With an explicit reference that names a commit, the base is that commit,
/// whatever tag pattern or expression is given beside it.
pub proof fn lemma_explicit_ref_decides(
    o: GitAnswers,
    base: Seq<char>,
    glob: Option<Seq<char>>,
    regex: Option<Seq<char>>,
)
    requires
        commit_oid_of(o, base) is Some,
    ensures
        resolve_base(o, Some(base), glob, regex) == Ok::<Seq<char>, ResolveFailure>(
            commit_oid_of(o, base)->Some_0,
        ),
{
}

proof fn lemma_latest_exists(c: Seq<(i64, Seq<char>)>)
    requires
        c.len() > 0,
    ensures
        crate::selection::is_latest(c, latest_index(c)),
    decreases c.len(),
{
    let n = c.len() - 1;
    if n == 0 {
        assert(crate::selection::is_latest(c, 0));
    } else {
        let d = c.drop_last();
        lemma_latest_exists(d);
        let i = latest_index(d);
        if c[n].0 > d[i].0 {
            assert forall|j: int| 0 <= j < c.len() implies #[trigger] c[j].0 <= c[n].0 by {
                if j < n {
                    assert(d[j] == c[j]);
                    assert(d[j].0 <= d[i].0);
                }
            }
            assert forall|j: int| 0 <= j < n implies #[trigger] c[j].0 < c[n].0 by {
                assert(d[j] == c[j]);
                assert(d[j].0 <= d[i].0);
            }
            assert(crate::selection::is_latest(c, n));
        } else {
            assert forall|j: int| 0 <= j < c.len() implies #[trigger] c[j].0 <= c[i].0 by {
                if j < n {
                    assert(d[j] == c[j]);
                }
            }
            assert forall|j: int| 0 <= j < i implies #[trigger] c[j].0 < c[i].0 by {
                assert(d[j] == c[j]);
            }
            assert(crate::selection::is_latest(c, i));
        }
    }
}

proof fn lemma_matched_members(
    o: GitAnswers,
    glob: Option<Seq<char>>,
    regex: Option<Seq<char>>,
    tags: Seq<Seq<char>>,
)
    ensures
        forall|j: int|
            0 <= j < matched_candidates(o, glob, regex, tags).len() ==> {
                let m = #[trigger] matched_candidates(o, glob, regex, tags)[j];
                &&& tags.contains(m.1)
                &&& tag_selected(glob, regex, m.1)
                &&& commit_time_of(o, m.1) == Some(m.0)
            },
        forall|k: int|
            0 <= k < tags.len() && tag_selected(glob, regex, #[trigger] tags[k]) && commit_time_of(
                o,
                tags[k],
            ) is Some ==> exists|j: int|
                0 <= j < matched_candidates(o, glob, regex, tags).len()
                    && #[trigger] matched_candidates(o, glob, regex, tags)[j] == (
                    commit_time_of(o, tags[k])->Some_0,
                    tags[k],
                ),
    decreases tags.len(),
{
    if tags.len() > 0 {
        let d = tags.drop_last();
        lemma_matched_members(o, glob, regex, d);
        let rest = matched_candidates(o, glob, regex, d);
        let m = matched_candidates(o, glob, regex, tags);
        assert forall|j: int| 0 <= j < m.len() implies {
            let x = #[trigger] m[j];
            &&& tags.contains(x.1)
            &&& tag_selected(glob, regex, x.1)
            &&& commit_time_of(o, x.1) == Some(x.0)
        } by {
            if j < rest.len() {
                assert(m[j] == rest[j]);
                let x = rest[j];
                assert(d.contains(x.1));
                let w = choose|w: int| 0 <= w < d.len() && d[w] == x.1;
                assert(tags[w] == x.1);
            } else {
                assert(tags[tags.len() - 1] == tags.last());
            }
        }
        assert forall|k: int|
            0 <= k < tags.len() && tag_selected(glob, regex, #[trigger] tags[k]) && commit_time_of(
                o,
                tags[k],
            ) is Some implies exists|j: int|
            0 <= j < m.len() && #[trigger] m[j] == (commit_time_of(o, tags[k])->Some_0, tags[k]) by {
            if k < d.len() {
                assert(d[k] == tags[k]);
                let j = choose|j: int|
                    0 <= j < rest.len() && #[trigger] rest[j] == (
                        commit_time_of(o, d[k])->Some_0,
                        d[k],
                    );
                assert(m[j] == rest[j]);
            } else {
                assert(m[m.len() - 1] == (commit_time_of(o, tags[k])->Some_0, tags[k]));
            }
        }
    }
}

/// Where a valid glob selects a tag whose commit time can be read, the base
/// is the commit of a selected tag with the latest commit time: no selected
/// tag was committed later.
pub proof fn lemma_glob_takes_latest_tag(
    o: GitAnswers,
    glob: Seq<char>,
)
    requires
        glob_is_valid(glob),
        exists|k: int|
            0 <= k < tags_of(o).len() && glob_accepts(glob, #[trigger] tags_of(o)[k])
                && commit_time_of(o, tags_of(o)[k]) is Some,
    ensures
        exists|t: Seq<char>, time: i64|
            {
                &&& tags_of(o).contains(t)
                &&& glob_accepts(glob, t)
                &&& commit_time_of(o, t) == Some(time)
                &&& resolve_base(o, None, Some(glob), None) == tag_outcome(o, t)
                &&& forall|k: int|
                    0 <= k < tags_of(o).len() && glob_accepts(
                        glob,
                        #[trigger] tags_of(o)[k],
                    ) && commit_time_of(o, tags_of(o)[k]) is Some
                        ==> commit_time_of(o, tags_of(o)[k])->Some_0 <= time
            },
{
    let tags = tags_of(o);
    let m = matched_candidates(o, Some(glob), None, tags);
    lemma_matched_members(o, Some(glob), None, tags);
    let k0 = choose|k: int|
        0 <= k < tags.len() && glob_accepts(glob, #[trigger] tags[k]) && commit_time_of(
            o,
            tags[k],
        ) is Some;
    assert(tag_selected(Some(glob), None, tags[k0]));
    assert(m.len() > 0);
    lemma_latest_exists(m);
    let i = latest_index(m);
    let t = m[i].1;
    let time = m[i].0;
    assert(tag_selected(Some(glob), None, t));
    assert forall|k: int|
        0 <= k < tags.len() && glob_accepts(glob, #[trigger] tags[k]) && commit_time_of(
            o,
            tags[k],
        ) is Some implies commit_time_of(o, tags[k])->Some_0 <= time by {
        assert(tag_selected(Some(glob), None, tags[k]));
        let j = choose|j: int|
            0 <= j < m.len() && #[trigger] m[j] == (commit_time_of(o, tags[k])->Some_0, tags[k]);
        assert(m[j].0 <= m[i].0);
    }
}

/// The candidates of the semantic-version strategy are tags of the list that
/// read as versions; where no tag reads as one there is none, and the
/// strategy picks nothing rather than failing.
pub proof fn lemma_semver_candidates_parse(
    o: GitAnswers,
    tags: Seq<Seq<char>>,
)
    ensures
        forall|j: int|
            0 <= j < semver_candidates(o, tags).len() ==> {
                let c = #[trigger] semver_candidates(o, tags)[j];
                &&& tags.contains(c.2)
                &&& c.0 == strip_v(c.2)
                &&& semver_is_valid(c.0)
            },
        (forall|k: int| 0 <= k < tags.len() ==> !semver_is_valid(strip_v(#[trigger] tags[k])))
            ==> semver_pick(semver_candidates(o, tags)) is None,
    decreases tags.len(),
{
    if tags.len() > 0 {
        let d = tags.drop_last();
        lemma_semver_candidates_parse(o, d);
        let rest = semver_candidates(o, d);
        let c = semver_candidates(o, tags);
        assert forall|j: int| 0 <= j < c.len() implies {
            let x = #[trigger] c[j];
            &&& tags.contains(x.2)
            &&& x.0 == strip_v(x.2)
            &&& semver_is_valid(x.0)
        } by {
            if j < rest.len() {
                assert(c[j] == rest[j]);
                let x = rest[j];
                let w = choose|w: int| 0 <= w < d.len() && d[w] == x.2;
                assert(tags[w] == x.2);
            } else {
                assert(tags[tags.len() - 1] == tags.last());
            }
        }
        if forall|k: int| 0 <= k < tags.len() ==> !semver_is_valid(strip_v(#[trigger] tags[k])) {
            assert forall|k: int| 0 <= k < d.len() implies !semver_is_valid(
                strip_v(#[trigger] d[k]),
            ) by {
                assert(d[k] == tags[k]);
            }
            assert(!semver_is_valid(strip_v(tags[tags.len() - 1])));
            crate::selection::lemma_semver_pick_in_range(rest);
        }
    } else {
        crate::selection::lemma_semver_pick_in_range(semver_candidates(o, tags));
    }
}

/// Where the versions are ordered as `Ord` demands and the strategy picks a
/// tag, no candidate has a higher version, nor the same version with a later
/// commit time.
pub proof fn lemma_semver_takes_highest(
    o: GitAnswers,
    tags: Seq<Seq<char>>,
)
    requires
        crate::selection::semver_order_is_consistent(),
    ensures
        semver_pick(semver_candidates(o, tags)) matches Some(p) ==> forall|j: int|
            0 <= j < semver_candidates(o, tags).len() ==> !crate::selection::beats(
                #[trigger] semver_candidates(o, tags)[j],
                semver_candidates(o, tags)[p],
            ),
{
    crate::selection::lemma_semver_pick_is_highest(semver_candidates(o, tags));
}

/// Where no tag pattern selects a tag with a commit time (or none is given,
/// or the given one compiles and matches nothing usable), the latest commit
/// that the release search finds is the base, whatever semantic-version tags
/// exist.
pub proof fn lemma_release_commit_before_tags(
    o: GitAnswers,
    glob: Option<Seq<char>>,
    regex: Option<Seq<char>>,
)
    requires
        glob matches Some(p) ==> glob_is_valid(p),
        glob is None ==> (regex matches Some(x) ==> regex_is_valid(x)),
        matched_candidates(o, glob, regex, tags_of(o)).len() == 0,
        release_commit_of(o) is Some,
    ensures
        resolve_base(o, None, glob, regex) == Ok::<Seq<char>, ResolveFailure>(
            release_commit_of(o)->Some_0,
        ),
{
}

/// A repository without commits, as the queries see it: no tags, no release
/// commit and no root commit.
pub open spec fn has_no_commits(o: GitAnswers) -> bool {
    &&& tags_of(o).len() == 0
    &&& release_commit_of(o) is None
    &&& roots_of(o).len() == 0
}

/// In a repository without commits, the search, with no explicit reference
/// and a tag pattern that compiles, if any, fails for want of an initial
/// commit and for no other reason.
pub proof fn lemma_no_commits_no_initial_commit(
    o: GitAnswers,
    glob: Option<Seq<char>>,
    regex: Option<Seq<char>>,
)
    requires
        has_no_commits(o),
        glob matches Some(p) ==> glob_is_valid(p),
        glob is None ==> (regex matches Some(x) ==> regex_is_valid(x)),
    ensures
        resolve_base(o, None, glob, regex) == Err::<Seq<char>, ResolveFailure>(
            ResolveFailure::NoInitialCommit,
        ),
{
    let tags = tags_of(o);
    assert(matched_candidates(o, glob, regex, tags).len() == 0);
    assert(semver_candidates(o, tags).len() == 0);
}

} // verus!
