//! Metadata about where a receipt was made: the CI system, the runner, the
//! commit and the reference, as the environment tells them.
//!
//! The environment is given as a snapshot: a map from the names of the
//! variables that are set to their values.

use crate::json::text_view;
use crate::receipt::or;
use crate::strmap::{bind, value_of, StringMap};
use crate::text::{
    ascii_lower, from_chars, lower, str_eq, to_chars, trim, trim_bounds, trimmed,
};
use vstd::prelude::*;
use vstd::string::StringExecFns;

verus! {

/// What the environment tells about a run.
#[derive(Debug)]
pub struct EnvMetadata {
    pub ci: Option<String>,
    pub runner: Option<String>,
    pub entries: StringMap,
}

/// Whether `c` is a decimal digit.
pub open spec fn is_digit(c: char) -> bool {
    '0' <= c && c <= '9'
}

/// Whether `c` may stand in a version: a letter or digit of ASCII, a dot, a
/// hyphen or a plus sign.
pub open spec fn is_version_char(c: char) -> bool {
    is_digit(c) || c == '.' || c == '-' || c == '+' || ('a' <= c && c <= 'z') || ('A' <= c && c
        <= 'Z')
}

/// Whether `needle` stands in `hay` at `i`, the case of ASCII letters in
/// `hay` put aside.
pub open spec fn matches_at(hay: Seq<char>, needle: Seq<char>, i: int) -> bool {
    0 <= i && i + needle.len() <= hay.len() && forall|k: int|
        0 <= k < needle.len() ==> ascii_lower(#[trigger] hay[i + k]) == needle[k]
}

/// Whether `needle` stands somewhere in `hay`, the case of ASCII letters in
/// `hay` put aside.
pub open spec fn mentions(hay: Seq<char>, needle: Seq<char>) -> bool {
    exists|i: int| matches_at(hay, needle, i)
}

/// Where the line that starts at `from` ends: at the next line feed, or at
/// the end of the text.
pub open spec fn line_end(s: Seq<char>, from: int) -> int
    decreases s.len() - from,
{
    if from < 0 || from >= s.len() {
        s.len() as int
    } else if s[from] == '\n' {
        from
    } else {
        line_end(s, from + 1)
    }
}

/// Where the content of the line that starts at `from` ends: before its line
/// feed, and before the carriage return in front of that if there is one.
pub open spec fn content_end(s: Seq<char>, from: int) -> int {
    let end = line_end(s, from);
    if end < s.len() && end > from && s[end - 1] == '\r' {
        end - 1
    } else {
        end
    }
}

/// The first line at or after `from` that mentions `terraform v`, as the
/// bounds of its content.
pub open spec fn version_line(s: Seq<char>, from: int) -> Option<(int, int)>
    decreases s.len() - from,
{
    if from < 0 || from >= s.len() {
        None
    } else if mentions(s.subrange(from, content_end(s, from)), terraform_marker()) {
        Some((from, content_end(s, from)))
    } else if line_end(s, from) < from || line_end(s, from) >= s.len() {
        None
    } else {
        version_line(s, line_end(s, from) + 1)
    }
}

/// The words that mark the line with the version.
pub open spec fn terraform_marker() -> Seq<char> {
    seq!['t', 'e', 'r', 'r', 'a', 'f', 'o', 'r', 'm', ' ', 'v']
}

/// Where the version starts in `line`, looking from `i`: at the first digit,
/// or behind the first `v` that a digit follows, whichever comes first.
pub open spec fn version_start(line: Seq<char>, i: int) -> Option<int>
    decreases line.len() - i,
{
    if i < 0 || i >= line.len() {
        None
    } else if line[i] == 'v' && i + 1 < line.len() && is_digit(line[i + 1]) {
        Some(i + 1)
    } else if is_digit(line[i]) {
        Some(i)
    } else {
        version_start(line, i + 1)
    }
}

/// Where the version that starts at `i` ends: at the first character that may
/// not stand in a version.
pub open spec fn version_end(line: Seq<char>, i: int) -> int
    decreases line.len() - i,
{
    if 0 <= i < line.len() && is_version_char(line[i]) {
        version_end(line, i + 1)
    } else {
        i
    }
}

/// The version in `line`, if there is one.
pub open spec fn version_in(line: Seq<char>) -> Option<Seq<char>> {
    match version_start(line, 0) {
        None => None,
        Some(start) => if version_end(line, start) == start {
            None
        } else {
            Some(line.subrange(start, version_end(line, start)))
        },
    }
}

/// The Terraform version that the output of `terraform version` names: the
/// version in the first line that mentions `terraform v`, or in the whole
/// output, trimmed, where no line does.
pub open spec fn terraform_version_in(s: Seq<char>) -> Option<Seq<char>> {
    match version_line(s, 0) {
        Some((from, to)) => version_in(s.subrange(from, to)),
        None => version_in(trimmed(s)),
    }
}

/// The words that mark the line with the version.
fn marker() -> (m: Vec<char>)
    ensures
        m@ == terraform_marker(),
{
    let mut m: Vec<char> = Vec::new();
    m.push('t');
    m.push('e');
    m.push('r');
    m.push('r');
    m.push('a');
    m.push('f');
    m.push('o');
    m.push('r');
    m.push('m');
    m.push(' ');
    m.push('v');
    proof {
        assert(m@ =~= terraform_marker());
    }
    m
}

/// Whether `needle` stands in `v[from..to]` at `i`.
fn matches_here(v: &Vec<char>, from: usize, to: usize, needle: &Vec<char>, i: usize) -> (r: bool)
    requires
        from <= to <= v.len(),
        i + needle.len() <= to - from,
    ensures
        r == matches_at(v@.subrange(from as int, to as int), needle@, i as int),
{
    let ghost hay = v@.subrange(from as int, to as int);
    let mut k: usize = 0;
    while k < needle.len()
        invariant
            k <= needle.len(),
            from <= to <= v.len(),
            i + needle.len() <= to - from,
            hay == v@.subrange(from as int, to as int),
            forall|j: int| 0 <= j < k ==> ascii_lower(#[trigger] hay[i + j]) == needle@[j],
        decreases needle.len() - k,
    {
        if lower(v[from + i + k]) != needle[k] {
            proof {
                assert(hay[i + k] == v@[from + i + k]);
            }
            return false;
        }
        proof {
            assert(hay[i + k] == v@[from + i + k]);
        }
        k += 1;
    }
    true
}

/// Whether `needle` stands somewhere in `v[from..to]`.
fn mentions_in(v: &Vec<char>, from: usize, to: usize, needle: &Vec<char>) -> (r: bool)
    requires
        from <= to <= v.len(),
    ensures
        r == mentions(v@.subrange(from as int, to as int), needle@),
{
    let ghost hay = v@.subrange(from as int, to as int);
    if needle.len() > to - from {
        proof {
            assert forall|i: int| !matches_at(hay, needle@, i) by {}
        }
        return false;
    }
    let last = to - from - needle.len();
    let mut i: usize = 0;
    while i <= last
        invariant
            from <= to <= v.len(),
            needle.len() <= to - from,
            last == to - from - needle.len(),
            i <= last + 1,
            hay == v@.subrange(from as int, to as int),
            forall|j: int| 0 <= j < i ==> !matches_at(hay, needle@, j),
        decreases last + 1 - i,
    {
        if matches_here(v, from, to, needle, i) {
            return true;
        }
        i += 1;
    }
    proof {
        assert forall|j: int| !matches_at(hay, needle@, j) by {
            if 0 <= j && j + needle.len() <= hay.len() {
                assert(j < i);
            }
        }
    }
    false
}

/// The version in `v[from..to]`, if there is one.
fn version_between(v: &Vec<char>, from: usize, to: usize) -> (r: Option<String>)
    requires
        from <= to <= v.len(),
    ensures
        r is Some == version_in(v@.subrange(from as int, to as int)) is Some,
        r is Some ==> r->0@ == version_in(v@.subrange(from as int, to as int))->0,
{
    let ghost line = v@.subrange(from as int, to as int);
    let mut i: usize = from;
    let mut start: Option<usize> = None;
    while i < to
        invariant_except_break
            from <= i <= to <= v.len(),
            line == v@.subrange(from as int, to as int),
            start is None,
            version_start(line, 0) == version_start(line, i - from),
        ensures
            from <= to <= v.len(),
            line == v@.subrange(from as int, to as int),
            start is None ==> version_start(line, 0) is None,
            start is Some ==> from <= start->0 <= to && version_start(line, 0) == Some(
                start->0 - from,
            ),
        decreases to - i,
    {
        let c = v[i];
        proof {
            assert(line[i - from] == v@[i as int]);
            if i + 1 < to {
                assert(line[i - from + 1] == v@[i + 1]);
            }
        }
        if c == 'v' && i + 1 < to && '0' <= v[i + 1] && v[i + 1] <= '9' {
            start = Some(i + 1);
            break ;
        }
        if '0' <= c && c <= '9' {
            start = Some(i);
            break ;
        }
        i += 1;
    }
    let begin = match start {
        Some(b) => b,
        None => {
            return None;
        },
    };
    let mut end: usize = begin;
    while end < to && is_version(v[end])
        invariant
            from <= begin <= end <= to <= v.len(),
            line == v@.subrange(from as int, to as int),
            version_end(line, begin - from) == version_end(line, end - from),
        decreases to - end,
    {
        proof {
            assert(line[end - from] == v@[end as int]);
        }
        end += 1;
    }
    proof {
        if end < to {
            assert(line[end - from] == v@[end as int]);
        }
        assert(line.subrange(begin - from, end - from) =~= v@.subrange(begin as int, end as int));
    }
    if end == begin {
        None
    } else {
        Some(from_chars(v, begin, end))
    }
}

/// Whether `c` may stand in a version.
fn is_version(c: char) -> (r: bool)
    ensures
        r == is_version_char(c),
{
    ('0' <= c && c <= '9') || c == '.' || c == '-' || c == '+' || ('a' <= c && c <= 'z') || ('A'
        <= c && c <= 'Z')
}

/// The Terraform version that the output of `terraform version` names.
pub fn parse_terraform_version_from_stdout(s: &str) -> (r: Option<String>)
    ensures
        r is Some == terraform_version_in(s@) is Some,
        r is Some ==> r->0@ == terraform_version_in(s@)->0,
{
    let v = to_chars(s);
    let needle = marker();
    let mut from: usize = 0;
    while from < v.len()
        invariant
            from <= v.len(),
            v@ == s@,
            needle@ == terraform_marker(),
            version_line(s@, 0) == version_line(s@, from as int),
        decreases v.len() - from,
    {
        let mut end: usize = from;
        while end < v.len() && v[end] != '\n'
            invariant
                from <= end <= v.len(),
                v@ == s@,
                line_end(s@, from as int) == line_end(s@, end as int),
            decreases v.len() - end,
        {
            end += 1;
        }
        let content = if end < v.len() && end > from && v[end - 1] == '\r' {
            end - 1
        } else {
            end
        };
        assert(end == line_end(s@, from as int));
        assert(content == content_end(s@, from as int));
        if mentions_in(&v, from, content, &needle) {
            return version_between(&v, from, content);
        }
        if end < v.len() {
            from = end + 1;
        } else {
            from = v.len();
        }
    }
    proof {
        assert(v@.subrange(0, v@.len() as int) =~= v@);
    }
    let (a, b) = trim_bounds(&v, 0, v.len());
    version_between(&v, a, b)
}

/// What the environment tells about a run, as plain values.
pub struct Collected {
    pub ci: Option<Seq<char>>,
    pub runner: Option<Seq<char>>,
    pub entries: Seq<(Seq<char>, Seq<char>)>,
}

impl View for EnvMetadata {
    type V = Collected;

    open spec fn view(&self) -> Collected {
        Collected {
            ci: text_view(self.ci),
            runner: text_view(self.runner),
            entries: self.entries.pairs(),
        }
    }
}

/// The value of the variable `name`, trimmed; none where it is not set or
/// blank.
pub open spec fn var(vars: Seq<(Seq<char>, Seq<char>)>, name: Seq<char>) -> Option<Seq<char>> {
    match value_of(vars, name) {
        Some(v) => if trimmed(v).len() == 0 {
            None
        } else {
            Some(trimmed(v))
        },
        None => None,
    }
}

/// `entries` with `key` bound to the value, where there is one.
pub open spec fn put_some(
    entries: Seq<(Seq<char>, Seq<char>)>,
    key: Seq<char>,
    value: Option<Seq<char>>,
) -> Seq<(Seq<char>, Seq<char>)> {
    match value {
        Some(v) => bind(entries, key, v),
        None => entries,
    }
}

/// `entries` with `key` bound to the value of the variable `name`, where it
/// has one.
pub open spec fn copied(
    entries: Seq<(Seq<char>, Seq<char>)>,
    vars: Seq<(Seq<char>, Seq<char>)>,
    key: Seq<char>,
    name: Seq<char>,
) -> Seq<(Seq<char>, Seq<char>)> {
    put_some(entries, key, var(vars, name))
}

/// `entries` with `ci_url` bound to what `key` is bound to, where it is
/// bound.
pub open spec fn with_ci_url(entries: Seq<(Seq<char>, Seq<char>)>, key: Seq<char>) -> Seq<
    (Seq<char>, Seq<char>),
> {
    put_some(entries, "ci_url"@, value_of(entries, key))
}

/// `s` without the slashes at its end.
pub open spec fn without_trailing_slashes(s: Seq<char>) -> Seq<char>
    decreases s.len(),
{
    if s.len() > 0 && s.last() == '/' {
        without_trailing_slashes(s.drop_last())
    } else {
        s
    }
}

/// The address of a workflow run on GitHub.
pub open spec fn github_run_url(server: Option<Seq<char>>, repo: Seq<char>, run: Seq<char>) -> Seq<
    char,
> {
    without_trailing_slashes(
        match server {
            Some(s) => s,
            None => "https://github.com"@,
        },
    ) + "/"@ + repo + "/actions/runs/"@ + run
}

/// Whether the run is one of GitHub Actions.
pub open spec fn on_github(vars: Seq<(Seq<char>, Seq<char>)>) -> bool {
    value_of(vars, "GITHUB_ACTIONS"@) == Some("true"@) || value_of(vars, "GITHUB_ACTIONS"@) == Some(
        "1"@,
    )
}

/// What a run of GitHub Actions tells.
pub open spec fn github(vars: Seq<(Seq<char>, Seq<char>)>) -> Collected {
    let e1 = copied(Seq::empty(), vars, "github_repository"@, "GITHUB_REPOSITORY"@);
    let e2 = copied(e1, vars, "github_sha"@, "GITHUB_SHA"@);
    let e3 = copied(e2, vars, "github_ref"@, "GITHUB_REF"@);
    let e4 = copied(e3, vars, "github_run_id"@, "GITHUB_RUN_ID"@);
    let e5 = copied(e4, vars, "github_run_attempt"@, "GITHUB_RUN_ATTEMPT"@);
    let e6 = match (value_of(e5, "github_repository"@), value_of(e5, "github_run_id"@)) {
        (Some(repo), Some(run)) => {
            let url = github_run_url(var(vars, "GITHUB_SERVER_URL"@), repo, run);
            bind(bind(e5, "workflow_url"@, url), "ci_url"@, url)
        },
        _ => e5,
    };
    let runner = var(vars, "RUNNER_NAME"@);
    Collected {
        ci: Some("github_actions"@),
        runner,
        entries: put_some(e6, "github_runner_name"@, runner),
    }
}

/// What a run of GitLab CI tells.
pub open spec fn gitlab(vars: Seq<(Seq<char>, Seq<char>)>) -> Collected {
    let e1 = copied(Seq::empty(), vars, "gitlab_project"@, "CI_PROJECT_PATH"@);
    let e2 = copied(e1, vars, "gitlab_sha"@, "CI_COMMIT_SHA"@);
    let e3 = copied(e2, vars, "gitlab_ref"@, "CI_COMMIT_REF_NAME"@);
    let e4 = copied(e3, vars, "pipeline_url"@, "CI_PIPELINE_URL"@);
    Collected { ci: Some("gitlab_ci"@), runner: None, entries: with_ci_url(e4, "pipeline_url"@) }
}

/// What a run of CircleCI tells.
pub open spec fn circleci(vars: Seq<(Seq<char>, Seq<char>)>) -> Collected {
    let e1 = copied(Seq::empty(), vars, "circle_project"@, "CIRCLE_PROJECT_REPONAME"@);
    let e2 = copied(e1, vars, "circle_username"@, "CIRCLE_PROJECT_USERNAME"@);
    let e3 = copied(e2, vars, "circle_sha"@, "CIRCLE_SHA1"@);
    let e4 = copied(e3, vars, "circle_branch"@, "CIRCLE_BRANCH"@);
    let e5 = copied(e4, vars, "build_url"@, "CIRCLE_BUILD_URL"@);
    Collected { ci: Some("circleci"@), runner: None, entries: with_ci_url(e5, "build_url"@) }
}

/// What a run of Buildkite tells.
pub open spec fn buildkite(vars: Seq<(Seq<char>, Seq<char>)>) -> Collected {
    let e1 = copied(Seq::empty(), vars, "buildkite_org"@, "BUILDKITE_ORGANIZATION_SLUG"@);
    let e2 = copied(e1, vars, "buildkite_pipeline"@, "BUILDKITE_PIPELINE_SLUG"@);
    let e3 = copied(e2, vars, "buildkite_build_number"@, "BUILDKITE_BUILD_NUMBER"@);
    let e4 = copied(e3, vars, "buildkite_commit"@, "BUILDKITE_COMMIT"@);
    let e5 = copied(e4, vars, "build_url"@, "BUILDKITE_BUILD_URL"@);
    Collected { ci: Some("buildkite"@), runner: None, entries: with_ci_url(e5, "build_url"@) }
}

/// What a run of Jenkins tells.
pub open spec fn jenkins(vars: Seq<(Seq<char>, Seq<char>)>) -> Collected {
    let e1 = copied(Seq::empty(), vars, "jenkins_url"@, "JENKINS_URL"@);
    let e2 = copied(e1, vars, "jenkins_job"@, "JOB_NAME"@);
    let e3 = copied(e2, vars, "jenkins_build_number"@, "BUILD_NUMBER"@);
    let e4 = copied(e3, vars, "jenkins_build_tag"@, "BUILD_TAG"@);
    let e5 = copied(e4, vars, "ci_url"@, "BUILD_URL"@);
    Collected {
        ci: Some("jenkins"@),
        runner: None,
        entries: copied(e5, vars, "build_url"@, "BUILD_URL"@),
    }
}

/// What a run of Azure Pipelines tells.
pub open spec fn azure(vars: Seq<(Seq<char>, Seq<char>)>) -> Collected {
    let e1 = copied(Seq::empty(), vars, "azure_definition"@, "BUILD_DEFINITIONNAME"@);
    let e2 = copied(e1, vars, "azure_build_id"@, "BUILD_BUILDID"@);
    let e3 = copied(e2, vars, "azure_repo"@, "BUILD_REPOSITORY_NAME"@);
    let e4 = copied(e3, vars, "azure_source_branch"@, "BUILD_SOURCEBRANCH"@);
    let e5 = copied(e4, vars, "build_url"@, "BUILD_BUILDURI"@);
    Collected { ci: Some("azure_pipelines"@), runner: None, entries: with_ci_url(e5, "build_url"@) }
}

/// What the CI system tells: the first of GitHub Actions, GitLab CI,
/// CircleCI, Buildkite, Jenkins and Azure Pipelines that the environment
/// shows; nothing where it shows none.
pub open spec fn provider(vars: Seq<(Seq<char>, Seq<char>)>) -> Collected {
    if on_github(vars) {
        github(vars)
    } else if value_of(vars, "GITLAB_CI"@) is Some {
        gitlab(vars)
    } else if value_of(vars, "CIRCLECI"@) is Some {
        circleci(vars)
    } else if value_of(vars, "BUILDKITE"@) is Some {
        buildkite(vars)
    } else if value_of(vars, "JENKINS_URL"@) is Some {
        jenkins(vars)
    } else if value_of(vars, "AZURE_HTTP_USER_AGENT"@) is Some {
        azure(vars)
    } else {
        Collected { ci: None, runner: None, entries: Seq::empty() }
    }
}

/// The commit: the variable `GIT_COMMIT`, else what the CI system told.
pub open spec fn commit_of(
    vars: Seq<(Seq<char>, Seq<char>)>,
    entries: Seq<(Seq<char>, Seq<char>)>,
) -> Option<Seq<char>> {
    or(
        var(vars, "GIT_COMMIT"@),
        or(
            value_of(entries, "github_sha"@),
            or(
                value_of(entries, "gitlab_sha"@),
                or(value_of(entries, "circle_sha"@), value_of(entries, "buildkite_commit"@)),
            ),
        ),
    )
}

/// The reference: the variable `GIT_REF`, else what the CI system told.
pub open spec fn reference_of(
    vars: Seq<(Seq<char>, Seq<char>)>,
    entries: Seq<(Seq<char>, Seq<char>)>,
) -> Option<Seq<char>> {
    or(
        var(vars, "GIT_REF"@),
        or(
            value_of(entries, "github_ref"@),
            or(
                value_of(entries, "gitlab_ref"@),
                or(value_of(entries, "circle_branch"@), value_of(entries, "azure_source_branch"@)),
            ),
        ),
    )
}

/// What the environment `vars` tells about a run, with the Terraform version
/// `terraform` where one was found.
pub open spec fn collected(vars: Seq<(Seq<char>, Seq<char>)>, terraform: Option<Seq<char>>) -> Collected {
    let p = provider(vars);
    let hint = or(var(vars, "HOSTNAME"@), var(vars, "COMPUTERNAME"@));
    let e1 = put_some(p.entries, "runner"@, hint);
    let e2 = put_some(e1, "git_commit"@, commit_of(vars, e1));
    let e3 = put_some(e2, "git_ref"@, reference_of(vars, e2));
    Collected {
        ci: p.ci,
        runner: if p.runner is None {
            hint
        } else {
            p.runner
        },
        entries: put_some(e3, "terraform_version"@, terraform),
    }
}

/// A copy of an optional string.
fn copy_text(t: Option<&String>) -> (r: Option<String>)
    ensures
        text_view(r) == match t {
            Some(s) => Some(s@),
            None => None,
        },
{
    match t {
        Some(s) => Some(s.clone()),
        None => None,
    }
}

/// The value of the variable `key`, trimmed; none where it is not set or
/// blank.
pub fn env_var(vars: &StringMap, key: &str) -> (r: Option<String>)
    ensures
        text_view(r) == var(vars.pairs(), key@),
{
    match vars.get(key) {
        Some(v) => {
            let t = trim(v.as_str());
            if t.as_str().is_empty() {
                None
            } else {
                Some(t)
            }
        },
        None => None,
    }
}

/// Binds `key` to the value, where there is one.
pub fn insert(map: &mut StringMap, key: &str, value: Option<String>)
    ensures
        final(map).pairs() == put_some(old(map).pairs(), key@, text_view(value)),
        old(map).wf() ==> final(map).wf(),
{
    match value {
        Some(v) => {
            map.insert(key.to_owned(), v);
        },
        None => {},
    }
}

/// Binds `key` to the value of the variable `name`, where it has one.
fn copy_var(map: &mut StringMap, vars: &StringMap, key: &str, name: &str)
    ensures
        final(map).pairs() == copied(old(map).pairs(), vars.pairs(), key@, name@),
        old(map).wf() ==> final(map).wf(),
{
    insert(map, key, env_var(vars, name));
}

/// Binds `ci_url` to what `key` is bound to, where it is bound.
fn copy_ci_url(map: &mut StringMap, key: &str)
    ensures
        final(map).pairs() == with_ci_url(old(map).pairs(), key@),
        old(map).wf() ==> final(map).wf(),
{
    let url = copy_text(map.get(key));
    insert(map, "ci_url", url);
}

/// The first of two values that is there.
fn first_of(a: Option<String>, b: Option<String>) -> (r: Option<String>)
    ensures
        text_view(r) == or(text_view(a), text_view(b)),
{
    match a {
        Some(x) => Some(x),
        None => b,
    }
}

/// `s` without the slashes at its end.
fn strip_trailing_slashes(s: &str) -> (out: String)
    ensures
        out@ == without_trailing_slashes(s@),
{
    let v = to_chars(s);
    let mut end: usize = v.len();
    proof {
        assert(v@.take(end as int) =~= v@);
    }
    while end > 0 && v[end - 1] == '/'
        invariant
            end <= v.len(),
            v@ == s@,
            without_trailing_slashes(s@) == without_trailing_slashes(v@.take(end as int)),
        decreases end,
    {
        proof {
            assert(v@.take(end as int).drop_last() =~= v@.take(end - 1));
        }
        end -= 1;
    }
    proof {
        assert(v@.take(end as int) =~= v@.subrange(0, end as int));
    }
    from_chars(&v, 0, end)
}

/// What a run of GitHub Actions tells.
fn collect_github(vars: &StringMap) -> (meta: EnvMetadata)
    ensures
        meta@ == github(vars.pairs()),
        meta.entries.wf(),
{
    let mut entries = StringMap::new();
    copy_var(&mut entries, vars, "github_repository", "GITHUB_REPOSITORY");
    copy_var(&mut entries, vars, "github_sha", "GITHUB_SHA");
    copy_var(&mut entries, vars, "github_ref", "GITHUB_REF");
    copy_var(&mut entries, vars, "github_run_id", "GITHUB_RUN_ID");
    copy_var(&mut entries, vars, "github_run_attempt", "GITHUB_RUN_ATTEMPT");
    let repo = copy_text(entries.get("github_repository"));
    let run_id = copy_text(entries.get("github_run_id"));
    match (repo, run_id) {
        (Some(repo), Some(run_id)) => {
            let base = match env_var(vars, "GITHUB_SERVER_URL") {
                Some(b) => b,
                None => "https://github.com".to_owned(),
            };
            let mut url = strip_trailing_slashes(base.as_str());
            url.append("/");
            url.append(repo.as_str());
            url.append("/actions/runs/");
            url.append(run_id.as_str());
            entries.insert("workflow_url".to_owned(), url.clone());
            entries.insert("ci_url".to_owned(), url);
        },
        _ => {},
    }
    let runner = env_var(vars, "RUNNER_NAME");
    let name = match &runner {
        Some(r) => Some(r.clone()),
        None => None,
    };
    insert(&mut entries, "github_runner_name", name);
    EnvMetadata { ci: Some("github_actions".to_owned()), runner, entries }
}

/// What a run of GitLab CI tells.
fn collect_gitlab(vars: &StringMap) -> (meta: EnvMetadata)
    ensures
        meta@ == gitlab(vars.pairs()),
        meta.entries.wf(),
{
    let mut entries = StringMap::new();
    copy_var(&mut entries, vars, "gitlab_project", "CI_PROJECT_PATH");
    copy_var(&mut entries, vars, "gitlab_sha", "CI_COMMIT_SHA");
    copy_var(&mut entries, vars, "gitlab_ref", "CI_COMMIT_REF_NAME");
    copy_var(&mut entries, vars, "pipeline_url", "CI_PIPELINE_URL");
    copy_ci_url(&mut entries, "pipeline_url");
    EnvMetadata { ci: Some("gitlab_ci".to_owned()), runner: None, entries }
}

/// What a run of CircleCI tells.
fn collect_circleci(vars: &StringMap) -> (meta: EnvMetadata)
    ensures
        meta@ == circleci(vars.pairs()),
        meta.entries.wf(),
{
    let mut entries = StringMap::new();
    copy_var(&mut entries, vars, "circle_project", "CIRCLE_PROJECT_REPONAME");
    copy_var(&mut entries, vars, "circle_username", "CIRCLE_PROJECT_USERNAME");
    copy_var(&mut entries, vars, "circle_sha", "CIRCLE_SHA1");
    copy_var(&mut entries, vars, "circle_branch", "CIRCLE_BRANCH");
    copy_var(&mut entries, vars, "build_url", "CIRCLE_BUILD_URL");
    copy_ci_url(&mut entries, "build_url");
    EnvMetadata { ci: Some("circleci".to_owned()), runner: None, entries }
}

/// What a run of Buildkite tells.
fn collect_buildkite(vars: &StringMap) -> (meta: EnvMetadata)
    ensures
        meta@ == buildkite(vars.pairs()),
        meta.entries.wf(),
{
    let mut entries = StringMap::new();
    copy_var(&mut entries, vars, "buildkite_org", "BUILDKITE_ORGANIZATION_SLUG");
    copy_var(&mut entries, vars, "buildkite_pipeline", "BUILDKITE_PIPELINE_SLUG");
    copy_var(&mut entries, vars, "buildkite_build_number", "BUILDKITE_BUILD_NUMBER");
    copy_var(&mut entries, vars, "buildkite_commit", "BUILDKITE_COMMIT");
    copy_var(&mut entries, vars, "build_url", "BUILDKITE_BUILD_URL");
    copy_ci_url(&mut entries, "build_url");
    EnvMetadata { ci: Some("buildkite".to_owned()), runner: None, entries }
}

/// What a run of Jenkins tells.
fn collect_jenkins(vars: &StringMap) -> (meta: EnvMetadata)
    ensures
        meta@ == jenkins(vars.pairs()),
        meta.entries.wf(),
{
    let mut entries = StringMap::new();
    copy_var(&mut entries, vars, "jenkins_url", "JENKINS_URL");
    copy_var(&mut entries, vars, "jenkins_job", "JOB_NAME");
    copy_var(&mut entries, vars, "jenkins_build_number", "BUILD_NUMBER");
    copy_var(&mut entries, vars, "jenkins_build_tag", "BUILD_TAG");
    copy_var(&mut entries, vars, "ci_url", "BUILD_URL");
    copy_var(&mut entries, vars, "build_url", "BUILD_URL");
    EnvMetadata { ci: Some("jenkins".to_owned()), runner: None, entries }
}

/// What a run of Azure Pipelines tells.
fn collect_azure(vars: &StringMap) -> (meta: EnvMetadata)
    ensures
        meta@ == azure(vars.pairs()),
        meta.entries.wf(),
{
    let mut entries = StringMap::new();
    copy_var(&mut entries, vars, "azure_definition", "BUILD_DEFINITIONNAME");
    copy_var(&mut entries, vars, "azure_build_id", "BUILD_BUILDID");
    copy_var(&mut entries, vars, "azure_repo", "BUILD_REPOSITORY_NAME");
    copy_var(&mut entries, vars, "azure_source_branch", "BUILD_SOURCEBRANCH");
    copy_var(&mut entries, vars, "build_url", "BUILD_BUILDURI");
    copy_ci_url(&mut entries, "build_url");
    EnvMetadata { ci: Some("azure_pipelines".to_owned()), runner: None, entries }
}

/// Whether the variable `name` is set to `value`, exactly.
fn var_is(vars: &StringMap, name: &str, value: &str) -> (r: bool)
    ensures
        r == (value_of(vars.pairs(), name@) == Some(value@)),
{
    match vars.get(name) {
        Some(v) => str_eq(v.as_str(), value),
        None => false,
    }
}

/// Whether the variable `name` is set.
fn var_is_set(vars: &StringMap, name: &str) -> (r: bool)
    ensures
        r == (value_of(vars.pairs(), name@) is Some),
{
    vars.get(name).is_some()
}

/// What the CI system tells.
fn collect_provider(vars: &StringMap) -> (meta: EnvMetadata)
    ensures
        meta@ == provider(vars.pairs()),
        meta.entries.wf(),
{
    if var_is(vars, "GITHUB_ACTIONS", "true") || var_is(vars, "GITHUB_ACTIONS", "1") {
        collect_github(vars)
    } else if var_is_set(vars, "GITLAB_CI") {
        collect_gitlab(vars)
    } else if var_is_set(vars, "CIRCLECI") {
        collect_circleci(vars)
    } else if var_is_set(vars, "BUILDKITE") {
        collect_buildkite(vars)
    } else if var_is_set(vars, "JENKINS_URL") {
        collect_jenkins(vars)
    } else if var_is_set(vars, "AZURE_HTTP_USER_AGENT") {
        collect_azure(vars)
    } else {
        EnvMetadata { ci: None, runner: None, entries: StringMap::new() }
    }
}

/// What the environment `vars` tells about a run: the CI system and what it
/// names, the runner, the commit and the reference, and the Terraform version
/// where one was found.
pub fn collect_env_metadata(vars: &StringMap, terraform: Option<String>) -> (meta: EnvMetadata)
    ensures
        meta@ == collected(vars.pairs(), text_view(terraform)),
        meta.entries.wf(),
{
    let found = collect_provider(vars);
    let EnvMetadata { ci, runner, entries } = found;
    let mut entries = entries;
    let hint = first_of(env_var(vars, "HOSTNAME"), env_var(vars, "COMPUTERNAME"));
    let runner = match runner {
        Some(r) => Some(r),
        None => match &hint {
            Some(h) => Some(h.clone()),
            None => None,
        },
    };
    insert(&mut entries, "runner", hint);
    let commit = first_of(
        env_var(vars, "GIT_COMMIT"),
        first_of(
            copy_text(entries.get("github_sha")),
            first_of(
                copy_text(entries.get("gitlab_sha")),
                first_of(
                    copy_text(entries.get("circle_sha")),
                    copy_text(entries.get("buildkite_commit")),
                ),
            ),
        ),
    );
    insert(&mut entries, "git_commit", commit);
    let reference = first_of(
        env_var(vars, "GIT_REF"),
        first_of(
            copy_text(entries.get("github_ref")),
            first_of(
                copy_text(entries.get("gitlab_ref")),
                first_of(
                    copy_text(entries.get("circle_branch")),
                    copy_text(entries.get("azure_source_branch")),
                ),
            ),
        ),
    );
    insert(&mut entries, "git_ref", reference);
    insert(&mut entries, "terraform_version", terraform);
    EnvMetadata { ci, runner, entries }
}

/// The Terraform version: the variable `VM_TF_VERSION` where it is set, else
/// what the output of `terraform version` names, where there is output.
pub fn detect_terraform_version(vars: &StringMap, stdout: Option<&str>) -> (r: Option<String>)
    ensures
        text_view(r) == match var(vars.pairs(), "VM_TF_VERSION"@) {
            Some(v) => Some(v),
            None => match stdout {
                Some(out) => terraform_version_in(out@),
                None => None,
            },
        },
{
    match env_var(vars, "VM_TF_VERSION") {
        Some(v) => Some(v),
        None => match stdout {
            Some(out) => parse_terraform_version_from_stdout(out),
            None => None,
        },
    }
}

} // verus!
