use vaultmesh::env_meta::{
    collect_env_metadata, detect_terraform_version, env_var, insert,
    parse_terraform_version_from_stdout,
};
use vaultmesh::strmap::StringMap;

fn vars(pairs: &[(&str, &str)]) -> StringMap {
    let mut m = StringMap::new();
    for (k, v) in pairs {
        m.insert(k.to_string(), v.to_string());
    }
    m
}

fn entry(m: &StringMap, key: &str) -> Option<String> {
    m.get(key).cloned()
}

#[test]
fn tf_parse_simple() {
    assert_eq!(
        parse_terraform_version_from_stdout("Terraform v1.6.6"),
        Some("1.6.6".into())
    );
}

#[test]
fn tf_parse_prerelease() {
    assert_eq!(
        parse_terraform_version_from_stdout("Terraform v1.9.2-beta2 on darwin_amd64"),
        Some("1.9.2-beta2".into())
    );
}

#[test]
fn tf_parse_noisy() {
    let s = "Terraform v1.5.7\non linux_amd64\nother tools...";
    assert_eq!(parse_terraform_version_from_stdout(s), Some("1.5.7".into()));
}

#[test]
fn tf_parse_with_plus_build() {
    let s = "Hashi Terraform v1.7.0+ent on linux_x86_64";
    assert_eq!(
        parse_terraform_version_from_stdout(s),
        Some("1.7.0+ent".into())
    );
}

#[test]
fn tf_parse_takes_the_marked_line_not_the_first() {
    let s = "warning 9 things\r\nTERRAFORM V2.0.1\r\nrest";
    assert_eq!(parse_terraform_version_from_stdout(s), Some("2.0.1".into()));
}

#[test]
fn tf_parse_falls_back_to_the_whole_output() {
    assert_eq!(
        parse_terraform_version_from_stdout("  version 3.4 \n"),
        Some("3.4".into())
    );
    assert_eq!(parse_terraform_version_from_stdout("no version here"), None);
    assert_eq!(parse_terraform_version_from_stdout(""), None);
}

#[test]
fn tf_parse_v_needs_a_digit_behind_it() {
    assert_eq!(
        parse_terraform_version_from_stdout("very old v7x"),
        Some("7x".into())
    );
}

#[test]
fn env_var_trims_and_drops_blank_values() {
    let v = vars(&[("A", "  x  "), ("B", "   "), ("C", "")]);
    assert_eq!(env_var(&v, "A"), Some("x".to_string()));
    assert_eq!(env_var(&v, "B"), None);
    assert_eq!(env_var(&v, "C"), None);
    assert_eq!(env_var(&v, "D"), None);
}

#[test]
fn insert_binds_only_a_value_that_is_there() {
    let mut m = StringMap::new();
    insert(&mut m, "k", None);
    assert_eq!(m.len(), 0);
    insert(&mut m, "k", Some("v".to_string()));
    insert(&mut m, "k", Some("w".to_string()));
    assert_eq!(m.len(), 1);
    assert_eq!(entry(&m, "k"), Some("w".to_string()));
}

#[test]
fn github_run_is_collected() {
    let v = vars(&[
        ("GITHUB_ACTIONS", "true"),
        ("GITHUB_REPOSITORY", "org/repo"),
        ("GITHUB_SHA", "abc123"),
        ("GITHUB_REF", "refs/heads/main"),
        ("GITHUB_RUN_ID", "42"),
        ("GITHUB_SERVER_URL", "https://ghe.example.com//"),
        ("RUNNER_NAME", "runner-7"),
        ("HOSTNAME", "host-1"),
        ("GITLAB_CI", "1"),
    ]);
    let meta = collect_env_metadata(&v, Some("1.6.6".to_string()));
    assert_eq!(meta.ci, Some("github_actions".to_string()));
    assert_eq!(meta.runner, Some("runner-7".to_string()));
    let e = &meta.entries;
    assert_eq!(entry(e, "github_repository"), Some("org/repo".to_string()));
    assert_eq!(
        entry(e, "workflow_url"),
        Some("https://ghe.example.com/org/repo/actions/runs/42".to_string())
    );
    assert_eq!(entry(e, "ci_url"), entry(e, "workflow_url"));
    assert_eq!(entry(e, "github_runner_name"), Some("runner-7".to_string()));
    assert_eq!(entry(e, "runner"), Some("host-1".to_string()));
    assert_eq!(entry(e, "git_commit"), Some("abc123".to_string()));
    assert_eq!(entry(e, "git_ref"), Some("refs/heads/main".to_string()));
    assert_eq!(entry(e, "terraform_version"), Some("1.6.6".to_string()));
    assert_eq!(entry(e, "github_run_attempt"), None);
    assert_eq!(entry(e, "gitlab_sha"), None);
}

#[test]
fn github_default_server_is_used() {
    let v = vars(&[
        ("GITHUB_ACTIONS", "1"),
        ("GITHUB_REPOSITORY", "o/r"),
        ("GITHUB_RUN_ID", "7"),
    ]);
    let meta = collect_env_metadata(&v, None);
    assert_eq!(
        entry(&meta.entries, "ci_url"),
        Some("https://github.com/o/r/actions/runs/7".to_string())
    );
    assert_eq!(meta.runner, None);
    assert_eq!(entry(&meta.entries, "terraform_version"), None);
}

#[test]
fn github_needs_the_exact_flag() {
    let v = vars(&[("GITHUB_ACTIONS", "yes"), ("CIRCLECI", ""), ("CIRCLE_SHA1", "c1")]);
    let meta = collect_env_metadata(&v, None);
    assert_eq!(meta.ci, Some("circleci".to_string()));
    assert_eq!(entry(&meta.entries, "git_commit"), Some("c1".to_string()));
}

#[test]
fn gitlab_buildkite_jenkins_and_azure_are_collected() {
    let g = collect_env_metadata(
        &vars(&[
            ("GITLAB_CI", "true"),
            ("CI_PROJECT_PATH", "g/p"),
            ("CI_COMMIT_SHA", "s1"),
            ("CI_COMMIT_REF_NAME", "dev"),
            ("CI_PIPELINE_URL", "https://gl/p/1"),
        ]),
        None,
    );
    assert_eq!(g.ci, Some("gitlab_ci".to_string()));
    assert_eq!(entry(&g.entries, "ci_url"), Some("https://gl/p/1".to_string()));
    assert_eq!(entry(&g.entries, "git_ref"), Some("dev".to_string()));

    let b = collect_env_metadata(
        &vars(&[("BUILDKITE", "true"), ("BUILDKITE_COMMIT", "bk"), ("GIT_COMMIT", "mine")]),
        None,
    );
    assert_eq!(b.ci, Some("buildkite".to_string()));
    assert_eq!(entry(&b.entries, "git_commit"), Some("mine".to_string()));
    assert_eq!(entry(&b.entries, "ci_url"), None);

    let j = collect_env_metadata(
        &vars(&[("JENKINS_URL", "https://j"), ("BUILD_URL", "https://j/1"), ("COMPUTERNAME", "pc")]),
        None,
    );
    assert_eq!(j.ci, Some("jenkins".to_string()));
    assert_eq!(entry(&j.entries, "ci_url"), Some("https://j/1".to_string()));
    assert_eq!(entry(&j.entries, "build_url"), Some("https://j/1".to_string()));
    assert_eq!(j.runner, Some("pc".to_string()));

    let a = collect_env_metadata(
        &vars(&[("AZURE_HTTP_USER_AGENT", "x"), ("BUILD_SOURCEBRANCH", "refs/heads/a")]),
        None,
    );
    assert_eq!(a.ci, Some("azure_pipelines".to_string()));
    assert_eq!(entry(&a.entries, "git_ref"), Some("refs/heads/a".to_string()));
}

#[test]
fn no_ci_system_gives_only_the_common_entries() {
    let meta = collect_env_metadata(&vars(&[("GIT_REF", " r ")]), None);
    assert_eq!(meta.ci, None);
    assert_eq!(meta.entries.len(), 1);
    assert_eq!(entry(&meta.entries, "git_ref"), Some("r".to_string()));
}

#[test]
fn terraform_version_prefers_the_variable() {
    let v = vars(&[("VM_TF_VERSION", " 9.9 ")]);
    assert_eq!(
        detect_terraform_version(&v, Some("Terraform v1.0.0")),
        Some("9.9".to_string())
    );
    let none = vars(&[]);
    assert_eq!(
        detect_terraform_version(&none, Some("Terraform v1.0.0")),
        Some("1.0.0".to_string())
    );
    assert_eq!(detect_terraform_version(&none, None), None);
}
