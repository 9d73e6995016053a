use monorepo_agent::config::SubmoduleConfig;
use monorepo_agent::filter::{build_filter_args, build_transfer_args};

fn entry(inc: &[&str], exc: &[&str]) -> SubmoduleConfig {
    SubmoduleConfig {
        name: "api".to_string(),
        path: "packages/api".to_string(),
        include_rules: inc.iter().map(|s| s.to_string()).collect(),
        exclude_rules: exc.iter().map(|s| s.to_string()).collect(),
    }
}

#[test]
fn filter_rules_keep_their_order() {
    let e = entry(&["z/***", "a/***", "z/***"], &["b", "*"]);
    assert_eq!(
        build_filter_args(&e),
        vec!["--include=z/***", "--include=a/***", "--include=z/***", "--exclude=b", "--exclude=*"]
    );
}

#[test]
fn filter_rules_may_be_empty() {
    assert!(build_filter_args(&entry(&[], &[])).is_empty());
    assert_eq!(build_filter_args(&entry(&[], &["*"])), vec!["--exclude=*"]);
}

#[test]
fn transfer_arguments_in_full() {
    let e = entry(&["lib/***"], &["*"]);
    assert_eq!(
        build_transfer_args(&e, "/w/mono/packages/api", "/w/api"),
        vec![
            "-a",
            "--delete",
            "--times",
            "--no-perms",
            "--no-owner",
            "--no-group",
            "--include=lib/***",
            "--exclude=*",
            "/w/mono/packages/api/",
            "/w/api",
        ]
    );
}
