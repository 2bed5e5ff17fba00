use packfix::command::CommandResult;
use packfix::obs_local::{
    api_status_args, build_args, build_result, checkout_args, checkout_log_path,
    checkout_target_dir, osc_api_status, osc_build, osc_checkout, osc_failure, osc_update,
    sanitize_checkout_entry, update_args, EntryFix,
};
use std::path::Path;

#[test]
fn osc_build_flags_include_no_hooks() {
    let args = build_args("x64", "x86_64", "foo.spec", None, None);
    assert!(
        args.contains(&"--noservice".to_string()),
        "missing --noservice"
    );
    assert!(
        args.contains(&"--no-verify".to_string()),
        "missing --no-verify"
    );
}

#[test]
fn osc_build_release_is_zero() {
    let args = build_args("x64", "x86_64", "foo.spec", None, None);
    let idx = args
        .iter()
        .position(|a| a == "--release")
        .expect("missing --release");
    assert_eq!(args.get(idx + 1).map(String::as_str), Some("0"));
}

#[test]
fn osc_build_args_contain_spec() {
    let args = build_args("x64", "x86_64", "foo.spec", None, None);
    assert!(args.contains(&"foo.spec".to_string()));
}

#[test]
fn osc_build_args_with_root() {
    let args = build_args(
        "x64",
        "x86_64",
        "foo.spec",
        None,
        Some("/var/tmp/build-root/packfix-1-x64-x86_64"),
    );
    let root_idx = args
        .iter()
        .position(|a| a == "--root")
        .expect("missing --root");
    assert_eq!(
        args.get(root_idx + 1).map(String::as_str),
        Some("/var/tmp/build-root/packfix-1-x64-x86_64")
    );
}

#[test]
fn osc_build_args_with_root_and_project() {
    let args = build_args(
        "x64",
        "x86_64",
        "foo.spec",
        Some("home:test"),
        Some("/var/tmp/build-root/packfix-2-x64-x86_64"),
    );
    assert!(args.contains(&"--alternative-project".to_string()));
    assert!(args.contains(&"home:test".to_string()));
    let root_idx = args
        .iter()
        .position(|a| a == "--root")
        .expect("missing --root");
    assert_eq!(
        args.get(root_idx + 1).map(String::as_str),
        Some("/var/tmp/build-root/packfix-2-x64-x86_64")
    );
}

#[test]
fn osc_build_args_without_root_does_not_contain_root_flag() {
    let args = build_args("x64", "x86_64", "foo.spec", None, None);
    assert!(!args.contains(&"--root".to_string()));
}

#[test]
fn root_flag_comes_before_positional_args() {
    let args = build_args(
        "x64",
        "x86_64",
        "foo.spec",
        None,
        Some("/tmp/r"),
    );
    let root_idx = args
        .iter()
        .position(|a| a == "--root")
        .expect("missing --root");
    let repo_idx = args.iter().position(|a| a == "x64").expect("missing repo");
    assert!(
        root_idx < repo_idx,
        "--root (at {root_idx}) must appear before repository positional (at {repo_idx})"
    );
}

#[test]
fn root_flag_absent_when_not_in_pool() {
    // Double-check: the "build" subcommand and args always present.
    let args = build_args("x64", "x86_64", "x.spec", None, None);
    assert_eq!(args[0], "build");
    assert!(args.contains(&"--noservice".to_string()));
    assert!(!args.contains(&"--root".to_string()));
}

#[test]
fn root_flag_present_when_pool_configured() {
    let args = build_args(
        "x64",
        "x86_64",
        "x.spec",
        None,
        Some("/var/tmp/build-root/packfix-1-x64-x86_64"),
    );
    assert!(args.contains(&"--root".to_string()));
    assert!(
        args.contains(&"/var/tmp/build-root/packfix-1-x64-x86_64".to_string()),
        "root path must be in args"
    );
}

#[test]
fn osc_checkout_args_with_package() {
    let args = checkout_args("home:test:proj", Some("python-foo"));
    assert_eq!(args[0], "checkout");
    assert_eq!(args[1], "home:test:proj/python-foo");
    assert_eq!(args.len(), 2);
}

#[test]
fn osc_checkout_args_project_only() {
    let args = checkout_args("home:test:proj", None);
    assert_eq!(args[1], "home:test:proj");
}

#[test]
fn osc_checkout_log_path_includes_package() {
    let root = "/tmp/checkouts";
    let path = checkout_log_path(root, "home:test:proj", Some("python-fonttools"));
    assert_eq!(
        Path::new(&path),
        Path::new(root).join("logs").join("osc_checkout_python-fonttools.log")
    );
}

#[test]
fn osc_checkout_args_do_not_confuse_cwd_and_target() {
    let args = checkout_args("home:test:proj", Some("python-fonttools"));
    assert_eq!(
        args,
        vec![
            "checkout".to_string(),
            "home:test:proj/python-fonttools".to_string()
        ]
    );
}

#[test]
fn checkout_root_semantics_documented_by_test() {
    let root = "/tmp/checkouts";
    assert_eq!(
        Path::new(&checkout_target_dir(root, "home:test:proj", Some("python-fonttools"))),
        Path::new(root).join("home:test:proj").join("python-fonttools")
    );
    assert_eq!(
        Path::new(&checkout_target_dir(root, "home:test:proj", None)),
        Path::new(root).join("home:test:proj")
    );
}

#[test]
fn osc_update_args() {
    let args = update_args();
    assert_eq!(args, vec!["up", "-S"]);
}

#[test]
fn osc_api_status_args() {
    let args = api_status_args("home:test:proj", "python-foo", "x64", "x86_64");
    assert_eq!(args[0], "api");
    assert_eq!(
        args[1],
        "/build/home:test:proj/x64/x86_64/python-foo/_status"
    );
}

#[test]
fn osc_commands_name_their_logs_and_limits() {
    let build = osc_build("/w", "/w/a.spec", "x64", "x86_64", None, "osc", 7, None);
    assert_eq!(build.log_path, "/w/logs/build_attempt_007.log");
    assert_eq!(build.timeout, 3600);
    assert_eq!(build.cwd.as_deref(), Some("/w"));
    let checkout = osc_checkout("p", None, None, "osc");
    assert_eq!(checkout.cwd.as_deref(), Some("."));
    assert_eq!(checkout.log_path, "./logs/osc_checkout_p.log");
    let update = osc_update("/w", "/usr/bin/osc");
    assert_eq!(update.program, "/usr/bin/osc");
    assert_eq!(update.log_path, "/w/logs/osc_update.log");
    let status = osc_api_status("p", "k", "x64", "x86_64", "osc", Some(123));
    assert_eq!(status.log_path, "./logs/osc_status_k_0000000000000123.log");
    assert_eq!(status.timeout, 60);
    let wide = osc_api_status("p", "k", "x64", "x86_64", "osc", Some(1_700_000_000_000_000_001));
    assert_eq!(wide.log_path, "./logs/osc_status_k_1700000000000000001.log");
    let unknown = osc_api_status("p", "k", "x64", "x86_64", "osc", None);
    assert_eq!(unknown.log_path, "./logs/osc_status_k.log");
}

#[test]
fn checkout_entries_lose_their_marks_once() {
    assert_eq!(sanitize_checkout_entry("_service"), EntryFix::Remove);
    assert_eq!(sanitize_checkout_entry("a.spec"), EntryFix::Keep);
    assert_eq!(
        sanitize_checkout_entry("_service:obs_scm:a.spec"),
        EntryFix::Rename("a.spec".to_string())
    );
    assert_eq!(sanitize_checkout_entry("x:"), EntryFix::Rename(String::new()));
}

#[test]
fn osc_results_and_failures() {
    let result = CommandResult {
        stdout: "o".into(),
        stderr: "e".into(),
        returncode: 3,
        log_path: "l".into(),
    };
    let r = build_result(result);
    assert!(!r.success);
    assert_eq!(r.returncode, 3);
    assert_eq!(osc_failure("checkout", -1, "gone"), "checkout failed (rc=-1): gone");
}
