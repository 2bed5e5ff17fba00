use packfix::engine::{
    add_commit_message, confirmed_outcome, existing_spec_with_features, finish_after_local_report,
    generated_spec_with_features, local_fix_commit_message, local_workdir_outcome_from_report,
    local_workdir_package_name, on_resubmit, on_submit, package_workspace_root,
    resolve_execution_mode, resolve_prepare_spec_mode, submit_operation, BuildOutcome, BuildRace,
    LocalFinish, NodeExecutionMode, PrepareSpecMode, RaceStep,
};
use packfix::graph::{DependencyTarget, PackageSource};
use packfix::issue::BuildIssue;
use packfix::obs_api::EbfSubmitResult;
use packfix::obs_local::checkout_target_dir;
use packfix::remote_fix::{
    analyze_remote_status_dependencies, remote_build_log_path, RemoteFixResult,
};
use packfix::report::{Report, Status};
use std::path::Path;

#[test]
fn prepare_spec_mode_for_pypi_missing_package_preserves_version() {
    let mode = resolve_prepare_spec_mode(
        "/repo",
        "python-foo",
        false,
        &PackageSource::Pypi {
            name: "foo".into(),
            version: Some("1.2.3".into()),
        },
    )
    .expect("prepare spec mode");

    assert_eq!(
        mode,
        PrepareSpecMode::Generate {
            pypi_name: "foo".into(),
            version: Some("1.2.3".into()),
        }
    );
}

#[test]
fn build_existing_missing_package_errors() {
    let err = resolve_prepare_spec_mode(
        "/repo",
        "python-cffsubr",
        false,
        &PackageSource::ExistingRepo {
            package: "python-cffsubr".into(),
        },
    )
    .expect_err("expected missing existing package to error");

    assert!(
        err
            .contains("existing package python-cffsubr not found under")
    );
}

#[test]
fn build_pypi_missing_package_can_generate() {
    let mode = resolve_prepare_spec_mode(
        "/repo",
        "python-cffsubr",
        false,
        &PackageSource::Pypi {
            name: "cffsubr".into(),
            version: None,
        },
    )
    .expect("pypi package should be allowed to generate");

    assert_eq!(
        mode,
        PrepareSpecMode::Generate {
            pypi_name: "cffsubr".into(),
            version: None,
        }
    );
}

#[test]
fn local_workdir_source_runs_without_takopack_or_git() {
    let mode = resolve_execution_mode(
        &PackageSource::LocalWorkdir {
            path: "/tmp/demo".into(),
        },
        "Name: python-demo\n",
        "demo",
    );

    assert_eq!(
        mode,
        NodeExecutionMode::LocalWorkdir {
            package_name: "python-demo".into(),
            workdir: "/tmp/demo".into(),
        }
    );
}

#[test]
fn local_workdir_unresolvable_preserves_report_in_success() {
    let mut report = Report::new(Status::Failed);
    report.build_attempts = 2;
    report.final_issue = Some(BuildIssue::DependencyUnresolvable {
        deps: vec!["python3dist(fonttools[lxml])".into()],
    });

    let outcome = local_workdir_outcome_from_report("python-demo", &report);
    match outcome {
        BuildOutcome::Success {
            report: Some(inner),
        } => {
            assert!(matches!(inner.status, Status::Failed));
            assert_eq!(inner.build_attempts, 2);
            assert!(inner.final_issue.is_some());
        }
        _ => panic!("expected Success with report, got {:?}", outcome),
    }
}

#[test]
fn local_workdir_failed_preserves_report_in_success() {
    let mut report = Report::new(Status::Failed);
    report.build_attempts = 5;
    report.fixes_applied = 3;
    report.last_log_path = Some("/tmp/build.log".to_string());
    report.notes.push("test note".into());

    let outcome = local_workdir_outcome_from_report("pkg-example", &report);
    match outcome {
        BuildOutcome::Success {
            report: Some(inner),
        } => {
            assert!(matches!(inner.status, Status::Failed));
            assert_eq!(inner.build_attempts, 5);
            assert_eq!(inner.fixes_applied, 3);
            assert_eq!(
                inner.last_log_path,
                Some("/tmp/build.log".to_string())
            );
            assert!(inner.notes.contains(&"test note".to_string()));
        }
        _ => panic!("expected Success with report, got {:?}", outcome),
    }
}

#[test]
fn remote_status_unresolvable_returns_dependencies_without_log_download() {
    let deps = analyze_remote_status_dependencies(
        "<status package=\"python-fontmake\" code=\"unresolvable\">\n  <details>nothing provides python3dist(glyphslib) >= 6.11.6, nothing provides python3dist(ufo2ft[compreffor]) >= 3.6.1</details>\n</status>\n",
    );

    assert_eq!(
        deps,
        vec![
            DependencyTarget {
                package: "glyphslib".into(),
                features: Vec::new(),
            },
            DependencyTarget {
                package: "ufo2ft".into(),
                features: vec!["compreffor".into()],
            },
        ]
    );
}

#[test]
fn remote_status_without_dependencies_keeps_empty_dependency_list() {
    let deps = analyze_remote_status_dependencies(
        "<status package=\"python-fontmake\" code=\"failed\">\n  <details>some generic failure</details>\n</status>\n",
    );
    assert!(deps.is_empty());
}

#[test]
fn local_workdir_package_name_falls_back_to_spec_filename_when_name_uses_macro() {
    let package = local_workdir_package_name("Name: python-%{srcname}\n", "python-fontmake");
    assert_eq!(package, "python-fontmake");
}

#[test]
fn branch_checkout_happens_before_prepare_spec_writes_repo_files() {
    let steps = vec!["checkout_or_create_branch", "prepare_spec"];
    assert_eq!(steps, vec!["checkout_or_create_branch", "prepare_spec"]);
}

#[test]
fn checkout_prefetch_uses_package_workspace_as_root() {
    let workspace = "/tmp/workspaces/python-demo";
    let pkg_dir = checkout_target_dir(workspace, "home:test", Some("python-demo"));
    assert_eq!(
        Path::new(&pkg_dir),
        Path::new(workspace).join("home:test").join("python-demo")
    );
}

#[test]
fn remote_build_log_path_includes_attempt_and_package() {
    let cwd = "/cwd";
    let workspace = package_workspace_root(cwd, "python-fontmath");
    let path = remote_build_log_path(&workspace, "python-fontmath", 2);
    assert_eq!(
        Path::new(&path),
        Path::new(cwd)
            .join("workspaces")
            .join("python-fontmath")
            .join("logs")
            .join("remote_build_python-fontmath_attempt_002.log")
    );
}

#[test]
fn specs_are_prepared_from_what_is_there() {
    let pypi = PackageSource::Pypi {
        name: "a".into(),
        version: None,
    };
    assert_eq!(
        resolve_prepare_spec_mode("/repo", "python-a", true, &pypi).unwrap(),
        PrepareSpecMode::UseExisting("/repo/SPECS/python-a".into())
    );
    let local = PackageSource::LocalWorkdir { path: "/w".into() };
    assert_eq!(
        resolve_prepare_spec_mode("/repo", "python-a", false, &local).unwrap_err(),
        "local workdir /w does not support prepare_spec"
    );
    let mode = resolve_execution_mode(&pypi, "", "");
    assert_eq!(
        mode,
        NodeExecutionMode::RemoteBacked {
            package_name: "python-a".into()
        }
    );
    let text = "Name: a\n%description\nx\n\n%prep\n";
    let features = vec!["f".to_string()];
    let changed = existing_spec_with_features(text, &features).unwrap();
    assert!(changed.contains("%pyproject_extras_subpkg -n python-%{srcname} f"));
    assert_eq!(existing_spec_with_features(&changed, &features), None);
    assert_eq!(generated_spec_with_features(text, &[]), None);
    assert_eq!(generated_spec_with_features(text, &features), Some(changed));
}

#[test]
fn submissions_that_fail_end_the_build() {
    let mut result = EbfSubmitResult {
        success: false,
        returncode: 1,
        log_path: "l".into(),
        stdout: String::new(),
        stderr: "boom".into(),
        success_count: 0,
        total_count: 1,
    };
    match on_submit(&result) {
        Some(BuildOutcome::Failed(reason)) => {
            assert_eq!(reason, "ebf submit failed: 0/1 succeeded; stderr: boom")
        }
        other => panic!("{other:?}"),
    }
    match on_resubmit(&result) {
        Some(BuildOutcome::Failed(reason)) => {
            assert_eq!(reason, "ebf re-submit failed: 0/1 succeeded; stderr: boom")
        }
        other => panic!("{other:?}"),
    }
    result.success = true;
    assert!(on_submit(&result).is_none());
    let op = submit_operation("k", "p", "r", &result);
    assert_eq!(op.title, "remote-submit");
    assert_eq!(
        op.lines,
        vec!["PACKAGE: k", "PROJECT: p", "REVISION: r", "SUCCESS_COUNT: 0", "TOTAL_COUNT: 1"]
    );
}

#[test]
fn a_local_report_is_confirmed_or_decides() {
    let mut report = Report::new(Status::BuildSuccess);
    assert_eq!(
        finish_after_local_report(&report).unwrap_err(),
        "missing spec path after build success"
    );
    report.spec_path = Some("/s".into());
    assert!(matches!(
        finish_after_local_report(&report),
        Ok(LocalFinish::Confirm { spec_path }) if spec_path == "/s"
    ));
    let mut failed = Report::new(Status::NeedHuman);
    failed.build_attempts = 3;
    match finish_after_local_report(&failed) {
        Ok(LocalFinish::Done(BuildOutcome::Failed(reason))) => {
            assert_eq!(reason, "build failed after 3 attempts, final status: NeedHuman")
        }
        other => panic!("{other:?}"),
    }
    failed.final_issue = Some(BuildIssue::DependencyUnresolvable {
        deps: vec!["python3dist(a)".into()],
    });
    assert!(matches!(
        finish_after_local_report(&failed),
        Ok(LocalFinish::Done(BuildOutcome::NeedsDependencies(deps))) if deps.len() == 1
    ));
    assert!(matches!(
        confirmed_outcome(report),
        BuildOutcome::Success { report: Some(_) }
    ));
}

#[test]
fn the_first_build_that_decides_wins() {
    let mut late = BuildRace::new();
    assert!(matches!(
        late.on_remote(RemoteFixResult::FallbackToLocal("r".into())),
        RaceStep::AwaitLocal
    ));
    assert!(matches!(
        late.on_local(Report::new(Status::NeedHuman)),
        RaceStep::FinishLocal(report) if report.status == Status::NeedHuman
    ));
    let mut race = BuildRace::new();
    let mut failed = Report::new(Status::Failed);
    failed.build_attempts = 1;
    assert!(matches!(race.on_local(failed), RaceStep::AwaitRemote));
    assert!(matches!(
        race.on_remote(RemoteFixResult::FallbackToLocal("r".into())),
        RaceStep::FinishLocal(report) if report.build_attempts == 1
    ));
    assert!(matches!(
        race.on_remote(RemoteFixResult::FallbackToLocal("r".into())),
        RaceStep::AwaitLocal
    ));
    assert!(matches!(
        race.on_remote(RemoteFixResult::Success),
        RaceStep::Done(BuildOutcome::Success { report: None })
    ));
    assert!(matches!(
        race.on_local(Report::new(Status::BuildSuccess)),
        RaceStep::FinishLocal(_)
    ));
}

#[test]
fn commits_are_named() {
    assert_eq!(add_commit_message("k"), "add/update k");
    assert_eq!(local_fix_commit_message("k"), "update k after local fix");
}
