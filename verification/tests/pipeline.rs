use packfix::engine::BuildOutcome;
use packfix::graph::{DependencyTarget, PackageSource};
use packfix::obs_api::EbfSubmitResult;
use packfix::pipeline::{
    build_existing_python_packages, build_existing_scheduler_request, build_fix_scheduler_request,
    build_python_packages, build_requests, build_scheduler_request, classify_remote_build_status,
    default_multi_build_revision, ensure_checkout, ensure_ebf_success, ensure_pythonhosted_source,
    ensure_update, existing_package_dir, fix_local_workdirs_with_dependencies, global_macro_value,
    infer_local_workdir_package_name, infer_update_pypi_name, is_source_checkout_ready,
    node_results_to_report, node_results_to_reports, on_build_status, on_checkout_status,
    poll_delay_secs, stage_generated_package_dir, start_update, takopack_output_root,
    update_branch_name, update_commit_message, update_spec, BuildPythonPackageRequest,
    RemoteBuildState,
};
use packfix::report::{Report, Status};
use packfix::scheduler::{BuildRequest, NodeResult};
use packfix::versions::{
    compare_python_versions, is_newer_python_version, version_tokens, VersionToken,
};
use std::cmp::Ordering;

#[test]
fn build_request_uses_rpm_key_but_pypi_source_name() {
    let request = BuildPythonPackageRequest {
        pypi_name: "foo".into(),
        version: Some("1.2.3".into()),
        obs_project: None,
        revision: None,
        feature_declarations: vec!["lxml".into()],
    };

    let root = build_scheduler_request(&request);
    assert_eq!(root.package, "python-foo");
    assert_eq!(root.features, vec!["lxml"]);
    assert_eq!(
        root.source,
        PackageSource::Pypi {
            name: "foo".into(),
            version: Some("1.2.3".into())
        }
    );
}

#[test]
fn build_existing_normalizes_plain_name_to_rpm_name() {
    let root = build_existing_scheduler_request("cffsubr");
    assert_eq!(root.package, "python-cffsubr");
    assert_eq!(
        root.source,
        PackageSource::ExistingRepo {
            package: "python-cffsubr".into()
        }
    );
}

#[test]
fn fix_command_build_request_uses_local_workdir_source() {
    let request = build_fix_scheduler_request("/tmp/demo", "Name: python-demo\n", "demo");
    assert_eq!(request.package, "python-demo");
    assert_eq!(
        request.source,
        PackageSource::LocalWorkdir {
            path: "/tmp/demo".into()
        }
    );
}

#[test]
fn ensure_ebf_success_returns_err_on_failure() {
    let result = EbfSubmitResult {
        success: false,
        returncode: 1,
        log_path: "logs/test.log".into(),
        stdout: String::new(),
        stderr: "boom".into(),
        success_count: 0,
        total_count: 2,
    };
    let err = ensure_ebf_success(&result).expect_err("expected ebf failure");
    assert!(err.to_string().contains("0/2"));
    assert!(err.to_string().contains("boom"));
}

#[test]
fn source_checkout_ready_keeps_current_semantics() {
    assert!(!is_source_checkout_ready("blocked"));
    assert!(!is_source_checkout_ready("broken"));
    assert!(is_source_checkout_ready("building"));
    assert!(is_source_checkout_ready("succeeded"));
    assert!(is_source_checkout_ready("finished"));
    assert!(is_source_checkout_ready("  building  "));
    assert!(!is_source_checkout_ready(""));
}

#[test]
fn poll_delay_schedule_is_0_5_10_15_20() {
    assert_eq!(poll_delay_secs(1), 0);
    assert_eq!(poll_delay_secs(2), 5);
    assert_eq!(poll_delay_secs(3), 10);
    assert_eq!(poll_delay_secs(4), 15);
    assert_eq!(poll_delay_secs(5), 20);
    assert_eq!(poll_delay_secs(6), 20);
}

#[test]
fn classify_status_succeeded() {
    assert_eq!(
        classify_remote_build_status("succeeded"),
        RemoteBuildState::Succeeded
    );
}

#[test]
fn classify_status_succeeded_with_extra_text() {
    assert_eq!(
        classify_remote_build_status("succeeded\nmore text"),
        RemoteBuildState::Succeeded
    );
}

#[test]
fn classify_status_failed() {
    assert_eq!(
        classify_remote_build_status("failed"),
        RemoteBuildState::Failed {
            headline: "failed".into()
        }
    );
}

#[test]
fn classify_status_broken() {
    assert_eq!(
        classify_remote_build_status("broken: dependency issue"),
        RemoteBuildState::Failed {
            headline: "broken: dependency issue".into()
        }
    );
}

#[test]
fn classify_status_unresolvable() {
    assert_eq!(
        classify_remote_build_status("unresolvable: nothing provides foo"),
        RemoteBuildState::Failed {
            headline: "unresolvable: nothing provides foo".into()
        }
    );
}

#[test]
fn classify_status_failed_takes_priority_over_succeeded() {
    // Multi-line output where one line says succeeded and another says failed
    assert_eq!(
        classify_remote_build_status("succeeded\nfailed"),
        RemoteBuildState::Failed {
            headline: "succeeded".into()
        }
    );
}

#[test]
fn classify_status_broken_takes_priority_over_succeeded() {
    assert_eq!(
        classify_remote_build_status("foo succeeded\nbar broken"),
        RemoteBuildState::Failed {
            headline: "foo succeeded".into()
        }
    );
}

#[test]
fn classify_status_building_is_pending() {
    assert_eq!(
        classify_remote_build_status("building"),
        RemoteBuildState::Pending {
            headline: "building".into()
        }
    );
}

#[test]
fn classify_status_scheduled_is_pending() {
    assert_eq!(
        classify_remote_build_status("scheduled"),
        RemoteBuildState::Pending {
            headline: "scheduled".into()
        }
    );
}

#[test]
fn classify_status_running_is_pending() {
    assert_eq!(
        classify_remote_build_status("running"),
        RemoteBuildState::Pending {
            headline: "running".into()
        }
    );
}

#[test]
fn classify_status_disabled_is_failed() {
    assert_eq!(
        classify_remote_build_status("disabled"),
        RemoteBuildState::Failed {
            headline: "disabled".into()
        }
    );
}

#[test]
fn classify_status_excluded_is_failed() {
    assert_eq!(
        classify_remote_build_status("excluded"),
        RemoteBuildState::Failed {
            headline: "excluded".into()
        }
    );
}

#[test]
fn classify_status_empty_is_pending() {
    assert_eq!(
        classify_remote_build_status(""),
        RemoteBuildState::Pending {
            headline: "unknown".into()
        }
    );
}

#[test]
fn classify_status_unknown_output_is_pending() {
    assert_eq!(
        classify_remote_build_status("some random text"),
        RemoteBuildState::Pending {
            headline: "some random text".into()
        }
    );
}

#[test]
fn node_results_to_report_finds_pypi_root_result() {
    let report = node_results_to_report(
        "fonttools",
        &[
            NodeResult {
                package: "python-fonttools".into(),
                outcome: BuildOutcome::Success { report: None },
            },
            NodeResult {
                package: "python-lxml".into(),
                outcome: BuildOutcome::Success { report: None },
            },
        ],
        "/cwd",
    )
    .expect("report");

    assert_eq!(report.package_name.as_deref(), Some("python-fonttools"));
    assert!(matches!(report.status, Status::BuildSuccess));
}

#[test]
fn multi_root_reports_skip_other_roots_in_dependency_notes() {
    let reports = node_results_to_reports(
        &["fonttools".into(), "ufolib2".into()],
        &[
            NodeResult {
                package: "python-fonttools".into(),
                outcome: BuildOutcome::Success { report: None },
            },
            NodeResult {
                package: "python-ufolib2".into(),
                outcome: BuildOutcome::Success { report: None },
            },
            NodeResult {
                package: "python-lxml".into(),
                outcome: BuildOutcome::Success { report: None },
            },
        ],
        "/cwd",
    )
    .expect("reports");

    assert_eq!(reports.len(), 2);
    assert!(
        reports[0]
            .notes
            .iter()
            .all(|note| !note.contains("python-ufolib2"))
    );
    assert!(
        reports[1]
            .notes
            .iter()
            .all(|note| !note.contains("python-fonttools"))
    );
}

#[test]
fn update_branch_name_uses_package_prefix() {
    assert_eq!(
        update_branch_name("python-authlib"),
        "update_python-authlib"
    );
}

#[test]
fn update_commit_message_reflects_version_change() {
    assert_eq!(
        update_commit_message("python-authlib", true),
        "SPECS: python-authlib: Update version and format spec."
    );
    assert_eq!(
        update_commit_message("python-authlib", false),
        "SPECS: python-authlib: Format spec."
    );
}

#[test]
fn infer_update_pypi_name_prefers_pypi_name_macro() {
    let spec_text = "%global pypi_name nvidia_ml_py\n%global srcname nvidia-ml-py\n";
    assert_eq!(
        infer_update_pypi_name(spec_text, "python-nvidia-ml-py"),
        "nvidia_ml_py"
    );
}

#[test]
fn ensure_pythonhosted_source_accepts_source_without_index_suffix() {
    let spec_text = "Source:         https://files.pythonhosted.org/packages/source/a/authlib/authlib-1.0.tar.gz\n";
    ensure_pythonhosted_source(spec_text, "python-authlib").expect("pythonhosted source");
}

#[test]
fn compare_python_versions_detects_newer_release() {
    assert!(is_newer_python_version("1.7.0", "1.6.9"));
    assert!(!is_newer_python_version("1.7.0", "1.7.0"));
    assert!(!is_newer_python_version("1.6.9", "1.7.0"));
}

#[test]
fn default_multi_build_revision_has_batch_prefix() {
    assert!(default_multi_build_revision(1_700_000_000).starts_with("build-batch-"));
}

#[test]
fn build_existing_scheduler_requests_normalize_multiple_packages() {
    let reqs: Vec<BuildRequest> = ["cffsubr", "arrow"]
        .iter()
        .map(|p| build_existing_scheduler_request(p))
        .collect();

    assert_eq!(reqs.len(), 2);
    assert_eq!(reqs[0].package, "python-cffsubr");
    assert_eq!(
        reqs[0].source,
        PackageSource::ExistingRepo {
            package: "python-cffsubr".into()
        }
    );
    assert_eq!(reqs[1].package, "python-arrow");
    assert_eq!(
        reqs[1].source,
        PackageSource::ExistingRepo {
            package: "python-arrow".into()
        }
    );
}

#[test]
fn fix_scheduler_requests_for_multiple_workdirs() {
    let dirs = [
        ("/tmp/one", "Name: python-demo\n", "demo"),
        ("/tmp/two", "Name: python-example\n", "example"),
    ];
    let reqs: Vec<BuildRequest> = dirs
        .iter()
        .map(|(dir, spec_text, stem)| build_fix_scheduler_request(dir, spec_text, stem))
        .collect();

    assert_eq!(reqs.len(), 2);
    assert_eq!(reqs[0].package, "python-demo");
    assert!(matches!(reqs[0].source, PackageSource::LocalWorkdir { .. }));
    assert_eq!(reqs[1].package, "python-example");
    assert!(matches!(reqs[1].source, PackageSource::LocalWorkdir { .. }));
}

#[test]
fn node_results_to_reports_maps_each_root_to_its_own_report() {
    let reports = node_results_to_reports(
        &["fonttools".to_string(), "lxml".to_string()],
        &[
            NodeResult {
                package: "python-fonttools".into(),
                outcome: BuildOutcome::Success { report: None },
            },
            NodeResult {
                package: "python-lxml".into(),
                outcome: BuildOutcome::Failed("oops".into()),
            },
        ],
        "/cwd",
    )
    .expect("reports");

    assert_eq!(reports.len(), 2);
    assert!(matches!(reports[0].status, Status::BuildSuccess));
    assert!(matches!(reports[1].status, Status::Failed));
}

#[test]
fn node_results_missing_root_produces_error() {
    let err = node_results_to_reports(
        &["fonttools".to_string(), "nonexistent".to_string()],
        &[NodeResult {
            package: "python-fonttools".into(),
            outcome: BuildOutcome::Success { report: None },
        }],
        "/cwd",
    )
    .expect_err("missing root should error");

    assert!(
        err.to_string().contains("root node result not found"),
        "expected 'root node result not found' error, got: {err}"
    );
}

#[test]
fn stage_generated_creates_target_when_absent() {
    let staged = stage_generated_package_dir("/repo", "python-mypkg", false, false).unwrap();
    assert_eq!(staged, "/repo/SPECS/python-mypkg");
}

#[test]
fn stage_generated_succeeds_when_target_is_empty() {
    let staged = stage_generated_package_dir("/repo", "python-mypkg", true, true).unwrap();
    assert_eq!(staged, "/repo/SPECS/python-mypkg");
}

#[test]
fn stage_generated_errors_when_target_is_nonempty() {
    let msg = stage_generated_package_dir("/repo", "python-mypkg", true, false).unwrap_err();
    assert!(msg.contains("refusing to overwrite"), "got: {msg}");
    assert!(
        msg.contains("python-mypkg"),
        "error must include path, got: {msg}"
    );
}

#[test]
fn build_requests_need_a_name_and_one_name_for_a_version() {
    let names: Vec<String> = vec!["a".into(), "b".into()];
    let version = Some("1.0".to_string());
    assert_eq!(
        build_requests(&[], &None, &None, &None).unwrap_err(),
        "at least one package name is required"
    );
    assert_eq!(
        build_requests(&names, &version, &None, &None).unwrap_err(),
        "--version only supports a single package build"
    );
    let one = build_requests(&names[..1], &version, &None, &None).unwrap();
    assert_eq!(one[0].version.as_deref(), Some("1.0"));
    let two = build_requests(&names, &None, &Some("p".into()), &Some("r".into())).unwrap();
    assert_eq!(two[1].pypi_name, "b");
    assert_eq!(two[1].obs_project.as_deref(), Some("p"));
    assert_eq!(two[1].revision.as_deref(), Some("r"));
}

#[test]
fn plans_choose_project_and_revision() {
    let names: Vec<String> = vec!["a".into(), "b".into()];
    let requests = build_requests(&names, &None, &None, &None).unwrap();
    assert_eq!(
        build_python_packages(&[], &None, None, 5).unwrap_err(),
        "at least one build request is required"
    );
    let one = build_python_packages(&requests[..1], &None, None, 5).unwrap();
    assert_eq!(one.revision, "a");
    assert_eq!(one.project, "home:yyjeqhc:new_ruyios");
    let both = build_python_packages(&requests, &Some("cli".into()), None, 5).unwrap();
    assert_eq!(both.revision, "build-batch-5");
    assert_eq!(both.project, "cli");
    assert_eq!(both.root_inputs, names);

    let existing = build_existing_python_packages(&names[..1], &None, &None, &None, None, 7);
    assert_eq!(existing.revision, "rebuild-python-a-7");
    let given = build_existing_python_packages(
        &names,
        &Some("obs".into()),
        &Some("rev".into()),
        &Some("cli".into()),
        None,
        7,
    );
    assert_eq!(given.revision, "rev");
    assert_eq!(given.project, "obs");
    let batch = build_existing_python_packages(&names, &None, &None, &None, None, 7);
    assert_eq!(batch.revision, "build-batch-7");

    let root = build_fix_scheduler_request("/w", "Name: x\n", "y");
    let fix = fix_local_workdirs_with_dependencies(vec![root], &None, None, 9);
    assert_eq!(fix.revision, "rebuild-python-x-9");
    assert_eq!(fix.root_inputs, vec!["python-x"]);
}

#[test]
fn workdir_package_falls_back_to_the_file_name() {
    assert_eq!(infer_local_workdir_package_name("Version: 1\n", "foo"), "python-foo");
    assert_eq!(infer_local_workdir_package_name("Name: bar\n", "foo"), "python-bar");
}

#[test]
fn versions_compare_part_by_part() {
    assert_eq!(compare_python_versions("1.0", "1"), Ordering::Equal);
    assert_eq!(compare_python_versions("1.10", "1.9"), Ordering::Greater);
    assert_eq!(compare_python_versions("1.0rc1", "1.0"), Ordering::Greater);
    assert_eq!(compare_python_versions("1.0a", "1.0.1"), Ordering::Less);
    assert_eq!(compare_python_versions("1.0RC", "1.0rc"), Ordering::Equal);
    assert_eq!(
        compare_python_versions("18446744073709551615", "18446744073709551616"),
        Ordering::Greater
    );
    for (a, b) in [("1.2", "1.3"), ("1a", "1b"), ("2", "2.0.0"), ("x", "1")] {
        assert_eq!(
            compare_python_versions(a, b),
            compare_python_versions(b, a).reverse()
        );
        assert_eq!(compare_python_versions(a, a), Ordering::Equal);
    }
    assert_eq!(
        version_tokens("1.0-Rc2"),
        vec![
            VersionToken::Number(1),
            VersionToken::Number(0),
            VersionToken::Text("rc".into()),
            VersionToken::Number(2),
        ]
    );
    assert!(VersionToken::Number(0).is_zero_like());
}

#[test]
fn update_starts_from_a_hosted_spec_with_a_version() {
    let hosted = "Source0: https://files.pythonhosted.org/x\nVersion: 1.0\n%global srcname Foo\n";
    let start = start_update(hosted, "python-foo").unwrap();
    assert_eq!(start.pypi_name, "Foo");
    assert_eq!(start.current_version, "1.0");
    assert_eq!(
        start_update("Source: files.pythonhosted.org\n", "p").unwrap_err(),
        "existing spec is missing Version tag"
    );
    assert_eq!(
        start_update("Version: 1\n", "p").unwrap_err(),
        "package p is not sourced from files.pythonhosted.org; update only supports PyPI source packages"
    );
    assert_eq!(global_macro_value("%global a  %{b}\n%global a c \n", "a").as_deref(), Some("c"));
    assert_eq!(infer_update_pypi_name("", "python-foo"), "foo");
}

#[test]
fn update_brings_version_and_form() {
    let before = "Name: foo\nVersion:        1.0\nSource0:        x\nBuildSystem:    pyproject\n%changelog\n%{?autochangelog}\n";
    let reference = "Version: 1.1\n#!RemoteAsset:  sha256:abc\n";
    let updated = update_spec(before, "1.0", reference, "python-foo").unwrap();
    assert!(updated.changed);
    assert!(updated.text.contains("Version:        1.1\n"));
    assert!(updated.text.contains("#!RemoteAsset:  sha256:abc\nSource0:"));
    assert!(updated.text.contains("BuildArch:      noarch"));
    assert!(updated.text.contains("%changelog\n%autochangelog\n"));
    assert_eq!(
        updated.commit_message,
        "SPECS: python-foo: Update version and format spec."
    );
    let same = update_spec(before, "2.0", reference, "python-foo").unwrap();
    assert!(same.text.contains("Version:        1.0\n"));
    assert_eq!(same.commit_message, "SPECS: python-foo: Format spec.");
    assert_eq!(
        update_spec(before, "1", "#!RemoteAsset\n", "p").unwrap_err(),
        "generated reference spec is missing Version tag"
    );
    assert_eq!(
        update_spec(before, "1", "Version: 2\n", "p").unwrap_err(),
        "generated reference spec is missing #!RemoteAsset line"
    );
}

#[test]
fn package_directories() {
    assert_eq!(
        existing_package_dir("/repo", "k", true).unwrap(),
        "/repo/SPECS/k"
    );
    assert_eq!(
        existing_package_dir("/repo", "k", false).unwrap_err(),
        "package k not found under /repo/SPECS"
    );
    assert_eq!(takopack_output_root("/cwd", "k"), "/cwd/workspaces/takopack/k");
}

#[test]
fn polls_end_after_thirty() {
    assert_eq!(on_checkout_status(1, "p", "k", Some("finished")), Ok(true));
    assert_eq!(on_checkout_status(29, "p", "k", None), Ok(false));
    assert_eq!(
        on_checkout_status(30, "p", "k", Some("blocked")),
        Err("timed out waiting for OBS source checkout readiness for p/k".to_string())
    );
    assert_eq!(on_build_status(3, Some("succeeded")), Ok(true));
    assert_eq!(on_build_status(3, Some("building")), Ok(false));
    assert_eq!(
        on_build_status(3, Some("failed\nx")),
        Err("remote build failed: failed".to_string())
    );
    assert_eq!(
        on_build_status(30, None),
        Err("timed out waiting for remote build success".to_string())
    );
}

#[test]
fn checkouts_and_updates_must_succeed() {
    assert!(ensure_checkout("p", "k", true, 0, "").is_ok());
    assert_eq!(
        ensure_checkout("p", "k", false, 2, "no").unwrap_err(),
        "osc checkout failed for p/k (rc=2): no"
    );
    assert!(ensure_update("/d", true, 0, "").is_ok());
    assert_eq!(
        ensure_update("/d", false, -1, "no").unwrap_err(),
        "osc update failed for /d (rc=-1): no"
    );
}

#[test]
fn reports_note_roots_and_dependencies() {
    let mut inner = Report::new(Status::BuildSuccess);
    inner.build_attempts = 2;
    inner.fixes_applied = 1;
    inner.notes.push("seen".into());
    inner.last_log_path = Some("/l".into());
    let results = [
        NodeResult {
            package: "python-a".into(),
            outcome: BuildOutcome::Success {
                report: Some(Box::new(inner)),
            },
        },
        NodeResult {
            package: "python-b".into(),
            outcome: BuildOutcome::Failed("bad".into()),
        },
        NodeResult {
            package: "python-c".into(),
            outcome: BuildOutcome::NeedsDependencies(vec![DependencyTarget {
                package: "d".into(),
                features: vec![],
            }]),
        },
    ];
    let report = node_results_to_report("a", &results, "/cwd").unwrap();
    assert_eq!(
        report.notes,
        vec![
            "seen",
            "local build succeeded after 2 attempts, 1 fixes applied",
            "  dependency python-b: failed (bad)",
            "  dependency python-c: needs-deps",
        ]
    );
    assert_eq!(report.build_attempts, 2);
    assert_eq!(report.last_log_path.as_deref(), Some("/l"));
    assert_eq!(
        report.operation_log_path.as_deref(),
        Some("/cwd/workspaces/python-a/logs/packfix_operations.log")
    );
    let report = node_results_to_report("c", &results, "/cwd").unwrap();
    assert_eq!(report.notes[0], "root build needs dependencies: d");
    let report = node_results_to_report("b", &results, "/cwd").unwrap();
    assert_eq!(report.notes[0], "root build failed: bad");
}
