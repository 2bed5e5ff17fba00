use packfix::cli::{apply_cli_config_defaults, arg_provided, status_option, Cli, Command};
use packfix::config::{BuildConfig, LlmConfig, PackfixConfig};
use packfix::debug::{action_block, action_line, issue_block, issue_line};
use packfix::evidence::{issue_evidence_lines, remote_issue_evidence_lines, MAX_EVIDENCE};
use packfix::issue::{BuildAction, BuildIssue};
use packfix::ops_log::{append_operation, operation_log_path, timestamp};
use packfix::pipeline::RemoteBuildState;
use packfix::remote_fix::{
    remote_status_dependency_lines, wait_for_remote_build_outcome, RemoteFixLoop, RemoteFixResult,
    RemoteStep,
};
use packfix::report::{report_lines, reports_lines, Report, Status};
use packfix::upstream::SourceTree;

#[test]
fn append_operation_creates_log_and_appends_entry() {
    let text = append_operation(
        Some((1, 2)),
        "build-attempt",
        &["ATTEMPT: 1".into(), "STATUS: failed".into()],
    );
    assert!(text.contains("build-attempt"));
    assert!(text.contains("ATTEMPT: 1"));
    assert!(text.contains("STATUS: failed"));
    assert_eq!(text, "== 1.002Z | build-attempt ==\nATTEMPT: 1\nSTATUS: failed\n\n");
    assert_eq!(append_operation(None, "t", &[]), "== before-unix-epoch | t ==\n\n");
    assert_eq!(operation_log_path("/w"), "/w/logs/packfix_operations.log");
    assert_eq!(timestamp(Some((10, 45))), "10.045Z");
}

fn issues() -> Vec<BuildIssue> {
    let words = || vec!["a \"q\"".to_string(), "b\n".to_string()];
    vec![
        BuildIssue::MissingBuildDependencies { deps: vec![] },
        BuildIssue::DependencyUnresolvable { deps: words() },
        BuildIssue::MissingPythonModule {
            module: "m".into(),
            import_context: None,
        },
        BuildIssue::MissingPythonModule {
            module: "m".into(),
            import_context: Some("c".into()),
        },
        BuildIssue::ImportCheckExclusions {
            modules: words(),
            missing_modules: vec![],
            exclusions: words(),
        },
        BuildIssue::EmptyImportCheck,
        BuildIssue::InstalledButUnpackagedFiles { files: words() },
        BuildIssue::ArchDependentInNoarch,
        BuildIssue::MissingPep639LicenseMetadata,
        BuildIssue::InstallModuleMismatch {
            wrong_module: "w".into(),
            suggested_module: "s".into(),
        },
        BuildIssue::PyprojectBackendMissing { deps: words() },
        BuildIssue::CExtensionCompileError {
            important_lines: words(),
        },
        BuildIssue::TestFailure {
            important_lines: words(),
        },
        BuildIssue::PatchApplyError {
            important_lines: words(),
        },
        BuildIssue::Unknown {
            important_lines: words(),
        },
    ]
}

#[test]
fn issues_and_actions_read_like_their_debug_form() {
    for issue in issues() {
        assert_eq!(issue_line(&issue), format!("{issue:?}"));
        assert_eq!(issue_block(&issue), format!("{issue:#?}"));
        let action = BuildAction::NeedHuman {
            reason: "it's".into(),
            issue,
        };
        assert_eq!(action_line(&action), format!("{action:?}"));
        assert_eq!(action_block(&action), format!("{action:#?}"));
    }
    let reason = "r".to_string();
    let list = vec!["x".to_string(), "y".to_string()];
    let actions = [
        BuildAction::AddBuildRequires {
            deps: list.clone(),
            reason: reason.clone(),
        },
        BuildAction::AddBuildOptionCheckExcludes {
            patterns: list.clone(),
            reason: reason.clone(),
        },
        BuildAction::AddEmptyCheckSection {
            comment: "c".into(),
            reason: reason.clone(),
        },
        BuildAction::FixBuildOptionInstall {
            arg: "-L".into(),
            reason: reason.clone(),
        },
        BuildAction::AppendFilesEntries {
            files: list,
            reason: reason.clone(),
        },
        BuildAction::RemoveNoarch {
            reason: reason.clone(),
        },
        BuildAction::NoOp { reason },
    ];
    for action in actions {
        assert_eq!(action_line(&action), format!("{action:?}"));
        assert_eq!(action_block(&action), format!("{action:#?}"));
    }
}

#[test]
fn evidence_is_short_unique_and_to_the_point() {
    let mut log = String::new();
    for i in 0..30 {
        log.push_str(&format!("  dep{i} x\n dep{i} x \nother\n"));
    }
    let issue = BuildIssue::MissingBuildDependencies {
        deps: vec!["dep".into()],
    };
    let lines = issue_evidence_lines(&issue, &log);
    assert_eq!(lines.len(), MAX_EVIDENCE);
    assert_eq!(lines[1], "dep1 x");
    let log = "nothing provides q\nFailed build dependencies:\nunresolvable\nNo module named 'm'\nctx\n";
    let issue = BuildIssue::MissingBuildDependencies {
        deps: vec!["python3dist(q9)".into()],
    };
    assert!(issue_evidence_lines(&issue, log).is_empty());
    assert_eq!(remote_issue_evidence_lines(&issue, log).len(), 2);
    let unresolvable = BuildIssue::DependencyUnresolvable { deps: vec![] };
    assert_eq!(
        issue_evidence_lines(&unresolvable, log),
        vec!["nothing provides q", "unresolvable"]
    );
    let module = BuildIssue::MissingPythonModule {
        module: "zz".into(),
        import_context: Some("ctx".into()),
    };
    assert_eq!(issue_evidence_lines(&module, log), vec!["No module named 'm'", "ctx"]);
    assert_eq!(remote_issue_evidence_lines(&module, log), vec!["No module named 'm'"]);
    let own = BuildIssue::Unknown {
        important_lines: vec!["a".into(), "b".into(), "a".into()],
    };
    assert_eq!(issue_evidence_lines(&own, log), vec!["a", "b"]);
    assert_eq!(remote_issue_evidence_lines(&own, log), vec!["a", "b"]);
}

#[test]
fn reports_are_shown_line_by_line() {
    let mut report = Report::new(Status::NeedHuman);
    report.package_name = Some("python-a".into());
    report.spec_path = Some("/a.spec".into());
    report.build_attempts = 2;
    report.fixes_applied = 1;
    report.last_log_path = Some("/l".into());
    report.operation_log_path = Some("/o".into());
    let action = BuildAction::RemoveNoarch { reason: "r".into() };
    report.final_action = Some(action.clone());
    report.notes.push("n".into());
    let lines = report_lines(&report);
    assert_eq!(
        lines,
        vec![
            "package: python-a".to_string(),
            "status: NeedHuman".to_string(),
            "spec: /a.spec".to_string(),
            "build_attempts: 2".to_string(),
            "fixes_applied: 1".to_string(),
            "last_log: /l".to_string(),
            "operations_log: /o".to_string(),
            format!("final_action: {action:#?}"),
            "note: n".to_string(),
        ]
    );
    let bare = Report::new(Status::Failed);
    assert_eq!(
        reports_lines(&[bare.clone(), bare]),
        vec![
            "status: Failed",
            "build_attempts: 0",
            "fixes_applied: 0",
            "",
            "status: Failed",
            "build_attempts: 0",
            "fixes_applied: 0",
        ]
    );
    assert!(reports_lines(&[]).is_empty());
}

fn empty_tree() -> SourceTree {
    SourceTree {
        top_level_texts: Ok(vec![]),
        archives: Ok(vec![]),
        first_level: Ok(vec![]),
    }
}

fn failed(headline: &str) -> RemoteBuildState {
    RemoteBuildState::Failed {
        headline: headline.into(),
    }
}

fn fallback(step: RemoteStep) -> String {
    match step {
        RemoteStep::Done(RemoteFixResult::FallbackToLocal(reason)) => reason,
        other => panic!("{other:?}"),
    }
}

#[test]
fn remote_builds_are_fixed_and_submitted_again() {
    let mut fix = RemoteFixLoop::new("python-a".into(), "rev".into(), 1);
    assert!(matches!(fix.on_build_state(failed("failed")).step, RemoteStep::ReadStatus));
    assert!(matches!(fix.on_status("failed").step, RemoteStep::DownloadLog));
    let log = "Arch dependent binaries in noarch package";
    let next = fix.on_log("/l", log, &empty_tree()).unwrap();
    assert!(matches!(next.step, RemoteStep::ReadSpec));
    let before = "Name: a\nBuildArch: noarch\n%description\nx\n";
    match fix.on_spec(before).step {
        RemoteStep::CommitSpec { spec_text, message } => {
            assert!(!spec_text.contains("noarch"));
            assert_eq!(message, "remote-fix python-a after OBS failure");
        }
        other => panic!("{other:?}"),
    }
    let committed = fix.on_commit(true);
    assert!(matches!(committed.step, RemoteStep::Submit));
    let lines = committed.operation.unwrap().lines;
    assert_eq!(lines[0], "ATTEMPT: 1");
    assert_eq!(lines[2], "REMOTE_LOG: /l");
    assert_eq!(lines[5], format!("EVIDENCE: {log}"));
    let again = fix.on_submitted(true, "");
    assert!(matches!(again.step, RemoteStep::WaitForBuild));
    assert_eq!(again.operation.unwrap().title, "remote-resubmit");
    assert_eq!(fix.attempt, 2);
    fix.on_build_state(failed("failed again"));
    let next = fix.on_log("/l", log, &empty_tree()).unwrap();
    assert_eq!(
        fallback(next.step),
        "remote deterministic retry limit reached after failure: failed again"
    );
    assert_eq!(fallback(fix.on_submitted(true, "").step), "remote fix loop exhausted");
}

#[test]
fn remote_builds_end_for_a_reason() {
    let mut fix = RemoteFixLoop::new("k".into(), "r".into(), 1);
    let pending = RemoteBuildState::Pending {
        headline: "building".into(),
    };
    assert_eq!(
        fallback(fix.on_build_state(pending).step),
        "remote build did not finish in time: building"
    );
    assert!(matches!(
        fix.on_build_state(RemoteBuildState::Succeeded).step,
        RemoteStep::Done(RemoteFixResult::Success)
    ));
    fix.on_build_state(failed("h"));
    let status = fix.on_status("nothing provides python3dist(x[y])\n");
    assert!(matches!(
        status.step,
        RemoteStep::Done(RemoteFixResult::NeedsDependencies(deps)) if deps[0].package == "x"
    ));
    assert_eq!(
        status.operation.unwrap().lines,
        vec![
            "ATTEMPT: 1",
            "HEADLINE: h",
            "DETAIL: dependency targets resolved directly from OBS _status",
            "DEPENDENCY: x [y]",
            "STATUS: nothing provides python3dist(x[y])",
        ]
    );
    let gone = fix.on_log_unavailable("404");
    assert_eq!(fallback(gone.step), "remote build log unavailable: 404");
    let needs = fix.on_log("/l", "nothing provides python3dist(z)", &empty_tree()).unwrap();
    assert!(matches!(
        needs.step,
        RemoteStep::Done(RemoteFixResult::NeedsDependencies(_))
    ));
    let human = fix.on_log("/l", "no idea", &empty_tree()).unwrap();
    assert_eq!(
        fallback(human.step),
        "remote build failed with non-deterministic issue: h"
    );
    fix.on_log("/l", "Arch dependent binaries in noarch package", &empty_tree()).unwrap();
    assert_eq!(
        fallback(fix.on_commit(false).step),
        "remote deterministic action produced no spec change: h"
    );
    assert_eq!(
        fallback(fix.on_submitted(false, "err").step),
        "remote re-submit failed after deterministic fix: err"
    );
    let mut tree = empty_tree();
    tree.archives = Err("denied".to_string());
    let error = fix.on_log("/l", "Globs did not match any module: w", &tree).unwrap_err();
    assert_eq!(error, "denied");
    assert_eq!(remote_status_dependency_lines(2, "h", " \n", &[]).len(), 3);
}

#[test]
fn remote_outcomes_are_waited_for() {
    assert_eq!(wait_for_remote_build_outcome(1, Some("building")), None);
    assert_eq!(wait_for_remote_build_outcome(1, None), None);
    assert_eq!(
        wait_for_remote_build_outcome(2, Some("succeeded")),
        Some(RemoteBuildState::Succeeded)
    );
    assert_eq!(wait_for_remote_build_outcome(30, Some("broken x")), Some(failed("broken x")));
    assert_eq!(
        wait_for_remote_build_outcome(30, Some("building")),
        Some(RemoteBuildState::Pending {
            headline: "timed out waiting for remote build status".into()
        })
    );
}

#[test]
fn configuration_fills_what_the_command_line_leaves_open() {
    let mut cli = Cli {
        command: Command::ConfigShow,
        project: None,
        repository: "x64".into(),
        arch: "x86_64".into(),
        max_retries: 2,
        max_dep_depth: 3,
        takopack_bin: "takopack".into(),
        osc_bin: "osc".into(),
        ollama_host: "http://localhost".into(),
        ollama_port: 11434,
        model: "qwen3:8b".into(),
        apply_text: false,
        json: false,
        obs_api_url: None,
        repo_url: None,
        oscrc_path: None,
        default_obs_project: None,
        llm_description: true,
        no_llm_description: false,
    };
    let cfg = PackfixConfig {
        build: Some(BuildConfig {
            repository: Some("rv64".into()),
            arch: Some("riscv64".into()),
            max_retries: Some(9),
            max_dep_depth: None,
            llm_description: None,
        }),
        llm: Some(LlmConfig {
            host: Some("h".into()),
            port: Some(1),
            model: Some("m".into()),
        }),
        ..PackfixConfig::default()
    };
    let args: Vec<String> = ["packfix", "--arch=x86_64", "--model", "qwen3:8b", "--archive"]
        .iter()
        .map(|s| s.to_string())
        .collect();
    assert!(arg_provided(&args, "--arch"));
    assert!(!arg_provided(&args, "--repository"));
    apply_cli_config_defaults(&mut cli, &args, Some(&cfg));
    assert_eq!(cli.repository, "rv64");
    assert_eq!(cli.arch, "x86_64");
    assert_eq!(cli.max_retries, 9);
    assert_eq!(cli.max_dep_depth, 3);
    assert_eq!(cli.ollama_host, "h");
    assert_eq!(cli.ollama_port, 1);
    assert_eq!(cli.model, "qwen3:8b");
    apply_cli_config_defaults(&mut cli, &args, None);
    assert_eq!(cli.repository, "rv64");
    assert_eq!(status_option(&None, "x64"), "x64");
    assert_eq!(status_option(&Some("a".into()), "x64"), "a");
}
