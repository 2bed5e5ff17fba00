use packfix::cli::{Cli, Command};
use packfix::fixer::apply_action;
use packfix::issue::BuildAction;
use packfix::llm::TextSuggestion;
use packfix::report::{Report, Status};
use packfix::upstream::SourceTree;
use packfix::workflow::{
    apply_text_suggestion, metadata_candidates, new_report, new_workdir, readme_candidates,
    summarize_workdir, workflow_package_name, BuildRun, Workflow, WorkflowConfig, WorkflowMode,
    WorkflowStep,
};

fn cli(command: Command) -> Cli {
    Cli {
        command,
        project: None,
        repository: "x64".into(),
        arch: "x86_64".into(),
        max_retries: 2,
        max_dep_depth: 3,
        takopack_bin: "takopack".into(),
        osc_bin: "osc".into(),
        ollama_host: "http://localhost".into(),
        ollama_port: 11434,
        model: "qwen3:8b".into(),
        apply_text: false,
        json: false,
        obs_api_url: None,
        repo_url: None,
        oscrc_path: None,
        default_obs_project: None,
        llm_description: false,
        no_llm_description: false,
    }
}

fn dry_run() -> WorkflowMode {
    WorkflowMode::DryRun {
        workdir: ".".into(),
    }
}

fn empty_tree() -> SourceTree {
    SourceTree {
        top_level_texts: Ok(vec![]),
        archives: Ok(vec![]),
        first_level: Ok(vec![]),
    }
}

fn fix_run(max_retries: usize) -> Workflow {
    let mut config = WorkflowConfig::from_cli(
        &cli(Command::ConfigShow),
        WorkflowMode::Fix {
            workdir: "/w".into(),
        },
    );
    config.max_retries = max_retries;
    let report = Report::new(Status::Failed);
    Workflow::start(&config, "/w", "/w/a.spec", Some("python-a".into()), report).0
}

fn run(success: bool) -> BuildRun {
    BuildRun {
        success,
        returncode: if success { 0 } else { 1 },
        log_path: "/w/logs/build_attempt_001.log".into(),
        stdout_len: 10,
        stderr_len: 2,
    }
}

#[test]
fn workflow_dry_run_does_not_modify_spec() {
    let original = "Name: demo  \n%description\nx";
    let mut cli = cli(Command::DryRun {
        workdir: "/w".into(),
    });
    cli.max_retries = 0;
    let config = WorkflowConfig::from_cli(
        &cli,
        WorkflowMode::DryRun {
            workdir: "/w".into(),
        },
    );
    let report = Report::new(Status::Failed);
    let (mut workflow, start) = Workflow::start(&config, "/w", "/w/demo.spec", None, report);
    let next = workflow.on_first_spec(original);

    assert_eq!(next.write, None);
    assert_eq!(next.step, WorkflowStep::Done);
    assert_eq!(start.title, "workflow-start");
    assert_eq!(start.lines[0], "MODE: DryRun { workdir: \"/w\" }");
    assert_eq!(next.operations[0].title, "workflow-dry-run");
    let report = workflow.finish();
    assert!(matches!(report.status, Status::DryRunComplete));
    assert!(
        report
            .notes
            .iter()
            .any(|note| note == "dry-run: spec would be normalized")
    );
}

#[test]
fn workflow_action_no_spec_change_returns_need_human() {
    let before = "BuildOption(install):  -L\n%description\nx\n";
    let action = BuildAction::FixBuildOptionInstall {
        arg: "-L".into(),
        reason: "already present".into(),
    };
    let after = apply_action(before, &action).expect("apply action");
    assert_eq!(before, after);
}

#[test]
fn workflow_config_from_cli_defaults_to_no_local_build_pool() {
    let cfg = WorkflowConfig::from_cli(&cli(Command::ConfigShow), dry_run());
    assert!(cfg.local_build_pool.is_none());
}

#[test]
fn llm_description_can_be_disabled() {
    let cfg = WorkflowConfig::from_cli(&cli(Command::ConfigShow), dry_run());
    assert!(!cfg.llm_description);
}

#[test]
fn workflow_llm_description_defaults_to_true() {
    let mut cli = cli(Command::ConfigShow);
    cli.llm_description = true;
    let cfg = WorkflowConfig::from_cli(&cli, dry_run());
    assert!(cfg.llm_description);
    cli.no_llm_description = true;
    assert!(!WorkflowConfig::from_cli(&cli, dry_run()).llm_description);
}

#[test]
fn a_failed_build_is_fixed_and_tried_again() {
    let mut w = fix_run(1);
    let first = w.on_first_spec("Name: a\n%description\nx\n");
    assert_eq!(first.step, WorkflowStep::Build);
    assert_eq!(first.write, None);
    assert_eq!(w.report.build_attempts, 1);
    let built = w.on_build(&run(false));
    assert_eq!(built.step, WorkflowStep::ReadLog);
    assert_eq!(
        built.operations[0].lines,
        vec![
            "ATTEMPT: 1",
            "SPEC: /w/a.spec",
            "BUILD_LOG: /w/logs/build_attempt_001.log",
            "RETURNCODE: 1",
            "SUCCESS: false",
        ]
    );
    assert_eq!(
        w.report.notes[0],
        "osc build failed with rc=1 (stdout 10 bytes, stderr 2 bytes)"
    );
    let log = "Failed build dependencies:\n    python3dist(pytest) is needed by a\n";
    let seen = w.on_log(log, &empty_tree()).unwrap();
    assert_eq!(seen.step, WorkflowStep::ReadSpec);
    assert_eq!(
        seen.operations[0].lines[2],
        "ISSUE: MissingBuildDependencies { deps: [\"python3dist(pytest)\"] }"
    );
    assert_eq!(
        seen.operations[0].lines[4],
        "EVIDENCE: python3dist(pytest) is needed by a"
    );
    let before = "Name: a\n%description\nx\n";
    let fixed = w.on_spec(before);
    assert_eq!(fixed.step, WorkflowStep::Build);
    let after = fixed.write.unwrap();
    assert_eq!(after, "Name: a\nBuildRequires:  python3dist(pytest)\n%description\nx\n");
    let diff = &w.report.applied_fixes[0].diff;
    assert_eq!(
        diff,
        "--- spec.before\n+++ spec.after\n@@ -1,3 +1,4 @@\n Name: a\n+BuildRequires:  python3dist(pytest)\n %description\n x\n"
    );
    assert_eq!(fixed.operations[0].lines[3], "DIFF:");
    assert_eq!(w.report.fixes_applied, 1);
    assert_eq!(w.report.build_attempts, 2);
    assert_eq!(w.on_build(&run(true)).step, WorkflowStep::Suggest);
    let done = w.on_suggestion(TextSuggestion::default());
    assert_eq!(done.step, WorkflowStep::Done);
    assert_eq!(done.operations[0].title, "build-success");
    let report = w.finish();
    assert_eq!(report.status, Status::BuildSuccess);
    assert_eq!(report.fixes_applied, report.applied_fixes.len());
    assert_eq!(report.build_attempts, report.applied_fixes.len() + 1);
    assert!(report.notes.last().unwrap().starts_with("llm: "));
}

#[test]
fn a_run_ends_where_only_a_person_can_help() {
    let mut w = fix_run(1);
    w.on_first_spec("Name: a\n");
    w.on_build(&run(false));
    let seen = w.on_log("ModuleNotFoundError: No module named 'x'", &empty_tree()).unwrap();
    assert_eq!(seen.step, WorkflowStep::Done);
    assert_eq!(seen.operations[1].title, "build-stop-need-human");
    assert_eq!(w.finish().status, Status::NeedHuman);
}

#[test]
fn a_run_ends_when_the_retries_are_used_up() {
    let mut w = fix_run(0);
    w.on_first_spec("Name: a\n");
    w.on_build(&run(false));
    let seen = w.on_log("Arch dependent binaries in noarch package", &empty_tree()).unwrap();
    assert_eq!(seen.step, WorkflowStep::Done);
    assert_eq!(seen.operations[1].title, "build-stop-max-retries");
    let report = w.finish();
    assert_eq!(
        report.notes.last().unwrap(),
        "max retries (0) exceeded after build attempt 1"
    );
}

#[test]
fn a_run_ends_where_a_fix_changes_nothing() {
    let mut w = fix_run(3);
    w.on_first_spec("BuildOption(install):  -L\n");
    w.on_build(&run(false));
    let log = "No License-File (PEP 639) in upstream metadata found.";
    assert_eq!(w.on_log(log, &empty_tree()).unwrap().step, WorkflowStep::ReadSpec);
    let stop = w.on_spec("BuildOption(install):  -L\n");
    assert_eq!(stop.step, WorkflowStep::Done);
    assert_eq!(stop.write, None);
    assert_eq!(stop.operations[0].title, "build-stop-no-spec-change");
    assert_eq!(w.finish().status, Status::NeedHuman);
}

#[test]
fn a_refined_module_is_noted() {
    let mut w = fix_run(1);
    w.on_first_spec("Name: a\n");
    w.on_build(&run(false));
    let mut tree = empty_tree();
    tree.top_level_texts = Ok(vec!["real\n".to_string()]);
    w.on_log("Globs did not match any module: wrong", &tree).unwrap();
    assert_eq!(
        w.report.notes[1],
        "install module mismatch refined from 'wrong' to 'real' using source archive layout"
    );
    tree.top_level_texts = Err("denied".to_string());
    let error = w.on_log("Globs did not match any module: wrong", &tree).unwrap_err();
    assert_eq!(error, "denied");
}

#[test]
fn specs_are_put_in_form_before_a_description_is_asked_for() {
    let mut w = fix_run(1);
    w.llm_description = true;
    let first = w.on_first_spec("Name: a  \n");
    assert_eq!(first.step, WorkflowStep::Describe);
    assert_eq!(first.write.as_deref(), Some("Name: a\n"));
    assert_eq!(first.operations[0].title, "spec-normalized");
    assert_eq!(w.report.build_attempts, 0);
    assert!(!w.on_description_source(None, false).go_on);
    let gone = w.on_description_source(Some("/s"), false);
    assert_eq!(gone.operation.unwrap().lines, vec!["STATUS: skipped (dir not found: /s)"]);
    assert!(w.on_description_source(Some("/s"), true).go_on);
    assert!(w.on_description(Some("d"), 5).go_on);
    let late = w.on_description(None, 5);
    assert_eq!(
        late.operation.unwrap().lines,
        vec!["STATUS: skipped (LLM returned empty)", "ELAPSED_MS: 5"]
    );
    let spec_text = "%description\nold\n";
    let write = w.on_description_spec(Ok(spec_text), "new").unwrap();
    assert!(write.contains("%description\nnew\n"));
    assert_eq!(w.on_description_spec(Ok("Name: a\n"), "new"), None);
    assert_eq!(w.on_description_spec(Err("io"), "new"), None);
    let done = w.on_description_written(Ok(()), "new", 9);
    assert_eq!(
        done.operation.unwrap().lines,
        vec!["STATUS: updated", "DESCRIPTION: new", "ELAPSED_MS: 9"]
    );
    assert!(w.on_description_written(Err("full".to_string()), "new", 9).operation.is_none());
    assert_eq!(
        w.report.notes,
        vec![
            "llm-description skipped: no source extract dir",
            "llm-description skipped: source extract dir not found",
            "llm-description skipped: timeout",
            "llm-description skipped: empty",
            "llm-description skipped: no change",
            "llm-description skipped: read error: io",
            "llm-description updated",
            "llm-description skipped: write error: full",
        ]
    );
    assert_eq!(w.on_described().step, WorkflowStep::Build);
    assert_eq!(w.report.build_attempts, 1);
}

#[test]
fn suggested_texts_are_applied_on_request() {
    let mut w = fix_run(1);
    w.apply_text = true;
    w.on_first_spec("Name: a\n");
    w.on_build(&run(true));
    let suggestion = TextSuggestion {
        summary: Some("S".into()),
        description: Some("D".into()),
        license_suggestion: None,
        confidence_bits: 0,
        notes: vec![],
    };
    let text = apply_text_suggestion("Summary:        x\n%description\ny\n", &suggestion);
    assert_eq!(text, "Summary:        S\n%description\nD\n");
    assert_eq!(w.on_suggestion(suggestion).step, WorkflowStep::ApplyText);
    assert_eq!(w.on_text_applied(Err("ro".to_string())).step, WorkflowStep::Done);
    let report = w.finish();
    assert_eq!(report.notes, vec!["failed to apply text suggestion: ro"]);
    assert!(report.llm_text_suggestion.is_some());
}

#[test]
fn packages_are_named_after_spec_or_file() {
    assert_eq!(
        workflow_package_name(Some("Name: foo\n"), "x.spec").as_deref(),
        Some("python-foo")
    );
    assert_eq!(
        workflow_package_name(Some("Name: %{x}\n"), "_service:obs_scm:python-b.spec").as_deref(),
        Some("python-b")
    );
    assert_eq!(workflow_package_name(None, "c.txt"), None);
    assert_eq!(new_workdir("/cwd", "foo"), "/cwd/workspaces/foo");
    assert_eq!(
        new_report("/o", "/l").notes,
        vec!["takopack output: /o; log: /l"]
    );
}

#[test]
fn summaries_report_what_was_applied() {
    let report = summarize_workdir("/a.spec", TextSuggestion::default(), true);
    assert_eq!(report.notes, vec!["applied summary/description suggestions"]);
    assert_eq!(report.spec_path.as_deref(), Some("/a.spec"));
    assert!(summarize_workdir("/a.spec", TextSuggestion::default(), false).notes.is_empty());
}

#[test]
fn texts_are_sought_by_file_name() {
    let names: Vec<String> = ["METADATA", "README.md", "PKG-INFO", "x", "PKG-INFO", "README"]
        .iter()
        .map(|s| s.to_string())
        .collect();
    assert_eq!(metadata_candidates(&names), vec![2, 4, 0]);
    assert_eq!(readme_candidates(&names), vec![1, 5]);
}
