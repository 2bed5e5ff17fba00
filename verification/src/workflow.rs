//! The build of a package here: attempts, and a fix of the spec after each that fails.
use vstd::prelude::*;

use crate::analyzer;
use crate::analyzer::analyze_log;
use crate::cli::Cli;
use crate::config;
use crate::config::{
    resolve_description_max_context_chars, resolve_description_num_predict,
    resolve_description_system_prompt, resolve_description_temperature,
    resolve_description_timeout_secs, resolve_description_user_prompt, PackfixConfig,
};
use crate::debug;
use crate::debug::{action_line, issue_line, record_line, record_line_with};
use crate::evidence;
use crate::evidence::issue_evidence_lines;
use crate::fixer;
use crate::fixer::{apply_action, contextualize_issue, decide_action};
use crate::issue::{copy_opt, ActionModel, BuildAction, BuildIssue, IssueModel};
use crate::llm::{SuggestionModel, TextSuggestion};
use crate::ops_log;
use crate::ops_log::{
    lines1, lines2, lines3, lines4, lines5, operation, operation_log_path, push_operation, Operation,
    OperationModel,
};
use crate::outside;
use crate::outside::line_diff;
use crate::pieces;
use crate::pieces::{decimal_of, path_of, signed_decimal_of};
use crate::remote_fix;
use crate::remote_fix::push_evidence;
use crate::report;
use crate::report::{
    push_line, push_prefixed, status_name, AppliedFix, FixModel, Report, ReportModel, Status,
};
use crate::specfile;
use crate::specfile::{
    declared_package_name, normalize_spec, spec_file_basename, update_description, update_summary,
};
use crate::text;
use crate::text::{cat2, cat3, cat4, cat5, has_prefix, is_empty, same};
use crate::upstream;
use crate::upstream::{python_package_name, SourceTree};

verus! {

/// What is to be built.
#[derive(Debug, Clone)]
pub enum WorkflowMode {
    New { pypi_name: String, version: Option<String> },
    Fix { workdir: String },
    DryRun { workdir: String },
}

/// A mode as it is logged.
pub open spec fn mode_text(mode: WorkflowMode) -> Seq<char> {
    match mode {
        WorkflowMode::New { pypi_name, version } => debug::fields_text(
            "New"@,
            seq![
                debug::text_field("pypi_name"@, pypi_name@),
                debug::field_text(
                    "version"@,
                    debug::option_text(text::opt_text(version), None),
                ),
            ],
            None,
        ),
        WorkflowMode::Fix { workdir } => debug::fields_text(
            "Fix"@,
            seq![debug::text_field("workdir"@, workdir@)],
            None,
        ),
        WorkflowMode::DryRun { workdir } => debug::fields_text(
            "DryRun"@,
            seq![debug::text_field("workdir"@, workdir@)],
            None,
        ),
    }
}

fn mode_line(mode: &WorkflowMode) -> (r: String)
    ensures
        r@ == mode_text(*mode),
{
    match mode {
        WorkflowMode::New { pypi_name, version } => record_line_with(
            "New",
            "pypi_name",
            pypi_name.as_str(),
            "version",
            version,
        ),
        WorkflowMode::Fix { workdir } => record_line("Fix", "workdir", workdir.as_str()),
        WorkflowMode::DryRun { workdir } => record_line("DryRun", "workdir", workdir.as_str()),
    }
}

/// How a package is built. A pool of build roots goes by the directory that they are in; the
/// temperature stands as the bits of an `f32`.
#[derive(Debug, Clone)]
pub struct WorkflowConfig {
    pub mode: WorkflowMode,
    pub project: Option<String>,
    pub repository: String,
    pub arch: String,
    pub max_retries: usize,
    pub takopack_bin: String,
    pub osc_bin: String,
    pub ollama_host: String,
    pub ollama_port: u16,
    pub model: String,
    pub apply_text: bool,
    pub local_build_pool: Option<String>,
    pub llm_description: bool,
    pub description_system_prompt: String,
    pub description_user_prompt: String,
    pub description_timeout_secs: u64,
    pub description_max_context_chars: usize,
    pub description_num_predict: i32,
    pub description_temperature: u32,
}

/// The settings for descriptions are those of `cfg`.
pub open spec fn described_by(r: WorkflowConfig, cfg: Option<&PackfixConfig>) -> bool {
    &&& r.description_system_prompt@ == config::system_prompt(cfg)
    &&& r.description_user_prompt@ == config::user_prompt(cfg)
    &&& r.description_timeout_secs == config::timeout_secs(cfg)
    &&& r.description_max_context_chars == config::max_context_chars(cfg)
    &&& r.description_num_predict == config::num_predict(cfg)
    &&& r.description_temperature == config::temperature(cfg)
}

impl WorkflowConfig {
    /// What the command line asks for. That no description is wanted goes before that one is.
    pub fn from_cli(cli: &Cli, mode: WorkflowMode) -> (r: Self)
        ensures
            r.mode == mode,
            text::opt_text(r.project) == text::opt_text(cli.project),
            r.repository@ == cli.repository@,
            r.arch@ == cli.arch@,
            r.max_retries == cli.max_retries,
            r.takopack_bin@ == cli.takopack_bin@,
            r.osc_bin@ == cli.osc_bin@,
            r.ollama_host@ == cli.ollama_host@,
            r.ollama_port == cli.ollama_port,
            r.model@ == cli.model@,
            r.apply_text == cli.apply_text,
            r.local_build_pool is None,
            r.llm_description == (cli.llm_description && !cli.no_llm_description),
            described_by(r, None),
    {
        WorkflowConfig {
            mode,
            project: copy_opt(&cli.project),
            repository: cli.repository.clone(),
            arch: cli.arch.clone(),
            max_retries: cli.max_retries,
            takopack_bin: cli.takopack_bin.clone(),
            osc_bin: cli.osc_bin.clone(),
            ollama_host: cli.ollama_host.clone(),
            ollama_port: cli.ollama_port,
            model: cli.model.clone(),
            apply_text: cli.apply_text,
            local_build_pool: None,
            llm_description: if cli.no_llm_description {
                false
            } else {
                cli.llm_description
            },
            description_system_prompt: resolve_description_system_prompt(None),
            description_user_prompt: resolve_description_user_prompt(None),
            description_timeout_secs: resolve_description_timeout_secs(None),
            description_max_context_chars: resolve_description_max_context_chars(None),
            description_num_predict: resolve_description_num_predict(None),
            description_temperature: resolve_description_temperature(None),
        }
    }

    /// The same with the configured settings for descriptions.
    pub fn with_description_config(self, cfg: Option<&PackfixConfig>) -> (r: Self)
        ensures
            described_by(r, cfg),
            r == (WorkflowConfig {
                description_system_prompt: r.description_system_prompt,
                description_user_prompt: r.description_user_prompt,
                description_timeout_secs: r.description_timeout_secs,
                description_max_context_chars: r.description_max_context_chars,
                description_num_predict: r.description_num_predict,
                description_temperature: r.description_temperature,
                ..self
            }),
    {
        WorkflowConfig {
            description_system_prompt: resolve_description_system_prompt(cfg),
            description_user_prompt: resolve_description_user_prompt(cfg),
            description_timeout_secs: resolve_description_timeout_secs(cfg),
            description_max_context_chars: resolve_description_max_context_chars(cfg),
            description_num_predict: resolve_description_num_predict(cfg),
            description_temperature: resolve_description_temperature(cfg),
            ..self
        }
    }
}

/// Where a new package is built.
pub fn new_workdir(current_dir: &str, pypi_name: &str) -> (r: String)
    ensures
        r@ == pieces::path_join(pieces::path_join(current_dir@, "workspaces"@), pypi_name@),
{
    path_of(path_of(current_dir, "workspaces").as_str(), pypi_name)
}

/// The report that the build of a new package starts with.
pub fn new_report(output_dir: &str, log_path: &str) -> (r: Report)
    ensures
        r@ == report::noted(
            report::empty_report(Status::Failed),
            "takopack output: "@ + output_dir@ + "; log: "@ + log_path@,
        ),
{
    let mut r = Report::new(Status::Failed);
    r.add_note(cat4("takopack output: ", output_dir, "; log: ", log_path));
    r
}

/// The package that a spec is for: the name that it declares, or else that of its file. A spec that
/// cannot be read has no text.
pub open spec fn spec_package(spec_text: Option<Seq<char>>, file_name: Seq<char>) -> Option<
    Seq<char>,
> {
    let declared = match spec_text {
        Some(s) => specfile::declared_name(s),
        None => None,
    };
    match declared {
        Some(name) => Some(upstream::package_name(name)),
        None => match specfile::spec_base_name(file_name) {
            Some(name) => Some(upstream::package_name(name)),
            None => None,
        },
    }
}

pub fn workflow_package_name(spec_text: Option<&str>, file_name: &str) -> (r: Option<String>)
    ensures
        text::opt_text(r) == spec_package(config::opt_str(spec_text), file_name@),
{
    let declared = match spec_text {
        Some(s) => declared_package_name(s),
        None => None,
    };
    match declared {
        Some(name) => Some(python_package_name(name.as_str())),
        None => match spec_file_basename(file_name) {
            Some(name) => Some(python_package_name(name.as_str())),
            None => None,
        },
    }
}

/// What is to be done next.
#[derive(Debug, Clone, Copy, PartialEq, Eq, Structural)]
pub enum WorkflowStep {
    /// Ask a language model for a description.
    Describe,
    /// Build, for the number of times that the report counts.
    Build,
    /// Read the log of the build.
    ReadLog,
    /// Read the spec.
    ReadSpec,
    /// Ask a language model for better texts. The build root is free from here on.
    Suggest,
    /// Put the suggested texts into the spec.
    ApplyText,
    Done,
}

/// What is written and logged before the next step.
#[derive(Debug, Clone)]
pub struct WorkflowMove {
    pub write: Option<String>,
    pub operations: Vec<Operation>,
    pub step: WorkflowStep,
}

/// The model of a [`WorkflowMove`].
#[verifier::ext_equal]
pub struct MoveModel {
    pub write: Option<Seq<char>>,
    pub operations: Seq<OperationModel>,
    pub step: WorkflowStep,
}

impl View for WorkflowMove {
    type V = MoveModel;

    open spec fn view(&self) -> MoveModel {
        MoveModel {
            write: text::opt_text(self.write),
            operations: ops_log::operation_models(self.operations@),
            step: self.step,
        }
    }
}

pub open spec fn silent(step: WorkflowStep) -> MoveModel {
    MoveModel { write: None, operations: seq![], step }
}

pub open spec fn logged(step: WorkflowStep, title: Seq<char>, lines: Seq<Seq<char>>) -> MoveModel {
    MoveModel { write: None, operations: seq![OperationModel { title, lines }], step }
}

fn quiet_move(step: WorkflowStep) -> (r: WorkflowMove)
    ensures
        r@ == silent(step),
{
    let r = WorkflowMove { write: None, operations: Vec::new(), step };
    assert(r@.operations =~= seq![]);
    r
}

fn logged_move(step: WorkflowStep, title: &str, lines: Vec<String>) -> (r: WorkflowMove)
    ensures
        r@ == logged(step, title@, text::texts(lines@)),
{
    let mut operations: Vec<Operation> = Vec::new();
    assert(ops_log::operation_models(operations@) =~= seq![]);
    push_operation(&mut operations, title, lines);
    WorkflowMove { write: None, operations, step }
}

/// The build of a package.
#[derive(Debug)]
pub struct Workflow {
    pub dry_run: bool,
    pub spec_path: String,
    pub max_retries: usize,
    pub llm_description: bool,
    pub apply_text: bool,
    pub report: Report,
}

/// The model of a [`Workflow`].
#[verifier::ext_equal]
pub struct WorkModel {
    pub dry_run: bool,
    pub spec_path: Seq<char>,
    pub max_retries: nat,
    pub llm_description: bool,
    pub apply_text: bool,
    pub report: ReportModel,
}

impl View for Workflow {
    type V = WorkModel;

    open spec fn view(&self) -> WorkModel {
        WorkModel {
            dry_run: self.dry_run,
            spec_path: self.spec_path@,
            max_retries: self.max_retries as nat,
            llm_description: self.llm_description,
            apply_text: self.apply_text,
            report: self.report@,
        }
    }
}

pub open spec fn with_report(state: WorkModel, report: ReportModel) -> WorkModel {
    WorkModel { report, ..state }
}

/// One more attempt.
pub open spec fn to_build(state: WorkModel) -> WorkModel {
    with_report(
        state,
        ReportModel {
            build_attempts: (state.report.build_attempts + 1) as usize,
            ..state.report
        },
    )
}

/// The number of the attempt, as it is logged.
pub open spec fn attempt_line(report: ReportModel) -> Seq<char> {
    "ATTEMPT: "@ + pieces::decimal(report.build_attempts as nat)
}

fn attempt_line_of(report: &Report) -> (r: String)
    ensures
        r@ == attempt_line(report@),
{
    cat2("ATTEMPT: ", decimal_of(report.build_attempts as u64).as_str())
}

/// What a run starts with, and what is logged of it.
pub open spec fn start_lines(config: WorkflowConfig, spec_path: Seq<char>) -> Seq<Seq<char>> {
    seq![
        "MODE: "@ + mode_text(config.mode),
        "SPEC: "@ + spec_path,
        "REPOSITORY: "@ + config.repository@,
        "ARCH: "@ + config.arch@,
    ]
}

/// The report on a dry run over `spec_text`.
pub open spec fn dry_report(report: ReportModel, spec_text: Seq<char>) -> ReportModel {
    let found = report::noted(
        ReportModel { status: Status::DryRunComplete, ..report },
        "dry-run: found spec, read spec; osc build skipped"@,
    );
    if specfile::normalized(spec_text) != spec_text {
        report::noted(found, "dry-run: spec would be normalized"@)
    } else {
        found
    }
}

/// The state after the spec has been read for the first time.
pub open spec fn after_first_spec(state: WorkModel, spec_text: Seq<char>) -> WorkModel {
    if state.dry_run {
        with_report(state, dry_report(state.report, spec_text))
    } else if state.llm_description {
        state
    } else {
        to_build(state)
    }
}

/// What follows when the spec has been read for the first time: a dry run ends, and any other puts
/// the spec in form.
pub open spec fn first_move(state: WorkModel, spec_text: Seq<char>) -> MoveModel {
    let step = if state.llm_description {
        WorkflowStep::Describe
    } else {
        WorkflowStep::Build
    };
    if state.dry_run {
        logged(
            WorkflowStep::Done,
            "workflow-dry-run"@,
            seq!["STATUS: DryRunComplete"@, "DETAIL: osc build skipped"@],
        )
    } else if specfile::normalized(spec_text) != spec_text {
        MoveModel {
            write: Some(specfile::normalized(spec_text)),
            operations: seq![
                OperationModel {
                    title: "spec-normalized"@,
                    lines: seq![
                        "SPEC: "@ + state.spec_path,
                        "DETAIL: normalized spec formatting before build"@,
                    ],
                },
            ],
            step,
        }
    } else {
        silent(step)
    }
}

/// What a build has come to.
#[derive(Debug, Clone)]
pub struct BuildRun {
    pub success: bool,
    pub returncode: i32,
    pub log_path: String,
    pub stdout_len: usize,
    pub stderr_len: usize,
}

/// The state after a build.
pub open spec fn after_build(state: WorkModel, run: BuildRun) -> WorkModel {
    let seen = ReportModel { last_log_path: Some(run.log_path@), ..state.report };
    with_report(
        state,
        if run.success {
            ReportModel { status: Status::BuildSuccess, ..seen }
        } else {
            report::noted(
                seen,
                "osc build failed with rc="@ + pieces::signed_decimal(run.returncode as int)
                    + " (stdout "@ + pieces::decimal(run.stdout_len as nat) + " bytes, stderr "@
                    + pieces::decimal(run.stderr_len as nat) + " bytes)"@,
            )
        },
    )
}

/// What follows on a build.
pub open spec fn build_move(state: WorkModel, run: BuildRun) -> MoveModel {
    logged(
        if run.success {
            WorkflowStep::Suggest
        } else {
            WorkflowStep::ReadLog
        },
        "build-attempt"@,
        seq![
            attempt_line(state.report),
            "SPEC: "@ + state.spec_path,
            "BUILD_LOG: "@ + run.log_path@,
            "RETURNCODE: "@ + pieces::signed_decimal(run.returncode as int),
            "SUCCESS: "@ + (if run.success {
                "true"@
            } else {
                "false"@
            }),
        ],
    )
}

/// What is noted of a module that the sources have corrected.
pub open spec fn mismatch_notes(issue: IssueModel) -> Seq<Seq<char>> {
    match issue {
        IssueModel::InstallModuleMismatch { wrong_module, suggested_module } => if wrong_module
            != suggested_module {
            seq![
                "install module mismatch refined from '"@ + wrong_module + "' to '"@
                    + suggested_module + "' using source archive layout"@,
            ]
        } else {
            seq![]
        },
        _ => seq![],
    }
}

/// The lines of `log` that speak for `issue`.
pub open spec fn log_evidence(issue: IssueModel, log: Seq<char>) -> Seq<Seq<char>> {
    evidence::evidence(issue, evidence::local_words(issue), log)
}

/// The report with an issue that was found in `log`.
pub open spec fn with_issue(report: ReportModel, issue: IssueModel, log: Seq<char>) -> ReportModel {
    let action = fixer::action_for(issue);
    ReportModel {
        final_issue: Some(issue),
        final_action: Some(action),
        notes: report.notes + mismatch_notes(issue) + seq![
            "classified issue: "@ + debug::issue_text(issue, None),
            "selected action: "@ + debug::action_text(action, None),
        ] + pieces::prefix_each("issue evidence: "@, log_evidence(issue, log)),
        ..report
    }
}

/// The build log, as it is shown.
pub open spec fn shown_log(report: ReportModel) -> Seq<char> {
    match report.last_log_path {
        Some(path) => path,
        None => seq![],
    }
}

fn shown_log_of(report: &Report) -> (r: String)
    ensures
        r@ == shown_log(report@),
{
    match &report.last_log_path {
        Some(path) => path.clone(),
        None => String::new(),
    }
}

/// What is logged of an issue.
pub open spec fn analysis(report: ReportModel, issue: IssueModel, log: Seq<char>) -> OperationModel {
    OperationModel {
        title: "build-failure-analysis"@,
        lines: seq![
            attempt_line(report),
            "BUILD_LOG: "@ + shown_log(report),
            "ISSUE: "@ + debug::issue_text(issue, None),
            "ACTION: "@ + debug::action_text(fixer::action_for(issue), None),
        ] + remote_fix::logged_evidence(log_evidence(issue, log)),
    }
}

/// The state after an issue has been found.
pub open spec fn after_issue(state: WorkModel, issue: IssueModel, log: Seq<char>) -> WorkModel {
    let found = with_issue(state.report, issue, log);
    with_report(
        state,
        if fixer::action_for(issue) is NeedHuman {
            ReportModel { status: Status::NeedHuman, ..found }
        } else if state.report.build_attempts > state.max_retries {
            report::noted(
                ReportModel { status: Status::NeedHuman, ..found },
                "max retries ("@ + pieces::decimal(state.max_retries)
                    + ") exceeded after build attempt "@ + pieces::decimal(
                    state.report.build_attempts as nat,
                ),
            )
        } else {
            found
        },
    )
}

/// What follows on an issue: a person is asked where only one can help or the retries are used up,
/// and else the spec is fixed.
pub open spec fn issue_move(state: WorkModel, issue: IssueModel, log: Seq<char>) -> MoveModel {
    let seen = analysis(state.report, issue, log);
    let shown = "ISSUE: "@ + debug::issue_text(issue, None);
    if fixer::action_for(issue) is NeedHuman {
        MoveModel {
            write: None,
            operations: seq![
                seen,
                OperationModel {
                    title: "build-stop-need-human"@,
                    lines: seq![
                        attempt_line(state.report),
                        shown,
                        "DETAIL: no safe deterministic fix available"@,
                    ],
                },
            ],
            step: WorkflowStep::Done,
        }
    } else if state.report.build_attempts > state.max_retries {
        MoveModel {
            write: None,
            operations: seq![
                seen,
                OperationModel {
                    title: "build-stop-max-retries"@,
                    lines: seq![
                        attempt_line(state.report),
                        "MAX_RETRIES: "@ + pieces::decimal(state.max_retries),
                        shown,
                    ],
                },
            ],
            step: WorkflowStep::Done,
        }
    } else {
        MoveModel { write: None, operations: seq![seen], step: WorkflowStep::ReadSpec }
    }
}

/// How a spec has changed.
pub open spec fn spec_diff(before: Seq<char>, after: Seq<char>) -> Seq<char> {
    outside::unified_diff(before, after, "spec.before"@, "spec.after"@)
}

/// The state after the spec has been read for a fix by `action`.
pub open spec fn after_fix(state: WorkModel, action: ActionModel, before: Seq<char>) -> WorkModel {
    let after = fixer::applied(before, action);
    let fixed = ReportModel {
        applied_fixes: state.report.applied_fixes.push(
            FixModel { action, diff: spec_diff(before, after) },
        ),
        fixes_applied: (state.report.applied_fixes.len() + 1) as usize,
        ..state.report
    };
    if after == before {
        with_report(
            state,
            report::noted(
                ReportModel { status: Status::NeedHuman, ..state.report },
                "deterministic action produced no spec change; stopping to avoid repeated builds"@,
            ),
        )
    } else if state.report.build_attempts > state.max_retries {
        with_report(state, ReportModel { status: Status::Failed, ..fixed })
    } else {
        to_build(with_report(state, fixed))
    }
}

/// What follows when the spec has been read for a fix by `action`.
pub open spec fn fix_move(state: WorkModel, action: ActionModel, before: Seq<char>) -> MoveModel {
    let after = fixer::applied(before, action);
    let shown = "ACTION: "@ + debug::action_text(action, None);
    let updated = OperationModel {
        title: "spec-updated"@,
        lines: seq![
            attempt_line(state.report),
            shown,
            "SPEC: "@ + state.spec_path,
            "DIFF:"@,
            spec_diff(before, after),
        ],
    };
    if after == before {
        logged(
            WorkflowStep::Done,
            "build-stop-no-spec-change"@,
            seq![
                attempt_line(state.report),
                shown,
                "DETAIL: deterministic action produced no spec change"@,
            ],
        )
    } else if state.report.build_attempts > state.max_retries {
        MoveModel {
            write: Some(after),
            operations: seq![
                updated,
                OperationModel { title: "workflow-failed"@, lines: seq!["STATUS: Failed"@] },
            ],
            step: WorkflowStep::Done,
        }
    } else {
        MoveModel { write: Some(after), operations: seq![updated], step: WorkflowStep::Build }
    }
}

/// The spec with the texts that a suggestion has.
pub open spec fn with_suggestion(spec_text: Seq<char>, suggestion: SuggestionModel) -> Seq<char> {
    let summarized = match suggestion.summary {
        Some(summary) => specfile::with_tag(spec_text, "Summary"@, summary),
        None => spec_text,
    };
    match suggestion.description {
        Some(description) => specfile::with_description(summarized, description),
        None => summarized,
    }
}

pub fn apply_text_suggestion(spec_text: &str, suggestion: &TextSuggestion) -> (r: String)
    ensures
        r@ == with_suggestion(spec_text@, suggestion@),
{
    let summarized = match &suggestion.summary {
        Some(summary) => update_summary(spec_text, summary.as_str()),
        None => spec_text.to_owned(),
    };
    match &suggestion.description {
        Some(description) => update_description(summarized.as_str(), description.as_str()),
        None => summarized,
    }
}

/// What is logged of a build that went through.
pub open spec fn success_lines(report: ReportModel) -> Seq<Seq<char>> {
    seq![
        attempt_line(report),
        "STATUS: "@ + report::status_text(report.status),
        "BUILD_LOG: "@ + shown_log(report),
    ]
}

/// The report with a suggestion.
pub open spec fn with_suggested(report: ReportModel, suggestion: SuggestionModel) -> ReportModel {
    ReportModel {
        notes: report.notes + pieces::prefix_each("llm: "@, suggestion.notes),
        llm_text_suggestion: Some(suggestion),
        ..report
    }
}

/// What becomes of asking for a description.
#[derive(Debug)]
pub struct DescribeMove {
    /// Whether to go on with the next step of it.
    pub go_on: bool,
    /// What is logged.
    pub operation: Option<Operation>,
}

impl DescribeMove {
    /// Nothing is logged.
    pub open spec fn is_silent(&self, go_on: bool) -> bool {
        self.go_on == go_on && self.operation is None
    }

    pub open spec fn logs(&self, lines: Seq<Seq<char>>) -> bool {
        !self.go_on && ops_log::opt_operation(self.operation) == Some(
            OperationModel { title: "llm-description"@, lines },
        )
    }
}

fn logged_description(lines: Vec<String>) -> (r: DescribeMove)
    ensures
        r.logs(text::texts(lines@)),
{
    DescribeMove { go_on: false, operation: Some(operation("llm-description", lines)) }
}

impl Workflow {
    /// No more attempts are made than one and the retries.
    pub open spec fn wf(&self) -> bool {
        self@.report.build_attempts <= self@.max_retries + 1 <= usize::MAX
    }

    /// Starts with a spec that has been found, and says what is logged of it.
    pub fn start(
        config: &WorkflowConfig,
        workdir: &str,
        spec_path: &str,
        package_name: Option<String>,
        report: Report,
    ) -> (r: (Self, Operation))
        requires
            config.max_retries < usize::MAX,
            report@.build_attempts == 0,
        ensures
            r.0.wf(),
            r.0@ == (WorkModel {
                dry_run: config.mode is DryRun,
                spec_path: spec_path@,
                max_retries: config.max_retries as nat,
                llm_description: config.llm_description,
                apply_text: config.apply_text,
                report: ReportModel {
                    spec_path: Some(spec_path@),
                    package_name: text::opt_text(package_name),
                    operation_log_path: Some(ops_log::log_path(workdir@)),
                    ..report@
                },
            }),
            r.1@ == (OperationModel {
                title: "workflow-start"@,
                lines: start_lines(*config, spec_path@),
            }),
    {
        let mut report = report;
        report.spec_path = Some(spec_path.to_owned());
        report.package_name = package_name;
        report.operation_log_path = Some(operation_log_path(workdir));
        let lines = lines4(
            cat2("MODE: ", mode_line(&config.mode).as_str()),
            cat2("SPEC: ", spec_path),
            cat2("REPOSITORY: ", config.repository.as_str()),
            cat2("ARCH: ", config.arch.as_str()),
        );
        let state = Workflow {
            dry_run: matches!(config.mode, WorkflowMode::DryRun { .. }),
            spec_path: spec_path.to_owned(),
            max_retries: config.max_retries,
            llm_description: config.llm_description,
            apply_text: config.apply_text,
            report,
        };
        (state, operation("workflow-start", lines))
    }

    /// The spec has been read for the first time.
    pub fn on_first_spec(&mut self, spec_text: &str) -> (r: WorkflowMove)
        requires
            old(self).wf(),
            old(self)@.report.build_attempts == 0,
        ensures
            final(self).wf(),
            final(self)@ == after_first_spec(old(self)@, spec_text@),
            r@ == first_move(old(self)@, spec_text@),
    {
        let normalized = normalize_spec(spec_text);
        let changes = !same(normalized.as_str(), spec_text);
        if self.dry_run {
            self.report.status = Status::DryRunComplete;
            self.report.add_note("dry-run: found spec, read spec; osc build skipped".to_owned());
            if changes {
                self.report.add_note("dry-run: spec would be normalized".to_owned());
            }
            return logged_move(
                WorkflowStep::Done,
                "workflow-dry-run",
                lines2("STATUS: DryRunComplete".to_owned(), "DETAIL: osc build skipped".to_owned()),
            );
        }
        let step = if self.llm_description {
            WorkflowStep::Describe
        } else {
            self.report.build_attempts += 1;
            WorkflowStep::Build
        };
        if changes {
            let mut r = logged_move(
                step,
                "spec-normalized",
                lines2(
                    cat2("SPEC: ", self.spec_path.as_str()),
                    "DETAIL: normalized spec formatting before build".to_owned(),
                ),
            );
            r.write = Some(normalized);
            return r;
        }
        quiet_move(step)
    }

    /// It is known where the sources have been unpacked, and whether they are still there.
    pub fn on_description_source(&mut self, source_dir: Option<&str>, present: bool) -> (r:
        DescribeMove)
        requires
            old(self).wf(),
        ensures
            final(self).wf(),
            match source_dir {
                None => final(self)@ == with_report(
                    old(self)@,
                    report::noted(
                        old(self)@.report,
                        "llm-description skipped: no source extract dir"@,
                    ),
                ) && r.logs(seq!["STATUS: skipped (no source_extract_dir in state.json)"@]),
                Some(dir) => if present {
                    final(self)@ == old(self)@ && r.is_silent(true)
                } else {
                    final(self)@ == with_report(
                        old(self)@,
                        report::noted(
                            old(self)@.report,
                            "llm-description skipped: source extract dir not found"@,
                        ),
                    ) && r.logs(seq!["STATUS: skipped (dir not found: "@ + dir@ + ")"@])
                },
            },
    {
        match source_dir {
            None => {
                self.report.add_note(
                    "llm-description skipped: no source extract dir".to_owned(),
                );
                logged_description(
                    lines1(
                        "STATUS: skipped (no source_extract_dir in state.json)".to_owned(),
                    ),
                )
            },
            Some(dir) => if present {
                DescribeMove { go_on: true, operation: None }
            } else {
                self.report.add_note(
                    "llm-description skipped: source extract dir not found".to_owned(),
                );
                logged_description(lines1(cat3("STATUS: skipped (dir not found: ", dir, ")")))
            },
        }
    }

    /// A description has come, after `elapsed_ms`; none has where it took too long.
    pub fn on_description(&mut self, description: Option<&str>, elapsed_ms: u64) -> (r:
        DescribeMove)
        requires
            old(self).wf(),
        ensures
            final(self).wf(),
            ({
                let waited = match description {
                    Some(_) => old(self)@.report,
                    None => report::noted(
                        old(self)@.report,
                        "llm-description skipped: timeout"@,
                    ),
                };
                if description is Some && description->0@.len() > 0 {
                    final(self)@ == old(self)@ && r.is_silent(true)
                } else {
                    final(self)@ == with_report(
                        old(self)@,
                        report::noted(waited, "llm-description skipped: empty"@),
                    ) && r.logs(
                        seq![
                            "STATUS: skipped (LLM returned empty)"@,
                            "ELAPSED_MS: "@ + pieces::decimal(elapsed_ms as nat),
                        ],
                    )
                }
            }),
    {
        match description {
            Some(s) => if !is_empty(s) {
                return DescribeMove { go_on: true, operation: None };
            },
            None => {
                self.report.add_note("llm-description skipped: timeout".to_owned());
            },
        }
        self.report.add_note("llm-description skipped: empty".to_owned());
        logged_description(
            lines2(
                "STATUS: skipped (LLM returned empty)".to_owned(),
                cat2("ELAPSED_MS: ", decimal_of(elapsed_ms).as_str()),
            ),
        )
    }

    /// The spec that is to have `description` has been read. Gives what is to be written.
    pub fn on_description_spec(&mut self, before: Result<&str, &str>, description: &str) -> (r:
        Option<String>)
        requires
            old(self).wf(),
        ensures
            final(self).wf(),
            match before {
                Ok(spec_text) => {
                    let after = specfile::with_description(spec_text@, description@);
                    if after == spec_text@ {
                        r is None && final(self)@ == with_report(
                            old(self)@,
                            report::noted(
                                old(self)@.report,
                                "llm-description skipped: no change"@,
                            ),
                        )
                    } else {
                        text::opt_text(r) == Some(after) && final(self)@ == old(self)@
                    }
                },
                Err(error) => r is None && final(self)@ == with_report(
                    old(self)@,
                    report::noted(
                        old(self)@.report,
                        "llm-description skipped: read error: "@ + error@,
                    ),
                ),
            },
    {
        match before {
            Ok(spec_text) => {
                let after = update_description(spec_text, description);
                if same(after.as_str(), spec_text) {
                    self.report.add_note("llm-description skipped: no change".to_owned());
                    None
                } else {
                    Some(after)
                }
            },
            Err(error) => {
                self.report.add_note(cat2("llm-description skipped: read error: ", error));
                None
            },
        }
    }

    /// The spec with `description` has been written, or not.
    pub fn on_description_written(
        &mut self,
        result: Result<(), String>,
        description: &str,
        elapsed_ms: u64,
    ) -> (r: DescribeMove)
        requires
            old(self).wf(),
        ensures
            final(self).wf(),
            match result {
                Ok(_) => final(self)@ == with_report(
                    old(self)@,
                    report::noted(old(self)@.report, "llm-description updated"@),
                ) && r.logs(
                    seq![
                        "STATUS: updated"@,
                        "DESCRIPTION: "@ + description@,
                        "ELAPSED_MS: "@ + pieces::decimal(elapsed_ms as nat),
                    ],
                ),
                Err(error) => final(self)@ == with_report(
                    old(self)@,
                    report::noted(
                        old(self)@.report,
                        "llm-description skipped: write error: "@ + error@,
                    ),
                ) && r.is_silent(false),
            },
    {
        match result {
            Ok(_) => {
                self.report.add_note("llm-description updated".to_owned());
                logged_description(
                    lines3(
                        "STATUS: updated".to_owned(),
                        cat2("DESCRIPTION: ", description),
                        cat2("ELAPSED_MS: ", decimal_of(elapsed_ms).as_str()),
                    ),
                )
            },
            Err(error) => {
                self.report.add_note(
                    cat2("llm-description skipped: write error: ", error.as_str()),
                );
                DescribeMove { go_on: false, operation: None }
            },
        }
    }

    /// All has been done about a description. The first build follows.
    pub fn on_described(&mut self) -> (r: WorkflowMove)
        requires
            old(self).wf(),
            old(self)@.report.build_attempts == 0,
        ensures
            final(self).wf(),
            final(self)@ == to_build(old(self)@),
            r@ == silent(WorkflowStep::Build),
    {
        self.report.build_attempts += 1;
        quiet_move(WorkflowStep::Build)
    }

    /// A build has ended.
    pub fn on_build(&mut self, run: &BuildRun) -> (r: WorkflowMove)
        requires
            old(self).wf(),
        ensures
            final(self).wf(),
            final(self)@ == after_build(old(self)@, *run),
            r@ == build_move(old(self)@, *run),
    {
        self.report.last_log_path = Some(run.log_path.clone());
        let lines = lines5(
            attempt_line_of(&self.report),
            cat2("SPEC: ", self.spec_path.as_str()),
            cat2("BUILD_LOG: ", run.log_path.as_str()),
            cat2("RETURNCODE: ", signed_decimal_of(run.returncode).as_str()),
            cat2(
                "SUCCESS: ",
                if run.success {
                    "true"
                } else {
                    "false"
                },
            ),
        );
        if run.success {
            self.report.status = Status::BuildSuccess;
            return logged_move(WorkflowStep::Suggest, "build-attempt", lines);
        }
        let mut note = cat3(
            "osc build failed with rc=",
            signed_decimal_of(run.returncode).as_str(),
            " (stdout ",
        );
        note.append(decimal_of(run.stdout_len as u64).as_str());
        note.append(" bytes, stderr ");
        note.append(decimal_of(run.stderr_len as u64).as_str());
        note.append(" bytes)");
        self.report.add_note(note);
        logged_move(WorkflowStep::ReadLog, "build-attempt", lines)
    }

    /// The log of a failed build has been read. `tree` is what has been found of the sources.
    pub fn on_log(&mut self, log: &str, tree: &SourceTree) -> (r: Result<WorkflowMove, String>)
        requires
            old(self).wf(),
        ensures
            final(self).wf(),
            match analyzer::issue_of(log@) {
                IssueModel::InstallModuleMismatch {
                    wrong_module,
                    ..
                } => match upstream::search_tree(*tree, wrong_module) {
                    Ok(module) => {
                        let issue = fixer::refined(analyzer::issue_of(log@), module);
                        &&& final(self)@ == after_issue(old(self)@, issue, log@)
                        &&& r is Ok
                        &&& r->Ok_0@ == issue_move(old(self)@, issue, log@)
                    },
                    Err(message) => final(self)@ == old(self)@ && r is Err && r->Err_0@
                        == message,
                },
                issue => {
                    &&& final(self)@ == after_issue(old(self)@, issue, log@)
                    &&& r is Ok
                    &&& r->Ok_0@ == issue_move(old(self)@, issue, log@)
                },
            },
    {
        let issue = match contextualize_issue(tree, analyze_log(log)) {
            Ok(issue) => issue,
            Err(message) => return Err(message),
        };
        Ok(self.on_issue(issue, log))
    }

    /// An issue has been found in the log of a failed build.
    pub fn on_issue(&mut self, issue: BuildIssue, log: &str) -> (r: WorkflowMove)
        requires
            old(self).wf(),
        ensures
            final(self).wf(),
            final(self)@ == after_issue(old(self)@, issue@, log@),
            r@ == issue_move(old(self)@, issue@, log@),
    {
        let ghost start = self@;
        let action = decide_action(&issue);
        let found = issue_evidence_lines(&issue, log);
        let issue_shown = issue_line(&issue);
        let action_shown = action_line(&action);
        let need_human = action.is_need_human();
        if let BuildIssue::InstallModuleMismatch { wrong_module, suggested_module } = &issue {
            if !same(wrong_module.as_str(), suggested_module.as_str()) {
                let note = cat5(
                    "install module mismatch refined from '",
                    wrong_module.as_str(),
                    "' to '",
                    suggested_module.as_str(),
                    "' using source archive layout",
                );
                push_line(&mut self.report.notes, note);
            }
        }
        assert(text::texts(self.report.notes@) =~= start.report.notes + mismatch_notes(issue@));
        push_line(&mut self.report.notes, cat2("classified issue: ", issue_shown.as_str()));
        push_line(&mut self.report.notes, cat2("selected action: ", action_shown.as_str()));
        assert(text::texts(self.report.notes@) =~= start.report.notes + mismatch_notes(issue@)
            + seq![
            "classified issue: "@ + issue_shown@,
            "selected action: "@ + action_shown@,
        ]);
        push_prefixed(&mut self.report.notes, "issue evidence: ", &found);
        self.report.final_issue = Some(issue);
        self.report.final_action = Some(action);
        assert(self@.report == with_issue(start.report, issue@, log@));
        let mut lines = lines4(
            attempt_line_of(&self.report),
            cat2("BUILD_LOG: ", shown_log_of(&self.report).as_str()),
            cat2("ISSUE: ", issue_shown.as_str()),
            cat2("ACTION: ", action_shown.as_str()),
        );
        push_evidence(&mut lines, &found);
        let mut r = logged_move(WorkflowStep::ReadSpec, "build-failure-analysis", lines);
        assert(r@.operations[0] == analysis(start.report, issue@, log@));
        let shown = cat2("ISSUE: ", issue_shown.as_str());
        if need_human {
            self.report.status = Status::NeedHuman;
            r.step = WorkflowStep::Done;
            push_operation(
                &mut r.operations,
                "build-stop-need-human",
                lines3(
                    attempt_line_of(&self.report),
                    shown,
                    "DETAIL: no safe deterministic fix available".to_owned(),
                ),
            );
        } else if self.report.build_attempts > self.max_retries {
            self.report.status = Status::NeedHuman;
            let mut note = cat3(
                "max retries (",
                decimal_of(self.max_retries as u64).as_str(),
                ") exceeded after build attempt ",
            );
            note.append(decimal_of(self.report.build_attempts as u64).as_str());
            self.report.add_note(note);
            r.step = WorkflowStep::Done;
            push_operation(
                &mut r.operations,
                "build-stop-max-retries",
                lines3(
                    attempt_line_of(&self.report),
                    cat2("MAX_RETRIES: ", decimal_of(self.max_retries as u64).as_str()),
                    shown,
                ),
            );
        }
        assert(r@.operations =~= issue_move(start, issue@, log@).operations);
        r
    }

    /// The spec has been read for the fix that was selected.
    pub fn on_spec(&mut self, before: &str) -> (r: WorkflowMove)
        requires
            old(self).wf(),
            old(self)@.report.final_action is Some,
        ensures
            final(self).wf(),
            final(self)@ == after_fix(old(self)@, old(self)@.report.final_action->0, before@),
            r@ == fix_move(old(self)@, old(self)@.report.final_action->0, before@),
    {
        let ghost start = self@;
        let action = match &self.report.final_action {
            Some(action) => action.duplicate(),
            None => BuildAction::NoOp { reason: String::new() },
        };
        let ghost model = action@;
        let after = match apply_action(before, &action) {
            Ok(after) => after,
            Err(_) => before.to_owned(),
        };
        let shown = cat2("ACTION: ", action_line(&action).as_str());
        if same(before, after.as_str()) {
            self.report.status = Status::NeedHuman;
            self.report.add_note(
                "deterministic action produced no spec change; stopping to avoid repeated builds".to_owned(),
            );
            return logged_move(
                WorkflowStep::Done,
                "build-stop-no-spec-change",
                lines3(
                    attempt_line_of(&self.report),
                    shown,
                    "DETAIL: deterministic action produced no spec change".to_owned(),
                ),
            );
        }
        let diff = line_diff(before, after.as_str(), "spec.before", "spec.after");
        let lines = lines5(
            attempt_line_of(&self.report),
            shown,
            cat2("SPEC: ", self.spec_path.as_str()),
            "DIFF:".to_owned(),
            diff.clone(),
        );
        assert(start.report.applied_fixes.len() == self.report.applied_fixes@.len());
        self.report.add_fix(AppliedFix { action, diff });
        assert(self@.report.applied_fixes.len() == self.report.applied_fixes@.len());
        self.report.fixes_applied = self.report.applied_fixes.len();
        let mut r = logged_move(WorkflowStep::Build, "spec-updated", lines);
        r.write = Some(after);
        if self.report.build_attempts > self.max_retries {
            self.report.status = Status::Failed;
            r.step = WorkflowStep::Done;
            push_operation(
                &mut r.operations,
                "workflow-failed",
                lines1("STATUS: Failed".to_owned()),
            );
        } else {
            self.report.build_attempts += 1;
        }
        assert(r@.operations =~= fix_move(start, model, before@).operations);
        assert(self@.report.applied_fixes =~= after_fix(
            start,
            model,
            before@,
        ).report.applied_fixes);
        r
    }

    /// Better texts have been suggested.
    pub fn on_suggestion(&mut self, suggestion: TextSuggestion) -> (r: WorkflowMove)
        requires
            old(self).wf(),
        ensures
            final(self).wf(),
            final(self)@ == with_report(
                old(self)@,
                with_suggested(old(self)@.report, suggestion@),
            ),
            r@ == if old(self)@.apply_text {
                silent(WorkflowStep::ApplyText)
            } else {
                logged(
                    WorkflowStep::Done,
                    "build-success"@,
                    success_lines(old(self)@.report),
                )
            },
    {
        push_prefixed(&mut self.report.notes, "llm: ", &suggestion.notes);
        self.report.llm_text_suggestion = Some(suggestion);
        if self.apply_text {
            return quiet_move(WorkflowStep::ApplyText);
        }
        self.succeeded()
    }

    /// The suggested texts have been put into the spec, or not.
    pub fn on_text_applied(&mut self, result: Result<(), String>) -> (r: WorkflowMove)
        requires
            old(self).wf(),
        ensures
            final(self).wf(),
            final(self)@ == match result {
                Ok(_) => old(self)@,
                Err(error) => with_report(
                    old(self)@,
                    report::noted(
                        old(self)@.report,
                        "failed to apply text suggestion: "@ + error@,
                    ),
                ),
            },
            r@ == logged(WorkflowStep::Done, "build-success"@, success_lines(old(self)@.report)),
    {
        if let Err(error) = result {
            self.report.add_note(cat2("failed to apply text suggestion: ", error.as_str()));
        }
        self.succeeded()
    }

    fn succeeded(&self) -> (r: WorkflowMove)
        ensures
            r@ == logged(WorkflowStep::Done, "build-success"@, success_lines(self@.report)),
    {
        logged_move(
            WorkflowStep::Done,
            "build-success",
            lines3(
                attempt_line_of(&self.report),
                cat2("STATUS: ", status_name(self.report.status).as_str()),
                cat2("BUILD_LOG: ", shown_log_of(&self.report).as_str()),
            ),
        )
    }

    /// What the run has come to.
    pub fn finish(self) -> (r: Report)
        ensures
            r@ == self@.report,
    {
        self.report
    }
}

/// A dry run writes nothing and builds nothing.
pub proof fn law_dry_run_changes_nothing(state: WorkModel, spec_text: Seq<char>)
    requires
        state.dry_run,
    ensures
        first_move(state, spec_text).write is None,
        first_move(state, spec_text).step == WorkflowStep::Done,
        after_first_spec(state, spec_text).report.status == Status::DryRunComplete,
        after_first_spec(state, spec_text).report.build_attempts == state.report.build_attempts,
{
}

/// A build is only tried again on a spec that has changed, and only while retries are left.
pub proof fn law_retry_needs_a_change(state: WorkModel, action: ActionModel, before: Seq<char>)
    requires
        fix_move(state, action, before).step == WorkflowStep::Build,
    ensures
        fix_move(state, action, before).write is Some,
        fix_move(state, action, before).write->0 != before,
        state.report.build_attempts <= state.max_retries,
        after_fix(state, action, before).report.applied_fixes.len()
            == state.report.applied_fixes.len() + 1,
{
}

/// An issue that only a person can help with ends the run, and the spec stays as it is.
pub proof fn law_need_human_ends_the_run(state: WorkModel, issue: IssueModel, log: Seq<char>)
    requires
        fixer::action_for(issue) is NeedHuman,
    ensures
        issue_move(state, issue, log).step == WorkflowStep::Done,
        issue_move(state, issue, log).write is None,
        after_issue(state, issue, log).report.status == Status::NeedHuman,
{
}

/// A build that went through is reported as such, whatever becomes of the texts.
pub proof fn law_success_is_reported(state: WorkModel, run: BuildRun, suggestion: SuggestionModel)
    requires
        run.success,
    ensures
        with_suggested(after_build(state, run).report, suggestion).status == Status::BuildSuccess,
        build_move(state, run).step == WorkflowStep::Suggest,
{
}

/// The report on texts that were asked for by themselves.
pub fn summarize_workdir(spec_path: &str, suggestion: TextSuggestion, applied: bool) -> (r: Report)
    ensures
        ({
            let start = ReportModel {
                spec_path: Some(spec_path@),
                llm_text_suggestion: Some(suggestion@),
                ..report::empty_report(Status::BuildSuccess)
            };
            r@ == if applied {
                report::noted(start, "applied summary/description suggestions"@)
            } else {
                start
            }
        }),
{
    let mut r = Report::new(Status::BuildSuccess);
    r.spec_path = Some(spec_path.to_owned());
    if applied {
        r.add_note("applied summary/description suggestions".to_owned());
    }
    r.llm_text_suggestion = Some(suggestion);
    r
}

/// The places in `names` of the names that are `wanted`.
pub open spec fn places_of(names: Seq<Seq<char>>, wanted: Seq<char>) -> Seq<int>
    decreases names.len(),
{
    if names.len() == 0 {
        seq![]
    } else if names.last() == wanted {
        places_of(names.drop_last(), wanted).push(names.len() - 1)
    } else {
        places_of(names.drop_last(), wanted)
    }
}

/// The places in `names` of the names that start with `prefix`.
pub open spec fn places_from(names: Seq<Seq<char>>, prefix: Seq<char>) -> Seq<int>
    decreases names.len(),
{
    if names.len() == 0 {
        seq![]
    } else if text::starts_with(names.last(), prefix) {
        places_from(names.drop_last(), prefix).push(names.len() - 1)
    } else {
        places_from(names.drop_last(), prefix)
    }
}

pub open spec fn as_ints(v: Seq<usize>) -> Seq<int> {
    Seq::new(v.len(), |i: int| v[i] as int)
}

fn push_places(out: &mut Vec<usize>, names: &[String], wanted: &str)
    ensures
        as_ints(final(out)@) == as_ints(old(out)@) + places_of(text::texts(names@), wanted@),
{
    let ghost all = text::texts(names@);
    let ghost start = as_ints(out@);
    let mut i: usize = 0;
    assert(start =~= start + places_of(all.take(0), wanted@));
    while i < names.len()
        invariant
            i <= names@.len(),
            all == text::texts(names@),
            as_ints(out@) == start + places_of(all.take(i as int), wanted@),
        decreases names@.len() - i,
    {
        assert(all[i as int] == names@[i as int]@);
        assert(all.take(i + 1).drop_last() =~= all.take(i as int));
        let ghost before = as_ints(out@);
        if same(names[i].as_str(), wanted) {
            out.push(i);
            assert(as_ints(out@) =~= before.push(i as int));
        }
        i += 1;
        assert(as_ints(out@) =~= start + places_of(all.take(i as int), wanted@));
    }
    assert(all.take(all.len() as int) =~= all);
}

/// The files, of those with the given names, that may hold the metadata of a package, the better
/// ones first.
pub fn metadata_candidates(names: &[String]) -> (r: Vec<usize>)
    ensures
        as_ints(r@) == places_of(text::texts(names@), "PKG-INFO"@) + places_of(
            text::texts(names@),
            "METADATA"@,
        ),
{
    let mut out: Vec<usize> = Vec::new();
    assert(as_ints(out@) =~= seq![]);
    push_places(&mut out, names, "PKG-INFO");
    push_places(&mut out, names, "METADATA");
    assert(as_ints(out@) =~= places_of(text::texts(names@), "PKG-INFO"@) + places_of(
        text::texts(names@),
        "METADATA"@,
    ));
    out
}

/// The files, of those with the given names, that may be the README of a package.
pub fn readme_candidates(names: &[String]) -> (r: Vec<usize>)
    ensures
        as_ints(r@) == places_from(text::texts(names@), "README"@),
{
    let ghost all = text::texts(names@);
    let mut out: Vec<usize> = Vec::new();
    let mut i: usize = 0;
    assert(as_ints(out@) =~= places_from(all.take(0), "README"@));
    while i < names.len()
        invariant
            i <= names@.len(),
            all == text::texts(names@),
            as_ints(out@) == places_from(all.take(i as int), "README"@),
        decreases names@.len() - i,
    {
        assert(all[i as int] == names@[i as int]@);
        assert(all.take(i + 1).drop_last() =~= all.take(i as int));
        let ghost before = as_ints(out@);
        if has_prefix(names[i].as_str(), "README") {
            out.push(i);
            assert(as_ints(out@) =~= before.push(i as int));
        }
        i += 1;
    }
    assert(all.take(all.len() as int) =~= all);
    out
}

} // verus!
