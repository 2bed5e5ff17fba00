//! The life of one package from its spec to a finished build.
use vstd::prelude::*;

use crate::graph;
use crate::graph::{
    parse_dependency_targets, DependencyTarget, PackageSource, SourceModel, TargetModel,
};
use crate::issue::copy_opt;
use crate::obs_api::EbfSubmitResult;
use crate::ops_log::{lines5, operation, Operation, OperationModel};
use crate::pieces;
use crate::pieces::{decimal_of, path_of};
use crate::pipeline;
use crate::pipeline::{infer_local_workdir_package_name, repo_package_dir};
use crate::remote_fix::{RemoteFixModel, RemoteFixResult};
use crate::report;
use crate::report::{status_name, Report, ReportModel, Status};
use crate::specfile;
use crate::specfile::add_extras_subpackages;
use crate::text;
use crate::text::{cat2, cat3, cat4, same};
use crate::upstream;
use crate::upstream::python_package_name;

verus! {

/// What the build of a package has come to.
#[derive(Debug, Clone)]
pub enum BuildOutcome {
    Success { report: Option<Box<Report>> },
    NeedsDependencies(Vec<DependencyTarget>),
    Failed(String),
}

/// The model of a [`BuildOutcome`].
#[verifier::ext_equal]
pub enum OutcomeModel {
    Success { report: Option<ReportModel> },
    NeedsDependencies(Seq<TargetModel>),
    Failed(Seq<char>),
}

impl View for BuildOutcome {
    type V = OutcomeModel;

    open spec fn view(&self) -> OutcomeModel {
        match *self {
            BuildOutcome::Success { report } => OutcomeModel::Success {
                report: match report {
                    Some(r) => Some(r@),
                    None => None,
                },
            },
            BuildOutcome::NeedsDependencies(deps) => OutcomeModel::NeedsDependencies(
                graph::target_models(deps@),
            ),
            BuildOutcome::Failed(reason) => OutcomeModel::Failed(reason@),
        }
    }
}

/// How a package is built.
#[derive(Debug, Clone, PartialEq, Eq)]
pub enum NodeExecutionMode {
    /// Submitted to the service, and built here beside it.
    RemoteBacked { package_name: String },
    /// Built in its working directory.
    LocalWorkdir { package_name: String, workdir: String },
}

/// The model of a [`NodeExecutionMode`].
#[verifier::ext_equal]
pub enum ModeModel {
    RemoteBacked { package_name: Seq<char> },
    LocalWorkdir { package_name: Seq<char>, workdir: Seq<char> },
}

impl View for NodeExecutionMode {
    type V = ModeModel;

    open spec fn view(&self) -> ModeModel {
        match *self {
            NodeExecutionMode::RemoteBacked { package_name } => ModeModel::RemoteBacked {
                package_name: package_name@,
            },
            NodeExecutionMode::LocalWorkdir { package_name, workdir } => ModeModel::LocalWorkdir {
                package_name: package_name@,
                workdir: workdir@,
            },
        }
    }
}

/// The package that the spec of a working directory is for.
pub fn local_workdir_package_name(spec_text: &str, stem: &str) -> (r: String)
    ensures
        r@ == pipeline::workdir_package(spec_text@, stem@),
{
    infer_local_workdir_package_name(spec_text, stem)
}

/// How a package from `source` is built. `spec_text` and `stem` are the text of the spec in a
/// working directory and the name of its file; a package from elsewhere does not need them.
pub fn resolve_execution_mode(source: &PackageSource, spec_text: &str, stem: &str) -> (r:
    NodeExecutionMode)
    ensures
        r@ == (match source@ {
            SourceModel::Pypi { name, .. } => ModeModel::RemoteBacked {
                package_name: upstream::package_name(name),
            },
            SourceModel::ExistingRepo { package } => ModeModel::RemoteBacked {
                package_name: upstream::package_name(package),
            },
            SourceModel::LocalWorkdir { path } => ModeModel::LocalWorkdir {
                package_name: pipeline::workdir_package(spec_text@, stem@),
                workdir: path,
            },
        }),
{
    match source {
        PackageSource::Pypi { name, version: _ } => NodeExecutionMode::RemoteBacked {
            package_name: python_package_name(name.as_str()),
        },
        PackageSource::ExistingRepo { package } => NodeExecutionMode::RemoteBacked {
            package_name: python_package_name(package.as_str()),
        },
        PackageSource::LocalWorkdir { path } => NodeExecutionMode::LocalWorkdir {
            package_name: local_workdir_package_name(spec_text, stem),
            workdir: path.clone(),
        },
    }
}

/// Where the spec of a package comes from.
#[derive(Debug, Clone, PartialEq, Eq)]
pub enum PrepareSpecMode {
    UseExisting(String),
    Generate { pypi_name: String, version: Option<String> },
}

/// The spec of a package: that of the repository where there is one, else a generated one for a
/// package from PyPI.
pub fn resolve_prepare_spec_mode(
    repo_dir: &str,
    package_name: &str,
    present: bool,
    source: &PackageSource,
) -> (r: Result<PrepareSpecMode, String>)
    ensures
        match r {
            Ok(PrepareSpecMode::UseExisting(dir)) => present && dir@ == pipeline::package_dir(
                repo_dir@,
                package_name@,
            ),
            Ok(PrepareSpecMode::Generate { pypi_name, version }) => !present && source@
                == (SourceModel::Pypi { name: pypi_name@, version: text::opt_text(version) }),
            Err(message) => !present && match source@ {
                SourceModel::Pypi { .. } => false,
                SourceModel::ExistingRepo { package } => message@ == "existing package "@ + package
                    + " not found under "@ + pieces::path_join(repo_dir@, "SPECS"@),
                SourceModel::LocalWorkdir { path } => message@ == "local workdir "@ + path
                    + " does not support prepare_spec"@,
            },
        },
{
    if present {
        return Ok(PrepareSpecMode::UseExisting(repo_package_dir(repo_dir, package_name)));
    }
    match source {
        PackageSource::Pypi { name, version } => Ok(
            PrepareSpecMode::Generate { pypi_name: name.clone(), version: copy_opt(version) },
        ),
        PackageSource::ExistingRepo { package } => Err(
            cat4(
                "existing package ",
                package.as_str(),
                " not found under ",
                path_of(repo_dir, "SPECS").as_str(),
            ),
        ),
        PackageSource::LocalWorkdir { path } => Err(
            cat3("local workdir ", path.as_str(), " does not support prepare_spec"),
        ),
    }
}

/// What is written for a spec of the repository that is to have `features`, where that changes it.
pub fn existing_spec_with_features(spec_text: &str, features: &[String]) -> (r: Option<String>)
    ensures
        ({
            let after = specfile::with_extras(spec_text@, text::texts(features@));
            text::opt_text(r) == if after == spec_text@ {
                None
            } else {
                Some(after)
            }
        }),
{
    let after = add_extras_subpackages(spec_text, features);
    if same(after.as_str(), spec_text) {
        None
    } else {
        Some(after)
    }
}

/// What is written for a generated spec that is to have `features`, where there are any.
pub fn generated_spec_with_features(spec_text: &str, features: &[String]) -> (r: Option<String>)
    ensures
        text::opt_text(r) == if features@.len() == 0 {
            None
        } else {
            Some(specfile::with_extras(spec_text@, text::texts(features@)))
        },
{
    if features.len() == 0 {
        None
    } else {
        Some(add_extras_subpackages(spec_text, features))
    }
}

pub fn add_commit_message(package_name: &str) -> (r: String)
    ensures
        r@ == "add/update "@ + package_name@,
{
    cat2("add/update ", package_name)
}

pub fn local_fix_commit_message(package_name: &str) -> (r: String)
    ensures
        r@ == "update "@ + package_name@ + " after local fix"@,
{
    cat3("update ", package_name, " after local fix")
}

/// Where the logs of a package are kept.
pub fn package_workspace_root(current_dir: &str, package_name: &str) -> (r: String)
    ensures
        r@ == pieces::path_join(pieces::path_join(current_dir@, "workspaces"@), package_name@),
{
    path_of(path_of(current_dir, "workspaces").as_str(), package_name)
}

/// What a submission that has not gone through comes to.
pub open spec fn submit_failure(what: Seq<char>, result: EbfSubmitResult) -> OutcomeModel {
    OutcomeModel::Failed(
        what + " failed: "@ + pieces::decimal(result.success_count as nat) + "/"@
            + pieces::decimal(result.total_count as nat) + " succeeded; stderr: "@
            + result.stderr@,
    )
}

fn submit_outcome(what: &str, result: &EbfSubmitResult) -> (r: Option<BuildOutcome>)
    ensures
        match r {
            Some(outcome) => !result.success && outcome@ == submit_failure(what@, *result),
            None => result.success,
        },
{
    if result.success {
        return None;
    }
    let mut reason = cat4(
        what,
        " failed: ",
        decimal_of(result.success_count as u64).as_str(),
        "/",
    );
    reason.append(decimal_of(result.total_count as u64).as_str());
    reason.append(" succeeded; stderr: ");
    reason.append(result.stderr.as_str());
    Some(BuildOutcome::Failed(reason))
}

/// What the first submission of a package comes to, where that ends its build.
pub fn on_submit(result: &EbfSubmitResult) -> (r: Option<BuildOutcome>)
    ensures
        match r {
            Some(outcome) => !result.success && outcome@ == submit_failure("ebf submit"@, *result),
            None => result.success,
        },
{
    submit_outcome("ebf submit", result)
}

/// What a later submission of a package comes to, where that ends its build.
pub fn on_resubmit(result: &EbfSubmitResult) -> (r: Option<BuildOutcome>)
    ensures
        match r {
            Some(outcome) => !result.success && outcome@ == submit_failure(
                "ebf re-submit"@,
                *result,
            ),
            None => result.success,
        },
{
    submit_outcome("ebf re-submit", result)
}

/// What is logged of a submission.
pub fn submit_operation(
    package_name: &str,
    project: &str,
    revision: &str,
    result: &EbfSubmitResult,
) -> (r: Operation)
    ensures
        r@ == (OperationModel {
            title: "remote-submit"@,
            lines: seq![
                "PACKAGE: "@ + package_name@,
                "PROJECT: "@ + project@,
                "REVISION: "@ + revision@,
                "SUCCESS_COUNT: "@ + pieces::decimal(result.success_count as nat),
                "TOTAL_COUNT: "@ + pieces::decimal(result.total_count as nat),
            ],
        }),
{
    operation(
        "remote-submit",
        lines5(
            cat2("PACKAGE: ", package_name),
            cat2("PROJECT: ", project),
            cat2("REVISION: ", revision),
            cat2("SUCCESS_COUNT: ", decimal_of(result.success_count as u64).as_str()),
            cat2("TOTAL_COUNT: ", decimal_of(result.total_count as u64).as_str()),
        ),
    )
}

/// The packages that a report asks for.
pub open spec fn report_targets(report: ReportModel) -> Seq<TargetModel> {
    match report.final_issue {
        Some(issue) => graph::dependency_targets(issue),
        None => seq![],
    }
}

fn report_targets_of(report: &Report) -> (r: Vec<DependencyTarget>)
    ensures
        graph::target_models(r@) == report_targets(report@),
{
    match &report.final_issue {
        Some(issue) => parse_dependency_targets(issue),
        None => {
            let v: Vec<DependencyTarget> = Vec::new();
            assert(graph::target_models(v@) =~= seq![]);
            v
        },
    }
}

/// What a build here that has not gone through comes to.
pub open spec fn local_failure(report: ReportModel) -> OutcomeModel {
    if report_targets(report).len() > 0 {
        OutcomeModel::NeedsDependencies(report_targets(report))
    } else {
        OutcomeModel::Failed(
            "build failed after "@ + pieces::decimal(report.build_attempts as nat)
                + " attempts, final status: "@ + report::status_text(report.status),
        )
    }
}

/// What is done with the report on a build here that is to count.
#[derive(Debug, Clone)]
pub enum LocalFinish {
    /// Copy the spec back, submit it where that changed it, and wait for the service.
    Confirm { spec_path: String },
    Done(BuildOutcome),
}

/// What is done with the report on a build here. One that went through has a spec.
pub fn finish_after_local_report(report: &Report) -> (r: Result<LocalFinish, String>)
    ensures
        match r {
            Ok(LocalFinish::Confirm { spec_path }) => report@.status == Status::BuildSuccess
                && report@.spec_path == Some(spec_path@),
            Ok(LocalFinish::Done(outcome)) => report@.status != Status::BuildSuccess && outcome@
                == local_failure(report@),
            Err(message) => report@.status == Status::BuildSuccess && report@.spec_path is None
                && message@ == "missing spec path after build success"@,
        },
{
    if report.status == Status::BuildSuccess {
        return match &report.spec_path {
            Some(spec_path) => Ok(LocalFinish::Confirm { spec_path: spec_path.clone() }),
            None => Err("missing spec path after build success".to_owned()),
        };
    }
    let deps = report_targets_of(report);
    assert(graph::target_models(deps@).len() == deps@.len());
    if deps.len() > 0 {
        return Ok(LocalFinish::Done(BuildOutcome::NeedsDependencies(deps)));
    }
    let reason = cat4(
        "build failed after ",
        decimal_of(report.build_attempts as u64).as_str(),
        " attempts, final status: ",
        status_name(report.status).as_str(),
    );
    Ok(LocalFinish::Done(BuildOutcome::Failed(reason)))
}

/// What a confirmed build comes to.
pub fn confirmed_outcome(report: Report) -> (r: BuildOutcome)
    ensures
        r@ == (OutcomeModel::Success { report: Some(report@) }),
{
    BuildOutcome::Success { report: Some(Box::new(report)) }
}

/// What a build in a working directory comes to: its report, whatever that says.
pub fn local_workdir_outcome_from_report(_package_name: &str, report: &Report) -> (r: BuildOutcome)
    ensures
        r@ == (OutcomeModel::Success { report: Some(report@) }),
{
    BuildOutcome::Success { report: Some(Box::new(report.duplicate())) }
}

/// A package that is built on the service and here at the same time.
#[derive(Debug)]
pub struct BuildRace {
    /// The report on the build here, where that ended without deciding anything.
    pub local: Option<Report>,
    /// The service has given up, so the build here decides.
    pub fell_back: bool,
}

/// The model of a [`BuildRace`].
#[verifier::ext_equal]
pub struct RaceState {
    pub local: Option<ReportModel>,
    pub fell_back: bool,
}

/// What comes of the end of one of the two builds.
#[derive(Debug)]
pub enum RaceStep {
    /// The package has been decided on.
    Done(BuildOutcome),
    /// The build here decides, by this report.
    FinishLocal(Report),
    /// The build here decides; it has not ended yet.
    AwaitLocal,
    /// The build on the service decides; it has not ended yet.
    AwaitRemote,
}

/// The model of a [`RaceStep`].
#[verifier::ext_equal]
pub enum RaceModel {
    Done(OutcomeModel),
    FinishLocal(ReportModel),
    AwaitLocal,
    AwaitRemote,
}

impl View for RaceStep {
    type V = RaceModel;

    open spec fn view(&self) -> RaceModel {
        match *self {
            RaceStep::Done(outcome) => RaceModel::Done(outcome@),
            RaceStep::FinishLocal(report) => RaceModel::FinishLocal(report@),
            RaceStep::AwaitLocal => RaceModel::AwaitLocal,
            RaceStep::AwaitRemote => RaceModel::AwaitRemote,
        }
    }
}

impl View for BuildRace {
    type V = RaceState;

    open spec fn view(&self) -> RaceState {
        RaceState {
            local: match self.local {
                Some(report) => Some(report@),
                None => None,
            },
            fell_back: self.fell_back,
        }
    }
}

/// What comes of the end of the repair on the service.
pub open spec fn after_remote(race: RaceState, result: RemoteFixModel) -> RaceModel {
    match result {
        RemoteFixModel::Success => RaceModel::Done(OutcomeModel::Success { report: None }),
        RemoteFixModel::NeedsDependencies(deps) => RaceModel::Done(
            OutcomeModel::NeedsDependencies(deps),
        ),
        RemoteFixModel::FallbackToLocal(_) => match race.local {
            Some(report) => RaceModel::FinishLocal(report),
            None => RaceModel::AwaitLocal,
        },
    }
}

/// What comes of the end of the build here.
pub open spec fn after_local(race: RaceState, report: ReportModel) -> RaceModel {
    if race.fell_back || report.status == Status::BuildSuccess {
        RaceModel::FinishLocal(report)
    } else if report_targets(report).len() > 0 {
        RaceModel::Done(OutcomeModel::NeedsDependencies(report_targets(report)))
    } else {
        RaceModel::AwaitRemote
    }
}

impl BuildRace {
    pub fn new() -> (r: Self)
        ensures
            r@ == (RaceState { local: None, fell_back: false }),
    {
        BuildRace { local: None, fell_back: false }
    }

    /// The repair on the service has ended.
    pub fn on_remote(&mut self, result: RemoteFixResult) -> (r: RaceStep)
        ensures
            r@ == after_remote(old(self)@, result@),
            final(self)@ == if result@ is FallbackToLocal {
                RaceState { local: None, fell_back: true }
            } else {
                old(self)@
            },
    {
        match result {
            RemoteFixResult::Success => RaceStep::Done(BuildOutcome::Success { report: None }),
            RemoteFixResult::NeedsDependencies(deps) => RaceStep::Done(
                BuildOutcome::NeedsDependencies(deps),
            ),
            RemoteFixResult::FallbackToLocal(_) => {
                self.fell_back = true;
                match self.local.take() {
                    Some(report) => RaceStep::FinishLocal(report),
                    None => RaceStep::AwaitLocal,
                }
            },
        }
    }

    /// The build here has ended.
    pub fn on_local(&mut self, report: Report) -> (r: RaceStep)
        ensures
            r@ == after_local(old(self)@, report@),
            final(self)@ == if after_local(old(self)@, report@) is AwaitRemote {
                RaceState { local: Some(report@), ..old(self)@ }
            } else {
                old(self)@
            },
    {
        if self.fell_back || report.status == Status::BuildSuccess {
            return RaceStep::FinishLocal(report);
        }
        let deps = report_targets_of(&report);
        assert(graph::target_models(deps@).len() == deps@.len());
        if deps.len() > 0 {
            return RaceStep::Done(BuildOutcome::NeedsDependencies(deps));
        }
        self.local = Some(report);
        RaceStep::AwaitRemote
    }
}

/// Once the service gives up, the build here decides, whichever of the two ends first, and it is
/// not run again.
pub proof fn law_local_report_is_kept(report: ReportModel, reason: Seq<char>)
    ensures
        ({
            let start = RaceState { local: None, fell_back: false };
            let gave_up = RemoteFixModel::FallbackToLocal(reason);
            let ended = RaceState { local: Some(report), fell_back: false };
            let waits = RaceState { local: None, fell_back: true };
            &&& after_remote(start, gave_up) == RaceModel::AwaitLocal
            &&& after_local(waits, report) == RaceModel::FinishLocal(report)
            &&& after_local(start, report) is AwaitRemote ==> after_remote(ended, gave_up)
                == RaceModel::FinishLocal(report) && local_failure(report) is Failed
        }),
{
}

} // verus!
