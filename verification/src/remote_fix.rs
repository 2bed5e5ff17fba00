//! The repair of a package whose build on the service has failed, one step after the other.
use vstd::prelude::*;

use crate::analyzer;
use crate::analyzer::{analyze_log, nonempty_texts};
use crate::debug;
use crate::debug::{action_line, issue_line};
use crate::evidence;
use crate::evidence::remote_issue_evidence_lines;
use crate::fixer;
use crate::fixer::{apply_action, contextualize_issue, decide_action};
use crate::graph;
use crate::graph::{parse_dependency_targets, DependencyTarget, TargetModel};
use crate::issue::{ActionModel, BuildAction, BuildIssue, IssueModel};
use crate::ops_log;
use crate::ops_log::{lines2, lines3, lines4, lines5, operation, Operation, OperationModel};
use crate::pieces;
use crate::pieces::{
    copy_texts, decimal3_of, decimal_of, joined, lines_of, path_of, trimmed_each,
};
use crate::pipeline;
use crate::pipeline::{classify_remote_build_status, RemoteBuildState, RemoteModel, MAX_POLLS};
use crate::report;
use crate::report::{push_line, push_prefixed};
use crate::text;
use crate::text::{cat2, cat3, cat5, same};
use crate::upstream;
use crate::upstream::SourceTree;

verus! {

/// What to do after a poll for how a build on the service ends. `None` asks to poll again. A poll
/// that failed has no status.
pub fn wait_for_remote_build_outcome(poll: usize, status: Option<&str>) -> (r: Option<
    RemoteBuildState,
>)
    ensures
        ({
            let state = match status {
                Some(s) => pipeline::remote_state(s@),
                None => RemoteModel::Pending { headline: ""@ },
            };
            if state is Pending {
                if poll < MAX_POLLS {
                    r is None
                } else {
                    r is Some && r->0@ == (RemoteModel::Pending {
                        headline: "timed out waiting for remote build status"@,
                    })
                }
            } else {
                r is Some && r->0@ == state
            }
        }),
{
    if let Some(s) = status {
        let state = classify_remote_build_status(s);
        if !matches!(state, RemoteBuildState::Pending { .. }) {
            return Some(state);
        }
    }
    if poll < MAX_POLLS {
        None
    } else {
        Some(
            RemoteBuildState::Pending {
                headline: "timed out waiting for remote build status".to_owned(),
            },
        )
    }
}

/// Where the log of an attempt is kept.
pub fn remote_build_log_path(package_workspace: &str, package_name: &str, attempt: usize) -> (r:
    String)
    ensures
        r@ == pieces::path_join(
            pieces::path_join(package_workspace@, "logs"@),
            "remote_build_"@ + package_name@ + "_attempt_"@ + pieces::decimal3(attempt as nat)
                + ".log"@,
        ),
{
    let name = cat5(
        "remote_build_",
        package_name,
        "_attempt_",
        decimal3_of(attempt as u64).as_str(),
        ".log",
    );
    path_of(path_of(package_workspace, "logs").as_str(), name.as_str())
}

/// The packages that a build status asks for.
pub fn analyze_remote_status_dependencies(status_text: &str) -> (r: Vec<DependencyTarget>)
    ensures
        graph::target_models(r@) == graph::dependency_targets(analyzer::issue_of(status_text@)),
{
    let issue = analyze_log(status_text);
    parse_dependency_targets(&issue)
}

pub open spec fn dependency_line(target: TargetModel) -> Seq<char> {
    "DEPENDENCY: "@ + target.package + " ["@ + pieces::join(target.features, ", "@) + "]"@
}

pub open spec fn dependency_lines(targets: Seq<TargetModel>) -> Seq<Seq<char>> {
    Seq::new(targets.len(), |i: int| dependency_line(targets[i]))
}

/// What is logged of a status that asks for packages.
pub open spec fn status_lines(
    attempt: nat,
    headline: Seq<char>,
    status: Seq<char>,
    targets: Seq<TargetModel>,
) -> Seq<Seq<char>> {
    seq![
        "ATTEMPT: "@ + pieces::decimal(attempt),
        "HEADLINE: "@ + headline,
        "DETAIL: dependency targets resolved directly from OBS _status"@,
    ] + dependency_lines(targets) + pieces::prefix_each(
        "STATUS: "@,
        analyzer::nonempty(pieces::trim_each(pieces::lines(status))),
    )
}

pub fn remote_status_dependency_lines(
    attempt: usize,
    headline: &str,
    status_text: &str,
    deps: &[DependencyTarget],
) -> (r: Vec<String>)
    ensures
        text::texts(r@) == status_lines(
            attempt as nat,
            headline@,
            status_text@,
            graph::target_models(deps@),
        ),
{
    let mut lines = lines3(
        cat2("ATTEMPT: ", decimal_of(attempt as u64).as_str()),
        cat2("HEADLINE: ", headline),
        "DETAIL: dependency targets resolved directly from OBS _status".to_owned(),
    );
    let ghost head = text::texts(lines@);
    let ghost all = dependency_lines(graph::target_models(deps@));
    let mut i: usize = 0;
    assert(head =~= head + all.take(0));
    while i < deps.len()
        invariant
            i <= deps@.len(),
            all == dependency_lines(graph::target_models(deps@)),
            text::texts(lines@) == head + all.take(i as int),
        decreases deps@.len() - i,
    {
        let dep = &deps[i];
        let features = joined(&dep.features, ", ");
        assert(graph::target_models(deps@)[i as int] == dep@);
        push_line(
            &mut lines,
            cat5("DEPENDENCY: ", dep.package.as_str(), " [", features.as_str(), "]"),
        );
        i += 1;
        assert(text::texts(lines@) =~= head + all.take(i as int));
    }
    assert(all.take(all.len() as int) =~= all);
    let shown = nonempty_texts(&trimmed_each(&lines_of(status_text)));
    push_prefixed(&mut lines, "STATUS: ", &shown);
    lines
}

/// Evidence as it is logged.
pub open spec fn logged_evidence(v: Seq<Seq<char>>) -> Seq<Seq<char>> {
    if v.len() == 0 {
        seq!["EVIDENCE: <none>"@]
    } else {
        pieces::prefix_each("EVIDENCE: "@, v)
    }
}

pub fn push_evidence(lines: &mut Vec<String>, v: &[String])
    ensures
        text::texts(final(lines)@) == text::texts(old(lines)@) + logged_evidence(text::texts(v@)),
{
    assert(text::texts(v@).len() == v@.len());
    if v.len() == 0 {
        push_line(lines, "EVIDENCE: <none>".to_owned());
        assert(text::texts(lines@) =~= text::texts(old(lines)@) + logged_evidence(text::texts(v@)));
    } else {
        push_prefixed(lines, "EVIDENCE: ", v);
    }
}

/// What is logged of a failure.
pub open spec fn failure_lines(
    attempt: nat,
    remote_log_path: Seq<char>,
    headline: Seq<char>,
    issue: IssueModel,
    action: ActionModel,
    log: Seq<char>,
) -> Seq<Seq<char>> {
    seq![
        "ATTEMPT: "@ + pieces::decimal(attempt),
        "HEADLINE: "@ + headline,
        "REMOTE_LOG: "@ + remote_log_path,
        "ISSUE: "@ + debug::issue_text(issue, None),
        "ACTION: "@ + debug::action_text(action, None),
    ] + logged_evidence(evidence::evidence(issue, evidence::remote_words(issue), log))
}

pub fn remote_operation_lines(
    attempt: usize,
    remote_log_path: &str,
    headline: &str,
    issue: &BuildIssue,
    action: &BuildAction,
    log: &str,
) -> (r: Vec<String>)
    ensures
        text::texts(r@) == failure_lines(
            attempt as nat,
            remote_log_path@,
            headline@,
            issue@,
            action@,
            log@,
        ),
{
    let mut lines = lines5(
        cat2("ATTEMPT: ", decimal_of(attempt as u64).as_str()),
        cat2("HEADLINE: ", headline),
        cat2("REMOTE_LOG: ", remote_log_path),
        cat2("ISSUE: ", issue_line(issue).as_str()),
        cat2("ACTION: ", action_line(action).as_str()),
    );
    push_evidence(&mut lines, &remote_issue_evidence_lines(issue, log));
    lines
}

/// What the repair of a package has come to.
#[derive(Debug, Clone)]
pub enum RemoteFixResult {
    Success,
    NeedsDependencies(Vec<DependencyTarget>),
    FallbackToLocal(String),
}

/// The model of a [`RemoteFixResult`].
#[verifier::ext_equal]
pub enum RemoteFixModel {
    Success,
    NeedsDependencies(Seq<TargetModel>),
    FallbackToLocal(Seq<char>),
}

impl View for RemoteFixResult {
    type V = RemoteFixModel;

    open spec fn view(&self) -> RemoteFixModel {
        match *self {
            RemoteFixResult::Success => RemoteFixModel::Success,
            RemoteFixResult::NeedsDependencies(deps) => RemoteFixModel::NeedsDependencies(
                graph::target_models(deps@),
            ),
            RemoteFixResult::FallbackToLocal(reason) => RemoteFixModel::FallbackToLocal(reason@),
        }
    }
}

/// What is to be done next.
#[derive(Debug, Clone)]
pub enum RemoteStep {
    /// Wait until the build on the service ends.
    WaitForBuild,
    /// Ask for the status of the build.
    ReadStatus,
    /// Download the log of the build.
    DownloadLog,
    /// Read the spec in the repository.
    ReadSpec,
    /// Write the spec, commit it and push what was committed.
    CommitSpec { spec_text: String, message: String },
    /// Submit the package again.
    Submit,
    Done(RemoteFixResult),
}

/// The model of a [`RemoteStep`].
#[verifier::ext_equal]
pub enum StepModel {
    WaitForBuild,
    ReadStatus,
    DownloadLog,
    ReadSpec,
    CommitSpec { spec_text: Seq<char>, message: Seq<char> },
    Submit,
    Done(RemoteFixModel),
}

impl View for RemoteStep {
    type V = StepModel;

    open spec fn view(&self) -> StepModel {
        match *self {
            RemoteStep::WaitForBuild => StepModel::WaitForBuild,
            RemoteStep::ReadStatus => StepModel::ReadStatus,
            RemoteStep::DownloadLog => StepModel::DownloadLog,
            RemoteStep::ReadSpec => StepModel::ReadSpec,
            RemoteStep::CommitSpec { spec_text, message } => StepModel::CommitSpec {
                spec_text: spec_text@,
                message: message@,
            },
            RemoteStep::Submit => StepModel::Submit,
            RemoteStep::Done(result) => StepModel::Done(result@),
        }
    }
}

/// The next step, and what is logged before it.
#[derive(Debug, Clone)]
pub struct RemoteMove {
    pub step: RemoteStep,
    pub operation: Option<Operation>,
}

/// The model of a [`RemoteMove`].
#[verifier::ext_equal]
pub struct MoveModel {
    pub step: StepModel,
    pub operation: Option<OperationModel>,
}

impl View for RemoteMove {
    type V = MoveModel;

    open spec fn view(&self) -> MoveModel {
        MoveModel { step: self.step@, operation: ops_log::opt_operation(self.operation) }
    }
}

/// A move to `step` that logs nothing.
pub open spec fn silent(step: StepModel) -> MoveModel {
    MoveModel { step, operation: None }
}

/// The end of the repair on the service.
pub open spec fn fallback(reason: Seq<char>) -> StepModel {
    StepModel::Done(RemoteFixModel::FallbackToLocal(reason))
}

pub open spec fn logged(step: StepModel, title: Seq<char>, lines: Seq<Seq<char>>) -> MoveModel {
    MoveModel { step, operation: Some(OperationModel { title, lines }) }
}

fn quiet_move(step: RemoteStep) -> (r: RemoteMove)
    ensures
        r@ == silent(step@),
{
    RemoteMove { step, operation: None }
}

fn logged_move(step: RemoteStep, title: &str, lines: Vec<String>) -> (r: RemoteMove)
    ensures
        r@ == logged(step@, title@, text::texts(lines@)),
{
    RemoteMove { step, operation: Some(operation(title, lines)) }
}

fn to_local(reason: String) -> (r: RemoteStep)
    ensures
        r@ == fallback(reason@),
{
    RemoteStep::Done(RemoteFixResult::FallbackToLocal(reason))
}

/// The repair of a package on the service.
#[derive(Debug, Clone)]
pub struct RemoteFixLoop {
    pub package_name: String,
    pub revision: String,
    pub max_retries: usize,
    pub attempt: usize,
    pub headline: String,
    pub action: Option<BuildAction>,
    pub analysis: Vec<String>,
}

/// The model of a [`RemoteFixLoop`].
#[verifier::ext_equal]
pub struct LoopModel {
    pub package_name: Seq<char>,
    pub revision: Seq<char>,
    pub max_retries: nat,
    pub attempt: nat,
    pub headline: Seq<char>,
    pub action: Option<ActionModel>,
    pub analysis: Seq<Seq<char>>,
}

impl View for RemoteFixLoop {
    type V = LoopModel;

    open spec fn view(&self) -> LoopModel {
        LoopModel {
            package_name: self.package_name@,
            revision: self.revision@,
            max_retries: self.max_retries as nat,
            attempt: self.attempt as nat,
            headline: self.headline@,
            action: report::opt_action(self.action),
            analysis: text::texts(self.analysis@),
        }
    }
}

/// What follows on a log in which `issue` was found, calling for `action`.
pub open spec fn on_analysis(
    state: LoopModel,
    issue: IssueModel,
    action: ActionModel,
    analysis: Seq<Seq<char>>,
) -> MoveModel {
    let targets = graph::dependency_targets(issue);
    if targets.len() > 0 {
        logged(
            StepModel::Done(RemoteFixModel::NeedsDependencies(targets)),
            "remote-build-needs-dependencies"@,
            analysis,
        )
    } else if action is NeedHuman {
        logged(
            fallback(
                "remote build failed with non-deterministic issue: "@ + state.headline,
            ),
            "remote-build-stop-need-human"@,
            analysis,
        )
    } else if state.attempt > state.max_retries {
        silent(
            fallback(
                "remote deterministic retry limit reached after failure: "@ + state.headline,
            ),
        )
    } else {
        silent(StepModel::ReadSpec)
    }
}

/// What follows on an action that changes nothing.
pub open spec fn on_no_change(state: LoopModel) -> MoveModel {
    logged(
        fallback("remote deterministic action produced no spec change: "@ + state.headline),
        "remote-build-stop-no-spec-change"@,
        state.analysis,
    )
}

impl RemoteFixLoop {
    /// No more attempts are made than one and the retries.
    pub open spec fn wf(&self) -> bool {
        1 <= self@.attempt <= self@.max_retries + 1 <= usize::MAX
    }

    /// Starts with a package that has been submitted.
    pub fn new(package_name: String, revision: String, max_retries: usize) -> (r: Self)
        requires
            max_retries < usize::MAX,
        ensures
            r.wf(),
            r@ == (LoopModel {
                package_name: package_name@,
                revision: revision@,
                max_retries: max_retries as nat,
                attempt: 1,
                headline: ""@,
                action: None,
                analysis: seq![],
            }),
    {
        let r = RemoteFixLoop {
            package_name,
            revision,
            max_retries,
            attempt: 1,
            headline: "".to_owned(),
            action: None,
            analysis: Vec::new(),
        };
        assert(r@.analysis =~= seq![]);
        r
    }

    /// The build on the service has ended, or has been waited for long enough.
    pub fn on_build_state(&mut self, state: RemoteBuildState) -> (r: RemoteMove)
        requires
            old(self).wf(),
        ensures
            final(self).wf(),
            match state@ {
                RemoteModel::Succeeded => final(self)@ == old(self)@ && r@ == silent(
                    StepModel::Done(RemoteFixModel::Success),
                ),
                RemoteModel::Pending { headline } => final(self)@ == old(self)@ && r@ == silent(
                    fallback("remote build did not finish in time: "@ + headline),
                ),
                RemoteModel::Failed { headline } => final(self)@ == (LoopModel {
                    headline,
                    ..old(self)@
                }) && r@ == silent(StepModel::ReadStatus),
            },
    {
        match state {
            RemoteBuildState::Succeeded => quiet_move(RemoteStep::Done(RemoteFixResult::Success)),
            RemoteBuildState::Pending { headline } => quiet_move(
                to_local(cat2("remote build did not finish in time: ", headline.as_str())),
            ),
            RemoteBuildState::Failed { headline } => {
                self.headline = headline;
                quiet_move(RemoteStep::ReadStatus)
            },
        }
    }

    /// The status of the failed build is known. It may name the packages that are missing.
    pub fn on_status(&mut self, status_text: &str) -> (r: RemoteMove)
        requires
            old(self).wf(),
        ensures
            final(self).wf(),
            final(self)@ == old(self)@,
            ({
                let targets = graph::dependency_targets(analyzer::issue_of(status_text@));
                r@ == if targets.len() > 0 {
                    logged(
                        StepModel::Done(RemoteFixModel::NeedsDependencies(targets)),
                        "remote-build-needs-dependencies"@,
                        status_lines(
                            old(self)@.attempt,
                            old(self)@.headline,
                            status_text@,
                            targets,
                        ),
                    )
                } else {
                    silent(StepModel::DownloadLog)
                }
            }),
    {
        let deps = analyze_remote_status_dependencies(status_text);
        assert(graph::target_models(deps@).len() == deps@.len());
        if deps.len() > 0 {
            let lines = remote_status_dependency_lines(
                self.attempt,
                self.headline.as_str(),
                status_text,
                &deps,
            );
            return logged_move(
                RemoteStep::Done(RemoteFixResult::NeedsDependencies(deps)),
                "remote-build-needs-dependencies",
                lines,
            );
        }
        quiet_move(RemoteStep::DownloadLog)
    }

    /// The log of the failed build cannot be had.
    pub fn on_log_unavailable(&mut self, error: &str) -> (r: RemoteMove)
        requires
            old(self).wf(),
        ensures
            final(self).wf(),
            final(self)@ == old(self)@,
            r@ == logged(
                fallback("remote build log unavailable: "@ + error@),
                "remote-build-log-unavailable"@,
                seq![
                    "ATTEMPT: "@ + pieces::decimal(old(self)@.attempt),
                    "HEADLINE: "@ + old(self)@.headline,
                    "ERROR: "@ + error@,
                    "DETAIL: falling back to local checkout because remote log could not be downloaded"@,
                ],
            ),
    {
        let lines = lines4(
            cat2("ATTEMPT: ", decimal_of(self.attempt as u64).as_str()),
            cat2("HEADLINE: ", self.headline.as_str()),
            cat2("ERROR: ", error),
            "DETAIL: falling back to local checkout because remote log could not be downloaded".to_owned(),
        );
        logged_move(
            to_local(cat2("remote build log unavailable: ", error)),
            "remote-build-log-unavailable",
            lines,
        )
    }

    /// The log of the failed build has been downloaded to `remote_log_path`. `tree` is what has
    /// been found of the sources in the workspace.
    pub fn on_log(&mut self, remote_log_path: &str, log: &str, tree: &SourceTree) -> (r: Result<
        RemoteMove,
        String,
    >)
        requires
            old(self).wf(),
        ensures
            final(self).wf(),
            match analyzer::issue_of(log@) {
                IssueModel::InstallModuleMismatch {
                    wrong_module,
                    ..
                } => match upstream::search_tree(*tree, wrong_module) {
                    Ok(module) => r is Ok && on_issue(
                        old(self)@,
                        final(self)@,
                        r->Ok_0@,
                        fixer::refined(analyzer::issue_of(log@), module),
                        remote_log_path@,
                        log@,
                    ),
                    Err(message) => final(self)@ == old(self)@ && r is Err && r->Err_0@
                        == message,
                },
                _ => r is Ok && on_issue(
                    old(self)@,
                    final(self)@,
                    r->Ok_0@,
                    analyzer::issue_of(log@),
                    remote_log_path@,
                    log@,
                ),
            },
    {
        let issue = match contextualize_issue(tree, analyze_log(log)) {
            Ok(issue) => issue,
            Err(message) => return Err(message),
        };
        Ok(self.on_found_issue(remote_log_path, log, &issue))
    }

    /// An issue has been found in the log of the failed build.
    pub fn on_found_issue(&mut self, remote_log_path: &str, log: &str, issue: &BuildIssue) -> (r:
        RemoteMove)
        requires
            old(self).wf(),
        ensures
            final(self).wf(),
            on_issue(old(self)@, final(self)@, r@, issue@, remote_log_path@, log@),
    {
        let action = decide_action(issue);
        let lines = remote_operation_lines(
            self.attempt,
            remote_log_path,
            self.headline.as_str(),
            issue,
            &action,
            log,
        );
        self.analysis = copy_texts(&lines);
        let need_human = action.is_need_human();
        self.action = Some(action);
        let deps = parse_dependency_targets(issue);
        assert(graph::target_models(deps@).len() == deps@.len());
        if deps.len() > 0 {
            return logged_move(
                RemoteStep::Done(RemoteFixResult::NeedsDependencies(deps)),
                "remote-build-needs-dependencies",
                lines,
            );
        }
        if need_human {
            return logged_move(
                to_local(
                    cat2(
                        "remote build failed with non-deterministic issue: ",
                        self.headline.as_str(),
                    ),
                ),
                "remote-build-stop-need-human",
                lines,
            );
        }
        if self.attempt > self.max_retries {
            return quiet_move(
                to_local(
                    cat2(
                        "remote deterministic retry limit reached after failure: ",
                        self.headline.as_str(),
                    ),
                ),
            );
        }
        quiet_move(RemoteStep::ReadSpec)
    }

    /// The spec in the repository has been read.
    pub fn on_spec(&mut self, before: &str) -> (r: RemoteMove)
        requires
            old(self).wf(),
            old(self)@.action is Some,
        ensures
            final(self).wf(),
            final(self)@ == old(self)@,
            ({
                let after = fixer::applied(before@, old(self)@.action->0);
                r@ == if after == before@ {
                    on_no_change(old(self)@)
                } else {
                    silent(
                        StepModel::CommitSpec {
                            spec_text: after,
                            message: "remote-fix "@ + old(self)@.package_name
                                + " after OBS failure"@,
                        },
                    )
                }
            }),
    {
        let after = match &self.action {
            Some(action) => match apply_action(before, action) {
                Ok(after) => after,
                Err(_) => before.to_owned(),
            },
            None => before.to_owned(),
        };
        if same(before, after.as_str()) {
            return self.no_change();
        }
        let message = cat3("remote-fix ", self.package_name.as_str(), " after OBS failure");
        quiet_move(RemoteStep::CommitSpec { spec_text: after, message })
    }

    fn no_change(&self) -> (r: RemoteMove)
        ensures
            r@ == on_no_change(self@),
    {
        logged_move(
            to_local(
                cat2(
                    "remote deterministic action produced no spec change: ",
                    self.headline.as_str(),
                ),
            ),
            "remote-build-stop-no-spec-change",
            copy_texts(&self.analysis),
        )
    }

    /// The spec has been written. There may have been nothing to commit all the same.
    pub fn on_commit(&mut self, committed: bool) -> (r: RemoteMove)
        requires
            old(self).wf(),
        ensures
            final(self).wf(),
            final(self)@ == old(self)@,
            r@ == if committed {
                logged(StepModel::Submit, "remote-build-fixed-spec"@, old(self)@.analysis)
            } else {
                on_no_change(old(self)@)
            },
    {
        if !committed {
            return self.no_change();
        }
        logged_move(RemoteStep::Submit, "remote-build-fixed-spec", copy_texts(&self.analysis))
    }

    /// The package has been submitted again, or not.
    pub fn on_submitted(&mut self, success: bool, stderr: &str) -> (r: RemoteMove)
        requires
            old(self).wf(),
        ensures
            final(self).wf(),
            ({
                let attempt = "ATTEMPT: "@ + pieces::decimal(old(self)@.attempt);
                let again = seq![
                    attempt,
                    "PACKAGE: "@ + old(self)@.package_name,
                    "REVISION: "@ + old(self)@.revision,
                    "DETAIL: deterministic fix submitted back to OBS"@,
                ];
                if !success {
                    final(self)@ == old(self)@ && r@ == logged(
                        fallback(
                            "remote re-submit failed after deterministic fix: "@ + stderr@,
                        ),
                        "remote-resubmit-failed"@,
                        seq![attempt, "STDERR: "@ + stderr@],
                    )
                } else if old(self)@.attempt > old(self)@.max_retries {
                    final(self)@ == old(self)@ && r@ == logged(
                        fallback("remote fix loop exhausted"@),
                        "remote-resubmit"@,
                        again,
                    )
                } else {
                    final(self)@ == (LoopModel {
                        attempt: old(self)@.attempt + 1,
                        ..old(self)@
                    }) && r@ == logged(StepModel::WaitForBuild, "remote-resubmit"@, again)
                }
            }),
    {
        let attempt = cat2("ATTEMPT: ", decimal_of(self.attempt as u64).as_str());
        if !success {
            return logged_move(
                to_local(cat2("remote re-submit failed after deterministic fix: ", stderr)),
                "remote-resubmit-failed",
                lines2(attempt, cat2("STDERR: ", stderr)),
            );
        }
        let lines = lines4(
            attempt,
            cat2("PACKAGE: ", self.package_name.as_str()),
            cat2("REVISION: ", self.revision.as_str()),
            "DETAIL: deterministic fix submitted back to OBS".to_owned(),
        );
        if self.attempt > self.max_retries {
            return logged_move(
                to_local("remote fix loop exhausted".to_owned()),
                "remote-resubmit",
                lines,
            );
        }
        self.attempt += 1;
        logged_move(RemoteStep::WaitForBuild, "remote-resubmit", lines)
    }
}

/// The repair goes on from `before` to `after` by `next`, on an issue that was found in `log`.
pub open spec fn on_issue(
    before: LoopModel,
    after: LoopModel,
    next: MoveModel,
    issue: IssueModel,
    remote_log_path: Seq<char>,
    log: Seq<char>,
) -> bool {
    let action = fixer::action_for(issue);
    let analysis = failure_lines(
        before.attempt,
        remote_log_path,
        before.headline,
        issue,
        action,
        log,
    );
    &&& after == LoopModel { action: Some(action), analysis, ..before }
    &&& next == on_analysis(before, issue, action, analysis)
}

/// A spec is only changed by an action that no person has to decide on, and while retries are left.
pub proof fn law_spec_is_read_for_safe_actions_only(
    state: LoopModel,
    issue: IssueModel,
    analysis: Seq<Seq<char>>,
)
    requires
        on_analysis(state, issue, fixer::action_for(issue), analysis).step is ReadSpec,
    ensures
        !(fixer::action_for(issue) is NeedHuman),
        state.attempt <= state.max_retries,
        graph::dependency_targets(issue).len() == 0,
{
}

} // verus!
