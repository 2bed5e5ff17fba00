//! Laws of builds on the service: how they stand, what they come to, and how they are reported.
use vstd::prelude::*;

use crate::config;
use crate::config::PackfixConfig;
use crate::engine;
use crate::engine::{OutcomeModel, RaceModel, RaceState};
use crate::fixer;
use crate::graph;
use crate::graph::SourceModel;
use crate::issue::IssueModel;
use crate::line_laws;
use crate::pipeline;
use crate::pipeline::{PypiModel, RemoteModel};
use crate::remote_fix;
use crate::remote_fix::{LoopModel, RemoteFixModel, StepModel};
use crate::report::{ReportModel, Status};
use crate::scheduler::ResultModel;
use crate::text;
use crate::upstream;

verus! {

/// A status that names a way in which a build does not go through.
pub open spec fn names_failure(status: Seq<char>) -> bool {
    ||| text::contains(status, "failed"@)
    ||| text::contains(status, "broken"@)
    ||| text::contains(status, "unresolvable"@)
    ||| text::contains(status, "disabled"@)
    ||| text::contains(status, "excluded"@)
}

/// A build has failed where its status names a failure; it has gone through where the status says
/// so and names none; and else it goes on.
pub proof fn law_status_says_how_a_build_stands(status: Seq<char>)
    ensures
        pipeline::remote_state(status) is Failed <==> names_failure(status),
        pipeline::remote_state(status) is Succeeded <==> !names_failure(status) && text::contains(
            status,
            "succeeded"@,
        ),
        pipeline::remote_state(status) is Pending <==> !names_failure(status) && !text::contains(
            status,
            "succeeded"@,
        ),
{
}

/// The headline of a status is its first line, without the white space around it.
pub proof fn law_headline_is_the_first_line(first: Seq<char>, rest: Seq<char>)
    requires
        !first.contains('\n'),
        first.len() > 0 ==> first.last() != '\r',
    ensures
        pipeline::headline_of(first + "\n"@ + rest) == text::trim(first),
        first.len() > 0 ==> pipeline::headline_of(first) == text::trim(first),
        names_failure(first + "\n"@ + rest) ==> pipeline::remote_state(first + "\n"@ + rest)
            == (RemoteModel::Failed { headline: text::trim(first) }),
{
    line_laws::lemma_lines_cons(first, rest);
    line_laws::lemma_lines_single(first);
}

/// The sources of a package can be had where the status of the package is not blank and tells of
/// nothing that is in the way.
pub proof fn law_checkout_needs_a_clear_status(status: Seq<char>)
    ensures
        pipeline::checkout_ready(status) <==> text::trim(status).len() > 0 && !text::contains(
            text::trim(status),
            "blocked"@,
        ) && !text::contains(text::trim(status), "broken"@),
{
}

/// The first poll is made at once, each of the next four waits five seconds longer than the one
/// before, and the others wait as long as the fifth.
pub proof fn law_polls_wait_five_seconds_more(k: int)
    requires
        1 <= k,
    ensures
        pipeline::poll_delay(1) == 0,
        k < 5 ==> pipeline::poll_delay(k + 1) == pipeline::poll_delay(k) + 5,
        k >= 5 ==> pipeline::poll_delay(k + 1) == pipeline::poll_delay(k),
{
}

/// The project of a build is the one that the command names, else the one that the command line
/// names, else the configured one.
pub proof fn law_project_is_named(
    given: Seq<char>,
    cli: Option<Seq<char>>,
    other: Seq<char>,
    cfg: Option<&PackfixConfig>,
)
    ensures
        pipeline::project_of(Some(given), cli, cfg) == given,
        pipeline::project_of(None, Some(other), cfg) == other,
        match cfg {
            Some(c) => c.obs matches Some(obs) ==> obs.default_project matches Some(p)
                ==> pipeline::project_of(None, None, cfg) == p@,
            None => pipeline::project_of(None, None, cfg) == config::OBS_PROJECT@,
        },
{
}

/// The plan for packages from PyPI builds each of them, in order, under its package name and from
/// its project in the version that is asked for. It goes under the revision of the first, else
/// under the name of the only package.
pub proof fn law_plan_builds_every_package(
    requests: Seq<PypiModel>,
    cli: Option<Seq<char>>,
    cfg: Option<&PackfixConfig>,
    stamp: u64,
    i: int,
)
    requires
        0 <= i < requests.len(),
    ensures
        ({
            let plan = pipeline::pypi_plan(requests, cli, cfg, stamp);
            let root = plan.roots[i];
            &&& plan.roots.len() == requests.len()
            &&& plan.root_inputs.len() == requests.len()
            &&& plan.root_inputs[i] == requests[i].pypi_name
            &&& root.source == SourceModel::Pypi {
                name: requests[i].pypi_name,
                version: requests[i].version,
            }
            &&& root.features == requests[i].feature_declarations
            &&& root.package == requests[i].pypi_name || root.package == "python-"@
                + requests[i].pypi_name
            &&& text::starts_with(root.package, "python-"@)
            &&& requests[0].revision matches Some(revision) ==> plan.revision == revision
            &&& requests[0].revision is None && requests.len() == 1 ==> plan.revision
                == requests[0].pypi_name
        }),
{
    lemma_package_name(requests[i].pypi_name);
}

proof fn lemma_package_name(name: Seq<char>)
    ensures
        text::starts_with(upstream::package_name(name), "python-"@),
{
    let p = "python-"@;
    if !text::starts_with(name, p) {
        assert((p + name).subrange(0, p.len() as int) =~= p);
    }
}

/// The plan for packages of the repository builds each of them, in order, from there.
pub proof fn law_plan_builds_every_existing_package(
    packages: Seq<Seq<char>>,
    project: Option<Seq<char>>,
    revision: Option<Seq<char>>,
    cli: Option<Seq<char>>,
    cfg: Option<&PackfixConfig>,
    stamp: u64,
    i: int,
)
    requires
        0 <= i < packages.len(),
    ensures
        ({
            let plan = pipeline::existing_plan(packages, project, revision, cli, cfg, stamp);
            let root = plan.roots[i];
            &&& plan.roots.len() == packages.len()
            &&& plan.root_inputs == packages
            &&& root.source == SourceModel::ExistingRepo { package: root.package }
            &&& root.features.len() == 0
            &&& root.package == packages[i] || root.package == "python-"@ + packages[i]
            &&& text::starts_with(root.package, "python-"@)
            &&& revision matches Some(given) ==> plan.revision == given
            &&& revision is None && packages.len() == 1 ==> text::starts_with(
                plan.revision,
                "rebuild-"@ + root.package + "-"@,
            )
        }),
{
    lemma_package_name(packages[i]);
    let plan = pipeline::existing_plan(packages, project, revision, cli, cfg, stamp);
    if revision is None && packages.len() == 1 {
        let head = "rebuild-"@ + plan.roots[0].package + "-"@;
        assert(plan.revision.subrange(0, head.len() as int) =~= head);
    }
}

/// What is reported of a package is its first result.
pub proof fn law_first_result_counts(results: Seq<ResultModel>, p: Seq<char>, k: int)
    requires
        0 <= k < results.len(),
        results[k].package == p,
        forall|j: int| 0 <= j < k ==> (#[trigger] results[j]).package != p,
    ensures
        pipeline::result_from(results, p, 0) == Some(results[k].outcome),
{
    lemma_result_from(results, p, k, 0);
}

proof fn lemma_result_from(results: Seq<ResultModel>, p: Seq<char>, k: int, i: int)
    requires
        0 <= i <= k < results.len(),
        results[k].package == p,
        forall|j: int| 0 <= j < k ==> (#[trigger] results[j]).package != p,
    ensures
        pipeline::result_from(results, p, i) == Some(results[k].outcome),
    decreases k - i,
{
    if i < k {
        assert(results[i].package != p);
        lemma_result_from(results, p, k, i + 1);
    }
}

/// The report on a root says that it was built exactly where it was, and names the package. What
/// a build here took is taken over, and so is why a build failed.
pub proof fn law_root_is_reported(
    root: Seq<char>,
    roots: Seq<Seq<char>>,
    outcome: OutcomeModel,
    results: Seq<ResultModel>,
    current_dir: Seq<char>,
)
    ensures
        ({
            let r = pipeline::root_report(root, roots, outcome, results, current_dir);
            &&& r.package_name == Some(root)
            &&& r.status == Status::BuildSuccess <==> outcome is Success
            &&& r.status == Status::BuildSuccess || r.status == Status::Failed
            &&& outcome matches OutcomeModel::Failed(reason) ==> r.notes.len() > 0 && r.notes[0]
                == "root build failed: "@ + reason
            &&& outcome matches OutcomeModel::Success { report: Some(inner) } ==> {
                &&& r.build_attempts == inner.build_attempts
                &&& r.fixes_applied == inner.fixes_applied
                &&& r.last_log_path == inner.last_log_path
                &&& r.notes.take(inner.notes.len() as int) == inner.notes
            }
        }),
{
    let r = pipeline::root_report(root, roots, outcome, results, current_dir);
    if let OutcomeModel::Success { report: Some(inner) } = outcome {
        assert(r.notes.take(inner.notes.len() as int) =~= inner.notes);
    }
}

/// A note on a dependency: it names the package, and says what became of it.
pub open spec fn notes_dependency(note: Seq<char>, result: ResultModel) -> bool {
    &&& text::starts_with(note, "  dependency "@ + result.package + ": "@)
    &&& result.outcome is Success ==> text::ends_with(note, ": success"@)
    &&& result.outcome matches OutcomeModel::Failed(reason) ==> text::ends_with(
        note,
        "failed ("@ + reason + ")"@,
    )
}

proof fn lemma_dependency_note(result: ResultModel)
    ensures
        notes_dependency(pipeline::dependency_note(result), result),
{
    reveal_strlit(": success");
    reveal_strlit(": needs-deps");
    reveal_strlit(": failed (");
    reveal_strlit("failed (");
    reveal_strlit(": ");
    let note = pipeline::dependency_note(result);
    let head = "  dependency "@ + result.package + ": "@;
    assert(note.subrange(0, head.len() as int) =~= head);
    match result.outcome {
        OutcomeModel::Success { .. } => {
            assert(note.subrange(note.len() - 9, note.len() as int) =~= ": success"@);
        },
        OutcomeModel::Failed(reason) => {
            let tail = "failed ("@ + reason + ")"@;
            assert(note.subrange(note.len() - tail.len(), note.len() as int) =~= tail);
        },
        OutcomeModel::NeedsDependencies(_) => {},
    }
}

/// Every package that was built for a root, and is no root, is noted in the report on the root.
pub proof fn law_dependencies_are_noted(
    root: Seq<char>,
    roots: Seq<Seq<char>>,
    outcome: OutcomeModel,
    results: Seq<ResultModel>,
    current_dir: Seq<char>,
    k: int,
) -> (i: int)
    requires
        0 <= k < results.len(),
        results[k].package != root,
        !roots.contains(results[k].package),
    ensures
        ({
            let notes = pipeline::root_report(root, roots, outcome, results, current_dir).notes;
            0 <= i < notes.len() && notes_dependency(notes[i], results[k])
        }),
{
    let own = pipeline::root_notes(outcome);
    let j = lemma_dependency_noted(results, root, roots, k);
    lemma_dependency_note(results[k]);
    own.len() + j
}

proof fn lemma_dependency_noted(
    results: Seq<ResultModel>,
    root: Seq<char>,
    roots: Seq<Seq<char>>,
    k: int,
) -> (j: int)
    requires
        0 <= k < results.len(),
        results[k].package != root,
        !roots.contains(results[k].package),
    ensures
        0 <= j < pipeline::dependency_notes(results, root, roots).len(),
        pipeline::dependency_notes(results, root, roots)[j] == pipeline::dependency_note(
            results[k],
        ),
    decreases results.len(),
{
    if k < results.len() - 1 {
        lemma_dependency_noted(results.drop_last(), root, roots, k)
    } else {
        pipeline::dependency_notes(results.drop_last(), root, roots).len() as int
    }
}

/// The notes on dependencies are as many as the results for packages that are no roots.
pub proof fn law_roots_are_not_noted(
    root: Seq<char>,
    roots: Seq<Seq<char>>,
    results: Seq<ResultModel>,
)
    requires
        forall|k: int|
            0 <= k < results.len() ==> (#[trigger] results[k]).package == root || roots.contains(
                results[k].package,
            ),
    ensures
        pipeline::dependency_notes(results, root, roots).len() == 0,
    decreases results.len(),
{
    if results.len() > 0 {
        let rest = results.drop_last();
        assert forall|k: int| 0 <= k < rest.len() implies (#[trigger] rest[k]).package == root
            || roots.contains(rest[k].package) by {
            assert(rest[k] == results[k]);
        }
        law_roots_are_not_noted(root, roots, rest);
        assert(results[results.len() - 1] == results.last());
    }
}

/// A failure on the service for want of packages asks for these. One that a fix is known for is
/// fixed while retries are left. Any other ends the repair there, and the build here decides.
pub proof fn law_remote_failure_is_fixed_while_it_can_be(
    state: LoopModel,
    issue: IssueModel,
    analysis: Seq<Seq<char>>,
)
    ensures
        ({
            let action = fixer::action_for(issue);
            let targets = graph::dependency_targets(issue);
            let step = remote_fix::on_analysis(state, issue, action, analysis).step;
            &&& targets.len() > 0 ==> step == StepModel::Done(
                RemoteFixModel::NeedsDependencies(targets),
            )
            &&& targets.len() == 0 && !(action is NeedHuman) && state.attempt <= state.max_retries
                ==> step is ReadSpec
            &&& targets.len() == 0 && (action is NeedHuman || state.attempt > state.max_retries)
                ==> step is Done && step->Done_0 is FallbackToLocal
        }),
{
}

/// Only requirements that no package provides ask for packages, and each of them that is on a
/// Python module asks for one.
pub proof fn law_unresolvable_issue_asks_for_packages(issue: IssueModel)
    ensures
        !(issue is DependencyUnresolvable) ==> graph::dependency_targets(issue).len() == 0,
        issue matches IssueModel::DependencyUnresolvable { deps } ==> graph::dependency_targets(
            issue,
        ) == graph::targets_of(deps),
{
}

/// Whichever of the two builds of a package ends first with an answer decides: the service by a
/// success or by the packages that it asks for, the build here by a success or by the packages
/// that its log asks for. Neither decides by failing while the other still runs.
pub proof fn law_first_answer_decides(race: RaceState, report: ReportModel)
    ensures
        engine::after_remote(race, RemoteFixModel::Success) == RaceModel::Done(
            OutcomeModel::Success { report: None },
        ),
        forall|deps| #[trigger]
            engine::after_remote(race, RemoteFixModel::NeedsDependencies(deps)) == RaceModel::Done(
                OutcomeModel::NeedsDependencies(deps),
            ),
        report.status == Status::BuildSuccess ==> engine::after_local(race, report)
            == RaceModel::FinishLocal(report),
        report.status != Status::BuildSuccess && !race.fell_back && engine::report_targets(
            report,
        ).len() > 0 ==> engine::after_local(race, report) == RaceModel::Done(
            OutcomeModel::NeedsDependencies(engine::report_targets(report)),
        ),
        report.status != Status::BuildSuccess && !race.fell_back && engine::report_targets(
            report,
        ).len() == 0 ==> engine::after_local(race, report) is AwaitRemote,
        forall|reason: Seq<char>|
            !(#[trigger] engine::after_remote(
                race,
                RemoteFixModel::FallbackToLocal(reason),
            ) is Done),
{
}

/// A build here that has not gone through asks for the packages that its log asks for, and else it
/// has failed.
pub proof fn law_local_failure_asks_or_fails(report: ReportModel)
    ensures
        match report.final_issue {
            Some(IssueModel::DependencyUnresolvable { deps }) => if graph::targets_of(deps).len()
                > 0 {
                engine::local_failure(report) == OutcomeModel::NeedsDependencies(
                    graph::targets_of(deps),
                )
            } else {
                engine::local_failure(report) is Failed
            },
            _ => engine::local_failure(report) is Failed,
        },
{
}

} // verus!
