//! What holds of a local repair run from its start to its end.
use vstd::prelude::*;

use crate::fixer;
use crate::issue::{ActionModel, IssueModel};
use crate::llm::SuggestionModel;
use crate::report;
use crate::report::Status;
use crate::workflow;
use crate::workflow::{BuildRun, WorkModel, WorkflowStep};

verus! {

/// How far a run has come: its state, the step that follows, and whether the last build went
/// through.
#[verifier::ext_equal]
pub struct Progress {
    pub state: WorkModel,
    pub step: WorkflowStep,
    pub built: bool,
}

/// What a run is told.
pub enum RunEvent {
    /// Something is noted about the description.
    Note(Seq<char>),
    /// All has been done about the description.
    Described,
    Built(BuildRun),
    /// An issue has been found in a log.
    Issue(IssueModel, Seq<char>),
    /// The spec has been read for the fix.
    Spec(Seq<char>),
    Suggestion(SuggestionModel),
    TextApplied(Result<(), Seq<char>>),
}

/// A run when the spec has been read for the first time.
pub open spec fn begun(state: WorkModel, spec_text: Seq<char>) -> Progress {
    Progress {
        state: workflow::after_first_spec(state, spec_text),
        step: workflow::first_move(state, spec_text).step,
        built: false,
    }
}

/// A run after `event`. What does not belong to the step that follows is passed over.
pub open spec fn after_event(run: Progress, event: RunEvent) -> Progress {
    let state = run.state;
    match (run.step, event) {
        (WorkflowStep::Describe, RunEvent::Note(note)) => Progress {
            state: workflow::with_report(state, report::noted(state.report, note)),
            ..run
        },
        (WorkflowStep::Describe, RunEvent::Described) => Progress {
            state: workflow::to_build(state),
            step: WorkflowStep::Build,
            ..run
        },
        (WorkflowStep::Build, RunEvent::Built(b)) => Progress {
            state: workflow::after_build(state, b),
            step: workflow::build_move(state, b).step,
            built: b.success,
        },
        (WorkflowStep::ReadLog, RunEvent::Issue(issue, log)) => Progress {
            state: workflow::after_issue(state, issue, log),
            step: workflow::issue_move(state, issue, log).step,
            ..run
        },
        (WorkflowStep::ReadSpec, RunEvent::Spec(before)) => Progress {
            state: workflow::after_fix(state, state.report.final_action->0, before),
            step: workflow::fix_move(state, state.report.final_action->0, before).step,
            ..run
        },
        (WorkflowStep::Suggest, RunEvent::Suggestion(suggestion)) => Progress {
            state: workflow::with_report(
                state,
                workflow::with_suggested(state.report, suggestion),
            ),
            step: if state.apply_text {
                WorkflowStep::ApplyText
            } else {
                WorkflowStep::Done
            },
            ..run
        },
        (WorkflowStep::ApplyText, RunEvent::TextApplied(result)) => Progress {
            state: match result {
                Ok(_) => state,
                Err(error) => workflow::with_report(
                    state,
                    report::noted(
                        state.report,
                        "failed to apply text suggestion: "@ + error,
                    ),
                ),
            },
            step: WorkflowStep::Done,
            ..run
        },
        _ => run,
    }
}

/// A run after a sequence of events.
pub open spec fn after_events(run: Progress, events: Seq<RunEvent>) -> Progress
    decreases events.len(),
{
    if events.len() == 0 {
        run
    } else {
        after_event(after_events(run, events.drop_last()), events.last())
    }
}

/// The fixes are counted. Before the first build there is none, and then there is one for each
/// build but the first. The spec is only read for a fix that is known while retries are left. A
/// run that has come to its end has the status of its last build: it went through, or a person is
/// needed.
pub open spec fn run_ok(run: Progress) -> bool {
    let report = run.state.report;
    &&& report.fixes_applied == report.applied_fixes.len()
    &&& report.build_attempts <= run.state.max_retries + 1 <= usize::MAX
    &&& if run.step is Describe {
        report.build_attempts == 0 && report.applied_fixes.len() == 0 && !run.built
    } else {
        report.applied_fixes.len() + 1 == report.build_attempts
    }
    &&& run.step is ReadSpec ==> {
        &&& report.final_action is Some
        &&& report.build_attempts <= run.state.max_retries
    }
    &&& run.step is ReadLog || run.step is ReadSpec || run.step is Build ==> !run.built
    &&& run.step is Suggest || run.step is ApplyText ==> run.built && report.status
        == Status::BuildSuccess
    &&& run.step is Done ==> report.status == (if run.built {
        Status::BuildSuccess
    } else {
        Status::NeedHuman
    })
}

/// A run that is no dry run begins well.
pub proof fn law_run_begins_well(state: WorkModel, spec_text: Seq<char>)
    requires
        !state.dry_run,
        state.max_retries + 1 <= usize::MAX,
        state.report.build_attempts == 0,
        state.report.fixes_applied == 0,
        state.report.applied_fixes.len() == 0,
    ensures
        run_ok(begun(state, spec_text)),
{
}

/// Every step keeps what holds of a run.
pub proof fn law_steps_keep_run(run: Progress, event: RunEvent)
    requires
        run_ok(run),
    ensures
        run_ok(after_event(run, event)),
{
}

/// A run that has come to its end, and was no dry run, ends with success exactly where its last
/// build went through, and else with the need of a person. It has made one fix for each build but
/// the first, and no more builds than one and the retries.
pub proof fn law_run_ends_well(state: WorkModel, spec_text: Seq<char>, events: Seq<RunEvent>)
    requires
        !state.dry_run,
        state.max_retries + 1 <= usize::MAX,
        state.report.build_attempts == 0,
        state.report.fixes_applied == 0,
        state.report.applied_fixes.len() == 0,
    ensures
        ({
            let run = after_events(begun(state, spec_text), events);
            let report = run.state.report;
            &&& run_ok(run)
            &&& run.step is Done ==> {
                &&& report.status == Status::BuildSuccess || report.status == Status::NeedHuman
                &&& report.status == Status::BuildSuccess <==> run.built
                &&& report.fixes_applied == report.applied_fixes.len()
                &&& report.applied_fixes.len() == report.build_attempts - 1
                &&& 1 <= report.build_attempts <= state.max_retries + 1
            }
        }),
    decreases events.len(),
{
    law_run_begins_well(state, spec_text);
    lemma_events_keep_run(begun(state, spec_text), events);
}

proof fn lemma_events_keep_run(run: Progress, events: Seq<RunEvent>)
    requires
        run_ok(run),
    ensures
        run_ok(after_events(run, events)),
        after_events(run, events).state.max_retries == run.state.max_retries,
    decreases events.len(),
{
    if events.len() > 0 {
        lemma_events_keep_run(run, events.drop_last());
        law_steps_keep_run(after_events(run, events.drop_last()), events.last());
    }
}

/// A failed build whose issue can be fixed while retries are left does not end the run: the spec is
/// read next, nothing is written, no attempt is counted, and the fix that is made is the one for
/// the issue.
pub proof fn law_fixable_failure_goes_on(state: WorkModel, issue: IssueModel, log: Seq<char>)
    requires
        !(fixer::action_for(issue) is NeedHuman),
        state.report.build_attempts <= state.max_retries,
    ensures
        workflow::issue_move(state, issue, log).step == WorkflowStep::ReadSpec,
        workflow::issue_move(state, issue, log).write is None,
        ({
            let after = workflow::after_issue(state, issue, log);
            &&& after.report.status == state.report.status
            &&& after.report.build_attempts == state.report.build_attempts
            &&& after.report.applied_fixes == state.report.applied_fixes
            &&& after.report.final_issue == Some(issue)
            &&& after.report.final_action == Some(fixer::action_for(issue))
            &&& after.max_retries == state.max_retries
        }),
{
}

/// A run ends on an issue only where a person is needed or no retry is left.
pub proof fn law_run_ends_for_a_reason(state: WorkModel, issue: IssueModel, log: Seq<char>)
    ensures
        workflow::issue_move(state, issue, log).step == WorkflowStep::Done <==> fixer::action_for(
            issue,
        ) is NeedHuman || state.report.build_attempts > state.max_retries,
        workflow::issue_move(state, issue, log).step == WorkflowStep::Done ==> workflow::after_issue(
            state,
            issue,
            log,
        ).report.status == Status::NeedHuman,
{
}

/// A fix that changes the spec while retries are left is written, counted, and built.
pub proof fn law_changed_spec_is_built(state: WorkModel, action: ActionModel, before: Seq<char>)
    requires
        fixer::applied(before, action) != before,
        state.report.build_attempts <= state.max_retries,
        state.report.build_attempts < usize::MAX,
    ensures
        workflow::fix_move(state, action, before).step == WorkflowStep::Build,
        workflow::fix_move(state, action, before).write == Some(fixer::applied(before, action)),
        ({
            let after = workflow::after_fix(state, action, before);
            &&& after.report.status == state.report.status
            &&& after.report.build_attempts == state.report.build_attempts + 1
            &&& after.report.applied_fixes.len() == state.report.applied_fixes.len() + 1
            &&& after.report.applied_fixes.last().action == action
            &&& after.max_retries == state.max_retries
        }),
{
}

/// A build that failed, what its log showed, and the spec that was read for the fix.
pub struct Failure {
    pub run: BuildRun,
    pub issue: IssueModel,
    pub log: Seq<char>,
    pub spec_text: Seq<char>,
}

/// A failure with a fix that changes the spec.
pub open spec fn is_fixable(failure: Failure) -> bool {
    let action = fixer::action_for(failure.issue);
    &&& !failure.run.success
    &&& !(action is NeedHuman)
    &&& fixer::applied(failure.spec_text, action) != failure.spec_text
}

/// What a run is told of failures, one after the other.
pub open spec fn failing(failures: Seq<Failure>) -> Seq<RunEvent>
    decreases failures.len(),
{
    if failures.len() == 0 {
        seq![]
    } else {
        let last = failures.last();
        failing(failures.drop_last()) + seq![
            RunEvent::Built(last.run),
            RunEvent::Issue(last.issue, last.log),
            RunEvent::Spec(last.spec_text),
        ]
    }
}

spec fn failure_events(failure: Failure) -> Seq<RunEvent> {
    seq![
        RunEvent::Built(failure.run),
        RunEvent::Issue(failure.issue, failure.log),
        RunEvent::Spec(failure.spec_text),
    ]
}

/// A run that meets nothing but failures that can be fixed builds once more for each of them, until
/// the retries are used up: for `k` failures it has started the smaller of `k` and the retries, and
/// one build. It goes on while there are no more failures than retries, and then a person is needed.
pub proof fn law_retries_are_used_up(
    state: WorkModel,
    spec_text: Seq<char>,
    failures: Seq<Failure>,
)
    requires
        !state.dry_run,
        !state.llm_description,
        state.max_retries + 1 <= usize::MAX,
        state.report.build_attempts == 0,
        state.report.fixes_applied == 0,
        state.report.applied_fixes.len() == 0,
        forall|i: int| 0 <= i < failures.len() ==> is_fixable(#[trigger] failures[i]),
    ensures
        ({
            let run = after_events(begun(state, spec_text), failing(failures));
            let k = failures.len();
            if k <= state.max_retries {
                &&& run.step == WorkflowStep::Build
                &&& run.state.report.build_attempts == k + 1
                &&& run.state.report.applied_fixes.len() == k
            } else {
                &&& run.step == WorkflowStep::Done
                &&& run.state.report.status == Status::NeedHuman
                &&& run.state.report.build_attempts == state.max_retries + 1
                &&& run.state.report.applied_fixes.len() == state.max_retries
            }
        }),
    decreases failures.len(),
{
    let start = begun(state, spec_text);
    if failures.len() > 0 {
        let rest = failures.drop_last();
        let last = failures[failures.len() - 1];
        assert forall|i: int| 0 <= i < rest.len() implies is_fixable(#[trigger] rest[i]) by {
            assert(rest[i] == failures[i]);
        }
        law_retries_are_used_up(state, spec_text, rest);
        law_run_begins_well(state, spec_text);
        lemma_events_keep_run(start, failing(rest));
        assert(is_fixable(last));
        lemma_failing(start, failures);
        let run = after_events(start, failing(rest));
        if rest.len() <= state.max_retries {
            lemma_one_failure(run, last);
        } else {
            lemma_end_stays(run, last);
        }
    }
}

proof fn lemma_end_stays(run: Progress, failure: Failure)
    requires
        run.step == WorkflowStep::Done,
    ensures
        after_events(run, failure_events(failure)) == run,
{
    lemma_failure_events(run, failure);
}

/// A failure that can be fixed leads to another build, or to the end where no retry is left.
#[verifier::rlimit(20)]
proof fn lemma_one_failure(run: Progress, failure: Failure)
    requires
        run_ok(run),
        run.step == WorkflowStep::Build,
        is_fixable(failure),
    ensures
        ({
            let after = after_events(run, failure_events(failure));
            let old = run.state.report;
            let new = after.state.report;
            if old.build_attempts <= run.state.max_retries {
                &&& after.step == WorkflowStep::Build
                &&& new.build_attempts == old.build_attempts + 1
                &&& new.applied_fixes.len() == old.applied_fixes.len() + 1
            } else {
                &&& after.step == WorkflowStep::Done
                &&& new.status == Status::NeedHuman
                &&& new.build_attempts == old.build_attempts
                &&& new.applied_fixes.len() == old.applied_fixes.len()
            }
        }),
{
    lemma_failure_events(run, failure);
    let action = fixer::action_for(failure.issue);
    let built = after_event(run, RunEvent::Built(failure.run));
    assert(built.step == WorkflowStep::ReadLog);
    assert(built.state.report.build_attempts == run.state.report.build_attempts);
    assert(built.state.report.applied_fixes == run.state.report.applied_fixes);
    let seen = after_event(built, RunEvent::Issue(failure.issue, failure.log));
    if run.state.report.build_attempts <= run.state.max_retries {
        law_fixable_failure_goes_on(built.state, failure.issue, failure.log);
        assert(seen.step == WorkflowStep::ReadSpec);
        law_changed_spec_is_built(seen.state, action, failure.spec_text);
    } else {
        law_run_ends_for_a_reason(built.state, failure.issue, failure.log);
        assert(seen.step == WorkflowStep::Done);
    }
}

proof fn lemma_failing(run: Progress, failures: Seq<Failure>)
    requires
        failures.len() > 0,
    ensures
        after_events(run, failing(failures)) == after_events(
            after_events(run, failing(failures.drop_last())),
            failure_events(failures.last()),
        ),
{
    lemma_more_events(run, failing(failures.drop_last()), failure_events(failures.last()));
}

proof fn lemma_more_events(run: Progress, a: Seq<RunEvent>, b: Seq<RunEvent>)
    ensures
        after_events(run, a + b) == after_events(after_events(run, a), b),
    decreases b.len(),
{
    if b.len() > 0 {
        lemma_more_events(run, a, b.drop_last());
        assert((a + b).last() == b.last());
        assert((a + b).drop_last() =~= a + b.drop_last());
    } else {
        assert(a + b =~= a);
    }
}

proof fn lemma_one_event(run: Progress, events: Seq<RunEvent>)
    requires
        events.len() > 0,
    ensures
        after_events(run, events) == after_event(
            after_events(run, events.drop_last()),
            events.last(),
        ),
{
}

proof fn lemma_failure_events(run: Progress, failure: Failure)
    ensures
        ({
            let events = failure_events(failure);
            &&& after_events(run, events.take(1)) == after_event(run, events[0])
            &&& after_events(run, events.take(2)) == after_event(
                after_events(run, events.take(1)),
                events[1],
            )
            &&& after_events(run, events) == after_event(
                after_events(run, events.take(2)),
                events[2],
            )
        }),
{
    let events = failure_events(failure);
    assert(events.take(1).drop_last() =~= seq![]);
    assert(events.take(2).drop_last() =~= events.take(1));
    assert(events.drop_last() =~= events.take(2));
    lemma_one_event(run, events.take(1));
    lemma_one_event(run, events.take(2));
    lemma_one_event(run, events);
}

} // verus!
