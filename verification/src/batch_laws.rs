//! What holds of a batch from its start to its end.
use vstd::prelude::*;

use crate::engine::OutcomeModel;
use crate::graph;
use crate::graph::{Nodes, StateModel, TargetModel};
use crate::pieces;
use crate::scheduler;
use crate::scheduler::{Batch, RequestModel, ResultModel};
use crate::set_laws;

verus! {

/// A package has a result.
pub open spec fn has_result(results: Seq<ResultModel>, p: Seq<char>) -> bool {
    exists|k: int| 0 <= k < results.len() && (#[trigger] results[k]).package == p
}

/// A node that is being built.
pub open spec fn is_running(state: StateModel) -> bool {
    !(state is Pending || state is WaitingForDeps || state is Success || state is Failed)
}

/// The names are those of the nodes. Each node that has come to its end has a result, and so has
/// each that is pending, unless it can be started.
pub open spec fn accounted(batch: Batch) -> bool {
    &&& forall|p: Seq<char>| #[trigger]
        batch.nodes.dom().contains(p) <==> batch.names.contains(p)
    &&& forall|p: Seq<char>| #[trigger]
        batch.nodes.dom().contains(p) ==> node_accounted(batch, p)
}

pub open spec fn node_accounted(batch: Batch, p: Seq<char>) -> bool {
    let state = batch.nodes[p].state;
    &&& state is Success || state is Failed ==> has_result(batch.results, p)
    &&& state is Pending ==> has_result(batch.results, p) || scheduler::deps_built(batch.nodes, p)
}

/// As [`accounted`], with nothing left that can be started.
pub open spec fn settled(batch: Batch) -> bool {
    &&& accounted(batch)
    &&& forall|p: Seq<char>| #[trigger]
        batch.nodes.dom().contains(p) && batch.nodes[p].state is Pending ==> has_result(
            batch.results,
            p,
        )
}

proof fn lemma_more_results(results: Seq<ResultModel>, more: Seq<ResultModel>, p: Seq<char>)
    ensures
        has_result(results + more, p) <==> has_result(results, p) || has_result(more, p),
{
    let all = results + more;
    if has_result(results, p) {
        let k = choose|k: int| 0 <= k < results.len() && (#[trigger] results[k]).package == p;
        assert(all[k].package == p);
    }
    if has_result(more, p) {
        let k = choose|k: int| 0 <= k < more.len() && (#[trigger] more[k]).package == p;
        assert(all[results.len() + k].package == p);
    }
    if has_result(all, p) {
        let k = choose|k: int| 0 <= k < all.len() && (#[trigger] all[k]).package == p;
        if k < results.len() {
            assert(results[k].package == p);
        } else {
            assert(more[k - results.len()].package == p);
        }
    }
}

proof fn lemma_one_result(results: Seq<ResultModel>, last: ResultModel, p: Seq<char>)
    ensures
        has_result(results.push(last), p) <==> has_result(results, p) || last.package == p,
{
    lemma_more_results(results, seq![last], p);
    assert(results + seq![last] =~= results.push(last));
    assert(seq![last][0] == last);
}

proof fn lemma_add_unique(v: Seq<Seq<char>>, s: Seq<char>)
    ensures
        forall|x: Seq<char>| #[trigger]
            pieces::add_unique(v, s).contains(x) <==> x == s || v.contains(x),
{
    set_laws::lemma_push_texts(v, s);
}

proof fn lemma_no_deps(nodes: Nodes, p: Seq<char>)
    requires
        nodes.dom().contains(p) ==> nodes[p].deps.len() == 0,
    ensures
        scheduler::deps_built(nodes, p),
{
}

/// Adding roots leaves each node accounted for, and each root a node.
pub proof fn law_roots_are_accounted_for(
    batch: Batch,
    roots: Seq<RequestModel>,
    project: Seq<char>,
    revision: Seq<char>,
    current_dir: Seq<char>,
)
    requires
        accounted(batch),
    ensures
        accounted(scheduler::with_roots(batch, roots, project, revision, current_dir)),
        forall|i: int|
            0 <= i < roots.len() ==> scheduler::with_roots(
                batch,
                roots,
                project,
                revision,
                current_dir,
            ).nodes.dom().contains((#[trigger] roots[i]).package),
    decreases roots.len(),
{
    if roots.len() > 0 {
        let rest = roots.drop_last();
        let root = roots.last();
        law_roots_are_accounted_for(batch, rest, project, revision, current_dir);
        let before = scheduler::with_roots(batch, rest, project, revision, current_dir);
        let after = scheduler::with_roots(batch, roots, project, revision, current_dir);
        lemma_add_unique(before.names, root.package);
        assert forall|p: Seq<char>| #[trigger] after.nodes.dom().contains(p) implies node_accounted(
            after,
            p,
        ) by {
            if before.nodes.dom().contains(p) {
                assert(node_accounted(before, p));
                if before.nodes.dom().contains(root.package) {
                    assert(scheduler::same_progress(before.nodes, after.nodes));
                    scheduler::lemma_progress(before.nodes, after.nodes, p);
                } else if scheduler::deps_built(before.nodes, p) {
                    lemma_unbuilt_grows(before.nodes, after.nodes, before.nodes[p].deps);
                }
            } else {
                lemma_no_deps(after.nodes, p);
            }
        }
        assert forall|i: int| 0 <= i < roots.len() implies after.nodes.dom().contains(
            (#[trigger] roots[i]).package,
        ) by {
            if i < rest.len() {
                assert(rest[i] == roots[i]);
            }
        }
    }
}

/// What has been built stays built when nodes are added.
proof fn lemma_unbuilt_grows(a: Nodes, b: Nodes, deps: Seq<Seq<char>>)
    requires
        forall|p: Seq<char>| #[trigger] graph::built(a, p) ==> graph::built(b, p),
        graph::unbuilt(a, deps).len() == 0,
    ensures
        graph::unbuilt(b, deps).len() == 0,
    decreases deps.len(),
{
    if deps.len() > 0 {
        lemma_unbuilt_grows(a, b, deps.drop_last());
    }
}

/// Starting what is ready leaves nothing that can be started.
pub proof fn law_start_settles(batch: Batch)
    requires
        accounted(batch),
    ensures
        settled(scheduler::after_start(batch)),
{
    let mid = scheduler::resumed(batch.nodes);
    let after = scheduler::after_start(batch);
    assert(scheduler::same_progress(batch.nodes, mid));
    assert(scheduler::same_progress(mid, after.nodes));
    assert forall|p: Seq<char>| #[trigger] after.nodes.dom().contains(p) implies node_accounted(
        after,
        p,
    ) && (after.nodes[p].state is Pending ==> has_result(after.results, p)) by {
        assert(batch.nodes.dom().contains(p));
        assert(node_accounted(batch, p));
        scheduler::lemma_progress(batch.nodes, mid, p);
        scheduler::lemma_progress(mid, after.nodes, p);
    }
}

/// Giving up what waits leaves nothing that can be started, and gives what was given up a result.
pub proof fn law_idle_settles(batch: Batch)
    requires
        settled(batch),
    ensures
        settled(scheduler::after_idle(batch)),
{
    let after = scheduler::after_idle(batch);
    let a = scheduler::given_up(batch.nodes, batch.names, true);
    let b = scheduler::given_up(batch.nodes, batch.names, false);
    assert forall|i: int| 0 <= i < batch.names.len() implies batch.nodes.dom().contains(
        #[trigger] batch.names[i],
    ) by {
        assert(batch.names.contains(batch.names[i]));
    }
    scheduler::lemma_given_up(batch.nodes, batch.names, true);
    scheduler::lemma_given_up(batch.nodes, batch.names, false);
    assert forall|p: Seq<char>| #[trigger] after.nodes.dom().contains(p) implies node_accounted(
        after,
        p,
    ) && (after.nodes[p].state is Pending ==> has_result(after.results, p)) by {
        assert(batch.nodes.dom().contains(p));
        assert(node_accounted(batch, p));
        lemma_more_results(batch.results, a, p);
        lemma_more_results(batch.results + a, b, p);
        if batch.nodes[p].state is WaitingForDeps {
            let i = batch.names.index_of(p);
            assert(batch.names[i] == p);
            if scheduler::waits_for_failed(batch.nodes, batch.names[i]) {
                assert(has_result(a, p));
            } else {
                assert(scheduler::waits_in_vain(batch.nodes, batch.names[i]));
                assert(has_result(b, p));
            }
        }
    }
}

/// As [`accounted`], where a pending node without a result depends on nothing, and the package
/// that asks for others waits.
spec fn demanding(batch: Batch, package: Seq<char>) -> bool {
    &&& forall|p: Seq<char>| #[trigger]
        batch.nodes.dom().contains(p) <==> batch.names.contains(p)
    &&& forall|p: Seq<char>| #[trigger]
        batch.nodes.dom().contains(p) ==> {
            let state = batch.nodes[p].state;
            &&& state is Success || state is Failed ==> has_result(batch.results, p)
            &&& state is Pending ==> has_result(batch.results, p) || batch.nodes[p].deps.len() == 0
        }
    &&& batch.nodes.dom().contains(package) ==> batch.nodes[package].state is WaitingForDeps
}

proof fn lemma_demands_account(
    batch: Batch,
    package: Seq<char>,
    deps: Seq<TargetModel>,
    i: int,
    project: Seq<char>,
    revision: Seq<char>,
    current_dir: Seq<char>,
)
    requires
        demanding(batch, package),
    ensures
        accounted(
            scheduler::with_demands(batch, package, deps, i, project, revision, current_dir),
        ),
    decreases deps.len() - i,
{
    let after = scheduler::with_demands(batch, package, deps, i, project, revision, current_dir);
    if i < 0 || i >= deps.len() {
        assert forall|p: Seq<char>| #[trigger] after.nodes.dom().contains(p) implies node_accounted(
            after,
            p,
        ) by {
            if batch.nodes[p].deps.len() == 0 {
                lemma_no_deps(batch.nodes, p);
            }
        }
    } else {
        let request = scheduler::target_request(deps[i]);
        if graph::depends(batch.nodes, request.package, package) {
            assert forall|p: Seq<char>| #[trigger]
                after.nodes.dom().contains(p) implies node_accounted(after, p) by {
                assert(batch.nodes.dom().contains(p));
                lemma_one_result(batch.results, after.results.last(), p);
                assert(after.results.last().package == package);
                if after.nodes[p].deps.len() == 0 {
                    lemma_no_deps(after.nodes, p);
                }
            }
        } else {
            assert(graph::depends_in(batch.nodes, package, package, 0));
            assert(request.package != package);
            let next = Batch {
                nodes: graph::with_demand(
                    graph::with_dep(batch.nodes, package, request.package),
                    request.package,
                    request.features,
                    request.source,
                    project,
                    revision,
                    current_dir,
                ),
                names: pieces::add_unique(batch.names, request.package),
                ..batch
            };
            lemma_add_unique(batch.names, request.package);
            lemma_demands_account(next, package, deps, i + 1, project, revision, current_dir);
        }
    }
}

/// Recording an outcome leaves each node accounted for.
pub proof fn law_outcome_is_accounted_for(
    batch: Batch,
    package: Seq<char>,
    outcome: OutcomeModel,
    project: Seq<char>,
    revision: Seq<char>,
    current_dir: Seq<char>,
)
    requires
        settled(batch),
    ensures
        accounted(
            scheduler::after_outcome(batch, package, outcome, project, revision, current_dir),
        ),
{
    let after = scheduler::after_outcome(batch, package, outcome, project, revision, current_dir);
    match outcome {
        OutcomeModel::Success { .. } => {
            let done = graph::with_state(batch.nodes, package, StateModel::Success);
            assert(scheduler::same_progress(done, after.nodes));
            assert forall|p: Seq<char>| #[trigger]
                after.nodes.dom().contains(p) implies node_accounted(after, p) by {
                assert(batch.nodes.dom().contains(p));
                assert(node_accounted(batch, p));
                lemma_one_result(batch.results, ResultModel { package, outcome }, p);
                scheduler::lemma_progress(done, after.nodes, p);
            }
        },
        OutcomeModel::Failed(_) => {
            assert forall|p: Seq<char>| #[trigger]
                after.nodes.dom().contains(p) implies node_accounted(after, p) by {
                assert(batch.nodes.dom().contains(p));
                assert(node_accounted(batch, p));
                lemma_one_result(batch.results, ResultModel { package, outcome }, p);
            }
        },
        OutcomeModel::NeedsDependencies(deps) => {
            let waiting = Batch {
                nodes: graph::with_state(batch.nodes, package, StateModel::WaitingForDeps),
                ..batch
            };
            assert forall|p: Seq<char>| #[trigger] waiting.nodes.dom().contains(p) implies ({
                let state = waiting.nodes[p].state;
                &&& state is Success || state is Failed ==> has_result(waiting.results, p)
                &&& state is Pending ==> has_result(waiting.results, p)
            }) by {
                assert(batch.nodes.dom().contains(p));
                assert(node_accounted(batch, p));
            }
            lemma_demands_account(waiting, package, deps, 0, project, revision, current_dir);
        },
    }
}

/// What happens after the packages that are ready have been started: a build comes to its end, or
/// nothing is being built.
pub enum BatchEvent {
    Outcome(Seq<char>, OutcomeModel),
    Idle,
}

/// A batch after its packages have been started and `event` has happened.
pub open spec fn after_turn(
    batch: Batch,
    event: BatchEvent,
    project: Seq<char>,
    revision: Seq<char>,
    current_dir: Seq<char>,
) -> Batch {
    match event {
        BatchEvent::Outcome(package, outcome) => scheduler::after_outcome(
            scheduler::after_start(batch),
            package,
            outcome,
            project,
            revision,
            current_dir,
        ),
        BatchEvent::Idle => scheduler::after_idle(scheduler::after_start(batch)),
    }
}

/// A batch after a run of events.
pub open spec fn after_turns(
    batch: Batch,
    events: Seq<BatchEvent>,
    project: Seq<char>,
    revision: Seq<char>,
    current_dir: Seq<char>,
) -> Batch
    decreases events.len(),
{
    if events.len() == 0 {
        batch
    } else {
        after_turn(
            after_turns(batch, events.drop_last(), project, revision, current_dir),
            events.last(),
            project,
            revision,
            current_dir,
        )
    }
}

proof fn lemma_demands_keep_nodes(
    batch: Batch,
    package: Seq<char>,
    deps: Seq<TargetModel>,
    i: int,
    project: Seq<char>,
    revision: Seq<char>,
    current_dir: Seq<char>,
    p: Seq<char>,
)
    requires
        batch.nodes.dom().contains(p),
    ensures
        scheduler::with_demands(
            batch,
            package,
            deps,
            i,
            project,
            revision,
            current_dir,
        ).nodes.dom().contains(p),
    decreases deps.len() - i,
{
    if 0 <= i < deps.len() {
        let request = scheduler::target_request(deps[i]);
        if !graph::depends(batch.nodes, request.package, package) {
            let next = Batch {
                nodes: graph::with_demand(
                    graph::with_dep(batch.nodes, package, request.package),
                    request.package,
                    request.features,
                    request.source,
                    project,
                    revision,
                    current_dir,
                ),
                names: pieces::add_unique(batch.names, request.package),
                ..batch
            };
            lemma_demands_keep_nodes(
                next,
                package,
                deps,
                i + 1,
                project,
                revision,
                current_dir,
                p,
            );
        }
    }
}

/// A run of events leaves each node accounted for, and loses none.
pub proof fn law_turns_account_for_nodes(
    batch: Batch,
    events: Seq<BatchEvent>,
    project: Seq<char>,
    revision: Seq<char>,
    current_dir: Seq<char>,
)
    requires
        accounted(batch),
        scheduler::all_terminal(batch.results),
    ensures
        ({
            let after = after_turns(batch, events, project, revision, current_dir);
            &&& accounted(after)
            &&& scheduler::all_terminal(after.results)
            &&& forall|p: Seq<char>| #[trigger]
                batch.nodes.dom().contains(p) ==> after.nodes.dom().contains(p)
        }),
    decreases events.len(),
{
    if events.len() > 0 {
        let rest = events.drop_last();
        law_turns_account_for_nodes(batch, rest, project, revision, current_dir);
        let before = after_turns(batch, rest, project, revision, current_dir);
        let begun = scheduler::after_start(before);
        law_start_settles(before);
        match events.last() {
            BatchEvent::Outcome(package, outcome) => {
                law_outcome_is_accounted_for(
                    begun,
                    package,
                    outcome,
                    project,
                    revision,
                    current_dir,
                );
                if let OutcomeModel::NeedsDependencies(deps) = outcome {
                    let waiting = Batch {
                        nodes: graph::with_state(begun.nodes, package, StateModel::WaitingForDeps),
                        ..begun
                    };
                    scheduler::lemma_demands_terminal(
                        waiting,
                        package,
                        deps,
                        0,
                        project,
                        revision,
                        current_dir,
                    );
                    assert forall|p: Seq<char>| #[trigger]
                        batch.nodes.dom().contains(p) implies after_turns(
                        batch,
                        events,
                        project,
                        revision,
                        current_dir,
                    ).nodes.dom().contains(p) by {
                        lemma_demands_keep_nodes(
                            waiting,
                            package,
                            deps,
                            0,
                            project,
                            revision,
                            current_dir,
                            p,
                        );
                    }
                }
            },
            BatchEvent::Idle => {
                law_idle_settles(begun);
                scheduler::lemma_given_up_terminal(begun.nodes, begun.names, true);
                scheduler::lemma_given_up_terminal(begun.nodes, begun.names, false);
            },
        }
    }
}

/// A batch is finished when, after what is ready has been started, nothing is being built and
/// nothing waits. Then each of its roots has a result, and every result is a success or a failure.
pub proof fn law_every_root_has_a_result(
    roots: Seq<RequestModel>,
    events: Seq<BatchEvent>,
    project: Seq<char>,
    revision: Seq<char>,
    current_dir: Seq<char>,
)
    requires
        ({
            let empty = Batch { nodes: Map::empty(), names: seq![], results: seq![] };
            let begun = scheduler::with_roots(empty, roots, project, revision, current_dir);
            let last = scheduler::after_start(
                after_turns(begun, events, project, revision, current_dir),
            );
            forall|p: Seq<char>| #[trigger]
                last.nodes.dom().contains(p) ==> !is_running(last.nodes[p].state)
                    && !(last.nodes[p].state is WaitingForDeps)
        }),
    ensures
        ({
            let empty = Batch { nodes: Map::empty(), names: seq![], results: seq![] };
            let begun = scheduler::with_roots(empty, roots, project, revision, current_dir);
            let last = scheduler::after_start(
                after_turns(begun, events, project, revision, current_dir),
            );
            &&& scheduler::all_terminal(last.results)
            &&& forall|i: int|
                0 <= i < roots.len() ==> has_result(last.results, (#[trigger] roots[i]).package)
        }),
{
    let empty = Batch { nodes: Map::empty(), names: seq![], results: seq![] };
    let begun = scheduler::with_roots(empty, roots, project, revision, current_dir);
    let ended = after_turns(begun, events, project, revision, current_dir);
    let last = scheduler::after_start(ended);
    law_roots_are_accounted_for(empty, roots, project, revision, current_dir);
    lemma_roots_results(empty, roots, project, revision, current_dir);
    law_turns_account_for_nodes(begun, events, project, revision, current_dir);
    law_start_settles(ended);
    assert forall|i: int| 0 <= i < roots.len() implies has_result(
        last.results,
        (#[trigger] roots[i]).package,
    ) by {
        let p = roots[i].package;
        assert(begun.nodes.dom().contains(p));
        assert(last.nodes.dom().contains(p));
        assert(node_accounted(last, p));
    }
}

proof fn lemma_roots_results(
    batch: Batch,
    roots: Seq<RequestModel>,
    project: Seq<char>,
    revision: Seq<char>,
    current_dir: Seq<char>,
)
    ensures
        scheduler::with_roots(batch, roots, project, revision, current_dir).results
            == batch.results,
    decreases roots.len(),
{
    if roots.len() > 0 {
        lemma_roots_results(batch, roots.drop_last(), project, revision, current_dir);
    }
}

} // verus!
