//! Laws of the progress of a batch of builds.
use vstd::prelude::*;

use crate::engine::OutcomeModel;
use crate::graph;
use crate::graph::{NodeModel, Nodes, SourceModel, StateModel, TargetModel};
use crate::pieces;
use crate::scheduler;
use crate::scheduler::{Batch, RequestModel, ResultModel};
use crate::set_laws;
use crate::upstream;

verus! {

/// Everything that `p` depends on has been built.
pub open spec fn is_free(nodes: Nodes, p: Seq<char>) -> bool {
    forall|k: int|
        0 <= k < nodes[p].deps.len() ==> nodes.dom().contains(#[trigger] nodes[p].deps[k])
            && nodes[nodes[p].deps[k]].state is Success
}

/// A package that is to be built, and that nothing keeps waiting.
pub open spec fn can_start(nodes: Nodes, p: Seq<char>) -> bool {
    &&& nodes.dom().contains(p)
    &&& nodes[p].state is Pending || nodes[p].state is WaitingForDeps
    &&& is_free(nodes, p)
}

proof fn lemma_unbuilt(nodes: Nodes, deps: Seq<Seq<char>>)
    ensures
        graph::unbuilt(nodes, deps).len() == 0 <==> forall|k: int|
            0 <= k < deps.len() ==> nodes.dom().contains(#[trigger] deps[k])
                && nodes[deps[k]].state is Success,
    decreases deps.len(),
{
    if deps.len() > 0 {
        let rest = deps.drop_last();
        let n = deps.len() - 1;
        lemma_unbuilt(nodes, rest);
        if graph::unbuilt(nodes, deps).len() == 0 {
            assert forall|k: int| 0 <= k < deps.len() implies nodes.dom().contains(
                #[trigger] deps[k],
            ) && nodes[deps[k]].state is Success by {
                if k < n {
                    assert(rest[k] == deps[k]);
                }
            }
        } else if graph::built(nodes, deps[n]) {
            assert(exists|k: int|
                0 <= k < rest.len() && !(nodes.dom().contains(#[trigger] rest[k])
                    && nodes[rest[k]].state is Success));
            let k = choose|k: int|
                0 <= k < rest.len() && !(nodes.dom().contains(#[trigger] rest[k])
                    && nodes[rest[k]].state is Success);
            assert(deps[k] == rest[k]);
        } else {
            assert(deps[n] == deps.last());
        }
    }
}

proof fn lemma_free(nodes: Nodes, p: Seq<char>)
    requires
        nodes.dom().contains(p),
    ensures
        scheduler::deps_built(nodes, p) <==> is_free(nodes, p),
{
    lemma_unbuilt(nodes, nodes[p].deps);
}

proof fn lemma_resumed(nodes: Nodes, p: Seq<char>)
    requires
        nodes.dom().contains(p),
    ensures
        scheduler::is_ready(scheduler::resumed(nodes), p) <==> can_start(nodes, p),
        scheduler::resumed(nodes)[p] == (NodeModel {
            state: scheduler::resumed(nodes)[p].state,
            ..nodes[p]
        }),
{
    let r = scheduler::resumed(nodes);
    assert forall|q: Seq<char>| #[trigger] nodes.dom().contains(q) implies nodes[q].deps
        == r[q].deps && (nodes[q].state is Success <==> r[q].state is Success) by {
        assert(r[q] == scheduler::resumed_node(nodes, q));
    }
    assert(scheduler::same_progress(nodes, r));
    scheduler::lemma_progress(nodes, r, p);
    lemma_free(nodes, p);
    assert(r[p] == scheduler::resumed_node(nodes, p));
}

/// Each package that can be started is started: it is asked for with its features and from its
/// source, and is being built from then on.
pub proof fn law_every_free_package_is_started(batch: Batch, p: Seq<char>) -> (i: int)
    requires
        batch.names.contains(p),
        can_start(batch.nodes, p),
    ensures
        ({
            let r = scheduler::resumed(batch.nodes);
            let requests = scheduler::requests_for(r, scheduler::ready_names(r, batch.names));
            let node = batch.nodes[p];
            let after = scheduler::after_start(batch).nodes[p];
            &&& 0 <= i < requests.len()
            &&& requests[i] == (RequestModel {
                package: p,
                features: node.features,
                source: node.source,
            })
            &&& after.state == if node.source is LocalWorkdir {
                StateModel::LocalBuilding
            } else {
                StateModel::SpecPreparing
            }
            &&& after.features == node.features
            &&& after.deps == node.deps
        }),
{
    let r = scheduler::resumed(batch.nodes);
    lemma_resumed(batch.nodes, p);
    scheduler::lemma_ready_names(r, batch.names, p);
    let ready = scheduler::ready_names(r, batch.names);
    let i = ready.index_of(p);
    assert(scheduler::requests_for(r, ready)[i] == scheduler::request_for(r, p));
    assert(scheduler::started(r).dom().contains(p));
    i
}

/// No other package is touched when packages are started.
pub proof fn law_no_other_package_is_started(batch: Batch, p: Seq<char>)
    requires
        batch.nodes.dom().contains(p),
        !can_start(batch.nodes, p),
    ensures
        scheduler::after_start(batch).nodes[p] == batch.nodes[p],
        !scheduler::ready_names(scheduler::resumed(batch.nodes), batch.names).contains(p),
{
    let r = scheduler::resumed(batch.nodes);
    lemma_resumed(batch.nodes, p);
    lemma_free(batch.nodes, p);
    scheduler::lemma_ready_names(r, batch.names, p);
    assert(r[p] == scheduler::resumed_node(batch.nodes, p));
}

/// A build that went through is recorded, and the packages that waited for it alone are to be built
/// again.
pub proof fn law_success_lets_others_go_on(
    batch: Batch,
    p: Seq<char>,
    outcome: OutcomeModel,
    q: Seq<char>,
    project: Seq<char>,
    revision: Seq<char>,
    current_dir: Seq<char>,
)
    requires
        batch.nodes.dom().contains(p),
        outcome is Success,
        batch.nodes.dom().contains(q),
    ensures
        ({
            let after = scheduler::after_outcome(
                batch,
                p,
                outcome,
                project,
                revision,
                current_dir,
            );
            &&& after.results == batch.results.push(ResultModel { package: p, outcome })
            &&& after.names == batch.names
            &&& after.nodes[p].state is Success
            &&& q != p && batch.nodes[q].state is WaitingForDeps && is_free(after.nodes, q)
                ==> after.nodes[q].state is Pending
            &&& q != p && !(batch.nodes[q].state is WaitingForDeps && is_free(after.nodes, q))
                ==> after.nodes[q] == batch.nodes[q]
        }),
{
    let mid = graph::with_state(batch.nodes, p, StateModel::Success);
    let r = scheduler::resumed(mid);
    assert forall|x: Seq<char>| #[trigger] mid.dom().contains(x) implies mid[x].deps == r[x].deps
        && (mid[x].state is Success <==> r[x].state is Success) by {
        assert(r[x] == scheduler::resumed_node(mid, x));
    }
    assert(scheduler::same_progress(mid, r));
    lemma_free(mid, q);
    assert(is_free(r, q) <==> is_free(mid, q)) by {
        scheduler::lemma_progress(mid, r, q);
        lemma_free(r, q);
    }
    assert(r[q] == scheduler::resumed_node(mid, q));
    assert(r[p] == scheduler::resumed_node(mid, p));
}

/// A build that failed is recorded with its reason, and touches no other package.
pub proof fn law_failure_is_recorded(
    batch: Batch,
    p: Seq<char>,
    reason: Seq<char>,
    q: Seq<char>,
    project: Seq<char>,
    revision: Seq<char>,
    current_dir: Seq<char>,
)
    requires
        batch.nodes.dom().contains(p),
        batch.nodes.dom().contains(q),
    ensures
        ({
            let outcome = OutcomeModel::Failed(reason);
            let after = scheduler::after_outcome(
                batch,
                p,
                outcome,
                project,
                revision,
                current_dir,
            );
            &&& after.results == batch.results.push(ResultModel { package: p, outcome })
            &&& after.nodes[p].state == StateModel::Failed(reason)
            &&& q != p ==> after.nodes[q] == batch.nodes[q]
            &&& after.nodes.dom() == batch.nodes.dom()
        }),
{
    let outcome = OutcomeModel::Failed(reason);
    let after = scheduler::after_outcome(batch, p, outcome, project, revision, current_dir);
    assert(after.nodes.dom() =~= batch.nodes.dom());
}

/// The package that is built for a target.
pub open spec fn package_of(target: TargetModel) -> Seq<char> {
    upstream::package_name(target.package)
}

/// `p` waits for what `target` asks for: it depends on the package, which is one of the batch and
/// has the features.
pub open spec fn waits_for(nodes: Nodes, p: Seq<char>, target: TargetModel) -> bool {
    let d = package_of(target);
    &&& nodes[p].deps.contains(d)
    &&& nodes.dom().contains(d)
    &&& forall|f: Seq<char>| #[trigger]
        target.features.contains(f) ==> nodes[d].features.contains(f)
}

proof fn lemma_features(set: Seq<Seq<char>>, features: Seq<Seq<char>>)
    ensures
        forall|f: Seq<char>| #[trigger]
            graph::with_features(set, features).contains(f) <==> set.contains(f)
                || features.contains(f),
    decreases features.len(),
{
    if features.len() > 0 {
        let rest = features.drop_last();
        lemma_features(set, rest);
        set_laws::lemma_sorted_insert_texts(graph::with_features(set, rest), features.last());
        set_laws::lemma_push_texts(rest, features.last());
        assert(rest.push(features.last()) =~= features);
    }
}

proof fn lemma_add_unique(v: Seq<Seq<char>>, s: Seq<char>)
    ensures
        forall|x: Seq<char>| #[trigger]
            pieces::add_unique(v, s).contains(x) <==> v.contains(x) || x == s,
{
    set_laws::lemma_push_texts(v, s);
}

/// What a further demand of `p` keeps: the nodes, with their dependencies and features or more.
spec fn grown(a: Nodes, b: Nodes) -> bool {
    forall|q: Seq<char>| #[trigger]
        a.dom().contains(q) ==> {
            &&& b.dom().contains(q)
            &&& forall|d: Seq<char>| #[trigger] a[q].deps.contains(d) ==> b[q].deps.contains(d)
            &&& forall|f: Seq<char>| #[trigger]
                a[q].features.contains(f) ==> b[q].features.contains(f)
        }
}

proof fn lemma_grown_trans(a: Nodes, b: Nodes, c: Nodes)
    requires
        grown(a, b),
        grown(b, c),
    ensures
        grown(a, c),
{
    assert forall|q: Seq<char>| #[trigger] a.dom().contains(q) implies {
        &&& c.dom().contains(q)
        &&& forall|d: Seq<char>| #[trigger] a[q].deps.contains(d) ==> c[q].deps.contains(d)
        &&& forall|f: Seq<char>| #[trigger] a[q].features.contains(f) ==> c[q].features.contains(f)
    } by {
        assert(b.dom().contains(q));
        assert(c.dom().contains(q));
    }
}

proof fn lemma_grown_keeps_waiting(a: Nodes, b: Nodes, p: Seq<char>, target: TargetModel)
    requires
        grown(a, b),
        a.dom().contains(p),
        waits_for(a, p, target),
    ensures
        waits_for(b, p, target),
{
    let d = package_of(target);
    assert(b.dom().contains(p));
    assert(b.dom().contains(d));
}

/// The batch after one demand of `p`.
spec fn one_demand(
    batch: Batch,
    p: Seq<char>,
    target: TargetModel,
    project: Seq<char>,
    revision: Seq<char>,
    current_dir: Seq<char>,
) -> Batch {
    let d = package_of(target);
    Batch {
        nodes: graph::with_demand(
            graph::with_dep(batch.nodes, p, d),
            d,
            target.features,
            SourceModel::Pypi { name: target.package, version: None },
            project,
            revision,
            current_dir,
        ),
        names: pieces::add_unique(batch.names, d),
        ..batch
    }
}

proof fn lemma_one_demand(
    batch: Batch,
    p: Seq<char>,
    target: TargetModel,
    project: Seq<char>,
    revision: Seq<char>,
    current_dir: Seq<char>,
)
    requires
        batch.nodes.dom().contains(p),
        package_of(target) != p,
    ensures
        ({
            let after = one_demand(batch, p, target, project, revision, current_dir);
            &&& grown(batch.nodes, after.nodes)
            &&& waits_for(after.nodes, p, target)
            &&& after.nodes[p].state == batch.nodes[p].state
            &&& after.names.contains(package_of(target))
            &&& after.results == batch.results
        }),
{
    let d = package_of(target);
    let mid = graph::with_dep(batch.nodes, p, d);
    let after = one_demand(batch, p, target, project, revision, current_dir);
    lemma_add_unique(batch.nodes[p].deps, d);
    lemma_add_unique(batch.names, d);
    assert(mid[p].deps == pieces::add_unique(batch.nodes[p].deps, d));
    let fresh: Seq<Seq<char>> = seq![];
    lemma_features(fresh, target.features);
    if mid.dom().contains(d) {
        lemma_features(mid[d].features, target.features);
    }
    assert forall|q: Seq<char>| #[trigger] batch.nodes.dom().contains(q) implies {
        &&& after.nodes.dom().contains(q)
        &&& forall|x: Seq<char>| #[trigger]
            batch.nodes[q].deps.contains(x) ==> after.nodes[q].deps.contains(x)
        &&& forall|f: Seq<char>| #[trigger]
            batch.nodes[q].features.contains(f) ==> after.nodes[q].features.contains(f)
    } by {
        assert(mid.dom().contains(q));
    }
}

proof fn lemma_demands(
    batch: Batch,
    p: Seq<char>,
    deps: Seq<TargetModel>,
    i: int,
    project: Seq<char>,
    revision: Seq<char>,
    current_dir: Seq<char>,
)
    requires
        batch.nodes.dom().contains(p),
        batch.nodes[p].state is WaitingForDeps,
        0 <= i <= deps.len(),
        forall|k: int| 0 <= k < i ==> waits_for(batch.nodes, p, #[trigger] deps[k]),
        forall|k: int| 0 <= k < i ==> batch.names.contains(package_of(#[trigger] deps[k])),
    ensures
        ({
            let after = scheduler::with_demands(
                batch,
                p,
                deps,
                i,
                project,
                revision,
                current_dir,
            );
            &&& grown(batch.nodes, after.nodes)
            &&& match after.nodes[p].state {
                StateModel::WaitingForDeps => {
                    &&& after.results == batch.results
                    &&& forall|k: int|
                        0 <= k < deps.len() ==> waits_for(after.nodes, p, #[trigger] deps[k])
                    &&& forall|k: int|
                        0 <= k < deps.len() ==> after.names.contains(
                            package_of(#[trigger] deps[k]),
                        )
                },
                StateModel::Failed(reason) => {
                    &&& after.results == batch.results.push(
                        ResultModel { package: p, outcome: OutcomeModel::Failed(reason) },
                    )
                    &&& exists|k: int|
                        0 <= k < deps.len() && reason == "dependency cycle with "@ + package_of(
                            #[trigger] deps[k],
                        ) && graph::depends(after.nodes, package_of(deps[k]), p)
                },
                _ => false,
            }
        }),
    decreases deps.len() - i,
{
    if i < deps.len() {
        let target = deps[i];
        let d = package_of(target);
        let after = scheduler::with_demands(batch, p, deps, i, project, revision, current_dir);
        if graph::depends(batch.nodes, d, p) {
            let reason = "dependency cycle with "@ + d;
            lemma_same_edges(batch.nodes, after.nodes, d, p);
            assert(package_of(deps[i]) == d);
        } else {
            if d == p {
                assert(graph::depends_in(batch.nodes, d, p, 0));
            }
            let next = one_demand(batch, p, target, project, revision, current_dir);
            lemma_one_demand(batch, p, target, project, revision, current_dir);
            lemma_add_unique(batch.names, d);
            assert forall|k: int| 0 <= k < i + 1 implies waits_for(
                next.nodes,
                p,
                #[trigger] deps[k],
            ) by {
                if k < i {
                    lemma_grown_keeps_waiting(batch.nodes, next.nodes, p, deps[k]);
                }
            }
            lemma_demands(next, p, deps, i + 1, project, revision, current_dir);
            lemma_grown_trans(batch.nodes, next.nodes, after.nodes);
        }
    }
}

/// Dependencies are the same where the edges are.
proof fn lemma_same_edges(a: Nodes, b: Nodes, x: Seq<char>, y: Seq<char>)
    requires
        graph::depends(a, x, y),
        forall|q: Seq<char>| #[trigger]
            a.dom().contains(q) ==> b.dom().contains(q) && b[q].deps == a[q].deps,
    ensures
        graph::depends(b, x, y),
{
    let n = choose|n: nat| #[trigger] graph::depends_in(a, x, y, n);
    lemma_same_edges_in(a, b, x, y, n);
}

proof fn lemma_same_edges_in(a: Nodes, b: Nodes, x: Seq<char>, y: Seq<char>, n: nat)
    requires
        graph::depends_in(a, x, y, n),
        forall|q: Seq<char>| #[trigger]
            a.dom().contains(q) ==> b.dom().contains(q) && b[q].deps == a[q].deps,
    ensures
        graph::depends_in(b, x, y, n),
    decreases n,
{
    if n > 0 {
        let c = choose|c: Seq<char>| #[trigger]
            graph::edge(a, x, c) && graph::depends_in(a, c, y, (n - 1) as nat);
        lemma_same_edges_in(a, b, c, y, (n - 1) as nat);
        assert(graph::edge(b, x, c));
    }
}

/// A package whose build needs others waits for all of them, each of them one of the batch with
/// all the features that are asked of it; unless one of them depends on the package, which then
/// fails for that reason.
pub proof fn law_package_waits_for_what_it_needs(
    batch: Batch,
    p: Seq<char>,
    deps: Seq<TargetModel>,
    project: Seq<char>,
    revision: Seq<char>,
    current_dir: Seq<char>,
)
    requires
        batch.nodes.dom().contains(p),
    ensures
        ({
            let after = scheduler::after_outcome(
                batch,
                p,
                OutcomeModel::NeedsDependencies(deps),
                project,
                revision,
                current_dir,
            );
            match after.nodes[p].state {
                StateModel::WaitingForDeps => {
                    &&& after.results == batch.results
                    &&& forall|k: int|
                        0 <= k < deps.len() ==> waits_for(after.nodes, p, #[trigger] deps[k])
                    &&& forall|k: int|
                        0 <= k < deps.len() ==> after.names.contains(
                            package_of(#[trigger] deps[k]),
                        )
                },
                StateModel::Failed(reason) => {
                    &&& after.results == batch.results.push(
                        ResultModel { package: p, outcome: OutcomeModel::Failed(reason) },
                    )
                    &&& exists|k: int|
                        0 <= k < deps.len() && reason == "dependency cycle with "@ + package_of(
                            #[trigger] deps[k],
                        ) && graph::depends(after.nodes, package_of(deps[k]), p)
                },
                _ => false,
            }
        }),
{
    let mid = Batch {
        nodes: graph::with_state(batch.nodes, p, StateModel::WaitingForDeps),
        ..batch
    };
    lemma_demands(mid, p, deps, 0, project, revision, current_dir);
}

/// A package that is asked for is built if it is new, and built again if it was built without a
/// feature that is asked for now; else it stays in the state that it is in.
pub proof fn law_demand_builds_what_is_missing(
    nodes: Nodes,
    to: Seq<char>,
    features: Seq<Seq<char>>,
    source: SourceModel,
    project: Seq<char>,
    revision: Seq<char>,
    current_dir: Seq<char>,
)
    ensures
        ({
            let after = graph::with_demand(
                nodes,
                to,
                features,
                source,
                project,
                revision,
                current_dir,
            );
            let lacks = exists|f: Seq<char>| #[trigger]
                features.contains(f) && !nodes[to].features.contains(f);
            &&& after.dom().contains(to)
            &&& !nodes.dom().contains(to) ==> {
                &&& after[to].state is Pending
                &&& after[to].source == source
                &&& after[to].deps.len() == 0
                &&& after[to].obs_project == project
                &&& after[to].revision == revision
            }
            &&& nodes.dom().contains(to) && nodes[to].state is Success && lacks
                ==> after[to].state is Pending
            &&& nodes.dom().contains(to) && !(nodes[to].state is Success && lacks)
                ==> after[to].state == nodes[to].state
            &&& nodes.dom().contains(to) ==> after[to].source == nodes[to].source && after[to].deps
                == nodes[to].deps
            &&& forall|f: Seq<char>| #[trigger]
                after[to].features.contains(f) <==> features.contains(f) || (nodes.dom().contains(
                    to,
                ) && nodes[to].features.contains(f))
            &&& forall|q: Seq<char>| #[trigger]
                nodes.dom().contains(q) && q != to ==> after[q] == nodes[q]
        }),
{
    let fresh: Seq<Seq<char>> = seq![];
    lemma_features(fresh, features);
    if nodes.dom().contains(to) {
        lemma_features(nodes[to].features, features);
    }
}

/// The roots of a batch are to be built, each with the features that are asked of it.
pub proof fn law_roots_are_to_be_built(
    batch: Batch,
    roots: Seq<RequestModel>,
    i: int,
    project: Seq<char>,
    revision: Seq<char>,
    current_dir: Seq<char>,
)
    requires
        0 <= i < roots.len(),
    ensures
        ({
            let after = scheduler::with_roots(batch, roots, project, revision, current_dir);
            let p = roots[i].package;
            &&& after.names.contains(p)
            &&& after.nodes.dom().contains(p)
            &&& forall|f: Seq<char>| #[trigger]
                roots[i].features.contains(f) ==> after.nodes[p].features.contains(f)
            &&& !batch.nodes.dom().contains(p) ==> after.nodes[p].state is Pending
                && after.nodes[p].deps.len() == 0
            &&& batch.nodes.dom().contains(p) ==> after.nodes[p].state == batch.nodes[p].state
                && after.nodes[p].deps == batch.nodes[p].deps
            &&& after.results == batch.results
        }),
    decreases roots.len(),
{
    let rest = roots.drop_last();
    let before = scheduler::with_roots(batch, rest, project, revision, current_dir);
    let root = roots.last();
    let p = roots[i].package;
    lemma_roots_keep(batch, rest, project, revision, current_dir, p);
    lemma_add_unique(before.names, root.package);
    let node = if before.nodes.dom().contains(root.package) {
        before.nodes[root.package]
    } else {
        graph::fresh_node(root.package, root.source, project, revision, current_dir)
    };
    lemma_features(node.features, root.features);
    if i < rest.len() {
        assert(rest[i] == roots[i]);
        law_roots_are_to_be_built(batch, rest, i, project, revision, current_dir);
    }
}

proof fn lemma_roots_keep(
    batch: Batch,
    roots: Seq<RequestModel>,
    project: Seq<char>,
    revision: Seq<char>,
    current_dir: Seq<char>,
    p: Seq<char>,
)
    ensures
        ({
            let after = scheduler::with_roots(batch, roots, project, revision, current_dir);
            &&& after.results == batch.results
            &&& after.nodes.dom().contains(p) && !batch.nodes.dom().contains(p)
                ==> after.nodes[p].state is Pending && after.nodes[p].deps.len() == 0
            &&& batch.nodes.dom().contains(p) ==> after.nodes.dom().contains(p)
                && after.nodes[p].state == batch.nodes[p].state && after.nodes[p].deps
                == batch.nodes[p].deps
        }),
    decreases roots.len(),
{
    if roots.len() > 0 {
        lemma_roots_keep(batch, roots.drop_last(), project, revision, current_dir, p);
    }
}

proof fn lemma_failed_dep(nodes: Nodes, deps: Seq<Seq<char>>, i: int)
    requires
        0 <= i <= deps.len(),
    ensures
        match scheduler::failed_dep(nodes, deps, i) {
            Some(d) => deps.contains(d) && nodes.dom().contains(d) && nodes[d].state is Failed,
            None => forall|k: int|
                i <= k < deps.len() ==> !(nodes.dom().contains(#[trigger] deps[k])
                    && nodes[deps[k]].state is Failed),
        },
    decreases deps.len() - i,
{
    if i < deps.len() {
        assert(deps.contains(deps[i]));
        lemma_failed_dep(nodes, deps, i + 1);
    }
}

/// A package that waits when nothing is being built is given up. Where something that it depends
/// on has failed, the reason names such a dependency; where nothing has, it says that there is no
/// progress.
pub proof fn law_waiting_package_is_given_up(nodes: Nodes, p: Seq<char>)
    requires
        nodes.dom().contains(p),
        nodes[p].state is WaitingForDeps,
    ensures
        ({
            let deps = nodes[p].deps;
            let some_failed = exists|k: int|
                0 <= k < deps.len() && nodes.dom().contains(#[trigger] deps[k])
                    && nodes[deps[k]].state is Failed;
            match scheduler::all_given_up(nodes)[p].state {
                StateModel::Failed(reason) => if some_failed {
                    exists|d: Seq<char>|
                        reason == "dependency build failed: "@ + d && #[trigger] deps.contains(d)
                            && nodes.dom().contains(d) && nodes[d].state is Failed
                } else {
                    reason == "scheduler deadlock: waiting for deps with no progress"@
                },
                _ => false,
            }
        }),
{
    let deps = nodes[p].deps;
    lemma_failed_dep(nodes, deps, 0);
    if let Some(d) = scheduler::failed_dep(nodes, deps, 0) {
        assert(deps.contains(d));
        let k = deps.index_of(d);
        assert(nodes.dom().contains(deps[k]));
    }
}

} // verus!
