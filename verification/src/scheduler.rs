//! Which package is built when: the state of a batch and how it changes.
use vstd::prelude::*;

use crate::engine::{BuildOutcome, OutcomeModel};
use crate::graph;
use crate::graph::{
    DepGraph, DependencyTarget, Node, NodeModel, NodeState, Nodes, PackageSource, SourceModel,
    StateModel, TargetModel,
};
use crate::pieces;
use crate::pieces::copy_texts;
use crate::text;
use crate::text::cat2;
use crate::upstream;
use crate::upstream::python_package_name;

verus! {

/// What the build of a package has come to.
#[derive(Debug, Clone)]
pub struct NodeResult {
    pub package: String,
    pub outcome: BuildOutcome,
}

/// The model of a [`NodeResult`].
#[verifier::ext_equal]
pub struct ResultModel {
    pub package: Seq<char>,
    pub outcome: OutcomeModel,
}

impl View for NodeResult {
    type V = ResultModel;

    open spec fn view(&self) -> ResultModel {
        ResultModel { package: self.package@, outcome: self.outcome@ }
    }
}

pub open spec fn result_models(v: Seq<NodeResult>) -> Seq<ResultModel> {
    Seq::new(v.len(), |i: int| v[i]@)
}

/// A package to be built.
#[derive(Debug, Clone)]
pub struct BuildRequest {
    pub package: String,
    pub features: Vec<String>,
    pub source: PackageSource,
}

/// The model of a [`BuildRequest`].
#[verifier::ext_equal]
pub struct RequestModel {
    pub package: Seq<char>,
    pub features: Seq<Seq<char>>,
    pub source: SourceModel,
}

impl View for BuildRequest {
    type V = RequestModel;

    open spec fn view(&self) -> RequestModel {
        RequestModel {
            package: self.package@,
            features: text::texts(self.features@),
            source: self.source@,
        }
    }
}

pub open spec fn request_models(v: Seq<BuildRequest>) -> Seq<RequestModel> {
    Seq::new(v.len(), |i: int| v[i]@)
}

/// Whether all that `p` depends on has been built.
pub open spec fn deps_built(nodes: Nodes, p: Seq<char>) -> bool {
    graph::unresolved(nodes, p).len() == 0
}

/// A node that waits for nothing any more is pending again.
pub open spec fn resumed_node(nodes: Nodes, p: Seq<char>) -> NodeModel {
    if nodes[p].state is WaitingForDeps && deps_built(nodes, p) {
        NodeModel { state: StateModel::Pending, ..nodes[p] }
    } else {
        nodes[p]
    }
}

pub open spec fn resumed(nodes: Nodes) -> Nodes {
    Map::new(|p: Seq<char>| nodes.dom().contains(p), |p: Seq<char>| resumed_node(nodes, p))
}

/// The two graphs have the same nodes with the same dependencies, and the same nodes have been
/// built.
pub open spec fn same_progress(a: Nodes, b: Nodes) -> bool {
    &&& a.dom() =~= b.dom()
    &&& forall|p: Seq<char>| #[trigger]
        a.dom().contains(p) ==> a[p].deps == b[p].deps && (a[p].state is Success <==> b[p].state is
            Success)
}

proof fn lemma_unbuilt_same(a: Nodes, b: Nodes, deps: Seq<Seq<char>>)
    requires
        same_progress(a, b),
    ensures
        graph::unbuilt(a, deps) == graph::unbuilt(b, deps),
    decreases deps.len(),
{
    if deps.len() > 0 {
        lemma_unbuilt_same(a, b, deps.drop_last());
        assert(graph::built(a, deps.last()) == graph::built(b, deps.last()));
    }
}

pub proof fn lemma_progress(a: Nodes, b: Nodes, p: Seq<char>)
    requires
        same_progress(a, b),
    ensures
        graph::unresolved(a, p) == graph::unresolved(b, p),
{
    if a.dom().contains(p) {
        lemma_unbuilt_same(a, b, a[p].deps);
    }
}

/// The members of [`graph::in_state`].
proof fn lemma_in_state(nodes: Nodes, names: Seq<Seq<char>>, state: StateModel, p: Seq<char>)
    ensures
        graph::in_state(nodes, names, state).contains(p) <==> names.contains(p) && nodes[p].state
            == state,
    decreases names.len(),
{
    let all = graph::in_state(nodes, names, state);
    if names.len() > 0 {
        let rest = names.drop_last();
        let before = graph::in_state(nodes, rest, state);
        lemma_in_state(nodes, rest, state, p);
        if all.contains(p) {
            let i = all.index_of(p);
            if i < before.len() {
                assert(before[i] == p);
                let j = rest.index_of(p);
                assert(names[j] == p);
            } else {
                assert(names[names.len() - 1] == p);
            }
        }
        if names.contains(p) && nodes[p].state == state {
            let j = names.index_of(p);
            if j < rest.len() {
                assert(rest[j] == p);
                let i = before.index_of(p);
                assert(all[i] == p);
            } else {
                assert(all[all.len() - 1] == p);
            }
        }
    }
}

pub fn resume_waiting_nodes_with_satisfied_deps(graph: &mut DepGraph)
    requires
        old(graph).wf(),
    ensures
        final(graph).wf(),
        final(graph)@ == resumed(old(graph)@),
        final(graph).names() == old(graph).names(),
{
    let waiting = graph.packages_in_state(&NodeState::WaitingForDeps);
    let ghost before = graph@;
    let ghost names = graph.names();
    let ghost all = text::texts(waiting@);
    let mut i: usize = 0;
    while i < waiting.len()
        invariant
            i <= waiting@.len(),
            all == text::texts(waiting@),
            all == graph::in_state(before, names, StateModel::WaitingForDeps),
            graph.wf(),
            graph.names() == names,
            same_progress(before, graph@),
            forall|p: Seq<char>| #[trigger]
                before.dom().contains(p) ==> graph@[p] == (if all.take(i as int).contains(p) {
                    resumed_node(before, p)
                } else {
                    before[p]
                }),
        decreases waiting@.len() - i,
    {
        let package = waiting[i].as_str();
        let ghost now = graph@;
        proof {
            lemma_progress(before, now, package@);
            assert(all[i as int] == package@);
            lemma_in_state(before, names, StateModel::WaitingForDeps, package@);
            assert(all.take(i + 1) =~= all.take(i as int).push(package@));
            assert(forall|p: Seq<char>|
                all.take(i + 1).contains(p) <==> all.take(i as int).contains(p) || p == package@)
                by {
                assert(all.take(i + 1)[i as int] == package@);
                assert forall|p: Seq<char>| all.take(i as int).contains(p) implies all.take(
                    i + 1,
                ).contains(p) by {
                    let k = all.take(i as int).index_of(p);
                    assert(all.take(i + 1)[k] == p);
                }
                assert forall|p: Seq<char>|
                    all.take(i + 1).contains(p) && p != package@ implies all.take(
                    i as int,
                ).contains(p) by {
                    let k = all.take(i + 1).index_of(p);
                    assert(all.take(i as int)[k] == p);
                }
            }
        }
        if graph.all_deps_success(package) {
            graph.mark_pending(package);
        }
        i += 1;
    }
    proof {
        assert(all.take(all.len() as int) =~= all);
        graph.lemma_names();
        assert forall|p: Seq<char>| before.dom().contains(p) implies #[trigger] graph@[p]
            == resumed_node(before, p) by {
            lemma_in_state(before, names, StateModel::WaitingForDeps, p);
        }
        assert(graph@ =~= resumed(before));
    }
}

/// The state in which a node is built.
pub open spec fn running_state(source: SourceModel) -> StateModel {
    match source {
        SourceModel::LocalWorkdir { .. } => StateModel::LocalBuilding,
        _ => StateModel::SpecPreparing,
    }
}

pub fn node_running_state(node: &Node) -> (r: NodeState)
    ensures
        r@ == running_state(node@.source),
{
    match &node.source {
        PackageSource::LocalWorkdir { .. } => NodeState::LocalBuilding,
        PackageSource::Pypi { .. } => NodeState::SpecPreparing,
        PackageSource::ExistingRepo { .. } => NodeState::SpecPreparing,
    }
}

/// A pending node all of whose dependencies have been built.
pub open spec fn is_ready(nodes: Nodes, p: Seq<char>) -> bool {
    nodes[p].state is Pending && deps_built(nodes, p)
}

/// Of `names` those of the nodes that are ready, in order.
pub open spec fn ready_names(nodes: Nodes, names: Seq<Seq<char>>) -> Seq<Seq<char>>
    decreases names.len(),
{
    if names.len() == 0 {
        seq![]
    } else if is_ready(nodes, names.last()) {
        ready_names(nodes, names.drop_last()).push(names.last())
    } else {
        ready_names(nodes, names.drop_last())
    }
}

/// `nodes` when the nodes that are ready have been started.
pub open spec fn started(nodes: Nodes) -> Nodes {
    Map::new(
        |p: Seq<char>| nodes.dom().contains(p),
        |p: Seq<char>|
            if is_ready(nodes, p) {
                NodeModel { state: running_state(nodes[p].source), ..nodes[p] }
            } else {
                nodes[p]
            },
    )
}

pub open spec fn request_for(nodes: Nodes, p: Seq<char>) -> RequestModel {
    RequestModel { package: p, features: nodes[p].features, source: nodes[p].source }
}

pub open spec fn requests_for(nodes: Nodes, names: Seq<Seq<char>>) -> Seq<RequestModel> {
    Seq::new(names.len(), |i: int| request_for(nodes, names[i]))
}

/// The members of [`ready_names`].
pub proof fn lemma_ready_names(nodes: Nodes, names: Seq<Seq<char>>, p: Seq<char>)
    ensures
        ready_names(nodes, names).contains(p) <==> names.contains(p) && is_ready(nodes, p),
    decreases names.len(),
{
    let all = ready_names(nodes, names);
    if names.len() > 0 {
        let rest = names.drop_last();
        let before = ready_names(nodes, rest);
        lemma_ready_names(nodes, rest, p);
        if all.contains(p) {
            let i = all.index_of(p);
            if i < before.len() {
                assert(before[i] == p);
                let j = rest.index_of(p);
                assert(names[j] == p);
            } else {
                assert(names[names.len() - 1] == p);
            }
        }
        if names.contains(p) && is_ready(nodes, p) {
            let j = names.index_of(p);
            if j < rest.len() {
                assert(rest[j] == p);
                let i = before.index_of(p);
                assert(all[i] == p);
            } else {
                assert(all[all.len() - 1] == p);
            }
        }
    }
}

/// Starts the nodes that are ready: marks them, and says what is to be built.
pub fn start_ready(graph: &mut DepGraph) -> (r: Vec<BuildRequest>)
    requires
        old(graph).wf(),
    ensures
        final(graph).wf(),
        final(graph)@ == started(old(graph)@),
        final(graph).names() == old(graph).names(),
        request_models(r@) == requests_for(
            old(graph)@,
            ready_names(old(graph)@, old(graph).names()),
        ),
{
    let ghost before = graph@;
    let ghost names = graph.names();
    proof {
        graph.lemma_names();
    }
    let mut ready: Vec<BuildRequest> = Vec::new();
    let mut states: Vec<NodeState> = Vec::new();
    {
        let entries = graph.iter();
        let mut i: usize = 0;
        assert(names.take(0) =~= seq![]);
        assert(request_models(ready@) =~= requests_for(before, ready_names(before, names.take(0))));
        while i < entries.len()
            invariant
                i <= entries@.len(),
                entries@.len() == names.len(),
                graph.wf(),
                graph@ == before,
                graph.names() == names,
                forall|k: int|
                    0 <= k < entries@.len() ==> (#[trigger] entries@[k]).0@ == names[k]
                        && entries@[k].1@ == before[names[k]],
                states@.len() == ready@.len(),
                request_models(ready@) == requests_for(
                    before,
                    ready_names(before, names.take(i as int)),
                ),
                forall|k: int|
                    0 <= k < states@.len() ==> (#[trigger] states@[k])@ == running_state(
                        ready@[k].source@,
                    ),
            decreases entries@.len() - i,
        {
            let (name, node) = entries[i];
            assert(entries@[i as int].0@ == names[i as int]);
            assert(names.take(i + 1).drop_last() =~= names.take(i as int));
            if matches!(node.state, NodeState::Pending) && graph.all_deps_success(name.as_str()) {
                let ghost done = ready_names(before, names.take(i as int));
                let ghost list = ready@;
                states.push(node_running_state(node));
                ready.push(
                    BuildRequest {
                        package: name.clone(),
                        features: node.features.to_vec(),
                        source: node.source.duplicate(),
                    },
                );
                assert(request_models(ready@) =~= request_models(list).push(
                    request_for(before, names[i as int]),
                ));
                assert(requests_for(before, done.push(names[i as int])) =~= requests_for(
                    before,
                    done,
                ).push(request_for(before, names[i as int])));
            }
            i += 1;
        }
        assert(names.take(names.len() as int) =~= names);
    }
    let ghost all = ready_names(before, names);
    assert(forall|k: int| 0 <= k < ready@.len() ==> (#[trigger] ready@[k])@ == request_for(
        before,
        all[k],
    )) by {
        assert forall|k: int| 0 <= k < ready@.len() implies (#[trigger] ready@[k])@ == request_for(
            before,
            all[k],
        ) by {
            assert(request_models(ready@)[k] == requests_for(before, all)[k]);
        }
    }
    assert(request_models(ready@).len() == requests_for(before, all).len());
    let mut k: usize = 0;
    while k < ready.len()
        invariant
            k <= ready@.len(),
            all == ready_names(before, names),
            all.len() == ready@.len(),
            states@.len() + k == ready@.len(),
            forall|j: int|
                0 <= j < ready@.len() ==> (#[trigger] ready@[j])@ == request_for(before, all[j]),
            forall|j: int|
                0 <= j < states@.len() ==> (#[trigger] states@[j])@ == running_state(
                    before[all[j]].source,
                ),
            graph.wf(),
            graph.names() == names,
            graph@.dom() =~= before.dom(),
            forall|p: Seq<char>| names.contains(p) <==> before.dom().contains(p),
            forall|p: Seq<char>| #[trigger]
                before.dom().contains(p) ==> graph@[p] == (if all.skip(all.len() - k).contains(p) {
                    NodeModel { state: running_state(before[p].source), ..before[p] }
                } else {
                    before[p]
                }),
        decreases ready@.len() - k,
    {
        let j: usize = ready.len() - 1 - k;
        let state = states.pop().unwrap();
        let package = ready[j].package.as_str();
        proof {
            assert(ready@[j as int]@ == request_for(before, all[j as int]));
            lemma_ready_names(before, names, package@);
            assert(all.contains(package@));
            let now = all.skip(all.len() - k);
            let next = all.skip(all.len() - (k + 1));
            assert(next =~= seq![package@] + now);
            assert forall|p: Seq<char>| next.contains(p) <==> now.contains(p) || p == package@ by {
                if now.contains(p) {
                    let q = now.index_of(p);
                    assert(next[q + 1] == p);
                }
                if p == package@ {
                    assert(next[0] == p);
                }
                if next.contains(p) && p != package@ {
                    let q = next.index_of(p);
                    assert(now[q - 1] == p);
                }
            }
        }
        graph.mark_state(package, state);
        k += 1;
    }
    proof {
        assert(all.skip(0) =~= all);
        assert forall|p: Seq<char>| before.dom().contains(p) implies #[trigger] graph@[p]
            == started(before)[p] by {
            lemma_ready_names(before, names, p);
        }
        assert(graph@ =~= started(before));
    }
    ready
}

/// The request that builds what a target asks for.
pub open spec fn target_request(target: TargetModel) -> RequestModel {
    RequestModel {
        package: upstream::package_name(target.package),
        features: target.features,
        source: SourceModel::Pypi { name: target.package, version: None },
    }
}

pub fn dependency_build_request(dep: &DependencyTarget) -> (r: BuildRequest)
    ensures
        r@ == target_request(dep@),
{
    BuildRequest {
        package: python_package_name(dep.package.as_str()),
        features: copy_texts(&dep.features),
        source: PackageSource::Pypi { name: dep.package.clone(), version: None },
    }
}

/// The state of a node whose build has come to its end.
pub open spec fn terminal_state(outcome: OutcomeModel) -> Option<StateModel> {
    match outcome {
        OutcomeModel::Success { .. } => Some(StateModel::Success),
        OutcomeModel::Failed(reason) => Some(StateModel::Failed(reason)),
        OutcomeModel::NeedsDependencies(_) => None,
    }
}

/// Puts a result at the end of the list.
fn push_result(results: &mut Vec<NodeResult>, package: String, outcome: BuildOutcome)
    ensures
        result_models(final(results)@) == result_models(old(results)@).push(
            ResultModel { package: package@, outcome: outcome@ },
        ),
{
    let ghost before = results@;
    results.push(NodeResult { package, outcome });
    assert(result_models(results@) =~= result_models(before).push(
        ResultModel { package: package@, outcome: outcome@ },
    ));
}

pub fn record_terminal_outcome(
    graph: &mut DepGraph,
    results: &mut Vec<NodeResult>,
    package: String,
    outcome: BuildOutcome,
)
    requires
        old(graph).wf(),
    ensures
        final(graph).wf(),
        final(graph).names() == old(graph).names(),
        match terminal_state(outcome@) {
            Some(state) => {
                &&& final(graph)@ == graph::with_state(old(graph)@, package@, state)
                &&& result_models(final(results)@) == result_models(old(results)@).push(
                    ResultModel { package: package@, outcome: outcome@ },
                )
            },
            None => {
                &&& final(graph)@ == old(graph)@
                &&& result_models(final(results)@) == result_models(old(results)@)
            },
        },
{
    match &outcome {
        BuildOutcome::Success { .. } => {
            graph.mark_success(package.as_str());
        },
        BuildOutcome::Failed(reason) => {
            graph.mark_failed(package.as_str(), reason.clone());
        },
        BuildOutcome::NeedsDependencies(_) => return,
    }
    push_result(results, package, outcome);
}

/// The first of `deps` from `i` on whose build has failed.
pub open spec fn failed_dep(nodes: Nodes, deps: Seq<Seq<char>>, i: int) -> Option<Seq<char>>
    decreases deps.len() - i,
{
    if i < 0 || i >= deps.len() {
        None
    } else if nodes.dom().contains(deps[i]) && nodes[deps[i]].state is Failed {
        Some(deps[i])
    } else {
        failed_dep(nodes, deps, i + 1)
    }
}

pub fn first_failed_dep(graph: &DepGraph, deps: &[String]) -> (r: Option<String>)
    requires
        graph.wf(),
    ensures
        text::opt_text(r) == failed_dep(graph@, text::texts(deps@), 0),
{
    let ghost all = text::texts(deps@);
    let mut i: usize = 0;
    while i < deps.len()
        invariant
            i <= deps@.len(),
            all == text::texts(deps@),
            graph.wf(),
            failed_dep(graph@, all, 0) == failed_dep(graph@, all, i as int),
        decreases deps@.len() - i,
    {
        assert(all[i as int] == deps@[i as int]@);
        if let Some(node) = graph.get(deps[i].as_str()) {
            if matches!(node.state, NodeState::Failed(_)) {
                return Some(deps[i].clone());
            }
        }
        i += 1;
    }
    None
}

/// Why a node that waits is given up when nothing is being built.
pub open spec fn give_up_reason(nodes: Nodes, p: Seq<char>) -> Seq<char> {
    match failed_dep(nodes, nodes[p].deps, 0) {
        Some(dep) => "dependency build failed: "@ + dep,
        None => "scheduler deadlock: waiting for deps with no progress"@,
    }
}

/// A node that waits for a node whose build has failed.
pub open spec fn waits_for_failed(nodes: Nodes, p: Seq<char>) -> bool {
    nodes[p].state is WaitingForDeps && failed_dep(nodes, nodes[p].deps, 0) is Some
}

/// A node that waits for nodes none of which has failed.
pub open spec fn waits_in_vain(nodes: Nodes, p: Seq<char>) -> bool {
    nodes[p].state is WaitingForDeps && failed_dep(nodes, nodes[p].deps, 0) is None
}

/// The nodes that wait, given up: those that wait for a failed node where `failed` says so, else
/// those that wait in vain.
pub open spec fn given_up(nodes: Nodes, names: Seq<Seq<char>>, failed: bool) -> Seq<ResultModel>
    decreases names.len(),
{
    if names.len() == 0 {
        seq![]
    } else {
        let p = names.last();
        let before = given_up(nodes, names.drop_last(), failed);
        if (failed && waits_for_failed(nodes, p)) || (!failed && waits_in_vain(nodes, p)) {
            before.push(
                ResultModel {
                    package: p,
                    outcome: OutcomeModel::Failed(give_up_reason(nodes, p)),
                },
            )
        } else {
            before
        }
    }
}

/// `nodes` when those that wait have been given up.
pub open spec fn all_given_up(nodes: Nodes) -> Nodes {
    Map::new(
        |p: Seq<char>| nodes.dom().contains(p),
        |p: Seq<char>|
            if nodes[p].state is WaitingForDeps {
                NodeModel { state: StateModel::Failed(give_up_reason(nodes, p)), ..nodes[p] }
            } else {
                nodes[p]
            },
    )
}

/// The names of the nodes that wait, with why each is given up: first those that wait for a failed
/// node.
fn give_up_list(graph: &DepGraph, failed: bool) -> (r: Vec<(String, String)>)
    requires
        graph.wf(),
    ensures
        pair_results(r@) == given_up(graph@, graph.names(), failed),
{
    let ghost nodes = graph@;
    let ghost names = graph.names();
    let entries = graph.iter();
    let mut out: Vec<(String, String)> = Vec::new();
    let mut i: usize = 0;
    assert(pair_results(out@) =~= given_up(nodes, names.take(0), failed));
    while i < entries.len()
        invariant
            i <= entries@.len(),
            entries@.len() == names.len(),
            graph.wf(),
            graph@ == nodes,
            forall|k: int|
                0 <= k < entries@.len() ==> (#[trigger] entries@[k]).0@ == names[k]
                    && entries@[k].1@ == nodes[names[k]],
            pair_results(out@) == given_up(nodes, names.take(i as int), failed),
        decreases entries@.len() - i,
    {
        let (name, node) = entries[i];
        assert(entries@[i as int].0@ == names[i as int]);
        assert(names.take(i + 1).drop_last() =~= names.take(i as int));
        assert(names.take(i + 1).last() == name@);
        if matches!(node.state, NodeState::WaitingForDeps) {
            let found = first_failed_dep(graph, &node.deps);
            let ghost before = out@;
            match found {
                Some(dep) => {
                    if failed {
                        out.push((name.clone(), cat2("dependency build failed: ", dep.as_str())));
                        assert(pair_results(out@) =~= pair_results(before).push(
                            ResultModel {
                                package: name@,
                                outcome: OutcomeModel::Failed(give_up_reason(nodes, name@)),
                            },
                        ));
                    }
                },
                None => {
                    if !failed {
                        out.push(
                            (
                                name.clone(),
                                "scheduler deadlock: waiting for deps with no progress".to_owned(),
                            ),
                        );
                        assert(pair_results(out@) =~= pair_results(before).push(
                            ResultModel {
                                package: name@,
                                outcome: OutcomeModel::Failed(give_up_reason(nodes, name@)),
                            },
                        ));
                    }
                },
            }
        }
        i += 1;
    }
    assert(names.take(names.len() as int) =~= names);
    out
}

/// Results of failed builds as pairs of a package and a reason.
pub open spec fn pair_results(v: Seq<(String, String)>) -> Seq<ResultModel> {
    Seq::new(
        v.len(),
        |i: int|
            ResultModel { package: v[i].0@, outcome: OutcomeModel::Failed(v[i].1@) },
    )
}

/// `nodes` with each package of `results` in the state that its failure gives it.
pub open spec fn with_failures(nodes: Nodes, results: Seq<ResultModel>) -> Nodes
    decreases results.len(),
{
    if results.len() == 0 {
        nodes
    } else {
        graph::with_state(
            with_failures(nodes, results.drop_last()),
            results.last().package,
            StateModel::Failed(results.last().outcome->Failed_0),
        )
    }
}

fn mark_failures(graph: &mut DepGraph, results: &mut Vec<NodeResult>, list: &[(String, String)])
    requires
        old(graph).wf(),
    ensures
        final(graph).wf(),
        final(graph).names() == old(graph).names(),
        final(graph)@ == with_failures(old(graph)@, pair_results(list@)),
        result_models(final(results)@) == result_models(old(results)@) + pair_results(list@),
{
    let ghost nodes = graph@;
    let ghost start = result_models(results@);
    let ghost all = pair_results(list@);
    let mut i: usize = 0;
    assert(start =~= start + all.take(0));
    while i < list.len()
        invariant
            i <= list@.len(),
            all == pair_results(list@),
            graph.wf(),
            graph.names() == old(graph).names(),
            graph@ == with_failures(nodes, all.take(i as int)),
            result_models(results@) == start + all.take(i as int),
        decreases list@.len() - i,
    {
        let package = list[i].0.as_str();
        let reason = list[i].1.as_str();
        assert(all[i as int] == (ResultModel {
            package: package@,
            outcome: OutcomeModel::Failed(reason@),
        }));
        graph.mark_failed(package, reason.to_owned());
        push_result(results, package.to_owned(), BuildOutcome::Failed(reason.to_owned()));
        i += 1;
        assert(all.take(i as int).drop_last() =~= all.take(i - 1));
        assert(start + all.take(i as int) =~= (start + all.take(i - 1)).push(all[i - 1]));
    }
    assert(all.take(all.len() as int) =~= all);
}

/// The failures of [`given_up`] are those of the nodes that wait, each with its reason.
pub proof fn lemma_given_up(nodes: Nodes, names: Seq<Seq<char>>, failed: bool)
    requires
        forall|i: int| 0 <= i < names.len() ==> nodes.dom().contains(#[trigger] names[i]),
    ensures
        forall|k: int|
            0 <= k < given_up(nodes, names, failed).len() ==> (#[trigger] given_up(
                nodes,
                names,
                failed,
            )[k]).outcome == OutcomeModel::Failed(
                give_up_reason(nodes, given_up(nodes, names, failed)[k].package),
            ) && nodes.dom().contains(given_up(nodes, names, failed)[k].package) && (if failed {
                waits_for_failed(nodes, given_up(nodes, names, failed)[k].package)
            } else {
                waits_in_vain(nodes, given_up(nodes, names, failed)[k].package)
            }),
        forall|i: int|
            0 <= i < names.len() && (if failed {
                waits_for_failed(nodes, #[trigger] names[i])
            } else {
                waits_in_vain(nodes, names[i])
            }) ==> exists|k: int|
                0 <= k < given_up(nodes, names, failed).len() && (#[trigger] given_up(
                    nodes,
                    names,
                    failed,
                )[k]).package == names[i],
    decreases names.len(),
{
    if names.len() > 0 {
        let rest = names.drop_last();
        lemma_given_up(nodes, rest, failed);
        let all = given_up(nodes, names, failed);
        let before = given_up(nodes, rest, failed);
        assert forall|k: int| 0 <= k < all.len() implies (#[trigger] all[k]).outcome
            == OutcomeModel::Failed(give_up_reason(nodes, all[k].package)) && nodes.dom().contains(
            all[k].package,
        ) && (if failed {
            waits_for_failed(nodes, all[k].package)
        } else {
            waits_in_vain(nodes, all[k].package)
        }) by {
            if k < before.len() {
                assert(all[k] == before[k]);
            } else {
                assert(all[k].package == names[names.len() - 1]);
            }
        }
        assert forall|i: int|
            0 <= i < names.len() && (if failed {
                waits_for_failed(nodes, #[trigger] names[i])
            } else {
                waits_in_vain(nodes, names[i])
            }) implies exists|k: int| 0 <= k < all.len() && (#[trigger] all[k]).package
            == names[i] by {
            if i < rest.len() {
                assert(rest[i] == names[i]);
                let k = choose|k: int|
                    0 <= k < before.len() && (#[trigger] before[k]).package == rest[i];
                assert(all[k] == before[k]);
            } else {
                assert(all[all.len() - 1].package == names[i]);
            }
        }
    }
}

/// Marking failures changes the state of their packages and nothing else.
proof fn lemma_with_failures(nodes: Nodes, base: Nodes, results: Seq<ResultModel>)
    requires
        base.dom() =~= nodes.dom(),
        forall|k: int|
            0 <= k < results.len() ==> nodes.dom().contains((#[trigger] results[k]).package)
                && results[k].outcome == OutcomeModel::Failed(
                give_up_reason(nodes, results[k].package),
            ),
    ensures
        with_failures(base, results).dom() =~= nodes.dom(),
        forall|p: Seq<char>| #[trigger]
            nodes.dom().contains(p) ==> with_failures(base, results)[p] == (if exists|k: int|
                0 <= k < results.len() && (#[trigger] results[k]).package == p {
                NodeModel { state: StateModel::Failed(give_up_reason(nodes, p)), ..base[p] }
            } else {
                base[p]
            }),
    decreases results.len(),
{
    if results.len() > 0 {
        let rest = results.drop_last();
        lemma_with_failures(nodes, base, rest);
        assert forall|p: Seq<char>| #[trigger] nodes.dom().contains(p) implies with_failures(
            base,
            results,
        )[p] == (if exists|k: int| 0 <= k < results.len() && (#[trigger] results[k]).package == p {
            NodeModel { state: StateModel::Failed(give_up_reason(nodes, p)), ..base[p] }
        } else {
            base[p]
        }) by {
            if results.last().package == p {
                assert(results[results.len() - 1].package == p);
            } else {
                if exists|k: int| 0 <= k < rest.len() && (#[trigger] rest[k]).package == p {
                    let k = choose|k: int| 0 <= k < rest.len() && (#[trigger] rest[k]).package == p;
                    assert(results[k].package == p);
                }
                if exists|k: int| 0 <= k < results.len() && (#[trigger] results[k]).package == p {
                    let k = choose|k: int|
                        0 <= k < results.len() && (#[trigger] results[k]).package == p;
                    assert(rest[k].package == p);
                }
            }
        }
    }
}

/// What is to be done when nothing is being built: nothing where no node waits, and the answer is
/// then that the batch is finished; else every node that waits is given up.
pub fn fail_waiting_nodes(graph: &mut DepGraph, results: &mut Vec<NodeResult>) -> (r: bool)
    requires
        old(graph).wf(),
    ensures
        final(graph).wf(),
        final(graph).names() == old(graph).names(),
        r == !exists|p: Seq<char>| #[trigger]
            old(graph)@.dom().contains(p) && old(graph)@[p].state is WaitingForDeps,
        final(graph)@ == all_given_up(old(graph)@),
        result_models(final(results)@) == result_models(old(results)@) + given_up(
            old(graph)@,
            old(graph).names(),
            true,
        ) + given_up(old(graph)@, old(graph).names(), false),
{
    let ghost nodes = graph@;
    let ghost names = graph.names();
    proof {
        graph.lemma_names();
        assert(forall|p: Seq<char>| nodes.dom().contains(p) <==> names.contains(p));
    }
    let waiting = graph.any_in_state(&NodeState::WaitingForDeps);
    let failed = give_up_list(graph, true);
    let vain = give_up_list(graph, false);
    mark_failures(graph, results, &failed);
    let ghost mid = graph@;
    mark_failures(graph, results, &vain);
    proof {
        let a = given_up(nodes, names, true);
        let b = given_up(nodes, names, false);
        assert forall|i: int| 0 <= i < names.len() implies nodes.dom().contains(
            #[trigger] names[i],
        ) by {
            assert(names.contains(names[i]));
        }
        lemma_given_up(nodes, names, true);
        lemma_given_up(nodes, names, false);
        lemma_with_failures(nodes, nodes, a);
        lemma_with_failures(nodes, mid, b);
        assert forall|p: Seq<char>| nodes.dom().contains(p) implies #[trigger] graph@[p]
            == all_given_up(nodes)[p] by {
            assert(names.contains(p));
            let i = names.index_of(p);
            assert(names[i] == p);
            if waits_for_failed(nodes, p) {
                assert(exists|k: int| 0 <= k < a.len() && (#[trigger] a[k]).package == p);
            }
            if waits_in_vain(nodes, p) {
                assert(exists|k: int| 0 <= k < b.len() && (#[trigger] b[k]).package == p);
            }
        }
        assert(graph@ =~= all_given_up(nodes));
    }
    !waiting
}

/// The model of a batch: its nodes, their names in the order of their creation, and the results so
/// far.
#[verifier::ext_equal]
pub struct Batch {
    pub nodes: Nodes,
    pub names: Seq<Seq<char>>,
    pub results: Seq<ResultModel>,
}

/// A batch with the roots that are to be built.
pub open spec fn with_roots(
    batch: Batch,
    roots: Seq<RequestModel>,
    project: Seq<char>,
    revision: Seq<char>,
    current_dir: Seq<char>,
) -> Batch
    decreases roots.len(),
{
    if roots.len() == 0 {
        batch
    } else {
        let before = with_roots(batch, roots.drop_last(), project, revision, current_dir);
        let root = roots.last();
        let node = if before.nodes.dom().contains(root.package) {
            before.nodes[root.package]
        } else {
            graph::fresh_node(root.package, root.source, project, revision, current_dir)
        };
        Batch {
            nodes: before.nodes.insert(
                root.package,
                NodeModel { features: graph::with_features(node.features, root.features), ..node },
            ),
            names: pieces::add_unique(before.names, root.package),
            ..before
        }
    }
}

/// A batch in which `package` depends on what `deps` from `i` on ask for. A dependency that would
/// close a cycle fails the package, and those behind it are left out.
pub open spec fn with_demands(
    batch: Batch,
    package: Seq<char>,
    deps: Seq<TargetModel>,
    i: int,
    project: Seq<char>,
    revision: Seq<char>,
    current_dir: Seq<char>,
) -> Batch
    decreases deps.len() - i,
{
    if i < 0 || i >= deps.len() {
        batch
    } else {
        let request = target_request(deps[i]);
        if graph::depends(batch.nodes, request.package, package) {
            let reason = "dependency cycle with "@ + request.package;
            Batch {
                nodes: graph::with_state(batch.nodes, package, StateModel::Failed(reason)),
                results: batch.results.push(
                    ResultModel { package, outcome: OutcomeModel::Failed(reason) },
                ),
                ..batch
            }
        } else {
            with_demands(
                Batch {
                    nodes: graph::with_demand(
                        graph::with_dep(batch.nodes, package, request.package),
                        request.package,
                        request.features,
                        request.source,
                        project,
                        revision,
                        current_dir,
                    ),
                    names: pieces::add_unique(batch.names, request.package),
                    ..batch
                },
                package,
                deps,
                i + 1,
                project,
                revision,
                current_dir,
            )
        }
    }
}

/// A batch when the build of `package` has come to `outcome`.
pub open spec fn after_outcome(
    batch: Batch,
    package: Seq<char>,
    outcome: OutcomeModel,
    project: Seq<char>,
    revision: Seq<char>,
    current_dir: Seq<char>,
) -> Batch {
    match outcome {
        OutcomeModel::Success { .. } => Batch {
            nodes: resumed(graph::with_state(batch.nodes, package, StateModel::Success)),
            results: batch.results.push(ResultModel { package, outcome }),
            ..batch
        },
        OutcomeModel::Failed(reason) => Batch {
            nodes: graph::with_state(batch.nodes, package, StateModel::Failed(reason)),
            results: batch.results.push(ResultModel { package, outcome }),
            ..batch
        },
        OutcomeModel::NeedsDependencies(deps) => with_demands(
            Batch {
                nodes: graph::with_state(batch.nodes, package, StateModel::WaitingForDeps),
                ..batch
            },
            package,
            deps,
            0,
            project,
            revision,
            current_dir,
        ),
    }
}

/// A batch when what waits for nothing any more has been resumed, and what is ready started.
pub open spec fn after_start(batch: Batch) -> Batch {
    Batch { nodes: started(resumed(batch.nodes)), ..batch }
}

/// A batch when what waits has been given up.
pub open spec fn after_idle(batch: Batch) -> Batch {
    Batch {
        nodes: all_given_up(batch.nodes),
        names: batch.names,
        results: batch.results + given_up(batch.nodes, batch.names, true) + given_up(
            batch.nodes,
            batch.names,
            false,
        ),
    }
}

/// Every result is a success or a failure.
pub open spec fn all_terminal(results: Seq<ResultModel>) -> bool {
    forall|k: int| 0 <= k < results.len() ==> terminal_state((#[trigger] results[k]).outcome) is Some
}

pub proof fn lemma_given_up_terminal(nodes: Nodes, names: Seq<Seq<char>>, failed: bool)
    ensures
        all_terminal(given_up(nodes, names, failed)),
    decreases names.len(),
{
    if names.len() > 0 {
        lemma_given_up_terminal(nodes, names.drop_last(), failed);
    }
}

pub proof fn lemma_demands_terminal(
    batch: Batch,
    package: Seq<char>,
    deps: Seq<TargetModel>,
    i: int,
    project: Seq<char>,
    revision: Seq<char>,
    current_dir: Seq<char>,
)
    requires
        all_terminal(batch.results),
    ensures
        all_terminal(
            with_demands(batch, package, deps, i, project, revision, current_dir).results,
        ),
    decreases deps.len() - i,
{
    if 0 <= i < deps.len() {
        let request = target_request(deps[i]);
        if !graph::depends(batch.nodes, request.package, package) {
            lemma_demands_terminal(
                Batch {
                    nodes: graph::with_demand(
                        graph::with_dep(batch.nodes, package, request.package),
                        request.package,
                        request.features,
                        request.source,
                        project,
                        revision,
                        current_dir,
                    ),
                    names: pieces::add_unique(batch.names, request.package),
                    ..batch
                },
                package,
                deps,
                i + 1,
                project,
                revision,
                current_dir,
            );
        }
    }
}

/// Builds a batch of packages, each after what it depends on.
pub struct BuildScheduler {
    graph: DepGraph,
    results: Vec<NodeResult>,
    project: String,
    revision: String,
    current_dir: String,
}

impl View for BuildScheduler {
    type V = Batch;

    closed spec fn view(&self) -> Batch {
        Batch {
            nodes: self.graph@,
            names: self.graph.names(),
            results: result_models(self.results@),
        }
    }
}

impl BuildScheduler {
    pub closed spec fn wf(&self) -> bool {
        &&& self.graph.wf()
        &&& all_terminal(result_models(self.results@))
    }

    /// The project to which the packages are submitted.
    pub closed spec fn project(&self) -> Seq<char> {
        self.project@
    }

    /// The branch from which the packages are built.
    pub closed spec fn revision(&self) -> Seq<char> {
        self.revision@
    }

    /// The directory below which the packages have their workspaces.
    pub closed spec fn current_dir(&self) -> Seq<char> {
        self.current_dir@
    }

    pub fn new(project: String, revision: String, current_dir: String) -> (r: Self)
        ensures
            r.wf(),
            r@ == (Batch { nodes: Map::empty(), names: seq![], results: seq![] }),
            r.project() == project@,
            r.revision() == revision@,
            r.current_dir() == current_dir@,
    {
        let r = BuildScheduler {
            graph: DepGraph::new(),
            results: Vec::new(),
            project,
            revision,
            current_dir,
        };
        assert(r@.results =~= seq![]);
        r
    }

    pub fn add_roots(&mut self, roots: &[BuildRequest])
        requires
            old(self).wf(),
        ensures
            final(self).wf(),
            final(self)@ == with_roots(
                old(self)@,
                request_models(roots@),
                old(self).project(),
                old(self).revision(),
                old(self).current_dir(),
            ),
            final(self).project() == old(self).project(),
            final(self).revision() == old(self).revision(),
            final(self).current_dir() == old(self).current_dir(),
    {
        let ghost all = request_models(roots@);
        let mut i: usize = 0;
        while i < roots.len()
            invariant
                i <= roots@.len(),
                all == request_models(roots@),
                self.wf(),
                self.project() == old(self).project(),
                self.revision() == old(self).revision(),
                self.current_dir() == old(self).current_dir(),
                self@ == with_roots(
                    old(self)@,
                    all.take(i as int),
                    old(self).project(),
                    old(self).revision(),
                    old(self).current_dir(),
                ),
            decreases roots@.len() - i,
        {
            let root = &roots[i];
            assert(all.take(i + 1).drop_last() =~= all.take(i as int));
            assert(all.take(i + 1).last() == root@);
            let node = self.graph.get_or_create(
                root.package.as_str(),
                root.source.duplicate(),
                self.project.clone(),
                self.revision.clone(),
                self.current_dir.as_str(),
            );
            node.features.insert_all(&root.features);
            i += 1;
        }
        assert(all.take(all.len() as int) =~= all);
    }

    /// Resumes the nodes that wait for nothing any more, starts those that are ready, and says
    /// what is to be built.
    pub fn start_ready(&mut self) -> (r: Vec<BuildRequest>)
        requires
            old(self).wf(),
        ensures
            final(self).wf(),
            final(self)@ == after_start(old(self)@),
            request_models(r@) == requests_for(
                resumed(old(self)@.nodes),
                ready_names(resumed(old(self)@.nodes), old(self)@.names),
            ),
            final(self).project() == old(self).project(),
            final(self).revision() == old(self).revision(),
            final(self).current_dir() == old(self).current_dir(),
    {
        resume_waiting_nodes_with_satisfied_deps(&mut self.graph);
        start_ready(&mut self.graph)
    }

    /// What is done when nothing is being built. The answer is whether the batch is finished.
    pub fn on_idle(&mut self) -> (r: bool)
        requires
            old(self).wf(),
        ensures
            final(self).wf(),
            r == !exists|p: Seq<char>| #[trigger]
                old(self)@.nodes.dom().contains(p) && old(self)@.nodes[p].state is WaitingForDeps,
            final(self)@ == after_idle(old(self)@),
            final(self).project() == old(self).project(),
            final(self).revision() == old(self).revision(),
            final(self).current_dir() == old(self).current_dir(),
    {
        proof {
            lemma_given_up_terminal(self@.nodes, self@.names, true);
            lemma_given_up_terminal(self@.nodes, self@.names, false);
        }
        fail_waiting_nodes(&mut self.graph, &mut self.results)
    }

    /// Records what the build of a package has come to.
    pub fn on_outcome(&mut self, package: String, outcome: BuildOutcome)
        requires
            old(self).wf(),
        ensures
            final(self).wf(),
            final(self)@ == after_outcome(
                old(self)@,
                package@,
                outcome@,
                old(self).project(),
                old(self).revision(),
                old(self).current_dir(),
            ),
            final(self).project() == old(self).project(),
            final(self).revision() == old(self).revision(),
            final(self).current_dir() == old(self).current_dir(),
    {
        match outcome {
            BuildOutcome::Success { report } => {
                record_terminal_outcome(
                    &mut self.graph,
                    &mut self.results,
                    package,
                    BuildOutcome::Success { report },
                );
                resume_waiting_nodes_with_satisfied_deps(&mut self.graph);
            },
            BuildOutcome::Failed(reason) => {
                record_terminal_outcome(
                    &mut self.graph,
                    &mut self.results,
                    package,
                    BuildOutcome::Failed(reason),
                );
            },
            BuildOutcome::NeedsDependencies(deps) => {
                self.graph.mark_state(package.as_str(), NodeState::WaitingForDeps);
                self.demand(package.as_str(), &deps);
            },
        }
    }

    #[verifier::loop_isolation(false)]
    fn demand(&mut self, package: &str, deps: &[DependencyTarget])
        requires
            old(self).wf(),
        ensures
            final(self).wf(),
            final(self)@ == with_demands(
                old(self)@,
                package@,
                graph::target_models(deps@),
                0,
                old(self).project(),
                old(self).revision(),
                old(self).current_dir(),
            ),
            final(self).project() == old(self).project(),
            final(self).revision() == old(self).revision(),
            final(self).current_dir() == old(self).current_dir(),
    {
        let ghost all = graph::target_models(deps@);
        let ghost goal = with_demands(
            self@,
            package@,
            all,
            0,
            self.project(),
            self.revision(),
            self.current_dir(),
        );
        let mut i: usize = 0;
        while i < deps.len()
            invariant
                i <= deps@.len(),
                all == graph::target_models(deps@),
                self.wf(),
                self.project() == old(self).project(),
                self.revision() == old(self).revision(),
                self.current_dir() == old(self).current_dir(),
                with_demands(
                    self@,
                    package@,
                    all,
                    i as int,
                    self.project(),
                    self.revision(),
                    self.current_dir(),
                ) == goal,
            decreases deps@.len() - i,
        {
            let request = dependency_build_request(&deps[i]);
            assert(all[i as int] == deps@[i as int]@);
            if self.graph.has_cycle(package, request.package.as_str()) {
                let reason = cat2("dependency cycle with ", request.package.as_str());
                self.graph.mark_failed(package, reason.clone());
                push_result(&mut self.results, package.to_owned(), BuildOutcome::Failed(reason));
                return;
            }
            let merged = self.graph.add_edge(
                package,
                request.package.as_str(),
                request.features,
                request.source,
                self.project.clone(),
                self.revision.clone(),
                self.current_dir.as_str(),
            );
            i += 1;
        }
    }

    /// The state of a package, where it belongs to the batch.
    pub fn node(&self, package: &str) -> (r: Option<&Node>)
        requires
            self.wf(),
        ensures
            match r {
                Some(node) => self@.nodes.dom().contains(package@) && node@
                    == self@.nodes[package@],
                None => !self@.nodes.dom().contains(package@),
            },
    {
        self.graph.get(package)
    }

    /// The results in the order in which they came.
    pub fn into_results(self) -> (r: Vec<NodeResult>)
        requires
            self.wf(),
        ensures
            result_models(r@) == self@.results,
            all_terminal(self@.results),
    {
        self.results
    }
}

proof fn lemma_unbuilt_empty(nodes: Nodes, deps: Seq<Seq<char>>)
    ensures
        graph::unbuilt(nodes, deps).len() == 0 <==> forall|i: int|
            0 <= i < deps.len() ==> graph::built(nodes, #[trigger] deps[i]),
    decreases deps.len(),
{
    if deps.len() > 0 {
        let rest = deps.drop_last();
        lemma_unbuilt_empty(nodes, rest);
        if graph::unbuilt(nodes, deps).len() == 0 {
            assert forall|i: int| 0 <= i < deps.len() implies graph::built(
                nodes,
                #[trigger] deps[i],
            ) by {
                if i < rest.len() {
                    assert(rest[i] == deps[i]);
                }
            }
        }
        if forall|i: int| 0 <= i < deps.len() ==> graph::built(nodes, #[trigger] deps[i]) {
            assert forall|i: int| 0 <= i < rest.len() implies graph::built(
                nodes,
                #[trigger] rest[i],
            ) by {
                assert(rest[i] == deps[i]);
            }
            assert(graph::built(nodes, deps[deps.len() - 1]));
        }
    }
}

/// A package is started only when it is pending and everything that it depends on has been built.
pub proof fn law_started_after_dependencies(nodes: Nodes, names: Seq<Seq<char>>, i: int)
    requires
        0 <= i < requests_for(nodes, ready_names(nodes, names)).len(),
    ensures
        ({
            let p = requests_for(nodes, ready_names(nodes, names))[i].package;
            &&& names.contains(p)
            &&& nodes[p].state is Pending
            &&& nodes.dom().contains(p) ==> forall|k: int|
                0 <= k < nodes[p].deps.len() ==> graph::built(nodes, #[trigger] nodes[p].deps[k])
        }),
{
    let p = ready_names(nodes, names)[i];
    assert(ready_names(nodes, names).contains(p));
    lemma_ready_names(nodes, names, p);
    lemma_unbuilt_empty(nodes, nodes[p].deps);
}

/// Starting what is ready leaves nothing that is ready, so no package is started twice.
pub proof fn law_started_once(nodes: Nodes, p: Seq<char>)
    requires
        nodes.dom().contains(p),
    ensures
        !is_ready(started(nodes), p),
{
    let after = started(nodes);
    assert(same_progress(nodes, after));
    lemma_progress(nodes, after, p);
}

/// Giving up the nodes that wait leaves none that waits.
pub proof fn law_none_waits_after_giving_up(nodes: Nodes, p: Seq<char>)
    requires
        nodes.dom().contains(p),
    ensures
        !(all_given_up(nodes)[p].state is WaitingForDeps),
        all_given_up(nodes)[p].state is Failed || all_given_up(nodes)[p] == nodes[p],
{
}

proof fn lemma_same_edges(a: Nodes, b: Nodes)
    requires
        graph::acyclic(a),
        forall|p: Seq<char>| #[trigger] b.dom().contains(p) ==> a.dom().contains(p) && a[p].deps
            == b[p].deps,
    ensures
        graph::acyclic(b),
{
    assert forall|p: Seq<char>, n: nat| n > 0 implies !#[trigger] graph::depends_in(b, p, p, n) by {
        if graph::depends_in(b, p, p, n) {
            graph::lemma_fewer_edges(a, b, p, p, n);
        }
    }
}

proof fn lemma_demands_acyclic(
    batch: Batch,
    package: Seq<char>,
    deps: Seq<TargetModel>,
    i: int,
    project: Seq<char>,
    revision: Seq<char>,
    current_dir: Seq<char>,
)
    requires
        graph::acyclic(batch.nodes),
    ensures
        graph::acyclic(with_demands(batch, package, deps, i, project, revision, current_dir).nodes),
    decreases deps.len() - i,
{
    if 0 <= i < deps.len() {
        let request = target_request(deps[i]);
        if graph::depends(batch.nodes, request.package, package) {
            graph::law_state_keeps_acyclic(
                batch.nodes,
                package,
                StateModel::Failed("dependency cycle with "@ + request.package),
            );
        } else {
            graph::law_add_edge_keeps_acyclic(
                batch.nodes,
                package,
                request.package,
                request.features,
                request.source,
                project,
                revision,
                current_dir,
            );
            let next = Batch {
                nodes: graph::with_demand(
                    graph::with_dep(batch.nodes, package, request.package),
                    request.package,
                    request.features,
                    request.source,
                    project,
                    revision,
                    current_dir,
                ),
                names: pieces::add_unique(batch.names, request.package),
                ..batch
            };
            lemma_demands_acyclic(next, package, deps, i + 1, project, revision, current_dir);
        }
    }
}

/// No step of the scheduler makes a package depend on itself: adding roots, starting what is
/// ready, giving up what waits, and recording an outcome each keep the graph without cycles.
pub proof fn law_steps_keep_acyclic(
    batch: Batch,
    roots: Seq<RequestModel>,
    package: Seq<char>,
    outcome: OutcomeModel,
    project: Seq<char>,
    revision: Seq<char>,
    current_dir: Seq<char>,
)
    requires
        graph::acyclic(batch.nodes),
    ensures
        graph::acyclic(with_roots(batch, roots, project, revision, current_dir).nodes),
        graph::acyclic(started(resumed(batch.nodes))),
        graph::acyclic(all_given_up(batch.nodes)),
        graph::acyclic(after_outcome(batch, package, outcome, project, revision, current_dir).nodes),
    decreases roots.len(),
{
    lemma_same_edges(batch.nodes, resumed(batch.nodes));
    lemma_same_edges(resumed(batch.nodes), started(resumed(batch.nodes)));
    lemma_same_edges(batch.nodes, all_given_up(batch.nodes));
    match outcome {
        OutcomeModel::Success { .. } => {
            let done = graph::with_state(batch.nodes, package, StateModel::Success);
            graph::law_state_keeps_acyclic(batch.nodes, package, StateModel::Success);
            lemma_same_edges(done, resumed(done));
        },
        OutcomeModel::Failed(reason) => {
            graph::law_state_keeps_acyclic(batch.nodes, package, StateModel::Failed(reason));
        },
        OutcomeModel::NeedsDependencies(deps) => {
            graph::law_state_keeps_acyclic(batch.nodes, package, StateModel::WaitingForDeps);
            lemma_demands_acyclic(
                Batch {
                    nodes: graph::with_state(batch.nodes, package, StateModel::WaitingForDeps),
                    ..batch
                },
                package,
                deps,
                0,
                project,
                revision,
                current_dir,
            );
        },
    }
    if roots.len() > 0 {
        let rest = roots.drop_last();
        law_steps_keep_acyclic(batch, rest, package, outcome, project, revision, current_dir);
        let before = with_roots(batch, rest, project, revision, current_dir).nodes;
        let more = with_roots(batch, roots, project, revision, current_dir).nodes;
        assert(forall|x: Seq<char>, y: Seq<char>| #[trigger]
            graph::edge(more, x, y) ==> graph::edge(before, x, y));
        assert forall|p: Seq<char>, n: nat| n > 0 implies !#[trigger] graph::depends_in(
            more,
            p,
            p,
            n,
        ) by {
            if graph::depends_in(more, p, p, n) {
                graph::lemma_fewer_edges(before, more, p, p, n);
            }
        }
    }
}

} // verus!
