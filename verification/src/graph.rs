//! The packages of a build and what they depend on.
use vstd::prelude::*;

use crate::issue::{BuildIssue, IssueModel};
use crate::pieces;
use crate::pieces::{copy_texts, insert_sorted, path_of, split_on};
use crate::set_laws;
use crate::text;
use crate::text::{same, trimmed, trimmed_end_char, without_prefix, without_suffix};

verus! {

/// Where the packaging of a node comes from.
#[derive(Debug, Clone, PartialEq, Eq)]
pub enum PackageSource {
    Pypi { name: String, version: Option<String> },
    ExistingRepo { package: String },
    LocalWorkdir { path: String },
}

/// The model of a [`PackageSource`].
#[verifier::ext_equal]
pub enum SourceModel {
    Pypi { name: Seq<char>, version: Option<Seq<char>> },
    ExistingRepo { package: Seq<char> },
    LocalWorkdir { path: Seq<char> },
}

impl View for PackageSource {
    type V = SourceModel;

    open spec fn view(&self) -> SourceModel {
        match *self {
            PackageSource::Pypi { name, version } => SourceModel::Pypi {
                name: name@,
                version: text::opt_text(version),
            },
            PackageSource::ExistingRepo { package } => SourceModel::ExistingRepo {
                package: package@,
            },
            PackageSource::LocalWorkdir { path } => SourceModel::LocalWorkdir { path: path@ },
        }
    }
}

impl PackageSource {
    /// A second source like this one.
    pub fn duplicate(&self) -> (r: Self)
        ensures
            r@ == self@,
    {
        match self {
            PackageSource::Pypi { name, version } => PackageSource::Pypi {
                name: name.clone(),
                version: crate::issue::copy_opt(version),
            },
            PackageSource::ExistingRepo { package } => PackageSource::ExistingRepo {
                package: package.clone(),
            },
            PackageSource::LocalWorkdir { path } => PackageSource::LocalWorkdir {
                path: path.clone(),
            },
        }
    }
}

/// How far the build of a node has come.
#[derive(Debug, Clone, PartialEq, Eq)]
pub enum NodeState {
    Pending,
    SpecPreparing,
    ReadyToSubmit,
    RemoteFixing,
    WaitingForDeps,
    LocalBuilding,
    Success,
    Failed(String),
}

/// The model of a [`NodeState`].
#[verifier::ext_equal]
pub enum StateModel {
    Pending,
    SpecPreparing,
    ReadyToSubmit,
    RemoteFixing,
    WaitingForDeps,
    LocalBuilding,
    Success,
    Failed(Seq<char>),
}

impl View for NodeState {
    type V = StateModel;

    open spec fn view(&self) -> StateModel {
        match *self {
            NodeState::Pending => StateModel::Pending,
            NodeState::SpecPreparing => StateModel::SpecPreparing,
            NodeState::ReadyToSubmit => StateModel::ReadyToSubmit,
            NodeState::RemoteFixing => StateModel::RemoteFixing,
            NodeState::WaitingForDeps => StateModel::WaitingForDeps,
            NodeState::LocalBuilding => StateModel::LocalBuilding,
            NodeState::Success => StateModel::Success,
            NodeState::Failed(reason) => StateModel::Failed(reason@),
        }
    }
}

impl NodeState {
    /// Whether the two states are equal.
    pub fn same_as(&self, other: &NodeState) -> (r: bool)
        ensures
            r == (self@ == other@),
    {
        match (self, other) {
            (NodeState::Pending, NodeState::Pending) => true,
            (NodeState::SpecPreparing, NodeState::SpecPreparing) => true,
            (NodeState::ReadyToSubmit, NodeState::ReadyToSubmit) => true,
            (NodeState::RemoteFixing, NodeState::RemoteFixing) => true,
            (NodeState::WaitingForDeps, NodeState::WaitingForDeps) => true,
            (NodeState::LocalBuilding, NodeState::LocalBuilding) => true,
            (NodeState::Success, NodeState::Success) => true,
            (NodeState::Failed(a), NodeState::Failed(b)) => same(a.as_str(), b.as_str()),
            _ => false,
        }
    }
}

/// The features a package is asked for, in order and each once.
#[derive(Debug, PartialEq, Eq)]
pub struct FeatureSet {
    items: Vec<String>,
}

impl View for FeatureSet {
    type V = Seq<Seq<char>>;

    closed spec fn view(&self) -> Seq<Seq<char>> {
        text::texts(self.items@)
    }
}

/// `set` with each of `features` in its place.
pub open spec fn with_features(set: Seq<Seq<char>>, features: Seq<Seq<char>>) -> Seq<Seq<char>>
    decreases features.len(),
{
    if features.len() == 0 {
        set
    } else {
        pieces::sorted_insert(with_features(set, features.drop_last()), features.last())
    }
}

/// A set with more features is ordered as it was, and holds what it held and those features.
pub proof fn law_features_join(set: Seq<Seq<char>>, features: Seq<Seq<char>>)
    requires
        pieces::ascending(set),
    ensures
        pieces::ascending(with_features(set, features)),
        forall|f: Seq<char>| #[trigger]
            with_features(set, features).contains(f) <==> set.contains(f) || features.contains(f),
        with_features(set, features).len() >= set.len(),
        with_features(set, features).len() > set.len() <==> exists|f: Seq<char>| #[trigger]
            features.contains(f) && !set.contains(f),
    decreases features.len(),
{
    if features.len() > 0 {
        let rest = features.drop_last();
        let last = features.last();
        law_features_join(set, rest);
        set_laws::law_sorted_insert(with_features(set, rest), last);
        set_laws::lemma_push_texts(rest, last);
        assert(rest.push(last) =~= features);
        assert(features.contains(last));
        if with_features(set, rest).len() > set.len() {
            let f = choose|f: Seq<char>| #[trigger] rest.contains(f) && !set.contains(f);
            assert(features.contains(f));
        } else if !set.contains(last) {
            assert(!rest.contains(last));
            assert(!with_features(set, rest).contains(last));
        } else {
            assert(with_features(set, rest).contains(last));
            assert forall|f: Seq<char>| #[trigger] features.contains(f) implies set.contains(f) by {
                if f != last {
                    assert(rest.contains(f));
                }
            }
        }
    }
}

impl FeatureSet {
    /// The features are in order and each once.
    #[verifier::type_invariant]
    spec fn ordered(self) -> bool {
        pieces::ascending(text::texts(self.items@))
    }

    pub fn new() -> (r: Self)
        ensures
            r@ == Seq::<Seq<char>>::empty(),
    {
        let r = FeatureSet { items: Vec::new() };
        assert(r@ =~= Seq::<Seq<char>>::empty());
        r
    }

    pub fn insert(&mut self, feature: String)
        ensures
            final(self)@ == pieces::sorted_insert(old(self)@, feature@),
            pieces::ascending(final(self)@),
    {
        proof {
            use_type_invariant(&*self);
            set_laws::law_sorted_insert(self@, feature@);
        }
        let mut items = copy_texts(&self.items);
        insert_sorted(&mut items, feature.as_str());
        self.items = items;
    }

    pub fn insert_all(&mut self, features: &[String])
        ensures
            final(self)@ == with_features(old(self)@, text::texts(features@)),
            pieces::ascending(final(self)@),
    {
        let ghost before = self@;
        let mut items = copy_texts(&self.items);
        let mut i: usize = 0;
        while i < features.len()
            invariant
                i <= features@.len(),
                text::texts(items@) == with_features(before, text::texts(features@).take(i as int)),
            decreases features@.len() - i,
        {
            insert_sorted(&mut items, features[i].as_str());
            i += 1;
            assert(text::texts(features@).take(i as int).drop_last() =~= text::texts(
                features@,
            ).take(i - 1));
        }
        assert(text::texts(features@).take(features@.len() as int) =~= text::texts(features@));
        proof {
            use_type_invariant(&*self);
            law_features_join(before, text::texts(features@));
        }
        self.items = items;
    }

    pub fn len(&self) -> (r: usize)
        ensures
            r == self@.len(),
            pieces::ascending(self@),
    {
        proof {
            use_type_invariant(self);
        }
        self.items.len()
    }

    pub fn to_vec(&self) -> (r: Vec<String>)
        ensures
            text::texts(r@) == self@,
            pieces::ascending(self@),
    {
        proof {
            use_type_invariant(self);
        }
        copy_texts(&self.items)
    }
}

impl Clone for FeatureSet {
    fn clone(&self) -> (r: Self)
        ensures
            r@ == self@,
    {
        proof {
            use_type_invariant(self);
        }
        FeatureSet { items: copy_texts(&self.items) }
    }
}

/// A package of the build.
#[derive(Debug, Clone)]
pub struct Node {
    pub package: String,
    pub source: PackageSource,
    pub features: FeatureSet,
    pub deps: Vec<String>,
    pub state: NodeState,
    pub revision: String,
    pub local_workdir: String,
    pub obs_project: String,
    pub spec_path: Option<String>,
    pub last_issue: Option<BuildIssue>,
}

/// The model of a [`Node`].
#[verifier::ext_equal]
pub struct NodeModel {
    pub package: Seq<char>,
    pub source: SourceModel,
    pub features: Seq<Seq<char>>,
    pub deps: Seq<Seq<char>>,
    pub state: StateModel,
    pub revision: Seq<char>,
    pub local_workdir: Seq<char>,
    pub obs_project: Seq<char>,
    pub spec_path: Option<Seq<char>>,
    pub last_issue: Option<IssueModel>,
}

impl View for Node {
    type V = NodeModel;

    open spec fn view(&self) -> NodeModel {
        NodeModel {
            package: self.package@,
            source: self.source@,
            features: self.features@,
            deps: text::texts(self.deps@),
            state: self.state@,
            revision: self.revision@,
            local_workdir: self.local_workdir@,
            obs_project: self.obs_project@,
            spec_path: text::opt_text(self.spec_path),
            last_issue: match self.last_issue {
                Some(issue) => Some(issue@),
                None => None,
            },
        }
    }
}

/// A node before anything has been done for it.
pub open spec fn fresh_node(
    package: Seq<char>,
    source: SourceModel,
    obs_project: Seq<char>,
    revision: Seq<char>,
    current_dir: Seq<char>,
) -> NodeModel {
    NodeModel {
        package,
        source,
        features: seq![],
        deps: seq![],
        state: StateModel::Pending,
        revision,
        local_workdir: pieces::path_join(pieces::path_join(current_dir, "workspaces"@), package),
        obs_project,
        spec_path: None,
        last_issue: None,
    }
}

impl Node {
    /// A pending node, with its workspace below the directory that the program runs in.
    pub fn new(
        package: String,
        source: PackageSource,
        obs_project: String,
        revision: String,
        current_dir: &str,
    ) -> (r: Self)
        ensures
            r@ == fresh_node(package@, source@, obs_project@, revision@, current_dir@),
    {
        let local_workdir = path_of(path_of(current_dir, "workspaces").as_str(), package.as_str());
        let r = Node {
            package,
            source,
            features: FeatureSet::new(),
            deps: Vec::new(),
            state: NodeState::Pending,
            revision,
            local_workdir,
            obs_project,
            spec_path: None,
            last_issue: None,
        };
        assert(r@.deps =~= seq![]);
        r
    }
}

/// What a new dependency did to the node it points to.
#[derive(Debug, Clone, Copy, PartialEq, Eq, Structural)]
pub enum FeatureMergeResult {
    NewNode,
    MergedNoChange,
    MergedNeedsRebuild,
}

/// A package that a build asks for, with the features it asks of it.
#[derive(Debug, Clone, PartialEq, Eq)]
pub struct DependencyTarget {
    pub package: String,
    pub features: Vec<String>,
}

/// The model of a [`DependencyTarget`].
#[verifier::ext_equal]
pub struct TargetModel {
    pub package: Seq<char>,
    pub features: Seq<Seq<char>>,
}

impl View for DependencyTarget {
    type V = TargetModel;

    open spec fn view(&self) -> TargetModel {
        TargetModel { package: self.package@, features: text::texts(self.features@) }
    }
}

/// The model of a graph: the nodes by their names.
pub type Nodes = Map<Seq<char>, NodeModel>;

/// The packages of a build by name.
pub struct DepGraph {
    names: Vec<String>,
    nodes: Vec<Node>,
}

impl View for DepGraph {
    type V = Nodes;

    closed spec fn view(&self) -> Nodes {
        Map::new(
            |p: Seq<char>| self.names().contains(p),
            |p: Seq<char>| self.nodes@[self.names().index_of(p)]@,
        )
    }
}

/// `nodes` with the node `package`, where there is one, in the given state.
pub open spec fn with_state(nodes: Nodes, package: Seq<char>, state: StateModel) -> Nodes {
    if nodes.dom().contains(package) {
        nodes.insert(package, NodeModel { state, ..nodes[package] })
    } else {
        nodes
    }
}

/// The node `dep` has been built.
pub open spec fn built(nodes: Nodes, dep: Seq<char>) -> bool {
    nodes.dom().contains(dep) && nodes[dep].state is Success
}

/// The texts of `deps` that have not been built, in order.
pub open spec fn unbuilt(nodes: Nodes, deps: Seq<Seq<char>>) -> Seq<Seq<char>>
    decreases deps.len(),
{
    if deps.len() == 0 {
        seq![]
    } else if built(nodes, deps.last()) {
        unbuilt(nodes, deps.drop_last())
    } else {
        unbuilt(nodes, deps.drop_last()).push(deps.last())
    }
}

/// The dependencies of `package` that have not been built.
pub open spec fn unresolved(nodes: Nodes, package: Seq<char>) -> Seq<Seq<char>> {
    if nodes.dom().contains(package) {
        unbuilt(nodes, nodes[package].deps)
    } else {
        seq![]
    }
}

/// Of `names` those whose node is in the given state, in order.
pub open spec fn in_state(nodes: Nodes, names: Seq<Seq<char>>, state: StateModel) -> Seq<Seq<char>>
    decreases names.len(),
{
    if names.len() == 0 {
        seq![]
    } else if nodes[names.last()].state == state {
        in_state(nodes, names.drop_last(), state).push(names.last())
    } else {
        in_state(nodes, names.drop_last(), state)
    }
}

/// `a` depends on `b` directly.
pub open spec fn edge(nodes: Nodes, a: Seq<char>, b: Seq<char>) -> bool {
    nodes.dom().contains(a) && nodes[a].deps.contains(b)
}

/// `a` depends on `b` over `n` edges.
pub open spec fn depends_in(nodes: Nodes, a: Seq<char>, b: Seq<char>, n: nat) -> bool
    decreases n,
{
    if n == 0 {
        a == b
    } else {
        exists|c: Seq<char>| #[trigger] edge(nodes, a, c) && depends_in(nodes, c, b, (n - 1) as nat)
    }
}

/// `a` is `b`, or depends on it over any number of edges.
pub open spec fn depends(nodes: Nodes, a: Seq<char>, b: Seq<char>) -> bool {
    exists|n: nat| #[trigger] depends_in(nodes, a, b, n)
}

/// No node depends on itself.
pub open spec fn acyclic(nodes: Nodes) -> bool {
    forall|a: Seq<char>, n: nat| n > 0 ==> !#[trigger] depends_in(nodes, a, a, n)
}

/// `nodes` with `to` among the direct dependencies of `from`, where there is such a node.
pub open spec fn with_dep(nodes: Nodes, from: Seq<char>, to: Seq<char>) -> Nodes {
    if nodes.dom().contains(from) {
        nodes.insert(
            from,
            NodeModel { deps: pieces::add_unique(nodes[from].deps, to), ..nodes[from] },
        )
    } else {
        nodes
    }
}

/// What asking `to` for features comes to: one that was built has to be built again exactly where
/// it lacks one of them.
pub open spec fn merge_result(
    nodes: Nodes,
    to: Seq<char>,
    features: Seq<Seq<char>>,
) -> FeatureMergeResult {
    if !nodes.dom().contains(to) {
        FeatureMergeResult::NewNode
    } else if nodes[to].state is Success && exists|f: Seq<char>| #[trigger]
        features.contains(f) && !nodes[to].features.contains(f) {
        FeatureMergeResult::MergedNeedsRebuild
    } else {
        FeatureMergeResult::MergedNoChange
    }
}

/// `nodes` with the features asked of `to`: a node that is not there yet is created, and one
/// that was built without a feature has to be built again.
pub open spec fn with_demand(
    nodes: Nodes,
    to: Seq<char>,
    features: Seq<Seq<char>>,
    source: SourceModel,
    obs_project: Seq<char>,
    revision: Seq<char>,
    current_dir: Seq<char>,
) -> Nodes {
    if nodes.dom().contains(to) {
        nodes.insert(
            to,
            NodeModel {
                features: with_features(nodes[to].features, features),
                state: if merge_result(nodes, to, features)
                    == FeatureMergeResult::MergedNeedsRebuild {
                    StateModel::Pending
                } else {
                    nodes[to].state
                },
                ..nodes[to]
            },
        )
    } else {
        let fresh = fresh_node(to, source, obs_project, revision, current_dir);
        nodes.insert(
            to,
            NodeModel { features: with_features(fresh.features, features), ..fresh },
        )
    }
}

proof fn lemma_position(graph: &DepGraph, i: int)
    requires
        graph.wf(),
        0 <= i < graph.nodes@.len(),
    ensures
        graph@.dom().contains(graph.names@[i]@),
        graph@[graph.names@[i]@] == graph.nodes@[i]@,
{
    assert(graph.names()[i] == graph.names@[i]@);
}

proof fn lemma_unique_name(graph: &DepGraph, i: int, j: int)
    requires
        graph.wf(),
        0 <= i < graph.nodes@.len(),
        0 <= j < graph.nodes@.len(),
        graph.names@[i]@ == graph.names@[j]@,
    ensures
        i == j,
{
    assert(graph.names()[i] == graph.names()[j]);
}

/// Putting another node in place `i` changes what the name of that place stands for.
proof fn lemma_any_update(graph: &DepGraph, i: int)
    requires
        graph.wf(),
        0 <= i < graph.nodes@.len(),
    ensures
        forall|g: DepGraph, n: Node|
            #![trigger g.view(), n.view()]
            g.names@ == graph.names@ && g.nodes@ == graph.nodes@.update(i, n) ==> g@
                == graph@.insert(graph.names@[i]@, n@),
{
    assert forall|g: DepGraph, n: Node|
        #![trigger g.view(), n.view()]
        g.names@ == graph.names@ && g.nodes@ == graph.nodes@.update(i, n) implies g@
        == graph@.insert(graph.names@[i]@, n@) by {
        assert(graph.names()[i] == graph.names@[i]@);
        assert(g@ =~= graph@.insert(graph.names@[i]@, n@));
    }
}

impl DepGraph {
    /// The names of the nodes in the order in which they were created.
    pub closed spec fn names(&self) -> Seq<Seq<char>> {
        text::texts(self.names@)
    }

    /// Each node has one name, and no two nodes have the same.
    pub closed spec fn wf(&self) -> bool {
        &&& self.names@.len() == self.nodes@.len()
        &&& self.names().no_duplicates()
    }

    /// The names of a graph are the names of its nodes, each once.
    pub proof fn lemma_names(&self)
        requires
            self.wf(),
        ensures
            self.names().no_duplicates(),
            forall|p: Seq<char>| self@.dom().contains(p) <==> self.names().contains(p),
    {
    }

    pub fn new() -> (r: Self)
        ensures
            r.wf(),
            r@ == Map::<Seq<char>, NodeModel>::empty(),
            r.names() == Seq::<Seq<char>>::empty(),
    {
        let r = DepGraph { names: Vec::new(), nodes: Vec::new() };
        assert(r.names() =~= Seq::<Seq<char>>::empty());
        assert(r@ =~= Map::<Seq<char>, NodeModel>::empty());
        r
    }

    fn position(&self, package: &str) -> (r: Option<usize>)
        requires
            self.wf(),
        ensures
            match r {
                Some(i) => i < self.nodes@.len() && self.names@[i as int]@ == package@
                    && self@.dom().contains(package@) && self@[package@] == self.nodes@[i as int]@,
                None => !self@.dom().contains(package@),
            },
    {
        let mut i: usize = 0;
        while i < self.names.len()
            invariant
                self.wf(),
                i <= self.names@.len(),
                forall|k: int| 0 <= k < i ==> self.names@[k]@ != package@,
            decreases self.names@.len() - i,
        {
            if same(self.names[i].as_str(), package) {
                proof {
                    lemma_position(self, i as int);
                }
                return Some(i);
            }
            i += 1;
        }
        None
    }

    pub fn get(&self, package: &str) -> (r: Option<&Node>)
        requires
            self.wf(),
        ensures
            match r {
                Some(node) => self@.dom().contains(package@) && node@ == self@[package@],
                None => !self@.dom().contains(package@),
            },
    {
        match self.position(package) {
            Some(i) => Some(&self.nodes[i]),
            None => None,
        }
    }

    pub fn get_mut(&mut self, package: &str) -> (r: Option<&mut Node>)
        requires
            old(self).wf(),
        ensures
            match r {
                Some(node) => {
                    &&& old(self)@.dom().contains(package@)
                    &&& node@ == old(self)@[package@]
                    &&& final(self)@ == old(self)@.insert(package@, final(node)@)
                },
                None => !old(self)@.dom().contains(package@) && final(self)@ == old(self)@,
            },
            final(self).wf(),
            final(self).names() == old(self).names(),
    {
        match self.position(package) {
            Some(i) => {
                proof {
                    lemma_any_update(self, i as int);
                }
                Some(&mut self.nodes[i])
            },
            None => None,
        }
    }

    pub fn get_or_create(
        &mut self,
        package: &str,
        source: PackageSource,
        obs_project: String,
        revision: String,
        current_dir: &str,
    ) -> (r: &mut Node)
        requires
            old(self).wf(),
        ensures
            r@ == (if old(self)@.dom().contains(package@) {
                old(self)@[package@]
            } else {
                fresh_node(package@, source@, obs_project@, revision@, current_dir@)
            }),
            final(self)@ == old(self)@.insert(package@, final(r)@),
            final(self).wf(),
            final(self).names() == pieces::add_unique(old(self).names(), package@),
    {
        let i: usize = match self.position(package) {
            Some(i) => i,
            None => {
                let i: usize = self.nodes.len();
                let node = Node::new(package.to_owned(), source, obs_project, revision, current_dir);
                self.append_node(package, node);
                i
            },
        };
        proof {
            lemma_any_update(self, i as int);
            lemma_position(self, i as int);
            assert(forall|a: Nodes, k: Seq<char>, x: NodeModel, y: NodeModel|
                #[trigger] a.insert(k, x).insert(k, y) =~= a.insert(k, y));
        }
        &mut self.nodes[i]
    }

    fn append_node(&mut self, package: &str, node: Node)
        requires
            old(self).wf(),
            !old(self)@.dom().contains(package@),
        ensures
            final(self).wf(),
            final(self)@ == old(self)@.insert(package@, node@),
            final(self).names() == old(self).names().push(package@),
            final(self).names@.len() == old(self).names@.len() + 1,
            final(self).names@[old(self).names@.len() as int]@ == package@,
    {
        let ghost before = *self;
        self.names.push(package.to_owned());
        self.nodes.push(node);
        proof {
            assert(self.names() =~= before.names().push(package@));
            assert(forall|k: int| 0 <= k < before.names@.len() ==> #[trigger] self.names()[k]
                == before.names()[k]);
            assert forall|p: Seq<char>| self@.dom().contains(p) implies (self@[p] == before@.insert(
                package@,
                node@,
            )[p] && before@.insert(package@, node@).dom().contains(p)) by {
                let k = self.names().index_of(p);
                assert(self.names()[k] == p);
                lemma_position(self, k);
                if k < before.names@.len() {
                    lemma_position(&before, k);
                }
            }
            assert forall|p: Seq<char>|
                before@.insert(package@, node@).dom().contains(p) implies self@.dom().contains(
                p,
            ) by {
                if p != package@ {
                    let k = before.names().index_of(p);
                    assert(self.names()[k] == p);
                } else {
                    assert(self.names()[before.names@.len() as int] == p);
                }
            }
            assert(self@ =~= before@.insert(package@, node@));
        }
    }

    /// Records that `from` depends on `to`, and what it asks of it.
    pub fn add_edge(
        &mut self,
        from: &str,
        to: &str,
        features: Vec<String>,
        source: PackageSource,
        obs_project: String,
        revision: String,
        current_dir: &str,
    ) -> (r: FeatureMergeResult)
        requires
            old(self).wf(),
        ensures
            final(self).wf(),
            r == merge_result(with_dep(old(self)@, from@, to@), to@, text::texts(features@)),
            final(self)@ == with_demand(
                with_dep(old(self)@, from@, to@),
                to@,
                text::texts(features@),
                source@,
                obs_project@,
                revision@,
                current_dir@,
            ),
            final(self).names() == pieces::add_unique(old(self).names(), to@),
            pieces::ascending(final(self)@[to@].features),
            forall|f: Seq<char>| #[trigger]
                final(self)@[to@].features.contains(f) <==> text::texts(features@).contains(f) || (
                old(self)@.dom().contains(to@) && old(self)@[to@].features.contains(f)),
    {
        match self.get_mut(from) {
            Some(node) => {
                pieces::push_unique(&mut node.deps, to);
            },
            None => {},
        }
        let ghost mid = self@;
        assert(mid =~= with_dep(old(self)@, from@, to@));
        match self.get_mut(to) {
            Some(node) => {
                let old_len: usize = node.features.len();
                proof {
                    law_features_join(node.features@, text::texts(features@));
                }
                node.features.insert_all(&features);
                if node.features.len() > old_len && matches!(node.state, NodeState::Success) {
                    node.state = NodeState::Pending;
                    FeatureMergeResult::MergedNeedsRebuild
                } else {
                    FeatureMergeResult::MergedNoChange
                }
            },
            None => {
                let mut node = Node::new(to.to_owned(), source, obs_project, revision, current_dir);
                proof {
                    law_features_join(node.features@, text::texts(features@));
                }
                node.features.insert_all(&features);
                self.append_node(to, node);
                FeatureMergeResult::NewNode
            },
        }
    }

    pub fn unresolved_deps(&self, package: &str) -> (r: Vec<String>)
        requires
            self.wf(),
        ensures
            text::texts(r@) == unresolved(self@, package@),
    {
        let mut out: Vec<String> = Vec::new();
        match self.get(package) {
            Some(node) => {
                let ghost deps = text::texts(node.deps@);
                let mut i: usize = 0;
                while i < node.deps.len()
                    invariant
                        self.wf(),
                        i <= node.deps@.len(),
                        deps == text::texts(node.deps@),
                        text::texts(out@) == unbuilt(self@, deps.take(i as int)),
                    decreases node.deps@.len() - i,
                {
                    let dep = node.deps[i].as_str();
                    let done = match self.get(dep) {
                        Some(n) => matches!(n.state, NodeState::Success),
                        None => false,
                    };
                    let ghost before = text::texts(out@);
                    if !done {
                        out.push(dep.to_owned());
                        assert(text::texts(out@) =~= before.push(dep@));
                    }
                    i += 1;
                    assert(deps.take(i as int).drop_last() =~= deps.take(i - 1));
                }
                assert(deps.take(deps.len() as int) =~= deps);
            },
            None => {
                assert(text::texts(out@) =~= seq![]);
            },
        }
        out
    }

    pub fn mark_state(&mut self, package: &str, state: NodeState)
        requires
            old(self).wf(),
        ensures
            final(self).wf(),
            final(self)@ == with_state(old(self)@, package@, state@),
            final(self).names() == old(self).names(),
    {
        match self.get_mut(package) {
            Some(node) => {
                node.state = state;
            },
            None => {},
        }
    }

    pub fn mark_success(&mut self, package: &str)
        requires
            old(self).wf(),
        ensures
            final(self).wf(),
            final(self)@ == with_state(old(self)@, package@, StateModel::Success),
            final(self).names() == old(self).names(),
    {
        self.mark_state(package, NodeState::Success);
    }

    pub fn mark_failed(&mut self, package: &str, reason: String)
        requires
            old(self).wf(),
        ensures
            final(self).wf(),
            final(self)@ == with_state(old(self)@, package@, StateModel::Failed(reason@)),
            final(self).names() == old(self).names(),
    {
        self.mark_state(package, NodeState::Failed(reason));
    }

    pub fn mark_pending(&mut self, package: &str)
        requires
            old(self).wf(),
        ensures
            final(self).wf(),
            final(self)@ == with_state(old(self)@, package@, StateModel::Pending),
            final(self).names() == old(self).names(),
    {
        self.mark_state(package, NodeState::Pending);
    }

    pub fn all_deps_success(&self, package: &str) -> (r: bool)
        requires
            self.wf(),
        ensures
            r == (unresolved(self@, package@).len() == 0),
    {
        let open = self.unresolved_deps(package);
        assert(text::texts(open@).len() == open@.len());
        open.len() == 0
    }

    /// The nodes with their names, in the order in which they were created.
    pub fn iter(&self) -> (r: Vec<(&String, &Node)>)
        requires
            self.wf(),
        ensures
            r@.len() == self.names().len(),
            forall|i: int|
                0 <= i < r@.len() ==> (#[trigger] r@[i]).0@ == self.names()[i] && r@[i].1@
                    == self@[self.names()[i]],
    {
        let mut out: Vec<(&String, &Node)> = Vec::new();
        let mut i: usize = 0;
        while i < self.names.len()
            invariant
                self.wf(),
                i <= self.names@.len(),
                out@.len() == i,
                forall|k: int|
                    0 <= k < i ==> (#[trigger] out@[k]).0@ == self.names()[k] && out@[k].1@
                        == self@[self.names()[k]],
            decreases self.names@.len() - i,
        {
            proof {
                lemma_position(self, i as int);
            }
            out.push((&self.names[i], &self.nodes[i]));
            i += 1;
        }
        out
    }

    /// The node that was created in place `index`, with its name, to be changed.
    pub fn iter_mut(&mut self, index: usize) -> (r: Option<(&String, &mut Node)>)
        requires
            old(self).wf(),
        ensures
            match r {
                Some((name, node)) => {
                    &&& index < old(self).names().len()
                    &&& name@ == old(self).names()[index as int]
                    &&& node@ == old(self)@[name@]
                    &&& final(self)@ == old(self)@.insert(name@, final(node)@)
                },
                None => index >= old(self).names().len() && final(self)@ == old(self)@,
            },
            final(self).wf(),
            final(self).names() == old(self).names(),
    {
        if index < self.names.len() {
            proof {
                lemma_position(self, index as int);
                lemma_any_update(self, index as int);
            }
            Some((&self.names[index], &mut self.nodes[index]))
        } else {
            None
        }
    }

    pub fn packages_in_state(&self, state: &NodeState) -> (r: Vec<String>)
        requires
            self.wf(),
        ensures
            text::texts(r@) == in_state(self@, self.names(), state@),
    {
        let mut out: Vec<String> = Vec::new();
        let mut i: usize = 0;
        while i < self.names.len()
            invariant
                self.wf(),
                i <= self.names@.len(),
                text::texts(out@) == in_state(self@, self.names().take(i as int), state@),
            decreases self.names@.len() - i,
        {
            let ghost before = text::texts(out@);
            proof {
                lemma_position(self, i as int);
            }
            if self.nodes[i].state.same_as(state) {
                out.push(self.names[i].clone());
                assert(text::texts(out@) =~= before.push(self.names()[i as int]));
            }
            i += 1;
            assert(self.names().take(i as int).drop_last() =~= self.names().take(i - 1));
        }
        assert(self.names().take(self.names@.len() as int) =~= self.names());
        out
    }

    pub fn any_in_state(&self, state: &NodeState) -> (r: bool)
        requires
            self.wf(),
        ensures
            r == exists|p: Seq<char>| #[trigger] self@.dom().contains(p) && self@[p].state == state@,
    {
        let mut i: usize = 0;
        while i < self.names.len()
            invariant
                self.wf(),
                i <= self.names@.len(),
                forall|k: int| 0 <= k < i ==> (#[trigger] self.nodes@[k])@.state != state@,
            decreases self.names@.len() - i,
        {
            if self.nodes[i].state.same_as(state) {
                proof {
                    lemma_position(self, i as int);
                }
                return true;
            }
            i += 1;
        }
        proof {
            assert forall|p: Seq<char>| #[trigger] self@.dom().contains(p) implies self@[p].state
                != state@ by {
                let k = self.names().index_of(p);
                assert(self.names()[k] == p);
                lemma_position(self, k);
            }
        }
        false
    }
}

impl DepGraph {
    /// Whether making `from` depend on `to` closes a cycle.
    pub fn has_cycle(&self, from: &str, to: &str) -> (r: bool)
        requires
            self.wf(),
        ensures
            r == depends(self@, to@, from@),
    {
        self.path_contains(to, from)
    }

    /// Whether `start` is `target` or depends on it.
    fn path_contains(&self, start: &str, target: &str) -> (r: bool)
        requires
            self.wf(),
        ensures
            r == depends(self@, start@, target@),
    {
        if same(start, target) {
            assert(depends_in(self@, start@, target@, 0));
            return true;
        }
        let n: usize = self.nodes.len();
        let mut seen: Vec<bool> = Vec::new();
        while seen.len() < n
            invariant
                seen@.len() <= n,
                forall|k: int| 0 <= k < seen@.len() ==> !seen@[k],
            decreases n - seen@.len(),
        {
            seen.push(false);
        }
        let mut frontier: Vec<usize> = Vec::new();
        proof {
            assert(depends_in(self@, start@, start@, 0));
        }
        match self.position(start) {
            Some(i) => {
                seen.set(i, true);
                frontier.push(i);
            },
            None => {},
        }
        proof {
            assert forall|k: int| 0 <= k < n && self.names@[k]@ == start@ implies seen@[k] by {
                assert(self.names()[k] == start@);
                assert(frontier@.len() == 1);
                lemma_unique_name(self, k, frontier@[0] as int);
            }
            assert forall|k: int| 0 <= k < n && #[trigger] seen@[k] implies frontier@.contains(
                k as usize,
            ) by {
                assert(frontier@[0] == k);
            }
        }
        while frontier.len() > 0
            invariant
                self.wf(),
                n == self.nodes@.len(),
                seen@.len() == n,
                start@ != target@,
                search_ok(self, seen@, frontier@, start@, target@),
                forall|k: int| 0 <= k < n && self.names@[k]@ == start@ ==> seen@[k],
            decreases unseen(seen@), frontier@.len(),
        {
            let ghost stack0 = frontier@;
            let i: usize = frontier.pop().unwrap();
            assert forall|x: usize| stack0.contains(x) implies frontier@.contains(x) || x == i by {
                let q = stack0.index_of(x);
                if q < frontier@.len() {
                    assert(frontier@[q] == x);
                }
            }
            assert(stack0.last() == i);
            let ghost count0 = unseen(seen@);
            let ghost len0 = frontier@.len();
            proof {
                lemma_position(self, i as int);
            }
            let mut k: usize = 0;
            while k < self.nodes[i].deps.len()
                invariant
                    self.wf(),
                    n == self.nodes@.len(),
                    seen@.len() == n,
                    i < n,
                    seen@[i as int],
                    k <= self.nodes@[i as int].deps@.len(),
                    self@.dom().contains(self.names@[i as int]@),
                    self@[self.names@[i as int]@] == self.nodes@[i as int]@,
                    depends(self@, start@, self.names@[i as int]@),
                    start@ != target@,
                    search_ok_but(self, seen@, frontier@, start@, target@, i as int, k as int),
                    forall|k: int| 0 <= k < n && self.names@[k]@ == start@ ==> seen@[k],
                    unseen(seen@) < count0 || (unseen(seen@) == count0 && frontier@.len() == len0),
                decreases self.nodes@[i as int].deps@.len() - k,
            {
                let dep = self.nodes[i].deps[k].as_str();
                let ghost seen1 = seen@;
                let ghost frontier1 = frontier@;
                proof {
                    assert(self.nodes@[i as int]@.deps[k as int] == dep@);
                    assert(edge(self@, self.names@[i as int]@, dep@));
                    lemma_depends_step(self@, start@, self.names@[i as int]@, dep@);
                }
                if same(dep, target) {
                    return true;
                }
                match self.position(dep) {
                    Some(j) => {
                        if !seen[j] {
                            let ghost seen0 = seen@;
                            let ghost frontier0 = frontier@;
                            seen.set(j, true);
                            frontier.push(j);
                            proof {
                                lemma_unseen_mark(seen0, j as int);
                                assert(frontier@.last() == j);
                                assert forall|x: usize| frontier0.contains(
                                    x,
                                ) implies frontier@.contains(x) by {
                                    let q = frontier0.index_of(x);
                                    assert(frontier@[q] == x);
                                }
                                assert(frontier@.contains(j));
                            }
                        }
                        assert forall|q: int| 0 <= q < n && self.names@[q]@ == dep@ implies q
                            == j by {
                            lemma_unique_name(self, q, j as int);
                        }
                    },
                    None => {
                        assert forall|q: int| 0 <= q < n implies self.names@[q]@ != dep@ by {
                            lemma_position(self, q);
                        }
                    },
                }
                k += 1;
                proof {
                    assert(forall|q: int| 0 <= q < n && seen1[q] ==> #[trigger] seen@[q]);
                    assert forall|q: int| 0 <= q < frontier@.len() implies (#[trigger] frontier@[q])
                        < n && seen@[frontier@[q] as int] by {
                        if q < frontier1.len() {
                            assert(frontier1[q] == frontier@[q]);
                        }
                    }
                    assert forall|a: int, d: int|
                        #![trigger self.nodes@[a].deps@[d]]
                        0 <= a < n && seen@[a] && !frontier@.contains(a as usize) && 0 <= d
                            < self.nodes@[a].deps@.len() && (a == i ==> d < k) implies followed(
                        self,
                        seen@,
                        target@,
                        self.nodes@[a].deps@[d]@,
                    ) by {
                        if a == i && d == k - 1 {
                            assert(followed(self, seen@, target@, dep@));
                        } else {
                            assert(seen1[a]);
                            assert(!frontier1.contains(a as usize));
                            assert(followed(self, seen1, target@, self.nodes@[a].deps@[d]@));
                        }
                    }
                }
            }
        }
        proof {
            assert forall|m: nat| !#[trigger] depends_in(self@, start@, target@, m) by {
                if depends_in(self@, start@, target@, m) {
                    lemma_closed(self, seen@, frontier@, start@, target@, start@, m);
                }
            }
        }
        false
    }
}

/// How many entries are not set.
spec fn unseen(seen: Seq<bool>) -> nat
    decreases seen.len(),
{
    if seen.len() == 0 {
        0
    } else {
        unseen(seen.drop_last()) + if seen.last() {
            0nat
        } else {
            1nat
        }
    }
}

proof fn lemma_unseen_mark(seen: Seq<bool>, j: int)
    requires
        0 <= j < seen.len(),
        !seen[j],
    ensures
        unseen(seen.update(j, true)) + 1 == unseen(seen),
    decreases seen.len(),
{
    if j == seen.len() - 1 {
        assert(seen.update(j, true).drop_last() =~= seen.drop_last());
    } else {
        lemma_unseen_mark(seen.drop_last(), j);
        assert(seen.update(j, true).drop_last() =~= seen.drop_last().update(j, true));
    }
}

/// A dependency at which the search has arrived: it is not the target, and its node is seen.
spec fn followed(graph: &DepGraph, seen: Seq<bool>, target: Seq<char>, dep: Seq<char>) -> bool {
    &&& dep != target
    &&& forall|k: int| 0 <= k < seen.len() && graph.names@[k]@ == dep ==> #[trigger] seen[k]
}

/// What holds between two steps of the search for `target`, when the first `done` dependencies
/// of node `at` have been followed.
spec fn search_ok_but(
    graph: &DepGraph,
    seen: Seq<bool>,
    frontier: Seq<usize>,
    start: Seq<char>,
    target: Seq<char>,
    at: int,
    done: int,
) -> bool {
    &&& forall|k: int| 0 <= k < seen.len() && #[trigger] seen[k] ==> depends(
        graph@,
        start,
        graph.names@[k]@,
    )
    &&& forall|q: int| 0 <= q < frontier.len() ==> (#[trigger] frontier[q]) < seen.len() && seen[
        frontier[q] as int]
    &&& forall|k: int, d: int|
        #![trigger graph.nodes@[k].deps@[d]]
        0 <= k < seen.len() && seen[k] && !frontier.contains(k as usize) && 0 <= d
            < graph.nodes@[k].deps@.len() && (k == at ==> d < done) ==> followed(
            graph,
            seen,
            target,
            graph.nodes@[k].deps@[d]@,
        )
}

spec fn search_ok(
    graph: &DepGraph,
    seen: Seq<bool>,
    frontier: Seq<usize>,
    start: Seq<char>,
    target: Seq<char>,
) -> bool {
    search_ok_but(graph, seen, frontier, start, target, -1, 0)
}

/// From a followed package the search that has come to its end never meets the target.
proof fn lemma_closed(
    graph: &DepGraph,
    seen: Seq<bool>,
    frontier: Seq<usize>,
    start: Seq<char>,
    target: Seq<char>,
    a: Seq<char>,
    n: nat,
)
    requires
        graph.wf(),
        seen.len() == graph.nodes@.len(),
        frontier.len() == 0,
        search_ok(graph, seen, frontier, start, target),
        followed(graph, seen, target, a),
    ensures
        !depends_in(graph@, a, target, n),
    decreases n,
{
    if n > 0 && depends_in(graph@, a, target, n) {
        let c = choose|c: Seq<char>|
            #[trigger] edge(graph@, a, c) && depends_in(graph@, c, target, (n - 1) as nat);
        let k = graph.names().index_of(a);
        assert(graph.names()[k] == a);
        lemma_position(graph, k);
        let d = graph@[a].deps.index_of(c);
        assert(graph@[a].deps[d] == c);
        assert(graph.nodes@[k].deps@[d]@ == c);
        assert(seen[k]);
        assert(followed(graph, seen, target, c));
        lemma_closed(graph, seen, frontier, start, target, c, (n - 1) as nat);
    }
}

/// Dependence composes.
proof fn lemma_depends_compose(
    nodes: Nodes,
    a: Seq<char>,
    b: Seq<char>,
    c: Seq<char>,
    m: nat,
    n: nat,
)
    requires
        depends_in(nodes, a, b, m),
        depends_in(nodes, b, c, n),
    ensures
        depends_in(nodes, a, c, m + n),
    decreases m,
{
    if m > 0 {
        let d = choose|d: Seq<char>|
            #[trigger] edge(nodes, a, d) && depends_in(nodes, d, b, (m - 1) as nat);
        lemma_depends_compose(nodes, d, b, c, (m - 1) as nat, n);
        assert((m - 1) as nat + n == (m + n - 1) as nat);
    }
}

proof fn lemma_depends_step(nodes: Nodes, a: Seq<char>, b: Seq<char>, c: Seq<char>)
    requires
        depends(nodes, a, b),
        edge(nodes, b, c),
    ensures
        depends(nodes, a, c),
{
    let m = choose|m: nat| #[trigger] depends_in(nodes, a, b, m);
    assert(depends_in(nodes, c, c, 0));
    assert(depends_in(nodes, b, c, 1));
    lemma_depends_compose(nodes, a, b, c, m, 1);
}

/// A way in a graph with one edge more either was there before, or uses the new edge.
proof fn lemma_new_edge(
    nodes: Nodes,
    more: Nodes,
    from: Seq<char>,
    to: Seq<char>,
    a: Seq<char>,
    b: Seq<char>,
    n: nat,
)
    requires
        forall|x: Seq<char>, y: Seq<char>| #[trigger]
            edge(more, x, y) ==> edge(nodes, x, y) || (x == from && y == to),
        depends_in(more, a, b, n),
    ensures
        depends_in(nodes, a, b, n) || (depends(nodes, a, from) && depends(nodes, to, b)),
    decreases n,
{
    if n > 0 {
        let c = choose|c: Seq<char>|
            #[trigger] edge(more, a, c) && depends_in(more, c, b, (n - 1) as nat);
        lemma_new_edge(nodes, more, from, to, c, b, (n - 1) as nat);
        if edge(nodes, a, c) {
            if !depends_in(nodes, c, b, (n - 1) as nat) {
                let k = choose|k: nat| #[trigger] depends_in(nodes, c, from, k);
                assert(depends_in(nodes, a, a, 0));
                assert(depends_in(nodes, c, c, 0));
                assert(depends_in(nodes, a, c, 1));
                lemma_depends_compose(nodes, a, c, from, 1, k);
            }
        } else {
            assert(depends_in(nodes, from, from, 0));
        }
    }
}

/// A dependency that closes no cycle leaves the graph without cycles: where no node depends on
/// itself and `to` does not depend on `from`, recording that `from` depends on `to` keeps it so.
pub proof fn law_add_edge_keeps_acyclic(
    nodes: Nodes,
    from: Seq<char>,
    to: Seq<char>,
    features: Seq<Seq<char>>,
    source: SourceModel,
    obs_project: Seq<char>,
    revision: Seq<char>,
    current_dir: Seq<char>,
)
    requires
        acyclic(nodes),
        !depends(nodes, to, from),
    ensures
        acyclic(
            with_demand(with_dep(nodes, from, to), to, features, source, obs_project, revision, current_dir),
        ),
{
    let more = with_demand(with_dep(nodes, from, to), to, features, source, obs_project, revision, current_dir);
    assert forall|x: Seq<char>, y: Seq<char>| #[trigger] edge(more, x, y) implies edge(nodes, x, y)
        || (x == from && y == to) by {
        if x == from && nodes.dom().contains(from) {
            let deps = pieces::add_unique(nodes[from].deps, to);
            assert(deps.contains(y));
            if y != to {
                let k = deps.index_of(y);
                assert(nodes[from].deps[k] == y);
            }
        }
    }
    assert forall|a: Seq<char>, n: nat| n > 0 implies !#[trigger] depends_in(more, a, a, n) by {
        if depends_in(more, a, a, n) {
            lemma_new_edge(nodes, more, from, to, a, a, n);
            assert(!depends_in(nodes, a, a, n));
            let k = choose|k: nat| #[trigger] depends_in(nodes, a, from, k);
            let m = choose|m: nat| #[trigger] depends_in(nodes, to, a, m);
            lemma_depends_compose(nodes, to, a, from, m, k);
        }
    }
}

/// Changing the state of a node changes no dependency.
pub proof fn law_state_keeps_acyclic(nodes: Nodes, package: Seq<char>, state: StateModel)
    requires
        acyclic(nodes),
    ensures
        acyclic(with_state(nodes, package, state)),
{
    let more = with_state(nodes, package, state);
    assert(forall|x: Seq<char>, y: Seq<char>| #[trigger] edge(more, x, y) ==> edge(nodes, x, y));
    assert forall|a: Seq<char>, n: nat| n > 0 implies !#[trigger] depends_in(more, a, a, n) by {
        if depends_in(more, a, a, n) {
            lemma_fewer_edges(nodes, more, a, a, n);
        }
    }
}

pub proof fn lemma_fewer_edges(nodes: Nodes, less: Nodes, a: Seq<char>, b: Seq<char>, n: nat)
    requires
        forall|x: Seq<char>, y: Seq<char>| #[trigger] edge(less, x, y) ==> edge(nodes, x, y),
        depends_in(less, a, b, n),
    ensures
        depends_in(nodes, a, b, n),
    decreases n,
{
    if n > 0 {
        let c = choose|c: Seq<char>|
            #[trigger] edge(less, a, c) && depends_in(less, c, b, (n - 1) as nat);
        lemma_fewer_edges(nodes, less, c, b, (n - 1) as nat);
    }
}

/// What a requirement such as `python3.13dist(name[extra,..])` asks for.
pub open spec fn python_dependency(dep: Seq<char>) -> Option<TargetModel> {
    match text::strip_prefix(text::trim(dep), "python"@) {
        Some(rest) => match text::find(rest, "dist("@) {
            Some(at) => match text::strip_suffix(rest.skip(at + 5), ")"@) {
                Some(module) => {
                    let bracket = text::index_of(module, '[', 0);
                    if bracket < module.len() {
                        Some(
                            TargetModel {
                                package: module.take(bracket),
                                features: pieces::trim_each(
                                    pieces::split(
                                        text::trim_end_char(module.skip(bracket + 1), ']'),
                                        ',',
                                    ),
                                ),
                            },
                        )
                    } else {
                        Some(TargetModel { package: module, features: seq![] })
                    }
                },
                None => None,
            },
            None => None,
        },
        None => None,
    }
}

pub open spec fn opt_target(o: Option<DependencyTarget>) -> Option<TargetModel> {
    match o {
        Some(target) => Some(target@),
        None => None,
    }
}

pub fn python_dependency_info(dep: &str) -> (r: Option<DependencyTarget>)
    ensures
        opt_target(r) == python_dependency(dep@),
{
    let rest = match without_prefix(trimmed(dep).as_str(), "python") {
        Some(rest) => rest,
        None => return None,
    };
    let v = text::chars_of(rest.as_str());
    let w = text::chars_of("dist(");
    let tail = match text::find_at(&v, &w, 0) {
        Some(at) => text::string_of(&v, at + w.len(), v.len()),
        None => return None,
    };
    proof {
        reveal_strlit("dist(");
    }
    let module = match without_suffix(tail.as_str(), ")") {
        Some(module) => module,
        None => return None,
    };
    let m = text::chars_of(module.as_str());
    let bracket: usize = text::index_of_at(&m, '[', 0);
    if bracket < m.len() {
        let extras = trimmed_end_char(text::string_of(&m, bracket + 1, m.len()).as_str(), ']');
        let features = pieces::trimmed_each(&split_on(extras.as_str(), ','));
        Some(DependencyTarget { package: text::string_of(&m, 0, bracket), features })
    } else {
        let r = DependencyTarget { package: module, features: Vec::new() };
        assert(r@.features =~= seq![]);
        Some(r)
    }
}

/// The place of the target for `package`, the number of targets where there is none.
pub open spec fn target_place(targets: Seq<TargetModel>, package: Seq<char>, i: int) -> int
    decreases targets.len() - i,
{
    if 0 <= i < targets.len() && targets[i].package != package {
        target_place(targets, package, i + 1)
    } else {
        i
    }
}

/// `targets` with what `target` asks for: its features join those of the target for the same
/// package, and where there is none it becomes a target of its own.
pub open spec fn merge_target(targets: Seq<TargetModel>, target: TargetModel) -> Seq<TargetModel> {
    let i = target_place(targets, target.package, 0);
    if i < targets.len() {
        targets.update(
            i,
            TargetModel {
                features: pieces::add_all_unique(targets[i].features, target.features),
                ..targets[i]
            },
        )
    } else {
        targets.push(target)
    }
}

/// What a list of requirements asks for.
pub open spec fn targets_of(deps: Seq<Seq<char>>) -> Seq<TargetModel>
    decreases deps.len(),
{
    if deps.len() == 0 {
        seq![]
    } else {
        match python_dependency(deps.last()) {
            Some(target) => merge_target(targets_of(deps.drop_last()), target),
            None => targets_of(deps.drop_last()),
        }
    }
}

/// The packages that an issue asks to be built first.
pub open spec fn dependency_targets(issue: IssueModel) -> Seq<TargetModel> {
    match issue {
        IssueModel::DependencyUnresolvable { deps } => targets_of(deps),
        _ => seq![],
    }
}

pub open spec fn target_models(targets: Seq<DependencyTarget>) -> Seq<TargetModel> {
    Seq::new(targets.len(), |i: int| targets[i]@)
}

fn merge_into(targets: &mut Vec<DependencyTarget>, target: DependencyTarget)
    ensures
        target_models(final(targets)@) == merge_target(target_models(old(targets)@), target@),
{
    let ghost before = target_models(targets@);
    let mut i: usize = 0;
    while i < targets.len() && !same(targets[i].package.as_str(), target.package.as_str())
        invariant
            i <= targets@.len(),
            before == target_models(targets@),
            targets@ == old(targets)@,
            target_place(before, target@.package, 0) == target_place(
                before,
                target@.package,
                i as int,
            ),
        decreases targets@.len() - i,
    {
        i += 1;
    }
    if i < targets.len() {
        let found = &mut targets[i];
        pieces::push_all_unique(&mut found.features, &target.features);
        assert(target_models(targets@) =~= merge_target(before, target@));
    } else {
        targets.push(target);
        assert(target_models(targets@) =~= before.push(target@));
    }
}

pub fn parse_dependency_targets(issue: &BuildIssue) -> (r: Vec<DependencyTarget>)
    ensures
        target_models(r@) == dependency_targets(issue@),
{
    let mut targets: Vec<DependencyTarget> = Vec::new();
    assert(target_models(targets@) =~= seq![]);
    match issue {
        BuildIssue::DependencyUnresolvable { deps } => {
            let ghost all = text::texts(deps@);
            let mut i: usize = 0;
            while i < deps.len()
                invariant
                    i <= deps@.len(),
                    all == text::texts(deps@),
                    target_models(targets@) == targets_of(all.take(i as int)),
                decreases deps@.len() - i,
            {
                match python_dependency_info(deps[i].as_str()) {
                    Some(info) => merge_into(&mut targets, info),
                    None => {},
                }
                i += 1;
                assert(all.take(i as int).drop_last() =~= all.take(i - 1));
            }
            assert(all.take(all.len() as int) =~= all);
        },
        _ => {},
    }
    targets
}

} // verus!
