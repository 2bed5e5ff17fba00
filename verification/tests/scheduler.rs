use packfix::engine::BuildOutcome;
use packfix::graph::{DepGraph, DependencyTarget, Node, NodeState, PackageSource};
use packfix::scheduler::{
    dependency_build_request, node_running_state, record_terminal_outcome,
    resume_waiting_nodes_with_satisfied_deps,
};

fn pypi_source(name: &str) -> PackageSource {
    PackageSource::Pypi {
        name: name.to_string(),
        version: None,
    }
}

#[test]
fn scheduler_engine_error_marks_node_failed() {
    let mut graph = DepGraph::new();
    graph.get_or_create(
        "python-foo",
        pypi_source("foo"),
        "proj".into(),
        "rev".into(),
        "/srv",
    );
    graph.mark_state("python-foo", NodeState::SpecPreparing);

    let mut results = Vec::new();
    record_terminal_outcome(
        &mut graph,
        &mut results,
        "python-foo".into(),
        BuildOutcome::Failed("engine exploded".into()),
    );

    assert!(matches!(
        graph.get("python-foo").map(|node| &node.state),
        Some(NodeState::Failed(reason)) if reason == "engine exploded"
    ));
    assert_eq!(results.len(), 1);
    assert_eq!(results[0].package, "python-foo");
    assert!(matches!(
        &results[0].outcome,
        BuildOutcome::Failed(reason) if reason == "engine exploded"
    ));
}

#[test]
fn dependency_node_uses_rpm_key_but_pypi_source_name() {
    let request = dependency_build_request(&DependencyTarget {
        package: "fonttools".into(),
        features: vec!["lxml".into()],
    });

    assert_eq!(request.package, "python-fonttools");
    assert_eq!(request.features, vec!["lxml"]);
    assert_eq!(
        request.source,
        PackageSource::Pypi {
            name: "fonttools".into(),
            version: None
        }
    );
}

#[test]
fn scheduler_can_resume_local_workdir_after_dependency_success() {
    let mut graph = DepGraph::new();
    graph.get_or_create(
        "python-demo",
        PackageSource::LocalWorkdir {
            path: "/tmp/demo".into(),
        },
        "proj".into(),
        "rev".into(),
        "/srv",
    );
    graph.get_or_create(
        "python-fonttools",
        pypi_source("fonttools"),
        "proj".into(),
        "rev".into(),
        "/srv",
    );
    graph.get_mut("python-demo").expect("local node").deps = vec!["python-fonttools".into()];
    graph.mark_state("python-demo", NodeState::WaitingForDeps);
    graph.mark_success("python-fonttools");

    resume_waiting_nodes_with_satisfied_deps(&mut graph);

    assert!(matches!(
        graph.get("python-demo").map(|node| &node.state),
        Some(NodeState::Pending)
    ));
}

#[test]
fn success_can_immediately_resume_waiting_parent() {
    let mut graph = DepGraph::new();
    graph.get_or_create(
        "python-demo",
        PackageSource::LocalWorkdir {
            path: "/tmp/demo".into(),
        },
        "proj".into(),
        "rev".into(),
        "/srv",
    );
    graph.get_or_create(
        "python-fonttools",
        pypi_source("fonttools"),
        "proj".into(),
        "rev".into(),
        "/srv",
    );
    graph.get_mut("python-demo").expect("parent").deps = vec!["python-fonttools".into()];
    graph.mark_state("python-demo", NodeState::WaitingForDeps);

    let mut results = Vec::new();
    record_terminal_outcome(
        &mut graph,
        &mut results,
        "python-fonttools".into(),
        BuildOutcome::Success { report: None },
    );
    resume_waiting_nodes_with_satisfied_deps(&mut graph);

    assert!(matches!(
        graph.get("python-demo").map(|node| &node.state),
        Some(NodeState::Pending)
    ));
}

#[test]
fn local_workdir_nodes_enter_local_building_state_when_started() {
    let node = Node::new(
        "python-demo".into(),
        PackageSource::LocalWorkdir {
            path: "/tmp/demo".into(),
        },
        "proj".into(),
        "rev".into(),
        "/srv",
    );

    assert_eq!(node_running_state(&node), NodeState::LocalBuilding);
}

#[test]
fn waiting_parent_failure_reason_includes_failed_dependency_name() {
    let mut graph = DepGraph::new();
    graph.get_or_create(
        "python-demo",
        PackageSource::LocalWorkdir {
            path: "/tmp/demo".into(),
        },
        "proj".into(),
        "rev".into(),
        "/srv",
    );
    graph.get_or_create(
        "python-fonttools",
        pypi_source("fonttools"),
        "proj".into(),
        "rev".into(),
        "/srv",
    );
    graph.get_mut("python-demo").expect("parent").deps = vec!["python-fonttools".into()];
    graph.mark_state("python-demo", NodeState::WaitingForDeps);
    graph.mark_failed("python-fonttools", "need human".into());

    let mut to_fail: Vec<(String, String)> = Vec::new();
    for (pkg, node) in graph.iter() {
        if matches!(node.state, NodeState::WaitingForDeps) {
            if let Some(failed_dep) = node.deps.iter().find(|dep| {
                graph
                    .get(dep)
                    .map(|n| matches!(n.state, NodeState::Failed(_)))
                    .unwrap_or(false)
            }) {
                to_fail.push((pkg.clone(), failed_dep.clone()));
            }
        }
    }

    assert_eq!(
        to_fail,
        vec![("python-demo".into(), "python-fonttools".into())]
    );
}
