use packfix::graph::{
    parse_dependency_targets, python_dependency_info, DepGraph, FeatureMergeResult, NodeState,
    PackageSource,
};
use packfix::issue::BuildIssue;

fn pypi_source(name: &str) -> PackageSource {
    PackageSource::Pypi {
        name: name.to_string(),
        version: None,
    }
}

#[test]
fn python_dependency_info_parses_extras() {
    let info = python_dependency_info("python3dist(fonttools[lxml,unicode])")
        .expect("dependency info");
    assert_eq!(info.package, "fonttools");
    assert_eq!(info.features, vec!["lxml", "unicode"]);
}

#[test]
fn python_dependency_info_supports_python3_13dist_format() {
    let info =
        python_dependency_info("python3.13dist(ufo2ft[compreffor])").expect("dependency info");
    assert_eq!(info.package, "ufo2ft");
    assert_eq!(info.features, vec!["compreffor"]);
}

#[test]
fn parse_dependency_targets_merges_same_base_package() {
    let issue = BuildIssue::DependencyUnresolvable {
        deps: vec![
            "python3dist(fonttools)".into(),
            "python3dist(fonttools[lxml])".into(),
            "python3dist(fonttools[unicode])".into(),
        ],
    };
    let targets = parse_dependency_targets(&issue);
    assert_eq!(targets.len(), 1);
    assert_eq!(targets[0].package, "fonttools");
    assert_eq!(targets[0].features, vec!["lxml", "unicode"]);
}

#[test]
fn feature_merge_returns_needs_rebuild() {
    let mut graph = DepGraph::new();
    graph.get_or_create(
        "fonttools",
        pypi_source("fonttools"),
        "proj".into(),
        "rev".into(),
        "/srv",
    );
    graph.mark_success("fonttools");

    let result = graph.add_edge(
        "fontmake",
        "fonttools",
        vec!["lxml".into()],
        pypi_source("fonttools"),
        "proj".into(),
        "rev".into(),
        "/srv",
    );
    assert_eq!(result, FeatureMergeResult::MergedNeedsRebuild);
    assert_eq!(graph.get("fonttools").unwrap().state, NodeState::Pending);
}

#[test]
fn feature_merge_no_change_when_already_has_feature() {
    let mut graph = DepGraph::new();
    let node = graph.get_or_create(
        "fonttools",
        pypi_source("fonttools"),
        "proj".into(),
        "rev".into(),
        "/srv",
    );
    node.features.insert("lxml".into());
    graph.mark_success("fonttools");

    let result = graph.add_edge(
        "fontmake",
        "fonttools",
        vec!["lxml".into()],
        pypi_source("fonttools"),
        "proj".into(),
        "rev".into(),
        "/srv",
    );
    assert_eq!(result, FeatureMergeResult::MergedNoChange);
}

#[test]
fn unresolved_deps_filters_success_nodes() {
    let mut graph = DepGraph::new();
    graph.get_or_create(
        "fontmake",
        pypi_source("fontmake"),
        "proj".into(),
        "rev".into(),
        "/srv",
    );
    graph.get_or_create(
        "fonttools",
        pypi_source("fonttools"),
        "proj".into(),
        "rev".into(),
        "/srv",
    );
    graph.get_or_create(
        "fontmath",
        pypi_source("fontmath"),
        "proj".into(),
        "rev".into(),
        "/srv",
    );

    let fm = graph.get_mut("fontmake").unwrap();
    fm.deps = vec!["fonttools".into(), "fontmath".into()];

    graph.mark_success("fonttools");

    let unresolved = graph.unresolved_deps("fontmake");
    assert_eq!(unresolved, vec!["fontmath"]);
}

#[test]
fn cycle_detection_works() {
    let mut graph = DepGraph::new();
    graph.get_or_create("a", pypi_source("a"), "proj".into(), "rev".into(), "/srv");
    graph.get_or_create("b", pypi_source("b"), "proj".into(), "rev".into(), "/srv");
    graph.get_or_create("c", pypi_source("c"), "proj".into(), "rev".into(), "/srv");

    graph.get_mut("a").unwrap().deps.push("b".into());
    graph.get_mut("b").unwrap().deps.push("c".into());

    assert!(graph.has_cycle("c", "a"));
    assert!(!graph.has_cycle("a", "c"));
}

#[test]
fn add_edge_new_node_preserves_features() {
    let mut graph = DepGraph::new();
    graph.get_or_create(
        "fontmake",
        pypi_source("fontmake"),
        "proj".into(),
        "rev".into(),
        "/srv",
    );

    let result = graph.add_edge(
        "fontmake",
        "fonttools",
        vec!["lxml".into()],
        pypi_source("fonttools"),
        "proj".into(),
        "rev".into(),
        "/srv",
    );

    assert_eq!(result, FeatureMergeResult::NewNode);
    assert_eq!(
        graph
            .get("fonttools")
            .unwrap()
            .features
            .to_vec(),
        vec!["lxml".to_string()]
    );
}

#[test]
fn add_edge_existing_success_with_new_feature_marks_pending() {
    let mut graph = DepGraph::new();
    graph.get_or_create(
        "fontmake",
        pypi_source("fontmake"),
        "proj".into(),
        "rev".into(),
        "/srv",
    );
    graph.get_or_create(
        "fonttools",
        pypi_source("fonttools"),
        "proj".into(),
        "rev".into(),
        "/srv",
    );
    graph.mark_success("fonttools");

    let result = graph.add_edge(
        "fontmake",
        "fonttools",
        vec!["lxml".into()],
        pypi_source("fonttools"),
        "proj".into(),
        "rev".into(),
        "/srv",
    );

    assert_eq!(result, FeatureMergeResult::MergedNeedsRebuild);
    assert_eq!(graph.get("fonttools").unwrap().state, NodeState::Pending);
}

#[test]
fn a_node_has_its_workspace_below_the_current_directory() {
    let mut graph = DepGraph::new();
    let node = graph.get_or_create("a", pypi_source("a"), "proj".into(), "rev".into(), "/srv");
    assert_eq!(node.local_workdir, "/srv/workspaces/a");
    graph.add_edge(
        "a",
        "b",
        Vec::new(),
        pypi_source("b"),
        "proj".into(),
        "rev".into(),
        "/home/x/",
    );
    assert_eq!(graph.get("b").unwrap().local_workdir, "/home/x/workspaces/b");
}

#[test]
fn a_rebuild_is_asked_for_where_a_feature_is_new() {
    let asked = |held: &[&str], wanted: &[&str], built: bool| {
        let mut graph = DepGraph::new();
        let node = graph.get_or_create("b", pypi_source("b"), "p".into(), "r".into(), "/srv");
        for feature in held {
            node.features.insert(feature.to_string());
        }
        if built {
            graph.mark_success("b");
        }
        let result = graph.add_edge(
            "a",
            "b",
            wanted.iter().map(|f| f.to_string()).collect(),
            pypi_source("b"),
            "p".into(),
            "r".into(),
            "/srv",
        );
        (result, graph.get("b").unwrap().features.to_vec())
    };
    let set = |v: &[&str]| v.iter().map(|f| f.to_string()).collect::<Vec<String>>();
    assert_eq!(
        asked(&["x", "b", "x"], &["c", "b", "a", "c"], true),
        (FeatureMergeResult::MergedNeedsRebuild, set(&["a", "b", "c", "x"]))
    );
    assert_eq!(
        asked(&["x", "b"], &["b", "x", "b"], true),
        (FeatureMergeResult::MergedNoChange, set(&["b", "x"]))
    );
    assert_eq!(
        asked(&["x"], &["a"], false),
        (FeatureMergeResult::MergedNoChange, set(&["a", "x"]))
    );
}
