use packfix::fixer::{apply_action, contextualize_issue, needs_source_tree};
use packfix::issue::{BuildAction, BuildIssue};
use packfix::upstream::SourceTree;

fn empty_tree() -> SourceTree {
    SourceTree {
        top_level_texts: Ok(vec![]),
        archives: Ok(vec![]),
        first_level: Ok(vec![]),
    }
}

#[test]
fn contextualize_issue_passes_through_non_mismatch() {
    let issue = BuildIssue::MissingBuildDependencies {
        deps: vec!["python3dist(foo)".into()],
    };
    let result = contextualize_issue(&empty_tree(), issue.clone()).unwrap();
    assert_eq!(result, issue);
}

#[test]
fn contextualize_issue_preserves_mismatch_when_no_source() {
    let issue = BuildIssue::InstallModuleMismatch {
        wrong_module: "zope_interface".into(),
        suggested_module: "zope_interface".into(),
    };
    let result = contextualize_issue(&empty_tree(), issue).unwrap();
    match result {
        BuildIssue::InstallModuleMismatch {
            wrong_module,
            suggested_module,
        } => {
            assert_eq!(wrong_module, "zope_interface");
            assert_eq!(suggested_module, "zope_interface");
        }
        other => panic!("expected InstallModuleMismatch, got {other:?}"),
    }
}

#[test]
fn contextualize_issue_refines_module_from_egg_info() {
    let mut tree = empty_tree();
    tree.top_level_texts = Ok(vec!["real_module\n".to_string()]);

    let issue = BuildIssue::InstallModuleMismatch {
        wrong_module: "wrong_name".into(),
        suggested_module: "wrong_name".into(),
    };
    let result = contextualize_issue(&tree, issue).unwrap();
    match result {
        BuildIssue::InstallModuleMismatch {
            wrong_module,
            suggested_module,
        } => {
            assert_eq!(wrong_module, "wrong_name");
            assert_eq!(
                suggested_module, "real_module",
                "should infer real_module from egg-info/top_level.txt"
            );
        }
        other => panic!("expected InstallModuleMismatch, got {other:?}"),
    }
}

#[test]
fn errors_of_the_tree_end_a_refinement() {
    let mut tree = empty_tree();
    tree.first_level = Err("gone".to_string());
    let issue = BuildIssue::InstallModuleMismatch {
        wrong_module: "w".into(),
        suggested_module: "w".into(),
    };
    assert!(needs_source_tree(&issue));
    assert_eq!(contextualize_issue(&tree, issue).unwrap_err(), "gone");
    assert!(!needs_source_tree(&BuildIssue::EmptyImportCheck));
    assert_eq!(
        contextualize_issue(&tree, BuildIssue::EmptyImportCheck).unwrap(),
        BuildIssue::EmptyImportCheck
    );
}

#[test]
fn applying_an_action_twice_is_applying_it_once() {
    let before = "Name: foo\nBuildOption(install):  -l foo\n%description\nx\n\n%files\n";
    let reason = String::new();
    let actions = [
        BuildAction::AddBuildRequires {
            deps: vec!["python3dist(a)".into()],
            reason: reason.clone(),
        },
        BuildAction::AddBuildOptionCheckExcludes {
            patterns: vec!["a.b.*".into()],
            reason: reason.clone(),
        },
        BuildAction::AddEmptyCheckSection {
            comment: "c".into(),
            reason: reason.clone(),
        },
        BuildAction::FixBuildOptionInstall {
            arg: "bar".into(),
            reason: reason.clone(),
        },
        BuildAction::AppendFilesEntries {
            files: vec!["/usr/bin/foo".into()],
            reason: reason.clone(),
        },
        BuildAction::RemoveNoarch {
            reason: reason.clone(),
        },
        BuildAction::NoOp { reason },
    ];
    for action in &actions {
        let once = apply_action(before, action).unwrap();
        assert_eq!(apply_action(&once, action).unwrap(), once);
        assert_eq!(matches!(action, BuildAction::NoOp { .. }), once == before);
    }
    let human = BuildAction::NeedHuman {
        reason: "r".into(),
        issue: BuildIssue::Unknown {
            important_lines: vec![],
        },
    };
    assert_eq!(apply_action(before, &human).unwrap(), before);
}
