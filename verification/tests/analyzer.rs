use packfix::analyzer::analyze_log;
use packfix::fixer::decide_action;
use packfix::issue::{BuildAction, BuildIssue};

#[test]
fn failed_build_dependencies_to_add_buildrequires() {
    let log = "Failed build dependencies:\n    python3dist(pytest) is needed by python-foo\n    python3dist(hatchling) >= 1.0 is needed by python-foo\n";
    let issue = analyze_log(log);
    assert_eq!(
        issue,
        BuildIssue::MissingBuildDependencies {
            deps: vec![
                "python3dist(pytest)".into(),
                "python3dist(hatchling)".into()
            ]
        }
    );
    assert!(
        matches!(decide_action(&issue), BuildAction::AddBuildRequires { deps, .. } if deps.len() == 2)
    );
}

#[test]
fn unresolvable_to_need_human() {
    let issue = analyze_log("nothing provides python3dist(torch)");
    assert_eq!(
        issue,
        BuildIssue::DependencyUnresolvable {
            deps: vec!["python3dist(torch)".into()]
        }
    );
    assert!(matches!(
        decide_action(&issue),
        BuildAction::NeedHuman { .. }
    ));
}

#[test]
fn optional_integration_import_failure_to_buildoption_check() {
    let log = r#"/usr/lib/rpm/openruyi/import_all_modules.py
Check import: lmformatenforcer.integrations.exllamav2
ModuleNotFoundError: No module named 'torch'
ImportError: exllamav2 is not installed. Please install it with "pip install exllamav2"
Check import: lmformatenforcer.integrations.haystackv1
ModuleNotFoundError: No module named 'haystack'
ImportError: haystack is not installed. Please install it with "pip install farm-haystack"
"#;
    let issue = analyze_log(log);
    assert!(matches!(
        &issue,
        BuildIssue::ImportCheckExclusions { exclusions, .. }
            if exclusions == &vec!["lmformatenforcer.integrations.*".to_string()]
    ));
    assert!(matches!(
        decide_action(&issue),
        BuildAction::AddBuildOptionCheckExcludes { patterns, .. }
            if patterns == vec!["lmformatenforcer.integrations.*".to_string()]
    ));
}

#[test]
fn empty_import_check_becomes_empty_check_issue() {
    let log = r#"/usr/lib/rpm/openruyi/import_all_modules.py
ValueError: No modules to check were left
"#;
    let issue = analyze_log(log);
    assert_eq!(issue, BuildIssue::EmptyImportCheck);
    assert!(matches!(
        decide_action(&issue),
        BuildAction::AddEmptyCheckSection { comment, .. }
        if comment == "No importable runtime modules for default import check."
    ));
}

#[test]
fn unpackaged_files_to_append_files() {
    let issue = analyze_log(
        "Installed but unpackaged files found:\n   /usr/bin/foo\n   /usr/share/foo/data.json\n",
    );
    assert!(
        matches!(&issue, BuildIssue::InstalledButUnpackagedFiles { files } if files.len() == 2)
    );
    assert!(
        matches!(decide_action(&issue), BuildAction::AppendFilesEntries { files, .. } if files.len() == 2)
    );
}

#[test]
fn arch_dependent_to_remove_noarch() {
    let issue = analyze_log("Arch dependent binaries in noarch package");
    assert_eq!(issue, BuildIssue::ArchDependentInNoarch);
    assert!(matches!(
        decide_action(&issue),
        BuildAction::RemoveNoarch { .. }
    ));
}

#[test]
fn pep639_to_buildoption_install_l() {
    let issue = analyze_log("No License-File (PEP 639) in upstream metadata found.");
    assert_eq!(issue, BuildIssue::MissingPep639LicenseMetadata);
    assert!(
        matches!(decide_action(&issue), BuildAction::FixBuildOptionInstall { arg, .. } if arg == "-L")
    );
}

#[test]
fn install_module_mismatch() {
    let issue = analyze_log("Globs did not match any module: zope_interface");
    assert_eq!(
        issue,
        BuildIssue::InstallModuleMismatch {
            wrong_module: "zope_interface".into(),
            suggested_module: "zope_interface".into()
        }
    );
    assert!(
        matches!(decide_action(&issue), BuildAction::FixBuildOptionInstall { arg, .. } if arg == "zope_interface")
    );
}

#[test]
fn install_module_mismatch_ignores_traceback_source_line() {
    let log = r#"
  File "/usr/lib/rpm/openruyi/pyproject_save_files.py", line 703, in generate_file_list
    raise ValueError(f"Globs did not match any module: {missed_text}")
ValueError: Globs did not match any module: zope_interface
"#;
    let issue = analyze_log(log);
    assert_eq!(
        issue,
        BuildIssue::InstallModuleMismatch {
            wrong_module: "zope_interface".into(),
            suggested_module: "zope_interface".into()
        }
    );
}

#[test]
fn optional_integration_dedup_missing_modules() {
    let log = r#"/usr/lib/rpm/openruyi/import_all_modules.py
Check import: foo.integrations.bar
ModuleNotFoundError: No module named 'torch'
ModuleNotFoundError: No module named 'torch'
ModuleNotFoundError: No module named 'torch'
"#;
    let issue = analyze_log(log);
    match &issue {
        BuildIssue::ImportCheckExclusions {
            missing_modules, ..
        } => {
            assert_eq!(
                missing_modules
                    .iter()
                    .filter(|m| m.as_str() == "torch")
                    .count(),
                1,
                "missing_modules must be deduplicated"
            );
        }
        _ => panic!("expected ImportCheckExclusions, got {issue:?}"),
    }
}

#[test]
fn import_check_failures_are_grouped_by_parent_module() {
    let log = r#"/usr/lib/rpm/openruyi/import_all_modules.py
Failed to import: redis.asyncio.multidb.client, redis.asyncio.multidb.command_executor, redis.multidb.client
ModuleNotFoundError: No module named 'pybreaker'
"#;
    let issue = analyze_log(log);
    assert!(
        matches!(
            &issue,
            BuildIssue::ImportCheckExclusions { exclusions, .. }
            if exclusions == &vec![
                "redis.asyncio.multidb.client".to_string(),
                "redis.asyncio.multidb.command_executor".to_string(),
                "redis.multidb.client".to_string()
            ]
        ),
        "failed imports must be grouped by parent module, got {issue:?}"
    );
}

#[test]
fn import_check_failed_imports_directly_excluded() {
    let log = r#"/usr/lib/rpm/openruyi/import_all_modules.py
Failed to import: foo.core, foo.optional
ModuleNotFoundError: No module named 'bar'
"#;
    let issue = analyze_log(log);
    assert!(
        matches!(issue, BuildIssue::ImportCheckExclusions { .. }),
        "failed imports should be directly excluded: {issue:?}"
    );
    if let BuildIssue::ImportCheckExclusions { exclusions, .. } = issue {
        assert_eq!(
            exclusions,
            vec!["foo.core".to_string(), "foo.optional".to_string()]
        );
    }
}

#[test]
fn import_check_tests_module_excluded() {
    let log = r#"/usr/lib/rpm/openruyi/import_all_modules.py
Failed to import: zope.interface.tests.test_ro
ModuleNotFoundError: No module named 'zope.testing'
"#;
    let issue = analyze_log(log);
    assert!(matches!(
        issue,
        BuildIssue::ImportCheckExclusions { exclusions, .. }
        if exclusions == vec!["zope.interface.tests.test_ro".to_string()]
    ));
}

#[test]
fn fonttools_optional_imports_excluded() {
    let log = r#"/usr/lib/rpm/openruyi/import_all_modules.py
Failed to import: fontTools.misc.symfont, fontTools.pens.freetypePen, fontTools.pens.quartzPen, fontTools.pens.reportLabPen, fontTools.ttLib.removeOverlaps, fontTools.varLib.interpolatablePlot, fontTools.varLib.plot
ModuleNotFoundError: No module named 'sympy'
"#;
    let issue = analyze_log(log);
    assert!(matches!(
        issue,
        BuildIssue::ImportCheckExclusions { exclusions, .. }
        if exclusions == vec![
            "fontTools.misc.symfont".to_string(),
            "fontTools.pens.freetypePen".to_string(),
            "fontTools.pens.quartzPen".to_string(),
            "fontTools.pens.reportLabPen".to_string(),
            "fontTools.ttLib.removeOverlaps".to_string(),
            "fontTools.varLib.interpolatablePlot".to_string(),
            "fontTools.varLib.plot".to_string(),
        ]
    ));
}

#[test]
fn import_check_multidb_whitelist_excluded() {
    let log = r#"/usr/lib/rpm/openruyi/import_all_modules.py
Failed to import: redis.asyncio.multidb.client, redis.multidb.client
ModuleNotFoundError: No module named 'pybreaker'
"#;
    let issue = analyze_log(log);
    assert!(matches!(
        issue,
        BuildIssue::ImportCheckExclusions { exclusions, .. }
        if exclusions == vec![
            "redis.asyncio.multidb.client".to_string(),
            "redis.multidb.client".to_string()
        ]
    ));
}

#[test]
fn unresolvable_with_prefix() {
    let log = "unresolvable: nothing provides python3dist(foo)";
    let issue = analyze_log(log);
    assert_eq!(
        issue,
        BuildIssue::DependencyUnresolvable {
            deps: vec!["python3dist(foo)".into()]
        }
    );
    assert!(matches!(
        decide_action(&issue),
        BuildAction::NeedHuman { .. }
    ));
}

#[test]
fn unresolvable_dep_strips_punctuation_or_matches_exact_dist() {
    let log = "nothing provides python3dist(foo),\nnothing provides python3dist(bar)>=1\nnothing provides python3dist(baz).\n";
    let issue = analyze_log(log);
    assert_eq!(
        issue,
        BuildIssue::DependencyUnresolvable {
            deps: vec![
                "python3dist(foo)".into(),
                "python3dist(bar)".into(),
                "python3dist(baz)".into()
            ]
        }
    );
}

#[test]
fn unresolvable_supports_python313dist() {
    let issue = analyze_log("nothing provides python313dist(foo)");
    assert_eq!(
        issue,
        BuildIssue::DependencyUnresolvable {
            deps: vec!["python313dist(foo)".into()]
        }
    );
}

#[test]
fn unresolvable_supports_python3_13dist() {
    let issue = analyze_log("unresolvable: nothing provides python3.13dist(unicodedata2)");
    assert_eq!(
        issue,
        BuildIssue::DependencyUnresolvable {
            deps: vec!["python3.13dist(unicodedata2)".into()]
        }
    );
}

#[test]
fn unresolvable_supports_pkgconfig() {
    let issue = analyze_log("nothing provides pkgconfig(libxml-2.0)");
    assert_eq!(
        issue,
        BuildIssue::DependencyUnresolvable {
            deps: vec!["pkgconfig(libxml-2.0)".into()]
        }
    );
}

#[test]
fn normal_module_not_found_is_need_human() {
    let log = "ModuleNotFoundError: No module named 'requests'";
    let issue = analyze_log(log);
    assert_eq!(
        issue,
        BuildIssue::MissingPythonModule {
            module: "requests".into(),
            import_context: None,
        }
    );
    assert!(matches!(
        decide_action(&issue),
        BuildAction::NeedHuman { .. }
    ));
}

#[test]
fn pytest_module_not_found_is_test_failure() {
    let log = "pytest test_demo.py::test_import FAILED\nModuleNotFoundError: No module named 'foo'\nFAILED test_demo.py::test_import\n";
    let issue = analyze_log(log);
    assert!(matches!(issue, BuildIssue::TestFailure { .. }));
}

#[test]
fn c_extension_module_not_found_if_has_fatal_error_is_c_extension() {
    let log = "fatal error: Python.h: No such file or directory\nModuleNotFoundError: No module named 'foo'\n";
    let issue = analyze_log(log);
    assert!(matches!(issue, BuildIssue::CExtensionCompileError { .. }));
}

#[test]
fn normal_module_not_found_is_missing_python_module() {
    let log = "ModuleNotFoundError: No module named 'requests'";
    let issue = analyze_log(log);
    assert!(matches!(
        issue,
        BuildIssue::MissingPythonModule { module, .. } if module == "requests"
    ));
}

#[test]
fn c_extension_compile_error_is_need_human() {
    let log = "fatal error: Python.h: No such file or directory\ncompilation terminated.\n";
    let issue = analyze_log(log);
    assert!(
        matches!(issue, BuildIssue::CExtensionCompileError { .. }),
        "expected CExtensionCompileError, got {issue:?}"
    );
    assert!(matches!(
        decide_action(&issue),
        BuildAction::NeedHuman { .. }
    ));
}

#[test]
fn pytest_failure_is_need_human() {
    let log = "pytest test_something.py::test_foo FAILED\n";
    let issue = analyze_log(log);
    assert!(
        matches!(issue, BuildIssue::TestFailure { .. }),
        "expected TestFailure, got {issue:?}"
    );
    assert!(matches!(
        decide_action(&issue),
        BuildAction::NeedHuman { .. }
    ));
}

#[test]
fn patch_apply_error_is_need_human() {
    let log = "patching file foo.py\nHunk #1 FAILED at 42.\n";
    let issue = analyze_log(log);
    assert!(
        matches!(issue, BuildIssue::PatchApplyError { .. }),
        "expected PatchApplyError, got {issue:?}"
    );
    assert!(matches!(
        decide_action(&issue),
        BuildAction::NeedHuman { .. }
    ));
}
