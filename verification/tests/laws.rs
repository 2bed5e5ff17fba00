use packfix::command::{CommandOutput, StreamLine};
use packfix::describe::{excerpt_readme, format_spec_description};
use packfix::engine::BuildOutcome;
use packfix::extract::{extract_archive, find_source_archives, is_safe_entry_path};
use packfix::fixer::{apply_action, decide_action};
use packfix::graph::{DependencyTarget, NodeState, PackageSource};
use packfix::issue::BuildIssue;
use packfix::obs_api::xml_escape;
use packfix::pipeline::{classify_remote_build_status, poll_delay_secs, RemoteBuildState};
use packfix::resources::{sanitize_path_segment, LocalBuildPool};
use packfix::scheduler::{BuildRequest, BuildScheduler};
use packfix::specfile::{
    add_buildoption_checks, add_buildrequires, add_empty_check_section, add_extras_subpackages,
    append_files_entries,
    ensure_autochangelog_macro, ensure_buildarch_noarch, ensure_remote_asset,
    ensure_versioned_python_provides, fix_buildarch_remove_noarch, fix_buildoption_install,
    normalize_spec, tag_value, update_description, update_summary, update_version,
};
use packfix::upstream::{is_egg_info, is_tar_gz, python_package_name};
use packfix::versions::{compare_python_versions, is_newer_python_version};

const SPECS: [&str; 6] = [
    "",
    "Name: x\n\n\n",
    "Name:           python-a  \nVersion: 1\nBuildArch: noarch\n\nBuildRequires:  python3\n\
     BuildOption(install): -l a\n\n%description\nOld.\n\n%files -f %{pyproject_files}\n%doc README\n",
    "Name: a\r\nBuildArch:noarch\r\n%description\r\ntext\r\n%check\r\n%files\r\n/x\r\n%changelog\r\n",
    "Provides:       python3-a\n%python_provide python3-a\nSource0: s\n%global x 1\n%changelog\n%{?autochangelog}\n",
    "BuildOption(check):  -e \"a.*\"\nBuildOption(install):\n  -L\n%build\nno header %x\n%files",
];

fn texts(v: &[&str]) -> Vec<String> {
    v.iter().map(|s| s.to_string()).collect()
}

fn twice_is_once(edit: impl Fn(&str) -> String) {
    for spec in SPECS {
        let once = edit(spec);
        assert_eq!(edit(&once), once, "{spec:?}");
    }
}

#[test]
fn edits_made_twice_are_made_once() {
    twice_is_once(normalize_spec);
    twice_is_once(|s| add_buildrequires(s, &texts(&["python3dist(a) >= 1", "b", " b "])));
    twice_is_once(|s| add_buildoption_checks(s, &texts(&["a.b", "c*", "c.d"])));
    twice_is_once(|s| append_files_entries(s, &texts(&["/usr/bin/x", "/etc/y", "rel"])));
    twice_is_once(fix_buildarch_remove_noarch);
    twice_is_once(|s| add_empty_check_section(s, " why \n not "));
    twice_is_once(|s| add_empty_check_section(s, ""));
    twice_is_once(|s| update_summary(s, " What it is. "));
    twice_is_once(|s| update_version(s, "2.0"));
    twice_is_once(|s| update_description(s, " One.\nTwo. \n"));
    twice_is_once(|s| fix_buildoption_install(s, "-L"));
    twice_is_once(|s| fix_buildoption_install(s, "mod"));
    twice_is_once(ensure_buildarch_noarch);
    twice_is_once(ensure_versioned_python_provides);
    twice_is_once(ensure_autochangelog_macro);
    twice_is_once(|s| ensure_remote_asset(s, "#!RemoteAsset:  sha256:1"));
}

#[test]
fn fixes_take_hold() {
    for spec in SPECS {
        let required = add_buildrequires(spec, &texts(&["python3dist(q)"]));
        assert!(required.lines().any(|line| line == "BuildRequires:  python3dist(q)"));
        let excluded = add_buildoption_checks(spec, &texts(&["zz.*"]));
        assert!(excluded.lines().any(|line| line == "BuildOption(check):  -e \"zz.*\""));
        let listed = append_files_entries(spec, &texts(&["/usr/bin/zz"]));
        assert!(listed.lines().any(|line| line == "%{_bindir}/zz"));
        let checked = add_empty_check_section(spec, "");
        assert!(checked.lines().any(|line| line == "%check"));
        let arch = fix_buildarch_remove_noarch(spec);
        assert!(arch.lines().all(|line| !line.starts_with("BuildArch:")));
        let described = update_description(spec, "New one.");
        assert_eq!(described.contains("\nNew one.\n"), spec.contains("%description"));
    }
    let installed = fix_buildoption_install("BuildOption(install): -l a -x\n", "b");
    assert_eq!(installed, "BuildOption(install):  -l b -x\n");
    let both = fix_buildoption_install("BuildOption(install):\n\n-x\n", "-L");
    assert_eq!(both, "BuildOption(install):  -x -L\n");
}

#[test]
fn fixes_keep_the_other_lines() {
    for spec in SPECS {
        let fixed = [
            add_buildrequires(spec, &texts(&["q\n%files"])),
            add_buildoption_checks(spec, &texts(&["zz"])),
            add_empty_check_section(spec, "one\ntwo"),
            append_files_entries(spec, &texts(&["/usr/bin/zz", "/a\n%post"])),
        ];
        for text in fixed {
            let mut kept = text.lines().map(str::trim_end);
            for line in spec.lines().map(str::trim_end).filter(|line| !line.is_empty()) {
                assert!(kept.any(|k| k == line), "{line:?} {text:?}");
            }
        }
    }
}

#[test]
fn extras_put_in_twice_are_put_in_once() {
    for spec in SPECS {
        let once = add_extras_subpackages(spec, &texts(&["a", " ", "b"]));
        assert_eq!(add_extras_subpackages(&once, &texts(&["a", " ", "b"])), once);
    }
}

#[test]
fn requirements_are_added_once_whatever_their_versions() {
    let spec = "Name: a\nBuildRequires:  b >= 2\n\n%build\n\nx\n";
    let deps = texts(&["c = 1", "b", " ", "c", "d  <  3", "b < 4", "d"]);
    let out = add_buildrequires(spec, &deps);
    assert_eq!(
        out,
        "Name: a\nBuildRequires:  b >= 2\nBuildRequires:  c = 1\nBuildRequires:  d  <  3\n\n\
         %build\n\nx\n"
    );
    assert_eq!(add_buildrequires(&out, &deps), out);
    assert_eq!(add_buildrequires("Name: a  ", &texts(&["", " "])), "Name: a  ");
    assert_eq!(add_buildrequires("", &texts(&["q"])), "BuildRequires:  q\n");
}

#[test]
fn blank_lines_stay_in_order() {
    let spec = "Name: a\n\nSummary: s\n\n\n%files\n\n%changelog\n\ny\n\n";
    let normal = normalize_spec(spec);
    let fixed = [
        add_buildrequires(spec, &texts(&["q"])),
        add_buildoption_checks(spec, &texts(&["zz"])),
        add_empty_check_section(spec, ""),
        append_files_entries(spec, &texts(&["/usr/bin/zz"])),
        update_version(spec, "2"),
    ];
    for text in fixed {
        let mut kept = text.lines();
        for line in normal.lines() {
            assert!(kept.any(|k| k == line), "{line:?} {text:?}");
        }
    }
}

#[test]
fn the_last_edit_counts() {
    for spec in SPECS {
        let spec = &normalize_spec(spec);
        let first = update_description(spec, "One.\nTwo.");
        assert_eq!(update_description(&first, "Three."), update_description(spec, "Three."));
        let few = add_extras_subpackages(spec, &texts(&["a"]));
        let more = texts(&["c", " ", "b"]);
        assert_eq!(add_extras_subpackages(&few, &more), add_extras_subpackages(spec, &more));
        if !spec.lines().any(|line| line == "%description") {
            assert_eq!(&update_description(spec, "x"), spec);
        }
    }
}

#[test]
fn what_is_provided_is_named_once() {
    let named = |line: &str| {
        line.strip_prefix("Provides:").is_some_and(|r| r.trim_start().starts_with("python3-"))
            || line.starts_with("%python_provide python3-")
    };
    for spec in SPECS {
        let out = ensure_versioned_python_provides(spec);
        let lines: Vec<&str> = out.lines().collect();
        let at = lines.iter().position(|line| named(line)).unwrap();
        assert_eq!(lines[at], "Provides:       python3-%{srcname} = %{version}-%{release}");
        assert_eq!(lines[at + 1], "%python_provide python3-%{srcname}");
        assert_eq!(lines.iter().filter(|line| named(line)).count(), 2);
        let kept = |text: &str| {
            text.lines()
                .map(str::trim_end)
                .filter(|line| !named(line) && !line.is_empty())
                .map(str::to_string)
                .collect::<Vec<String>>()
        };
        assert_eq!(kept(&out), kept(spec));
    }
}

#[test]
fn tags_change_their_own_line() {
    let spec = "Name: a\nVersion: 1\nSummary: s\n%build\n";
    assert_eq!(update_version(spec, "2"), "Name: a\nVersion:        2\nSummary: s\n%build\n");
    assert_eq!(
        update_summary("Name: a\n%build\nx\n", "S"),
        "Name: a\nSummary:        S\n%build\nx\n"
    );
}

#[test]
fn a_trailing_zero_counts_nothing() {
    for version in ["1", "1.2rc", "", "2.0.0", "v3-"] {
        let longer = format!("{version}.0");
        assert_eq!(compare_python_versions(version, &longer), std::cmp::Ordering::Equal);
        assert_eq!(compare_python_versions(&longer, version), std::cmp::Ordering::Equal);
    }
}

#[test]
fn every_root_of_a_batch_has_a_result() {
    let mut batch = BuildScheduler::new("p".into(), "r".into(), "/srv".into());
    batch.add_roots(&[pypi("a"), pypi("b")]);
    let mut running: Vec<String> = Vec::new();
    let mut asked = false;
    loop {
        for request in batch.start_ready() {
            running.push(request.package);
        }
        match running.pop() {
            Some(package) if package == "python-a" && !asked => {
                asked = true;
                batch.on_outcome(package, needs("c"));
            }
            Some(package) if package == "python-c" => {
                batch.on_outcome(package, BuildOutcome::Failed("no".into()));
            }
            Some(package) => batch.on_outcome(package, BuildOutcome::Success { report: None }),
            None => {
                if batch.on_idle() {
                    break;
                }
            }
        }
    }
    let results = batch.into_results();
    for root in ["python-a", "python-b"] {
        assert!(results.iter().any(|result| result.package == root));
    }
    assert!(results
        .iter()
        .all(|result| !matches!(result.outcome, BuildOutcome::NeedsDependencies(_))));
}

#[test]
fn a_tag_is_read_back() {
    for spec in SPECS {
        assert_eq!(tag_value(&update_version(spec, " 3.1 "), "Version").as_deref(), Some("3.1"));
        assert_eq!(tag_value(&update_summary(spec, "S"), "Summary").as_deref(), Some("S"));
    }
}

#[test]
fn what_a_person_must_see_to_changes_nothing() {
    let issue = BuildIssue::TestFailure {
        important_lines: texts(&["FAILED"]),
    };
    let action = decide_action(&issue);
    assert!(action.is_need_human());
    for spec in SPECS {
        assert_eq!(apply_action(spec, &action).unwrap(), spec);
    }
}

#[test]
fn package_names_are_given_once() {
    assert_eq!(python_package_name("a"), "python-a");
    assert_eq!(python_package_name(&python_package_name("a")), "python-a");
}

#[test]
fn no_version_is_newer_than_itself() {
    let versions = ["", "1", "1.0", "1a", "1.0rc1", "2", "10", "x", "1..0", "99999999999999999999"];
    for a in versions {
        assert!(!is_newer_python_version(a, a));
        for b in versions {
            let there = compare_python_versions(a, b);
            assert_eq!(there.reverse(), compare_python_versions(b, a), "{a} {b}");
        }
    }
    assert!(is_newer_python_version("10", "9.9"));
    assert!(is_newer_python_version("1", "99999999999999999999"));
}

#[test]
fn escaped_texts_are_inert() {
    let escaped = xml_escape("<a href=\"x\">'&amp;'</a>");
    assert!(!escaped.contains(['<', '>', '"', '\'']));
    assert_eq!(xml_escape("&"), "&amp;");
}

#[test]
fn polls_slow_down_and_failure_outranks_success() {
    for poll in 0..40 {
        assert!(poll_delay_secs(poll) <= poll_delay_secs(poll + 1));
        assert!(poll_delay_secs(poll) <= 20);
    }
    assert!(matches!(
        classify_remote_build_status("succeeded\nfailed"),
        RemoteBuildState::Failed { headline } if headline == "succeeded"
    ));
}

#[test]
fn segments_and_entries_stay_where_they_are_put() {
    for s in ["", "../x", "a/b", "é", "a b;c", "ok-1._"] {
        let segment = sanitize_path_segment(s);
        assert!(!segment.is_empty() && !segment.contains('/'));
    }
    assert_eq!(sanitize_path_segment("ok-1._"), "ok-1._");
    assert!(is_safe_entry_path("a/..b/c"));
    assert!(!is_safe_entry_path("a/../b"));
    let names = texts(&["b.zip", "a.tar.gz", "a.tar.gz.asc", "c.tgz", "d.tar.xz", "e.tar.bz2"]);
    for name in find_source_archives(&names) {
        assert!(extract_archive(&name, &name).is_ok());
    }
    assert!(is_tar_gz("a.tgz") && is_tar_gz("a.tar.gz") && !is_tar_gz("a.tar.xz"));
    assert!(is_egg_info("a.egg-info") && !is_egg_info("a.egg-info.txt"));
}

#[test]
fn slots_are_exclusive() {
    let mut pool = LocalBuildPool::new("/b".into(), "r".into(), "a".into());
    let first = pool.acquire().unwrap();
    let second = pool.acquire().unwrap();
    assert_ne!(first.root(), second.root());
    pool.release(first.id());
    assert_eq!(pool.acquire().unwrap().root(), first.root());
}

#[test]
fn streams_are_kept_apart() {
    let mut output = CommandOutput::new();
    output.on_line(StreamLine {
        is_stderr: true,
        line: "e".into(),
    });
    assert_eq!(output.stdout, "");
    assert_eq!(output.stderr, "e\n");
}

#[test]
fn descriptions_and_excerpts_are_short() {
    let raw = format!("# title\n{}\n> q\n\n%description\n{}", "é".repeat(250), "w ".repeat(400));
    let description = format_spec_description(&raw);
    let lines: Vec<&str> = description.lines().collect();
    assert_eq!(lines.len(), 5);
    assert!(lines.iter().all(|line| (1..=100).contains(&line.chars().count())));
    assert_eq!(lines[0], "é".repeat(100));
    assert_eq!(excerpt_readme(&"x\n".repeat(5000)).chars().count(), 2500);
}

fn pypi(name: &str) -> BuildRequest {
    BuildRequest {
        package: format!("python-{name}"),
        features: vec![],
        source: PackageSource::Pypi {
            name: name.into(),
            version: None,
        },
    }
}

fn needs(package: &str) -> BuildOutcome {
    BuildOutcome::NeedsDependencies(vec![DependencyTarget {
        package: package.into(),
        features: vec!["f".into()],
    }])
}

fn names(v: &[BuildRequest]) -> Vec<&str> {
    v.iter().map(|request| request.package.as_str()).collect()
}

#[test]
fn packages_are_started_once_their_dependencies_are_built() {
    let mut batch = BuildScheduler::new("p".into(), "r".into(), "/srv".into());
    batch.add_roots(&[pypi("b"), pypi("a")]);
    assert_eq!(names(&batch.start_ready()), ["python-b", "python-a"]);
    assert!(batch.start_ready().is_empty());
    batch.on_outcome("python-a".into(), needs("c"));
    assert!(batch.node("python-a").unwrap().state.same_as(&NodeState::WaitingForDeps));
    let started = batch.start_ready();
    assert_eq!(names(&started), ["python-c"]);
    assert_eq!(started[0].features, ["f"]);
    batch.on_outcome("python-c".into(), BuildOutcome::Success { report: None });
    assert_eq!(names(&batch.start_ready()), ["python-a"]);
    batch.on_outcome("python-a".into(), BuildOutcome::Success { report: None });
    batch.on_outcome("python-b".into(), BuildOutcome::Failed("x".into()));
    assert!(batch.on_idle());
    let results = batch.into_results();
    let order: Vec<&str> = results.iter().map(|result| result.package.as_str()).collect();
    assert_eq!(order, ["python-c", "python-a", "python-b"]);
}

#[test]
fn cycles_and_failed_dependencies_end_a_batch() {
    let mut batch = BuildScheduler::new("p".into(), "r".into(), "/srv".into());
    batch.add_roots(&[pypi("a")]);
    batch.start_ready();
    batch.on_outcome("python-a".into(), needs("b"));
    assert_eq!(names(&batch.start_ready()), ["python-b"]);
    batch.on_outcome("python-b".into(), needs("a"));
    assert!(batch.start_ready().is_empty());
    assert!(!batch.on_idle());
    assert!(batch.start_ready().is_empty());
    assert!(batch.on_idle());
    let results = batch.into_results();
    let reasons: Vec<String> = results
        .iter()
        .map(|result| match &result.outcome {
            BuildOutcome::Failed(reason) => format!("{}: {reason}", result.package),
            other => panic!("{other:?}"),
        })
        .collect();
    assert_eq!(
        reasons,
        [
            "python-b: dependency cycle with python-a",
            "python-a: dependency build failed: python-b"
        ]
    );
}
