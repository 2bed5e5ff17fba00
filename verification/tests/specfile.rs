use packfix::specfile::{add_buildoption_checks, add_buildrequires, add_empty_check_section, add_extras_subpackages, append_files_entries, declared_package_name, ensure_autochangelog_macro, ensure_buildarch_noarch, ensure_remote_asset, ensure_versioned_python_provides, fix_buildarch_remove_noarch, fix_buildoption_install, update_description, update_version};

#[test]
fn add_buildoption_check_merge() {
    let spec = "Name: foo\nBuildOption(check):  -e \"foo.tests.*\"\n%description\nx\n";
    let once = add_buildoption_checks(spec, &[String::from("lmformatenforcer.integrations.*")]);
    let twice =
        add_buildoption_checks(&once, &[String::from("lmformatenforcer.integrations.*")]);
    assert!(twice.contains("BuildOption(check):  -e \"foo.tests.*\""));
    assert!(twice.contains("BuildOption(check):  -e \"lmformatenforcer.integrations.*\""));
    assert_eq!(twice.matches("lmformatenforcer.integrations.*").count(), 1);
}

#[test]
fn add_buildrequires_idempotent() {
    let spec = "Name: foo\nBuildRequires:  python3dist(pytest)\n%description\nx\n";
    let out = add_buildrequires(spec, &[String::from("python3dist(pytest)")]);
    assert_eq!(out.matches("python3dist(pytest)").count(), 1);
}

#[test]
fn append_files_entries_idempotent() {
    let spec = "Name: foo\n%files -f %{pyproject_files}\n%changelog\n";
    let once = append_files_entries(spec, &[String::from("/usr/bin/foo")]);
    let twice = append_files_entries(&once, &[String::from("/usr/bin/foo")]);
    assert_eq!(twice.matches("%{_bindir}/foo").count(), 1);
}

#[test]
fn fix_buildoption_install_l_idempotent() {
    let spec = "BuildOption(install):  -l foo\n%description\nx\n";
    let once = fix_buildoption_install(spec, "-L");
    let twice = fix_buildoption_install(&once, "-L");
    assert_eq!(twice.matches("-L").count(), 1);
}

#[test]
fn add_buildrequires_with_version_constraint_idempotent() {
    let spec = "Name: foo\nBuildRequires:  python3dist(pytest) >= 7\n%description\nx\n";
    let out = add_buildrequires(spec, &[String::from("python3dist(pytest)")]);
    assert_eq!(out.matches("python3dist(pytest)").count(), 1);
}

#[test]
fn append_files_entries_ignores_relative_paths() {
    let spec = "Name: foo\n%files -f %{pyproject_files}\n%changelog\n";
    let out = append_files_entries(spec, &[String::from("relative/path")]);
    assert!(!out.contains("relative/path"));
}

#[test]
fn append_files_entries_maps_common_paths() {
    let spec = "Name: foo\n%files -f %{pyproject_files}\n%changelog\n";
    let out = append_files_entries(
        spec,
        &[
            String::from("/usr/bin/foo"),
            String::from("/usr/sbin/fooctl"),
            String::from("/usr/libexec/food"),
            String::from("/usr/include/foo.h"),
            String::from("/etc/foo.conf"),
        ],
    );
    assert!(out.contains("%{_bindir}/foo"));
    assert!(out.contains("%{_sbindir}/fooctl"));
    assert!(out.contains("%{_libexecdir}/food"));
    assert!(out.contains("%{_includedir}/foo.h"));
    assert!(out.contains("%{_sysconfdir}/foo.conf"));
}

#[test]
fn add_buildoption_check_merge_multiple_existing_exclusions() {
    let spec = "Name: foo\nBuildOption(check):  -e \"foo.tests.*\"\nBuildOption(check):  -e \"bar.bench.*\"\n%description\nx\n";
    let out = add_buildoption_checks(spec, &[String::from("lmformatenforcer.integrations.*")]);
    assert!(out.contains("BuildOption(check):  -e \"foo.tests.*\""));
    assert!(out.contains("BuildOption(check):  -e \"bar.bench.*\""));
    assert!(out.contains("BuildOption(check):  -e \"lmformatenforcer.integrations.*\""));
}

#[test]
fn add_buildoption_check_idempotent() {
    let spec = "Name: foo\nBuildOption(check):  -e \"foo.tests.*\"\n%description\nx\n";
    let once = add_buildoption_checks(spec, &[String::from("foo.tests.*")]);
    let twice = add_buildoption_checks(&once, &[String::from("foo.tests.*")]);
    assert_eq!(twice.matches("foo.tests.*").count(), 1);
}

#[test]
fn add_buildoption_check_adds_one_line_per_exclusion() {
    let spec = "Name: foo\nBuildOption(install):  -l foo\n%description\nx\n";
    let out = add_buildoption_checks(
        spec,
        &[
            String::from("redis.asyncio.multidb.*"),
            String::from("redis.multidb.*"),
        ],
    );
    assert!(out.contains("BuildOption(check):  -e \"redis.asyncio.multidb.*\""));
    assert!(out.contains("BuildOption(check):  -e \"redis.multidb.*\""));
    assert_eq!(out.matches("BuildOption(check):").count(), 2);
}

#[test]
fn add_buildoption_check_skips_when_existing_pattern_is_broader() {
    let spec = "Name: foo\nBuildOption(check):  -e \"redis.multidb.*\"\n%description\nx\n";
    let out = add_buildoption_checks(spec, &[String::from("redis.multidb.client.*")]);
    assert_eq!(out.matches("BuildOption(check):").count(), 1);
    assert!(!out.contains("redis.multidb.client.*"));
}

#[test]
fn fix_buildoption_install_no_line_no_panic() {
    let spec = "Name: foo\n%description\nx\n";
    let out = fix_buildoption_install(spec, "-L");
    assert_eq!(out, spec);
}

#[test]
fn fix_buildoption_install_replace_l_arg_preserve_other_args() {
    let spec = "BuildOption(install):  -l wrong_module --long-flag -L\n%description\nx\n";
    let out = fix_buildoption_install(spec, "correct_module");
    assert!(out.contains("-l correct_module"));
    assert!(out.contains("--long-flag"));
    assert!(out.contains("-L"));
    assert!(!out.contains("wrong_module"));
}

#[test]
fn fix_buildarch_remove_noarch_removes_buildarch() {
    let spec = "Name: foo\nBuildArch: noarch\n%description\nx\n";
    let out = fix_buildarch_remove_noarch(spec);
    assert!(!out.contains("BuildArch: noarch"));
}

#[test]
fn fix_buildarch_remove_noarch_adds_arch_provides() {
    let spec = "Name: foo\n%description\nx\n";
    let out = fix_buildarch_remove_noarch(spec);
    assert!(out.contains("Provides:       python3-%{srcname} = %{version}-%{release}"));
    assert!(out.contains("Provides:       python3-%{srcname}%{?_isa} = %{version}-%{release}"));
    assert!(out.contains("%python_provide python3-%{srcname}"));
}

#[test]
fn fix_buildarch_remove_noarch_idempotent() {
    let spec = "Name: foo\nBuildArch: noarch\n%description\nx\n";
    let once = fix_buildarch_remove_noarch(spec);
    let twice = fix_buildarch_remove_noarch(&once);
    assert_eq!(
        twice.matches("Provides:       python3-%{srcname}").count(),
        2
    );
    assert!(!twice.contains("BuildArch: noarch"));
}

#[test]
fn ensure_versioned_python_provides_replaces_unversioned_pair() {
    let spec = "Name: foo\nProvides:       python3-%{srcname}\n%python_provide python3-%{srcname}\nBuildRequires:  python3dist(setuptools)\n";
    let out = ensure_versioned_python_provides(spec);
    assert!(out.contains("Provides:       python3-%{srcname} = %{version}-%{release}"));
    assert!(!out.contains("Provides:       python3-%{srcname}\n%python_provide"));
    assert_eq!(out.matches("%python_provide python3-%{srcname}").count(), 1);
}

#[test]
fn ensure_versioned_python_provides_preserves_original_position() {
    let spec = "Name: foo\nBuildArch:      noarch\nProvides:       python3-%{srcname}\n%python_provide python3-%{srcname}\nBuildSystem:    pyproject\n";
    let out = ensure_versioned_python_provides(spec);
    assert!(out.contains(
        "BuildArch:      noarch\nProvides:       python3-%{srcname} = %{version}-%{release}\n%python_provide python3-%{srcname}\nBuildSystem:    pyproject"
    ));
}

#[test]
fn ensure_versioned_python_provides_replaces_literal_package_name() {
    let spec = "Name: python-socks\nProvides:       python3-socks\nBuildRequires:  python3dist(setuptools)\n";
    let out = ensure_versioned_python_provides(spec);
    assert!(out.contains("Provides:       python3-%{srcname} = %{version}-%{release}"));
    assert!(out.contains("%python_provide python3-%{srcname}"));
    assert!(!out.contains("Provides:       python3-socks\n"));
}

#[test]
fn ensure_versioned_python_provides_replaces_literal_pair() {
    let spec = "Name: python-socks\nProvides:       python3-socks\n%python_provide python3-socks\nBuildRequires:  python3dist(setuptools)\n";
    let out = ensure_versioned_python_provides(spec);
    assert!(out.contains("Provides:       python3-%{srcname} = %{version}-%{release}"));
    assert_eq!(out.matches("%python_provide python3-%{srcname}").count(), 1);
    assert!(!out.contains("python3-socks"));
}

#[test]
fn ensure_versioned_python_provides_skips_already_versioned_literal() {
    let spec = "Name: python-socks\nProvides:       python3-socks = %{version}-%{release}\nBuildRequires:  python3dist(setuptools)\n";
    let out = ensure_versioned_python_provides(spec);
    assert!(out.contains("Provides:       python3-%{srcname} = %{version}-%{release}"));
    assert!(!out.contains("python3-socks"));
}

#[test]
fn ensure_versioned_python_provides_preserves_literal_position() {
    // Simulates the real python-socks spec: provides at the bottom, after BuildRequires
    let spec = "\
Name:           python-socks
Version:        2.8.0
BuildArch:      noarch
BuildSystem:    pyproject
BuildRequires:  pyproject-rpm-macros
BuildRequires:  python3dist(setuptools)

Provides:       python3-socks
%python_provide python3-socks
";
    let out = ensure_versioned_python_provides(spec);
    // Provides should be replaced with macro form
    assert!(out.contains("Provides:       python3-%{srcname} = %{version}-%{release}"));
    assert_eq!(out.matches("%python_provide python3-%{srcname}").count(), 1);
    assert!(!out.contains("python3-socks"));
    // Position must be preserved: after BuildRequires, not before BuildSystem
    let provides_pos = out.find("Provides:").unwrap();
    let buildreq_pos = out.find("BuildRequires:  pyproject").unwrap();
    let buildsys_pos = out.find("BuildSystem:").unwrap();
    assert!(
        provides_pos > buildreq_pos,
        "Provides should be after BuildRequires, not before it"
    );
    assert!(
        provides_pos > buildsys_pos,
        "Provides should be after BuildSystem, not before it"
    );
}

#[test]
fn ensure_buildarch_noarch_inserts_missing_tag() {
    let spec = "Name: foo\nBuildSystem:    pyproject\n";
    let out = ensure_buildarch_noarch(spec);
    assert!(out.contains("BuildArch:      noarch"));
}

#[test]
fn ensure_remote_asset_replaces_or_inserts_line() {
    let spec = "Name: foo\n#!RemoteAsset\nSource0:        https://files.pythonhosted.org/packages/source/f/foo/foo-1.0.tar.gz\n";
    let out = ensure_remote_asset(spec, "#!RemoteAsset:  sha256:abc123");
    assert!(out.contains("#!RemoteAsset:  sha256:abc123"));

    let inserted = ensure_remote_asset(
        "Name: foo\nSource0:        https://files.pythonhosted.org/packages/source/f/foo/foo-1.0.tar.gz\n",
        "#!RemoteAsset:  sha256:def456",
    );
    assert!(inserted.contains("#!RemoteAsset:  sha256:def456"));
}

#[test]
fn update_version_replaces_existing_value() {
    let spec = "Name: foo\nVersion:        1.0.0\n";
    let out = update_version(spec, "1.2.3");
    assert!(out.contains("Version:        1.2.3"));
}

#[test]
fn ensure_autochangelog_macro_replaces_conditional_form() {
    let spec = "%changelog\n%{?autochangelog}\n";
    let out = ensure_autochangelog_macro(spec);
    assert!(out.contains("%changelog\n%autochangelog\n"));
    assert!(!out.contains("%{?autochangelog}"));
}

#[test]
fn add_empty_check_section_inserts_before_files() {
    let spec =
        "%generate_buildrequires\n%pyproject_buildrequires\n\n%files -f %{pyproject_files}\n";
    let out = add_empty_check_section(
        spec,
        "No importable runtime modules for default import check.",
    );
    assert!(out.contains(
        "%generate_buildrequires\n%pyproject_buildrequires\n\n%check\n# No importable runtime modules for default import check.\n\n%files -f %{pyproject_files}\n"
    ));
}

#[test]
fn add_empty_check_section_keeps_existing_check() {
    let spec = "%check\n# existing\n\n%files -f %{pyproject_files}\n";
    let out = add_empty_check_section(spec, "ignored");
    assert_eq!(out, spec);
}

#[test]
fn add_extras_subpackages_preserves_description_body_and_surrounding_blank_lines() {
    let spec = "Name: python-fonttools\n%description\nFontTools body line 1\nFontTools body line 2\n\n%prep\n";
    let out = add_extras_subpackages(spec, &["lxml".into(), "unicode".into()]);
    assert!(out.contains("%description\nFontTools body line 1\nFontTools body line 2\n\n%pyproject_extras_subpkg -n python-%{srcname} lxml\n%pyproject_extras_subpkg -n python-%{srcname} unicode\n\n%prep"));
}

#[test]
fn declared_package_name_ignores_macro_expansion_names() {
    assert_eq!(
        declared_package_name("Name: python-demo\n"),
        Some("python-demo".into())
    );
    assert_eq!(declared_package_name("Name: python-%{srcname}\n"), None);
}

#[test]
fn update_description_replaces_content() {
    let before = "Name: foo\n%description\nOld description text\n\n%prep\n";
    let new_desc = "New concise description.";
    let after = update_description(before, new_desc);
    assert!(after.contains("New concise description."));
    assert!(!after.contains("Old description text"));
    // The blank line between description body and next section is preserved.
    assert!(after.contains("\n\n%prep"));
}

#[test]
fn update_description_empty_clears_body_but_keeps_tag() {
    let before = "Name: foo\n%description\nOld description text\n%prep\n";
    let after = update_description(before, "");
    assert!(after.contains("%description"));
    assert!(!after.contains("Old description text"));
}

#[test]
fn update_description_no_section_returns_unchanged() {
    let before = "Name: foo\n%prep\n";
    let after = update_description(before, "New desc");
    assert_eq!(after, before);
}
