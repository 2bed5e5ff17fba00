use packfix::describe::{
    build_json_context, build_user_prompt, clean_toml_value, collect_core_modules,
    collect_description_input, description_prompt, excerpt_readme, format_spec_description,
    is_badge_line, is_searched_path, normalize_ollama_host, parse_email_metadata, parse_pyproject_toml,
    parse_setup_cfg, plain_host, PackageMetadata, SourceDir, SourceFiles, TopLevelFiles,
    README_EXCERPT_MAX, SOURCE_MAX,
};

fn no_files() -> TopLevelFiles {
    TopLevelFiles {
        pkg_info: None,
        metadata: None,
        pyproject_toml: None,
        setup_cfg: None,
        setup_py: None,
        readme_md: None,
        readme_rst: None,
        readme_txt: None,
        readme: None,
    }
}

fn package_dir(path: &[&str]) -> SourceDir {
    SourceDir {
        path: path.iter().map(|s| s.to_string()).collect(),
        is_package: true,
    }
}

#[test]
fn parses_pkg_info_metadata() {
    let mut files = no_files();
    files.pkg_info = Some("Name: fonttools\nVersion: 4.62.1\nSummary: Tools for fonts\nHome-page: https://github.com/fonttools\nAuthor: Behdad Esfahbod\nRequires-Dist: lxml\n".into());

    let input = collect_description_input(&files, &[]);
    let m = &input.metadata;
    assert_eq!(m.name.as_deref(), Some("fonttools"));
    assert_eq!(m.version.as_deref(), Some("4.62.1"));
    assert_eq!(m.summary.as_deref(), Some("Tools for fonts"));
    assert_eq!(m.home_page.as_deref(), Some("https://github.com/fonttools"));
    assert_eq!(m.author.as_deref(), Some("Behdad Esfahbod"));
    assert!(m.requires_dist.contains(&"lxml".to_string()));
}

#[test]
fn parses_pyproject_toml() {
    let mut files = no_files();
    files.pyproject_toml =
        Some("[project]\nname = \"mypy\"\ndescription = \"A type checker\"\n".into());

    let input = collect_description_input(&files, &[]);
    assert_eq!(input.metadata.name.as_deref(), Some("mypy"));
    assert_eq!(input.metadata.summary.as_deref(), Some("A type checker"));
    assert!(input.sources.pyproject_toml.is_some());
}

#[test]
fn parses_setup_cfg() {
    let mut files = no_files();
    files.setup_cfg = Some("[metadata]\nname = numpy\ndescription = Array processing\n".into());

    let input = collect_description_input(&files, &[]);
    assert_eq!(input.metadata.name.as_deref(), Some("numpy"));
    assert_eq!(input.metadata.summary.as_deref(), Some("Array processing"));
    assert!(input.sources.setup_cfg.is_some());
}

#[test]
fn readme_excerpt_skips_badges() {
    let mut files = no_files();
    files.readme_md = Some("![build](https://github.com/fonttools/actions/workflows/ci.yml/badge.svg)\n[![Coverage](https://codecov.io/gh/fonttools/fonttools/branch/main/graph/badge.svg)](https://codecov.io)\n\n# FontTools\n\nFontTools is a library for manipulating fonts.\n".into());

    let input = collect_description_input(&files, &[]);
    assert!(!input.readme_excerpt.contains("badge.svg"));
    assert!(!input.readme_excerpt.contains("codecov.io"));
    assert!(input.readme_excerpt.contains("FontTools"));
}

#[test]
fn readme_excerpt_capped_at_2500() {
    let mut files = no_files();
    files.readme_md = Some("x".repeat(3000));

    let input = collect_description_input(&files, &[]);
    assert!(input.readme_excerpt.chars().count() <= README_EXCERPT_MAX);
}

#[test]
fn collects_core_modules() {
    let modules = collect_core_modules(&[
        package_dir(&["fonttools"]),
        package_dir(&["fonttools", "ttLib"]),
    ]);
    assert!(modules.contains(&"fonttools".to_string()));
    assert!(modules.contains(&"fonttools.ttLib".to_string()));
    assert!(!modules.contains(&"fonttools.merge".to_string()));
}

#[test]
fn skips_test_modules() {
    let modules = collect_core_modules(&[
        package_dir(&["mypackage"]),
        package_dir(&["tests"]),
        package_dir(&["mypackage", "tests"]),
    ]);
    assert!(modules.contains(&"mypackage".to_string()));
    assert!(!modules.iter().any(|m| m.contains("test")));
}

#[test]
fn modules_are_looked_for_three_names_deep() {
    let path = |names: &[&str]| names.iter().map(|s| s.to_string()).collect::<Vec<String>>();
    assert!(is_searched_path(&path(&[])));
    assert!(is_searched_path(&path(&["a", "b"])));
    assert!(!is_searched_path(&path(&["a", "b", "c"])));
    assert!(!is_searched_path(&path(&["build"])));
    assert!(!is_searched_path(&path(&["a", "_b"])));
    let modules = collect_core_modules(&[
        package_dir(&["b", "c", "d"]),
        package_dir(&["b", "c", "d", "e"]),
        package_dir(&["build", "x"]),
        package_dir(&["build"]),
        package_dir(&["a"]),
        package_dir(&["a"]),
    ]);
    assert_eq!(modules, ["a", "b.c.d", "build"]);
}

#[test]
fn format_spec_description_wraps_long_lines() {
    let raw = "FontTools is a comprehensive library for manipulating fonts, providing both high-level and low-level APIs for various font formats and operations.\n";
    let formatted = format_spec_description(raw);
    for line in formatted.lines() {
        assert!(line.len() <= 100, "line too long: {line}");
    }
}

#[test]
fn format_spec_description_truncates_to_5_lines() {
    let raw = "Line 1\nLine 2\nLine 3\nLine 4\nLine 5\nLine 6\nLine 7\n";
    let formatted = format_spec_description(raw);
    assert_eq!(formatted.lines().count(), 5);
}

#[test]
fn format_spec_description_strips_markdown() {
    let raw = "# Heading\n> quote\n```\ncode\n```\nActual description here.\n";
    let formatted = format_spec_description(raw);
    assert!(!formatted.contains('#'));
    assert!(!formatted.contains('>'));
    assert!(!formatted.contains("```"));
    assert!(formatted.contains("Actual description here"));
}

#[test]
fn build_json_context_caps_at_max() {
    let json = format!("{{\"metadata\":{{\"name\":\"test\",\"summary\":\"{}\"}}}}", "x".repeat(5000));
    let ctx = build_json_context(&json, 200);
    assert!(ctx.chars().count() <= 200);
    assert_eq!(build_json_context("{}", 200), "{}");
}

#[test]
fn normalize_ollama_host_strips_api_paths() {
    assert_eq!(
        normalize_ollama_host("http://100.65.29.50/api/chat"),
        "http://100.65.29.50"
    );
    assert_eq!(
        normalize_ollama_host("http://100.65.29.50/api/generate"),
        "http://100.65.29.50"
    );
}

#[test]
fn normalize_ollama_host_preserves_base_url() {
    assert_eq!(
        normalize_ollama_host("http://100.65.29.50"),
        "http://100.65.29.50"
    );
    assert_eq!(normalize_ollama_host("100.65.29.50"), "100.65.29.50");
}

#[test]
fn normalize_ollama_host_strips_trailing_slash() {
    assert_eq!(
        normalize_ollama_host("http://100.65.29.50/api/chat/"),
        "http://100.65.29.50"
    );
}

#[test]
fn build_user_prompt_substitutes_context() {
    let template = "Task: {context}\n";
    let filled = build_user_prompt(template, r#"{"name":"test"}"#);
    assert!(filled.contains(r#"{"name":"test"}"#));
    assert!(!filled.contains("{context}"));
}

#[test]
fn metadata_prefers_the_packages_own_words() {
    let mut m = PackageMetadata::default();
    parse_email_metadata("NAME : a\nAuthor: x\nAuthor-email: y\nUrl: u\nName: b\nVersion:\n", &mut m);
    assert_eq!(m.name.as_deref(), Some("b"));
    assert_eq!(m.author.as_deref(), Some("x"));
    assert_eq!(m.home_page.as_deref(), Some("u"));
    assert_eq!(m.version, None);
    parse_pyproject_toml("version = 0\n[project]\nname='c'\nversion = ' 2 '\n[tool]\nversion = 3\n", &mut m);
    assert_eq!(m.name.as_deref(), Some("b"));
    assert_eq!(m.version.as_deref(), Some("2"));
    parse_setup_cfg("[metadata]\nlong_description = \"L\"\ndescription='S'\n", &mut m);
    assert_eq!(m.description.as_deref(), Some("L"));
    assert_eq!(m.summary.as_deref(), Some("S"));
    assert_eq!(clean_toml_value("\" 'x' \""), "'x'");
}

#[test]
fn badges_are_recognised() {
    assert!(is_badge_line("![b](u)"));
    assert!(is_badge_line("[![b](u)](v) text"));
    assert!(is_badge_line("see codecov.io/x.svg"));
    assert!(!is_badge_line("![b](u) and text"));
    assert!(!is_badge_line(""));
    assert_eq!(excerpt_readme("a\n![b](u)\nc"), "a\nc\n");
}

#[test]
fn modules_are_sought_three_names_deep() {
    let modules = collect_core_modules(&[
        package_dir(&["build"]),
        package_dir(&["build", "lib"]),
        package_dir(&["_private"]),
        package_dir(&["a", "b", "c"]),
        package_dir(&["a", "b", "c", "d"]),
        package_dir(&["docs"]),
        SourceDir {
            path: vec!["plain".to_string()],
            is_package: false,
        },
    ]);
    assert_eq!(modules, vec!["a.b.c", "build"]);
}

#[test]
fn readme_and_sources_are_chosen_by_name() {
    let mut files = no_files();
    files.readme = Some("last".into());
    files.readme_rst = Some("first".into());
    files.setup_py = Some("y".repeat(4000));
    files.metadata = Some("Name: n\n".into());
    let input = collect_description_input(&files, &[]);
    assert_eq!(input.readme_excerpt, "first\n");
    assert_eq!(input.sources.setup_py.unwrap().len(), SOURCE_MAX);
    assert_eq!(input.metadata.name.as_deref(), Some("n"));
    assert!(SourceFiles::default().setup_cfg.is_none());
}

#[test]
fn prompt_needs_something_to_tell() {
    assert_eq!(description_prompt("{}", 100, "T {context}"), None);
    assert_eq!(description_prompt("   ", 100, "T {context}"), None);
    assert_eq!(
        description_prompt("{\"a\":1}", 4, "T {context}!").as_deref(),
        Some("T {\"a\"!")
    );
}

#[test]
fn hosts_lose_their_scheme() {
    assert_eq!(plain_host("http://localhost"), "localhost");
    assert_eq!(plain_host("https://x"), "x");
    assert_eq!(plain_host("y"), "y");
}

#[test]
fn long_lines_break_at_a_late_space() {
    let early = format!("ab {}", "c".repeat(120));
    let formatted = format_spec_description(&early);
    let lines: Vec<&str> = formatted.lines().collect();
    assert_eq!(lines[0].len(), 100);
    assert_eq!(lines[1].len(), 23);
    let late = format!("{} {}", "a".repeat(60), "b".repeat(60));
    assert_eq!(format_spec_description(&late), format!("{}\n{}", "a".repeat(60), "b".repeat(60)));
    let wide = "\u{e9}".repeat(150);
    let formatted = format_spec_description(&wide);
    let lengths: Vec<usize> = formatted.lines().map(|l| l.chars().count()).collect();
    assert_eq!(lengths, vec![100, 50]);
    assert_eq!(format_spec_description("x %description y\n\n"), "");
}
