use packfix::extract::{
    archive_stem, entry_target, extract_archive, extracted_operation, failed_operation, find_source_archives,
    is_safe_entry_path, pick_best_archive, skipped_operation, state_path, timestamp_now,
    try_extract, ArchiveFormat, ExtractStatus, PackfixState,
};

#[test]
fn finds_tar_gz_archive() {
    let archives = find_source_archives(&["foo-1.0.tar.gz".to_string()]);
    assert_eq!(archives.len(), 1);
    assert!(archives[0].ends_with("foo-1.0.tar.gz"));
}

#[test]
fn ignores_patch_and_sig_files() {
    let names: Vec<String> = ["x.patch", "x.asc", "x.sig", "x.src.rpm"]
        .iter()
        .map(|s| s.to_string())
        .collect();
    assert!(find_source_archives(&names).is_empty());
}

#[test]
fn archive_stem_strips_extensions() {
    assert_eq!(archive_stem("foo-1.0.tar.gz"), "foo-1.0");
    assert_eq!(archive_stem("bar-2.0.tar.xz"), "bar-2.0");
    assert_eq!(archive_stem("baz-3.0.tar.bz2"), "baz-3.0");
    assert_eq!(archive_stem("qux.zip"), "qux");
    assert_eq!(archive_stem("x.tgz"), "x");
}

#[test]
fn picks_tar_gz_over_zip_regardless_of_size() {
    let names = ["small.zip".to_string(), "pkg-1.0.tar.gz".to_string()];
    let tar_size = 150;

    let best = pick_best_archive(&names, &[tar_size * 2, tar_size]);
    // tar.gz should win over zip due to format preference, even though zip is larger
    assert_eq!(names[best], "pkg-1.0.tar.gz");
}

#[test]
fn is_safe_entry_path_rejects_traversal() {
    assert!(!is_safe_entry_path("../evil"));
    assert!(!is_safe_entry_path("foo/../../etc/passwd"));
    assert!(!is_safe_entry_path("/etc/passwd"));
    assert!(is_safe_entry_path("foo/bar/baz.txt"));
    assert!(is_safe_entry_path("pkg-1.0/src/lib.rs"));
}

#[test]
fn is_safe_entry_path_rejects_windows_absolute() {
    assert!(!is_safe_entry_path("C:\\Windows\\evil.exe"));
}

#[test]
fn no_archives_returns_skipped_no_error() {
    let result = try_extract("/w", "/w", &[], &[]);
    assert!(result.is_ok());
    assert!(result.unwrap().is_none());
    let state = PackfixState::new(None);
    assert!(matches!(state.extract_status, ExtractStatus::Skipped));
}

#[test]
fn state_written_to_state_root_not_source_dir() {
    let plan = try_extract("/source", "/state", &["foo-1.0.tar.gz".to_string()], &[10])
        .unwrap()
        .unwrap();
    assert_eq!(state_path("/state"), "/state/.packfix/state.json");
    assert_eq!(plan.extract_dir, "/state/.packfix/source-extract/foo-1.0");
    assert_eq!(plan.archive, "/source/foo-1.0.tar.gz");
    assert_eq!(plan.format, ArchiveFormat::TarGz);
}

#[test]
fn the_largest_tar_is_picked_the_last_of_equals() {
    let names: Vec<String> = ["a.tar.xz", "b.tgz", "c.tar.bz2"].iter().map(|s| s.to_string()).collect();
    assert_eq!(pick_best_archive(&names, &[1, 5, 3]), 1);
    assert_eq!(pick_best_archive(&names, &[5, 5, 3]), 1);
    assert_eq!(pick_best_archive(&names, &[0, 0, 0]), 2);
    let mixed: Vec<String> = ["z.zip", "b.tar.gz", "a.tar.gz", "b.tar.gz.asc"].iter().map(|s| s.to_string()).collect();
    assert_eq!(find_source_archives(&mixed), vec!["a.tar.gz", "b.tar.gz", "z.zip"]);
}

#[test]
fn without_a_tar_the_largest_zip_is_picked() {
    let names: Vec<String> = ["a.zip", "b.zip", "c.zip"].iter().map(|s| s.to_string()).collect();
    assert_eq!(pick_best_archive(&names, &[1, 5, 3]), 1);
    assert_eq!(pick_best_archive(&names, &[5, 1, 5]), 2);
}

#[test]
fn unsafe_entries_are_left_out() {
    assert_eq!(entry_target("/d", "a/b").as_deref(), Some("/d/a/b"));
    assert_eq!(entry_target("/d", "a/../b"), None);
    assert_eq!(entry_target("/d", "/etc/x"), None);
}

#[test]
fn formats_go_by_the_ending() {
    assert_eq!(extract_archive("a.tgz", "/p"), Ok(ArchiveFormat::TarGz));
    assert_eq!(extract_archive("a.tar.bz2", "/p"), Ok(ArchiveFormat::TarBz2));
    assert_eq!(extract_archive("a.tar.xz", "/p"), Ok(ArchiveFormat::TarXz));
    assert_eq!(extract_archive("a.zip", "/p"), Ok(ArchiveFormat::Zip));
    assert_eq!(
        extract_archive("a.rar", "/p/a.rar"),
        Err("unknown archive format: /p/a.rar".to_string())
    );
    assert_eq!(
        try_extract("/p", "/s", &["a.rar".to_string()], &[1]).unwrap_err(),
        "unknown archive format: /p/a.rar"
    );
}

#[test]
fn safe_entries_have_no_way_up() {
    assert!(!is_safe_entry_path(".."));
    assert!(!is_safe_entry_path("a/..\\b"));
    assert!(is_safe_entry_path("a/..b"));
    assert!(is_safe_entry_path("C:x"));
    assert!(is_safe_entry_path(""));
}

#[test]
fn extraction_is_logged_and_remembered() {
    let plan = try_extract("/w", "/s", &["a.zip".to_string()], &[1]).unwrap().unwrap();
    let state = PackfixState::extracted(&plan, Some((7, 5)));
    assert_eq!(state.extract_status, ExtractStatus::Extracted);
    assert_eq!(state.source_extract_dir.as_deref(), Some("/s/.packfix/source-extract/a"));
    assert_eq!(state.updated_at, "7.005Z");
    assert_eq!(timestamp_now(None), "unknown");
    let failed = PackfixState::failed("no space", None);
    assert_eq!(failed.extract_status, ExtractStatus::Failed("no space".into()));
    assert_eq!(failed.source_archive, None);
    assert_eq!(failed.source_extract_dir, None);
    assert_eq!(failed.updated_at, "unknown");
    assert_eq!(
        extracted_operation("/w", &plan).lines,
        vec![
            "SOURCE_DIR: /w",
            "ARCHIVE: /w/a.zip",
            "EXTRACT_DIR: /s/.packfix/source-extract/a",
            "STATUS: extracted",
        ]
    );
    assert_eq!(skipped_operation().lines, vec!["STATUS: skipped (no source archive found)"]);
    assert_eq!(failed_operation("e").lines, vec!["STATUS: failed", "ERROR: e"]);
}
