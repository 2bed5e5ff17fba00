use packfix::resources::{LocalBuildPool, MAX_LOCAL_BUILD_SLOTS};

#[test]
fn pool_allocates_up_to_max_slots() {
    let mut pool = LocalBuildPool::new("/base".into(), "x64".into(), "x86_64".into());

    let mut slots = Vec::new();
    for i in 0..MAX_LOCAL_BUILD_SLOTS {
        let slot = pool.acquire().expect("acquire slot");
        assert_eq!(slot.root(), format!("/base/packfix-{}-x64-x86_64", i + 1));
        slots.push(slot);
    }

    // All 5 slots are held; there is none left.
    assert!(pool.acquire().is_none());

    // Release one slot: now acquire should succeed.
    pool.release(slots.pop().unwrap().id());
    let slot = pool.acquire().expect("acquire after release");
    assert!(slot.root().contains("packfix-5"));
}

#[test]
fn slot_reuse_after_drop() {
    let mut pool = LocalBuildPool::new("/base".into(), "x64".into(), "x86_64".into());

    let slot1 = pool.acquire().expect("first acquire");
    let root1 = slot1.root().to_string();
    pool.release(slot1.id());

    let slot2 = pool.acquire().expect("second acquire");
    assert_eq!(slot2.root(), root1, "freed slot should be reused");
}

#[test]
fn root_naming_includes_packfix_n_repo_arch() {
    let mut pool = LocalBuildPool::new("/base".into(), "standard".into(), "x86_64".into());

    let slot = pool.acquire().expect("acquire slot");
    assert_eq!(slot.root(), "/base/packfix-1-standard-x86_64");
}

#[test]
fn sanitize_replaces_slash_with_underscore() {
    let pool = LocalBuildPool::new("/tmp/build".into(), "x86_64/v2".into(), "x86_64".into());
    assert!(!pool.repository.contains('/'));
    assert_eq!(pool.repository, "x86_64_v2");
}

#[test]
fn sanitize_replaces_semicolon_with_underscore() {
    let pool = LocalBuildPool::new("/tmp/build".into(), "x64".into(), "aarch64;id=foo".into());
    assert!(!pool.arch.contains(';'));
    assert_eq!(pool.arch, "aarch64_id_foo");
}

#[test]
fn sanitize_empty_string_returns_unknown() {
    let pool = LocalBuildPool::new("/tmp/build".into(), "".into(), "x86_64".into());
    assert_eq!(pool.repository, "unknown");
}

#[test]
fn sanitize_all_special_chars_becomes_underscores() {
    let pool = LocalBuildPool::new("/tmp/build".into(), "///".into(), "x86_64".into());
    assert_eq!(pool.repository, "___");
}

#[test]
fn sanitize_preserves_alphanumeric_dot_dash_underscore() {
    let pool = LocalBuildPool::new(
        "/tmp/build".into(),
        "repo_test-1.0".into(),
        "arch_v2".into(),
    );
    assert_eq!(pool.repository, "repo_test-1.0");
    assert_eq!(pool.arch, "arch_v2");
}

#[test]
fn pool_default_config_is_none() {
    let pool: Option<LocalBuildPool> = None;
    assert!(pool.is_none());
}
