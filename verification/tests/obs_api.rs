use packfix::obs_api::{
    build_log_path, commit_action, commit_path, expect_ok, meta_path, package_exists, package_meta_xml,
    package_path, read_osc_credentials, rebuild_path, service_path, service_xml, xml_escape,
    EbfStep, EbfSubmission,
};

#[test]
fn read_osc_credentials_from_sample() {
    let creds = read_osc_credentials(
        "[https://example.com]\nuser=testuser\npass=testpass\n",
        "/tmp/oscrc",
        true,
    )
    .unwrap();
    assert_eq!(creds.user, "testuser");
    assert_eq!(creds.pass, "testpass");
}

#[test]
fn xml_escape_handles_special_characters() {
    assert_eq!(xml_escape("foo & bar"), "foo &amp; bar");
    assert_eq!(xml_escape("a<b>c"), "a&lt;b&gt;c");
    assert_eq!(xml_escape("say \"hello\""), "say &quot;hello&quot;");
    assert_eq!(xml_escape("it's"), "it&apos;s");
    assert_eq!(xml_escape("plain"), "plain");
}

#[test]
fn package_meta_xml_escapes_special_chars() {
    let meta = package_meta_xml("home:user\"proj", "pkg&<test>");
    assert!(meta.contains("pkg&amp;&lt;test&gt;"));
    assert!(meta.contains("home:user&quot;proj"));
    assert!(!meta.contains("pkg&<test>"));
    assert!(meta.starts_with("<package name="));
}

#[test]
fn package_meta_xml_plain_names() {
    let meta = package_meta_xml("home:obs", "python-foo");
    assert!(meta.contains(r#"name="python-foo""#));
    assert!(meta.contains(r#"project="home:obs""#));
    assert!(meta.contains("<title>python-foo</title>"));
}

#[test]
fn commit_comment_is_url_encoded() {
    // Spaces -> +
    let path = commit_path("p", "python-foo", "create");
    let encoded = path.strip_prefix("/source/p/python-foo?cmd=commit&comment=").unwrap();
    assert_eq!(encoded, "create+python-foo+package");
}

#[test]
fn commit_comment_url_encodes_special_chars() {
    let action = "update pkg&foo <bar> #1? a+b 100% done";
    let path = commit_path("p", "k", action);
    let encoded = path.strip_prefix("/source/p/k?cmd=commit&comment=").unwrap();
    assert_eq!(
        encoded,
        "update+pkg%26foo+%3Cbar%3E+%231%3F+a%2Bb+100%25+done+k+package"
    );
    assert!(encoded.contains("%26"), "ampersand must be percent-encoded");
    assert!(encoded.contains("%3C"), "less-than must be percent-encoded");
    assert!(
        encoded.contains("%3E"),
        "greater-than must be percent-encoded"
    );
    assert!(encoded.contains("%23"), "hash must be percent-encoded");
    assert!(
        encoded.contains("%3F"),
        "question mark must be percent-encoded"
    );
    // form_urlencoded encodes + as %2B (literal plus) and space as +
    assert!(
        encoded.contains("%2B"),
        "literal plus must be percent-encoded"
    );
    assert!(
        encoded.contains("%25"),
        "percent sign must be percent-encoded"
    );
    assert!(encoded.contains('+'), "spaces must be encoded as +");
    // Must not contain raw special chars
    assert!(!encoded.contains('&'));
}

#[test]
fn credentials_need_both_parts() {
    let err = read_osc_credentials("user=a\npass=\n", "/x/oscrc", true).unwrap_err();
    assert_eq!(err, "could not find user= / pass= in oscrc '/x/oscrc' (file exists: true)");
    let err = read_osc_credentials("", "/x/oscrc", false).unwrap_err();
    assert_eq!(err, "could not find user= / pass= in oscrc '/x/oscrc' (file exists: false)");
    let creds = read_osc_credentials("  user = no\nuser= a b \nuser=c\n pass=d\n", "p", true);
    let creds = creds.unwrap();
    assert_eq!(creds.user, "a b");
    assert_eq!(creds.pass, "d");
}

#[test]
fn requests_name_project_and_package() {
    assert_eq!(package_path("p", "k"), "/source/p/k");
    assert_eq!(meta_path("p", "k"), "/source/p/k/_meta");
    assert_eq!(service_path("p", "k"), "/source/p/k/_service");
    assert_eq!(rebuild_path("p", "k"), "/build/p?cmd=rebuild&package=k");
    assert_eq!(build_log_path("p", "x64", "x86_64", "k"), "/build/p/x64/x86_64/k/_log");
}

#[test]
fn service_document_escapes_its_values() {
    let doc = service_xml("a&b", "r<1>", "https://x/?a=1&b=2");
    assert!(doc.contains("<param name=\"url\">https://x/?a=1&amp;b=2</param>"));
    assert!(doc.contains("<param name=\"revision\">r&lt;1&gt;</param>"));
    assert!(doc.contains("<param name=\"extract\">SPECS/a&amp;b/*</param>"));
    assert!(doc.ends_with("<service name=\"download_files\"/>\n</services>"));
}

#[test]
fn only_two_hundred_is_done() {
    assert!(expect_ok("create meta", 200).is_ok());
    assert_eq!(expect_ok("commit", 404).unwrap_err(), "commit failed: HTTP 404");
}

#[test]
fn submission_counts_each_component_once() {
    let mut s = EbfSubmission::new(3);
    assert_eq!(s.start("a", true), EbfStep::UploadService);
    assert_eq!(s.on_step("a", EbfStep::UploadService, Ok(())), EbfStep::Commit);
    assert_eq!(s.on_step("a", EbfStep::Commit, Ok(())), EbfStep::TriggerRebuild);
    let lost = Err("lost".to_string());
    assert_eq!(s.on_step("a", EbfStep::TriggerRebuild, lost), EbfStep::Finished);
    assert_eq!(s.start("b", false), EbfStep::CreateMeta);
    assert_eq!(
        s.on_step("b", EbfStep::CreateMeta, Err("HTTP 500".to_string())),
        EbfStep::Finished
    );
    assert_eq!(s.start("c", false), EbfStep::CreateMeta);
    assert_eq!(s.on_step("c", EbfStep::CreateMeta, Ok(())), EbfStep::UploadService);
    assert_eq!(
        s.on_step("c", EbfStep::UploadService, Err("x".to_string())),
        EbfStep::Finished
    );
    let r = s.finish();
    assert!(!r.success);
    assert_eq!(r.returncode, 1);
    assert_eq!((r.success_count, r.total_count), (1, 3));
    assert_eq!(r.stderr, "failed components: b, c");
    assert_eq!(
        r.stdout,
        "[ebf] a: existing -> service_uploaded committed rebuild_triggered\n[ebf] b: new -> create_meta failed: HTTP 500\n[ebf] c: new -> meta_created service_upload failed: x\n"
    );
    assert_eq!(commit_action(true), "update");
    assert_eq!(commit_action(false), "create");
    let none = EbfSubmission::new(0).finish();
    assert!(none.success);
    assert_eq!(none.stderr, "");
}

#[test]
fn escaped_text_holds_nothing_special() {
    let escaped = xml_escape("<a href='x'>\"&\"</a>");
    assert!(!escaped.contains(['<', '>', '"', '\'']));
    assert_eq!(escaped, "&lt;a href=&apos;x&apos;&gt;&quot;&amp;&quot;&lt;/a&gt;");
}

#[test]
fn a_package_exists_where_the_answer_is_200() {
    assert!(package_exists(Some(200)));
    assert!(!package_exists(Some(404)));
    assert!(!package_exists(None));
}
