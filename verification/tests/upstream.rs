use flate2::{write::GzEncoder, Compression};
use packfix::upstream::{
    expected_spec_dir, generate_python_spec, infer_install_module, python_dist_name,
    python_package_name, takopack_arguments, takopack_command, DirItem, SourceTree,
};
use tar::{Builder, Header};

fn tarball(files: &[(&str, &str)]) -> Vec<u8> {
    let encoder = GzEncoder::new(Vec::new(), Compression::default());
    let mut builder = Builder::new(encoder);

    for (path, content) in files {
        let mut header = Header::new_gnu();
        header.set_size(content.len() as u64);
        header.set_mode(0o644);
        header.set_cksum();
        builder
            .append_data(&mut header, *path, content.as_bytes())
            .expect("append file");
    }

    let encoder = builder.into_inner().expect("tar encoder");
    encoder.finish().expect("gzip finish")
}

fn archived(archive: Vec<u8>) -> SourceTree {
    SourceTree {
        top_level_texts: Ok(vec![]),
        archives: Ok(vec![Ok(archive)]),
        first_level: Ok(vec![]),
    }
}

#[test]
fn prefers_top_level_module_from_tarball() {
    let archive = tarball(
        &[
            ("demo-1.0/src/zope/interface/__init__.py", ""),
            (
                "demo-1.0/src/zope.interface.egg-info/top_level.txt",
                "zope\n",
            ),
        ],
    );

    let inferred = infer_install_module(&archived(archive), "zope_interface").expect("infer module");
    assert_eq!(inferred.as_deref(), Some("zope"));
}

#[test]
fn falls_back_to_listing_when_no_top_level_exists() {
    let archive = tarball(
        &[("demo-1.0/src/demo_pkg/__init__.py", "")],
    );

    let inferred = infer_install_module(&archived(archive), "demo_pkg").expect("infer module");
    assert_eq!(inferred.as_deref(), Some("demo_pkg"));
}

#[test]
fn handles_case_mismatch_in_top_level_txt() {
    let archive = tarball(
        &[
            ("fonttools-4.62.1/src/fontTools/__init__.py", ""),
            (
                "fonttools-4.62.1/src/fontTools.egg-info/top_level.txt",
                "fontTools\n",
            ),
        ],
    );

    let inferred = infer_install_module(&archived(archive), "fonttools").expect("infer module");
    assert_eq!(inferred.as_deref(), Some("fontTools"));
}

#[test]
fn handles_case_mismatch_in_file_listing() {
    let archive = tarball(
        &[("demo-1.0/src/DemoLib/__init__.py", "")],
    );

    let inferred = infer_install_module(&archived(archive), "demolib").expect("infer module");
    assert_eq!(inferred.as_deref(), Some("DemoLib"));
}

#[test]
fn prefers_filesystem_top_level_over_tarball() {
    let mut tree = archived(tarball(&[(
        "fonttools-4.62.1/src/fontTools/__init__.py",
        "",
    )]));
    tree.top_level_texts = Ok(vec!["fontTools\n".to_string()]);

    let inferred = infer_install_module(&tree, "fonttools").expect("infer module");
    assert_eq!(inferred.as_deref(), Some("fontTools"));
}

#[test]
fn prefers_primary_module_from_multiline_top_level() {
    let tree = SourceTree {
        top_level_texts: Ok(vec!["example\npynvml\n".to_string()]),
        archives: Ok(vec![]),
        first_level: Ok(vec![]),
    };

    let inferred = infer_install_module(&tree, "nvidia_ml_py").expect("infer module");
    assert_eq!(inferred.as_deref(), Some("pynvml"));
}

#[test]
fn infers_module_when_wrong_module_completely_different() {
    let archive = tarball(
        &[
            ("scikit_build-0.19.0/skbuild/__init__.py", ""),
            ("scikit_build-0.19.0/skbuild/cmaker.py", ""),
        ],
    );

    let inferred = infer_install_module(&archived(archive), "logs").expect("infer module");
    assert_eq!(inferred.as_deref(), Some("skbuild"));
}


#[test]
fn generate_python_spec_passes_version_argument() {
    let command = takopack_command("foo", &Some("1.2.3".to_string()), "/out", "/bin/takopack");
    assert_eq!(
        command.args,
        vec!["py", "package", "-o", "/out", "foo", "1.2.3"]
    );
    assert_eq!(command.timeout, 600);
    let spec = expected_spec_dir("/out", "foo") + "/python-foo.spec";
    let result = generate_python_spec("/out", 0, "", Some(spec), None).expect("generate spec");
    assert_eq!(result.spec_path, "/out/python-foo/python-foo.spec");
    assert_eq!(result.log_path, "/out/logs/takopack.log");
}

#[test]
fn takopack_receives_pypi_name_without_python_prefix() {
    let args = takopack_arguments("fonttools", &None, "/out");
    assert_eq!(args, vec!["py", "package", "-o", "/out", "fonttools"]);
}

#[test]
fn takopack_output_does_not_pick_existing_unrelated_spec() {
    let found = generate_python_spec(
        "/out",
        0,
        "",
        Some("/out/python-new/python-new.spec".to_string()),
        Some("/out/python-old/python-old.spec".to_string()),
    )
    .expect("generated spec");
    assert_eq!(found.spec_path, "/out/python-new/python-new.spec");
}

#[test]
fn takopack_failures_are_told_apart() {
    assert_eq!(
        generate_python_spec("/out", 2, "boom", None, None).unwrap_err(),
        "takopack failed: boom"
    );
    assert_eq!(
        generate_python_spec("/out", 0, "", None, None).unwrap_err(),
        "takopack succeeded but no .spec was found under /out"
    );
    let elsewhere = generate_python_spec("/out", 0, "", None, Some("/out/x.spec".to_string()));
    assert_eq!(elsewhere.unwrap().spec_path, "/out/x.spec");
}

#[test]
fn package_names_get_one_prefix() {
    assert_eq!(python_package_name("Foo_Bar"), python_package_name(&python_package_name("Foo_Bar")));
    assert_eq!(python_dist_name(&python_package_name("foo")), "foo");
    assert_eq!(python_package_name("foo"), "python-foo");
}

#[test]
fn directories_tell_modules_where_archives_do_not() {
    let item = |name: &str, is_dir: bool| DirItem {
        name: name.to_string(),
        is_dir,
        is_file: !is_dir,
    };
    let tree = SourceTree {
        top_level_texts: Ok(vec![]),
        archives: Ok(vec![]),
        first_level: Ok(vec![item("tests", true), item("setup.py", false), item("realmod", true)]),
    };
    let inferred = infer_install_module(&tree, "wrong").expect("infer module");
    assert_eq!(inferred.as_deref(), Some("realmod"));
    let broken = SourceTree {
        top_level_texts: Err("denied".to_string()),
        archives: Ok(vec![]),
        first_level: Ok(vec![]),
    };
    assert_eq!(infer_install_module(&broken, "x").unwrap_err(), "denied");
    let garbage = archived(b"no archive".to_vec());
    assert!(infer_install_module(&garbage, "x").is_err());
}
