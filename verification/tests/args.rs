use build_deps::args::BuildFlags;

fn no_flags() -> BuildFlags {
    BuildFlags {
        release: false,
        frozen: false,
        manifest_path: None,
        target_dir: None,
        bin: None,
        lib: None,
        target: None,
    }
}

#[test]
fn no_flags_forward_nothing() {
    assert_eq!(no_flags().build_args(), Vec::<String>::new());
}

#[test]
fn release_and_target_dir() {
    let flags = BuildFlags { release: true, target_dir: Some("out".to_string()), ..no_flags() };
    assert_eq!(flags.build_args(), vec!["--release", "--target-dir", "out"]);
}

#[test]
fn all_flags_in_declaration_order() {
    let flags = BuildFlags {
        release: true,
        frozen: true,
        manifest_path: Some("m/Cargo.toml".to_string()),
        target_dir: Some("out".to_string()),
        bin: Some("tool".to_string()),
        lib: Some("core".to_string()),
        target: Some("x86_64-unknown-linux-gnu".to_string()),
    };
    assert_eq!(
        flags.build_args(),
        vec![
            "--release",
            "--frozen",
            "--manifest-path",
            "m/Cargo.toml",
            "--target-dir",
            "out",
            "--bin",
            "tool",
            "--lib",
            "core",
            "--target",
            "x86_64-unknown-linux-gnu"
        ]
    );
}

#[test]
fn boolean_flags_come_before_value_flags() {
    let flags = BuildFlags { frozen: true, bin: Some("tool".to_string()), ..no_flags() };
    assert_eq!(flags.build_args(), vec!["--frozen", "--bin", "tool"]);
}

#[test]
fn values_are_forwarded_as_given() {
    let flags = BuildFlags {
        target_dir: Some("".to_string()),
        target: Some("--release".to_string()),
        ..no_flags()
    };
    assert_eq!(flags.build_args(), vec!["--target-dir", "", "--target", "--release"]);
}
