use rock_lib::project::{new_project_files, project_manifest, validate_project_name, CliOutcome};

#[test]
fn project_names_reject_paths_spaces_quotes_and_reserved_names() {
    for name in [
        "",
        ".",
        "..",
        "../escape",
        "a/b",
        "a\\b",
        "1app",
        "a b",
        "a\"b",
        "stdlib",
    ] {
        assert!(validate_project_name(name).is_err(), "accepted {name:?}");
        assert!(new_project_files(name).is_err(), "accepted {name:?}");
    }
}

#[test]
fn project_names_accept_letters_digits_dashes_and_underscores() {
    for name in ["hello", "hello-rock_2", "a", "Z9", "stdlib2"] {
        assert!(validate_project_name(name).is_ok(), "refused {name:?}");
    }
}

#[test]
fn project_name_errors_explain_the_rule() {
    assert_eq!(
        validate_project_name("1app").unwrap_err(),
        "Project names must start with an ASCII letter and contain only ASCII letters, digits, '-' or '_'"
    );
    assert_eq!(
        validate_project_name("stdlib").unwrap_err(),
        "Project name 'stdlib' is reserved for the standard library"
    );
}

#[test]
fn new_project_scaffolds_manifest_source_and_ignore_file() {
    let files = new_project_files("hello-rock_2").unwrap();
    assert_eq!(files.len(), 3);
    assert_eq!(files[0].0, "rock.toml");
    assert_eq!(
        files[0].1,
        "[crate]\nname = \"hello-rock_2\"\nversion = \"0.1.0\"\n\n[lib]\npath = \"src/main.rk\"\n"
    );
    assert_eq!(files[1].0, "src/main.rk");
    assert_eq!(files[1].1, "main = !->\n    \"Hello, Rock!\".println!\n");
    assert_eq!(files[2].0, ".gitignore");
    assert_eq!(files[2].1, "/build/\n");
    assert_eq!(project_manifest("x"), "[crate]\nname = \"x\"\nversion = \"0.1.0\"\n\n[lib]\npath = \"src/main.rk\"\n");
}

#[test]
fn cli_outcomes_compare_by_exit_code() {
    assert_eq!(CliOutcome::Exit(3), CliOutcome::Exit(3));
    assert_ne!(CliOutcome::Exit(3), CliOutcome::Success);
}
