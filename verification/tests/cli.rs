use panewatch::config::{parse_cli_args, ProjectSource};

fn args(list: &[&str]) -> Vec<String> {
    list.iter().map(|s| s.to_string()).collect()
}

#[test]
fn defaults_without_arguments() {
    let (path, source) = parse_cli_args(&args(&[])).unwrap();
    assert_eq!(path, "config.toml");
    assert_eq!(source, ProjectSource::Python);
}

#[test]
fn project_in_both_forms_last_wins() {
    let (path, source) =
        parse_cli_args(&args(&["--project=rust", "my.toml", "--project", "python"])).unwrap();
    assert_eq!(path, "my.toml");
    assert_eq!(source, ProjectSource::Python);
    let (_, source) = parse_cli_args(&args(&["--project", "rust"])).unwrap();
    assert_eq!(source, ProjectSource::Rust);
}

#[test]
fn cli_errors() {
    assert_eq!(
        parse_cli_args(&args(&["--project=go"])).unwrap_err(),
        "invalid --project value 'go', expected python|rust"
    );
    assert_eq!(
        parse_cli_args(&args(&["--project"])).unwrap_err(),
        "missing value after --project (expected python|rust)"
    );
    assert_eq!(
        parse_cli_args(&args(&["--project", "java"])).unwrap_err(),
        "invalid --project value 'java', expected python|rust"
    );
    assert_eq!(parse_cli_args(&args(&["-v"])).unwrap_err(), "unknown flag '-v'");
    assert_eq!(
        parse_cli_args(&args(&["a.toml", "b.toml"])).unwrap_err(),
        "unexpected positional argument 'b.toml'"
    );
}

#[test]
fn project_names() {
    assert_eq!(ProjectSource::parse("rust"), Some(ProjectSource::Rust));
    assert_eq!(ProjectSource::parse("python"), Some(ProjectSource::Python));
    assert_eq!(ProjectSource::parse("Python"), None);
    assert_eq!(ProjectSource::Rust.as_str(), "rust");
    assert_eq!(ProjectSource::Python.as_str(), "python");
}
