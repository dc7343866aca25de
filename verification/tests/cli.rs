use mdbook_bookshelf::cli::{parse_build_args, parse_port, parse_serve_args, CliError, Command};

fn args(items: &[&str]) -> Vec<String> {
    items.iter().map(|s| s.to_string()).collect()
}

#[test]
fn build_args_take_one_path_and_an_optional_dest_dir() {
    assert_eq!(parse_build_args(args(&["site/bookshelf.toml"])), Ok(("site/bookshelf.toml".to_string(), None)));
    assert_eq!(
        parse_build_args(args(&["-d", "out", "bookshelf.toml"])),
        Ok(("bookshelf.toml".to_string(), Some("out".to_string())))
    );
    assert_eq!(parse_build_args(args(&[])), Err(CliError::MissingConfigPath));
    assert_eq!(
        parse_build_args(args(&["a.toml", "b.toml"])),
        Err(CliError::ExtraConfigPath { command: Command::Build })
    );
    assert_eq!(
        parse_build_args(args(&["a.toml", "--dest-dir"])),
        Err(CliError::MissingValue { flag: "--dest-dir".to_string() })
    );
    assert_eq!(
        parse_build_args(args(&["a.toml", "-d", "x", "--dest-dir", "y"])),
        Err(CliError::RepeatedDestDir)
    );
    assert_eq!(
        parse_build_args(args(&["--verbose", "a.toml"])),
        Err(CliError::UnknownFlag { command: Command::Build, flag: "--verbose".to_string() })
    );
}

#[test]
fn serve_args_default_to_localhost_3000() {
    let options = parse_serve_args(args(&["bookshelf.toml"])).unwrap();
    assert_eq!(options.config_path, "bookshelf.toml");
    assert_eq!(options.dest_dir, None);
    assert_eq!(options.hostname, "localhost");
    assert_eq!(options.port, Some(3000));

    let options =
        parse_serve_args(args(&["-n", "0.0.0.0", "--port", "8080", "b.toml", "-p", "+9000", "-d", "out"])).unwrap();
    assert_eq!(options.hostname, "0.0.0.0");
    assert_eq!(options.port, Some(9000));
    assert_eq!(options.dest_dir.as_deref(), Some("out"));
}

#[test]
fn serve_arg_errors_and_messages() {
    let err = parse_serve_args(args(&["b.toml", "--port", "70000"])).unwrap_err();
    assert_eq!(err, CliError::InvalidPort { value: "70000".to_string() });
    assert_eq!(err.message(), "invalid port '70000'");
    let err = parse_serve_args(args(&["b.toml", "-x"])).unwrap_err();
    assert_eq!(err.message(), "unknown serve flag '-x'");
    let err = parse_serve_args(args(&["a", "b"])).unwrap_err();
    assert_eq!(err.message(), "serve accepts exactly one <bookshelf.toml> path");
    assert_eq!(parse_serve_args(args(&["-n"])).unwrap_err().message(), "missing value for -n");
    assert_eq!(parse_serve_args(args(&[])).unwrap_err().message(), "missing required <bookshelf.toml> path");
    assert_eq!(CliError::RepeatedDestDir.message(), "--dest-dir may only be provided once");
}

#[test]
fn ports_parse_as_u16_from_str() {
    for text in ["0", "3000", "65535", "+80", "007", "", "+", "-1", "65536", "8o", " 80", "99999999999"] {
        assert_eq!(parse_port(text), text.parse::<u16>().ok(), "port text {text:?}");
    }
}
