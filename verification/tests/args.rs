use pathfinder_mcp::args::{Cli, CliError, SpecError};

fn parse_args(args: &[&str]) -> Result<Cli, CliError> {
    let args: Vec<String> = std::iter::once("pathfinder-mcp")
        .chain(args.iter().copied())
        .map(String::from)
        .collect();
    Cli::try_parse_from(&args)
}

#[test]
fn python_single_extension() {
    let cli = parse_args(&["-e", "py", "-s", "pyright-langserver", "--", "--stdio"]).unwrap();
    assert_eq!(cli.extension, vec!["py"]);
    assert_eq!(cli.server, vec!["pyright-langserver", "--", "--stdio"]);
}

#[test]
fn python_multiple_extensions() {
    // Python and stub files use the same LSP server
    let cli = parse_args(&["-e", "py", "-e", "pyi", "-s", "pyright-langserver", "--", "--stdio"]).unwrap();
    assert_eq!(cli.extension, vec!["py", "pyi"]);
    assert_eq!(cli.server, vec!["pyright-langserver", "--", "--stdio"]);
}

#[test]
fn rust_with_workspace() {
    let cli = parse_args(&["-w", "/tmp/myproject", "-e", "rs", "-s", "rust-analyzer"]).unwrap();
    assert_eq!(cli.extension, vec!["rs"]);
    assert_eq!(cli.server, vec!["rust-analyzer"]);
    assert_eq!(cli.workspace, Some("/tmp/myproject".to_string()));
}

#[test]
fn typescript_long_form() {
    // Using long-form flags
    let cli = parse_args(&[
        "--extension",
        "ts",
        "--server",
        "typescript-language-server",
        "--",
        "--stdio",
    ])
    .unwrap();
    assert_eq!(cli.extension, vec!["ts"]);
    assert_eq!(cli.server, vec!["typescript-language-server", "--", "--stdio"]);
}

#[test]
fn python_with_uv() {
    // Real example: using uv to run pyright
    let cli = parse_args(&[
        "-e",
        "py",
        "-s",
        "uv",
        "run",
        "pyright-langserver",
        "--",
        "--stdio",
    ])
    .unwrap();
    assert_eq!(cli.extension, vec!["py"]);
    assert_eq!(cli.server, vec!["uv", "run", "pyright-langserver", "--", "--stdio"]);
}

#[test]
fn javascript_react() {
    // TypeScript server handles JSX files too
    let cli = parse_args(&[
        "-e",
        "jsx",
        "-s",
        "typescript-language-server",
        "--",
        "--stdio",
    ])
    .unwrap();
    assert_eq!(cli.extension, vec!["jsx"]);
    assert_eq!(cli.server, vec!["typescript-language-server", "--", "--stdio"]);
}

#[test]
fn error_no_extension() {
    let result = parse_args(&["-s", "rust-analyzer"]);
    assert!(result.is_err());
}

#[test]
fn error_no_server() {
    let result = parse_args(&["-e", "py"]);
    assert!(result.is_err());
}

#[test]
fn server_flag_takes_every_later_argument() {
    let cli = parse_args(&["-e", "rs", "-s", "ra", "-e", "py", "--help", "-w", "x"]).unwrap();
    assert_eq!(cli.extension, vec!["rs"]);
    assert_eq!(cli.server, vec!["ra", "-e", "py", "--help", "-w", "x"]);
    assert_eq!(cli.workspace, None);
}

#[test]
fn attached_values() {
    let cli = parse_args(&["-epy", "--extension=pyi", "-e=rs", "--workspace=/w", "-spyright"]).unwrap();
    assert_eq!(cli.extension, vec!["py", "pyi", "rs"]);
    assert_eq!(cli.server, vec!["pyright"]);
    assert_eq!(cli.workspace, Some("/w".to_string()));
    let cli = parse_args(&["-e", "py", "--server=srv", "--"]).unwrap();
    assert_eq!(cli.server, vec!["srv"]);
}

#[test]
fn help_and_version_requests() {
    assert_eq!(parse_args(&["-h"]).unwrap_err(), CliError::HelpRequested);
    assert_eq!(parse_args(&["-e", "py", "--help"]).unwrap_err(), CliError::HelpRequested);
    assert_eq!(parse_args(&["-V"]).unwrap_err(), CliError::VersionRequested);
    assert_eq!(parse_args(&["--version"]).unwrap_err(), CliError::VersionRequested);
    assert_eq!(parse_args(&["--help=x"]).unwrap_err(), CliError::UnneededValue);
    // a waiting option fails before the help flag is read
    assert_eq!(parse_args(&["-e", "-h"]).unwrap_err(), CliError::MissingValue);
}

#[test]
fn command_line_errors() {
    assert_eq!(parse_args(&[]).unwrap_err(), CliError::MissingRequiredArgument);
    assert_eq!(parse_args(&["-e"]).unwrap_err(), CliError::MissingValue);
    assert_eq!(parse_args(&["-e", "py", "-s"]).unwrap_err(), CliError::MissingValue);
    assert_eq!(parse_args(&["-e", "py", "stray", "-s", "x"]).unwrap_err(), CliError::UnexpectedArgument);
    assert_eq!(parse_args(&["-x"]).unwrap_err(), CliError::UnknownArgument);
    assert_eq!(parse_args(&["--extensions", "py"]).unwrap_err(), CliError::UnknownArgument);
    assert_eq!(parse_args(&["-w", "", "-e", "py", "-s", "x"]).unwrap_err(), CliError::EmptyValue);
    assert_eq!(parse_args(&["-w", "a", "-w", "b"]).unwrap_err(), CliError::RepeatedArgument);
    assert_eq!(parse_args(&["-e", "py", "--", "-s", "x"]).unwrap_err(), CliError::UnexpectedArgument);
    // a lone `-` is a value
    let cli = parse_args(&["-e", "-", "-s", "x"]).unwrap();
    assert_eq!(cli.extension, vec!["-"]);
}

#[test]
fn server_specs_from_cli() {
    let cli = parse_args(&["-e", "py", "-e", "pyi", "-s", "pyright", "--stdio"]).unwrap();
    let specs = cli.to_server_specs().unwrap();
    assert_eq!(specs.len(), 1);
    assert_eq!(specs[0].extensions, vec!["py", "pyi"]);
    assert_eq!(specs[0].command, vec!["pyright", "--stdio"]);

    let empty_ext = Cli { extension: vec![], server: vec!["x".to_string()], workspace: None };
    assert_eq!(empty_ext.to_server_specs().unwrap_err(), SpecError::NoExtension);
    let empty_server = Cli { extension: vec!["py".to_string()], server: vec![], workspace: None };
    assert_eq!(empty_server.to_server_specs().unwrap_err(), SpecError::EmptyServerCommand);
}
