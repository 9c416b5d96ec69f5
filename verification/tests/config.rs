use pathfinder_mcp::args::ServerSpec;
use pathfinder_mcp::config::{Config, ConfigError, ServerConfig};

fn server(extensions: &[&str], command: &[&str], root_dir: &str) -> ServerConfig {
    ServerConfig {
        extensions: extensions.iter().map(|s| s.to_string()).collect(),
        command: command.iter().map(|s| s.to_string()).collect(),
        root_dir: root_dir.to_string(),
    }
}

#[test]
fn reject_empty_extensions() {
    let config = Config { server: server(&[], &["server1"], ".") };
    assert!(config.validate().is_err());
}

#[test]
fn validation_errors() {
    let config = Config { server: server(&[], &["server1"], ".") };
    assert_eq!(config.validate(), Err(ConfigError::NoExtensions));
    let config = Config { server: server(&["js"], &[], ".") };
    assert_eq!(config.validate(), Err(ConfigError::EmptyCommand));
    let config = Config { server: server(&["js", "ts"], &["typescript-language-server", "--stdio"], ".") };
    assert_eq!(config.validate(), Ok(()));
}

#[test]
fn config_from_server_spec() {
    let spec = ServerSpec {
        extensions: vec!["rs".to_string()],
        command: vec!["rust-analyzer".to_string()],
    };
    let config = Config::from_server_spec(spec).unwrap();
    assert_eq!(config.server.extensions, vec!["rs"]);
    assert_eq!(config.server.command, vec!["rust-analyzer"]);
    assert_eq!(config.server.root_dir, ".");
    let bad = ServerSpec { extensions: vec![], command: vec!["x".to_string()] };
    assert_eq!(Config::from_server_spec(bad).unwrap_err(), ConfigError::NoExtensions);
}

#[test]
fn extension_membership() {
    let config = Config { server: server(&["py", "pyi"], &["pyright"], ".") };
    assert!(config.has_extension("py"));
    assert!(config.has_extension("pyi"));
    assert!(!config.has_extension("p"));
    assert!(!config.has_extension("rs"));
}

#[test]
fn root_dir_resolution() {
    assert_eq!(server(&["rs"], &["ra"], ".").resolve_root_dir("/work"), "/work/.");
    assert_eq!(server(&["rs"], &["ra"], "sub").resolve_root_dir("/work/"), "/work/sub");
    assert_eq!(server(&["rs"], &["ra"], "/abs").resolve_root_dir("/work"), "/abs");
    assert_eq!(server(&["rs"], &["ra"], "x").resolve_root_dir(""), "x");
}

#[test]
fn command_split_into_program_and_arguments() {
    let s = server(&["py"], &["uv", "run", "pyright-langserver", "--stdio"], ".");
    let (program, args) = s.command_parts();
    assert_eq!(program, "uv");
    assert_eq!(args, vec!["run", "pyright-langserver", "--stdio"]);
    let (program, args) = server(&["rs"], &["rust-analyzer"], ".").command_parts();
    assert_eq!(program, "rust-analyzer");
    assert!(args.is_empty());
}
