use pathfinder_mcp::utils::{extension_from_uri, file_name_of, file_path_from_uri, language_id_for_path, UriError};

#[test]
fn test_extension_from_uri() {
    assert_eq!(
        extension_from_uri("file:///path/to/file.rs"),
        Some("rs".to_string())
    );
    assert_eq!(
        extension_from_uri("file:///path/to/file.py"),
        Some("py".to_string())
    );
    assert_eq!(extension_from_uri("file:///path/to/file"), None);
}

#[test]
fn test_language_id_for_path() {
    assert_eq!(language_id_for_path("file.rs"), "rust");
    assert_eq!(language_id_for_path("file.py"), "python");
    assert_eq!(language_id_for_path("file.ts"), "typescript");
    assert_eq!(
        language_id_for_path("file.tsx"),
        "typescriptreact"
    );
    assert_eq!(language_id_for_path("file.js"), "javascript");
    assert_eq!(
        language_id_for_path("file.jsx"),
        "javascriptreact"
    );
    assert_eq!(language_id_for_path("file.unknown"), "unknown");
    assert_eq!(language_id_for_path("file"), "plaintext");
}

#[test]
fn language_ids_of_other_paths() {
    assert_eq!(language_id_for_path("/src/a.go"), "go");
    assert_eq!(language_id_for_path("conf.yml"), "yaml");
    assert_eq!(language_id_for_path("conf.yaml"), "yaml");
    assert_eq!(language_id_for_path("Cargo.toml"), "toml");
    assert_eq!(language_id_for_path("README.md"), "markdown");
    assert_eq!(language_id_for_path("data.json"), "json");
    assert_eq!(language_id_for_path(".bashrc"), "plaintext");
    assert_eq!(language_id_for_path("archive.tar.gz"), "gz");
    assert_eq!(language_id_for_path("dir.d/file"), "plaintext");
    assert_eq!(language_id_for_path("file."), "plaintext");
    assert_eq!(language_id_for_path("lib.rs/"), "rust");
}

#[test]
fn file_names_follow_path_components() {
    assert_eq!(file_name_of("/a/b.rs"), Some("b.rs".to_string()));
    assert_eq!(file_name_of("/a/b/"), Some("b".to_string()));
    assert_eq!(file_name_of("/a/b/."), Some("b".to_string()));
    assert_eq!(file_name_of("/a/.."), None);
    assert_eq!(file_name_of("/"), None);
    assert_eq!(file_name_of(""), None);
    assert_eq!(file_name_of("."), None);
    assert_eq!(extension_from_uri("file:///a/.hidden"), None);
    assert_eq!(extension_from_uri("file:///a/b.c.d"), Some("d".to_string()));
}

#[test]
fn file_uris_to_paths() {
    assert_eq!(file_path_from_uri("file:///tmp/a%20b.rs"), Ok(b"/tmp/a b.rs".to_vec()));
    assert_eq!(file_path_from_uri("file:///tmp/%FF.rs"), Ok(b"/tmp/\xFF.rs".to_vec()));
    assert_eq!(file_path_from_uri("not a uri"), Err(UriError::InvalidUri));
    assert_eq!(file_path_from_uri("file://remote.host/a.rs"), Err(UriError::NotFileUri));
}
