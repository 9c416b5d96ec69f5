use pathfinder_mcp::documents::{
    did_change_params, did_close_params, did_open_params, is_newer, DocumentManager, DocumentState, SyncAction,
};
use pathfinder_mcp::json::{JsonNumber, JsonValue};

#[test]
fn documents_are_opened_then_changed() {
    let mut docs = DocumentManager::new();
    let uri = "file:///w/src/main.rs";
    assert_eq!(docs.plan_sync(uri, 100), SyncAction::Open { version: 1 });
    docs.record_sync(uri, 1, 100);
    assert_eq!(docs.state_of(uri), Some(DocumentState { version: 1, mtime: 100 }));
    // unchanged, or older on disk: nothing to send
    assert_eq!(docs.plan_sync(uri, 100), SyncAction::UpToDate);
    assert_eq!(docs.plan_sync(uri, 50), SyncAction::UpToDate);
    // modified: the next version
    assert_eq!(docs.plan_sync(uri, 101), SyncAction::Change { version: 2 });
    docs.record_sync(uri, 2, 101);
    assert_eq!(docs.plan_sync(uri, 101), SyncAction::UpToDate);
    assert_eq!(docs.state_of("file:///other.rs"), None);
}

#[test]
fn unchanged_document_at_the_last_version_needs_nothing() {
    let mut docs = DocumentManager::new();
    let uri = "file:///w/lib.rs";
    docs.record_sync(uri, i32::MAX, 7);
    assert_eq!(docs.plan_sync(uri, 7), SyncAction::UpToDate);
    assert_eq!(docs.plan_sync(uri, 6), SyncAction::UpToDate);
}

#[test]
fn close_all_returns_each_open_uri_once() {
    let mut docs = DocumentManager::new();
    docs.record_sync("file:///a", 1, 1);
    docs.record_sync("file:///b", 1, 1);
    docs.record_sync("file:///a", 2, 2);
    let mut uris = docs.close_all();
    uris.sort();
    assert_eq!(uris, vec!["file:///a", "file:///b"]);
    assert_eq!(docs.state_of("file:///a"), None);
    assert!(docs.close_all().is_empty());
}

#[test]
fn newer_timestamps() {
    assert!(is_newer(2, 1));
    assert!(!is_newer(1, 1));
    assert!(!is_newer(-5, 1));
    assert!(is_newer(1, -5));
}

#[test]
fn notification_parameters() {
    let p = did_open_params("file:///a.rs", "rust", 1, "fn main() {}");
    let td = p.get("textDocument").unwrap();
    assert_eq!(td.get("uri").unwrap().as_str().unwrap(), "file:///a.rs");
    assert_eq!(td.get("languageId").unwrap().as_str().unwrap(), "rust");
    assert_eq!(td.get("version").unwrap().as_i64(), Some(1));
    assert_eq!(td.get("text").unwrap().as_str().unwrap(), "fn main() {}");

    let p = did_change_params("file:///a.rs", 3, "x");
    assert_eq!(p.get("textDocument").unwrap().get("version").unwrap().as_i64(), Some(3));
    match p.get("contentChanges").unwrap() {
        JsonValue::Array(items) => {
            assert_eq!(items.len(), 1);
            assert_eq!(items[0].get("text").unwrap().as_str().unwrap(), "x");
        },
        _ => panic!("contentChanges must be an array"),
    }
    let p = did_change_params("u", -2, "x");
    assert!(matches!(
        p.get("textDocument").unwrap().get("version").unwrap(),
        JsonValue::Number(JsonNumber::NegInt(-2))
    ));

    let p = did_close_params("file:///a.rs");
    assert_eq!(p.get("textDocument").unwrap().get("uri").unwrap().as_str().unwrap(), "file:///a.rs");
}
