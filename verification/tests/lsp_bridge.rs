use pathfinder_mcp::json::{JsonMember, JsonNumber, JsonValue};
use pathfinder_mcp::lsp_bridge::{
    classify_response, initialize_params, matches_id, notification_payload, request_payload, BridgeError, KillReason,
    RequestIds, ResponseStep, Shutdown, ShutdownAction, SkipReason, StepOutcome,
};

fn o(members: Vec<(&str, JsonValue)>) -> JsonValue {
    JsonValue::Object(members.into_iter().map(|(k, v)| JsonMember { key: k.to_string(), value: v }).collect())
}

fn n(v: u64) -> JsonValue {
    JsonValue::Number(JsonNumber::PosInt(v))
}

fn s(v: &str) -> JsonValue {
    JsonValue::String(v.to_string())
}

#[test]
fn request_ids_count_from_one() {
    let mut ids = RequestIds::new();
    assert_eq!(ids.peek(), 1);
    assert_eq!(ids.take(), 1);
    assert_eq!(ids.take(), 2);
    assert_eq!(ids.peek(), 3);
}

#[test]
fn payloads() {
    let p = request_payload(7, "textDocument/definition", JsonValue::Null);
    assert_eq!(p.get("jsonrpc").unwrap().as_str().unwrap(), "2.0");
    assert_eq!(p.get("id").unwrap().as_i64(), Some(7));
    assert_eq!(p.get("method").unwrap().as_str().unwrap(), "textDocument/definition");
    assert!(matches!(p.get("params"), Some(JsonValue::Null)));
    let p = notification_payload("initialized", o(vec![]));
    assert!(p.get("id").is_none());
    assert_eq!(p.get("method").unwrap().as_str().unwrap(), "initialized");
}

#[test]
fn response_ids_as_numbers_or_strings() {
    assert!(matches_id(&n(12), 12));
    assert!(matches_id(&s("12"), 12));
    assert!(!matches_id(&s("012"), 12));
    assert!(!matches_id(&n(13), 12));
    assert!(matches_id(&JsonValue::Number(JsonNumber::NegInt(-4)), -4));
    assert!(matches_id(&s("-4"), -4));
    assert!(!matches_id(&JsonValue::Null, 1));
}

#[test]
fn messages_while_waiting_for_an_answer() {
    assert!(matches!(classify_response(None, 1), ResponseStep::Terminated));
    assert!(matches!(classify_response(Some(&n(1)), 1), ResponseStep::Skip(SkipReason::NotAnObject)));
    let note = o(vec![("jsonrpc", s("2.0")), ("method", s("window/logMessage")), ("params", o(vec![]))]);
    assert!(matches!(classify_response(Some(&note), 1), ResponseStep::Skip(SkipReason::Notification)));
    let other = o(vec![("id", n(2)), ("result", JsonValue::Null)]);
    assert!(matches!(classify_response(Some(&other), 1), ResponseStep::Skip(SkipReason::OtherRequest)));
    let answer = o(vec![("id", s("1")), ("result", n(42))]);
    match classify_response(Some(&answer), 1) {
        ResponseStep::Answer(v) => assert_eq!(v.as_u64(), Some(42)),
        _ => panic!("expected the answer"),
    }
    let null_answer = o(vec![("id", n(1)), ("result", JsonValue::Null)]);
    assert!(matches!(classify_response(Some(&null_answer), 1), ResponseStep::Answer(JsonValue::Null)));
    let error = o(vec![("id", n(1)), ("error", o(vec![("code", n(1))]))]);
    assert!(matches!(classify_response(Some(&error), 1), ResponseStep::ServerError(_)));
    let malformed = o(vec![("id", n(1))]);
    assert!(matches!(classify_response(Some(&malformed), 1), ResponseStep::Malformed));
}

#[test]
fn initialize_parameters() {
    let p = initialize_params(4242, "/home/me/project").unwrap();
    assert_eq!(p.get("processId").unwrap().as_u64(), Some(4242));
    assert_eq!(p.get("rootUri").unwrap().as_str().unwrap(), "file:///home/me/project/");
    assert_eq!(p.get("rootPath").unwrap().as_str().unwrap(), "/home/me/project");
    assert!(matches!(p.get("capabilities"), Some(JsonValue::Object(m)) if m.is_empty()));
    match p.get("workspaceFolders").unwrap() {
        JsonValue::Array(items) => {
            assert_eq!(items[0].get("name").unwrap().as_str().unwrap(), "project");
            assert_eq!(items[0].get("uri").unwrap().as_str().unwrap(), "file:///home/me/project/");
        },
        _ => panic!("workspaceFolders must be an array"),
    }
    let p = initialize_params(1, "/").unwrap();
    match p.get("workspaceFolders").unwrap() {
        JsonValue::Array(items) => assert_eq!(items[0].get("name").unwrap().as_str().unwrap(), "workspace"),
        _ => panic!("workspaceFolders must be an array"),
    }
    assert_eq!(initialize_params(1, "relative/dir").unwrap_err(), BridgeError::WorkspaceNotFileUri);
    assert_eq!(initialize_params(1, "").unwrap_err(), BridgeError::WorkspaceNotFileUri);
    let p = initialize_params(1, "/tmp").unwrap();
    assert_eq!(p.get("rootUri").unwrap().as_str().unwrap(), "file:///tmp/");
}

#[test]
fn shutdown_procedure() {
    let mut sd = Shutdown::begin();
    assert_eq!(sd.step(StepOutcome::Succeeded), ShutdownAction::SendExit);
    assert_eq!(sd.step(StepOutcome::Failed), ShutdownAction::WaitForExit);
    assert_eq!(sd.step(StepOutcome::Succeeded), ShutdownAction::Finish);
    assert!(sd.is_finished());

    let mut sd = Shutdown::begin();
    assert_eq!(sd.step(StepOutcome::Failed), ShutdownAction::Kill);
    assert_eq!(sd.step(StepOutcome::Failed), ShutdownAction::FinishKillFailed(KillReason::ShutdownRequestFailed));

    let mut sd = Shutdown::begin();
    sd.step(StepOutcome::Succeeded);
    sd.step(StepOutcome::Succeeded);
    assert_eq!(sd.step(StepOutcome::TimedOut), ShutdownAction::Kill);
    assert_eq!(sd.step(StepOutcome::Succeeded), ShutdownAction::Finish);
}
