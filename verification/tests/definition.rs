use pathfinder_mcp::json::{JsonMember, JsonNumber, JsonValue};
use pathfinder_mcp::tools::definition::{
    convert_location, normalize_targets, Coordinate, DefinitionError, DefinitionStep, LocationForm, RangeEnd,
    MAX_RETRIES,
};
use pathfinder_mcp::tools::{DefinitionRequest, DefinitionTool, TextRange};

fn s(v: &str) -> JsonValue {
    JsonValue::String(v.to_string())
}

fn n(v: u64) -> JsonValue {
    JsonValue::Number(JsonNumber::PosInt(v))
}

fn o(members: Vec<(&str, JsonValue)>) -> JsonValue {
    JsonValue::Object(members.into_iter().map(|(k, v)| JsonMember { key: k.to_string(), value: v }).collect())
}

fn pos(line: u64, character: u64) -> JsonValue {
    o(vec![("line", n(line)), ("character", n(character))])
}

fn range(a: u64, b: u64, c: u64, d: u64) -> JsonValue {
    o(vec![("start", pos(a, b)), ("end", pos(c, d))])
}

#[test]
fn null_answer_has_no_target() {
    assert!(normalize_targets(&JsonValue::Null).unwrap().is_empty());
}

#[test]
fn single_location() {
    let loc = o(vec![("uri", s("file:///a.rs")), ("range", range(5, 3, 7, 1))]);
    let targets = normalize_targets(&loc).unwrap();
    assert_eq!(targets.len(), 1);
    assert_eq!(targets[0].uri, "file:///a.rs");
    assert_eq!(
        targets[0].range,
        TextRange { start_line: 5, start_character: 3, end_line: 7, end_character: 1 }
    );
}

#[test]
fn location_links_and_arrays() {
    let link = o(vec![
        ("originSelectionRange", range(0, 0, 0, 1)),
        ("targetUri", s("file:///b.rs")),
        ("targetRange", range(1, 2, 3, 4)),
        ("targetSelectionRange", range(1, 2, 1, 3)),
    ]);
    let loc = o(vec![("uri", s("file:///a.rs")), ("range", range(0, 0, 0, 0))]);
    let targets = normalize_targets(&JsonValue::Array(vec![loc, link])).unwrap();
    assert_eq!(targets.len(), 2);
    assert_eq!(targets[0].uri, "file:///a.rs");
    assert_eq!(targets[1].uri, "file:///b.rs");
    assert_eq!(targets[1].range.end_character, 4);
    assert!(normalize_targets(&JsonValue::Array(vec![])).unwrap().is_empty());
}

#[test]
fn coordinates_keep_their_low_32_bits() {
    let loc = o(vec![("uri", s("u")), ("range", range(0x1_0000_0005, 0, 0, 0))]);
    assert_eq!(convert_location(&loc).unwrap().range.start_line, 5);
}

#[test]
fn definition_answer_errors() {
    assert!(matches!(normalize_targets(&n(3)), Err(DefinitionError::UnexpectedFormat(_))));
    assert!(matches!(normalize_targets(&JsonValue::Array(vec![n(1)])), Err(DefinitionError::EntryNotObject)));
    assert!(matches!(normalize_targets(&o(vec![("x", n(1))])), Err(DefinitionError::MissingLocationFields(_))));
    let bad_uri = o(vec![("uri", n(1)), ("range", range(0, 0, 0, 0))]);
    assert!(matches!(convert_location(&bad_uri), Err(DefinitionError::UriNotString(LocationForm::Location))));
    let no_range = o(vec![("targetUri", s("u"))]);
    assert!(matches!(convert_location(&no_range), Err(DefinitionError::RangeMissing(LocationForm::LocationLink))));
    let range_not_obj = o(vec![("uri", s("u")), ("range", n(0))]);
    assert!(matches!(convert_location(&range_not_obj), Err(DefinitionError::RangeNotObject)));
    let no_end = o(vec![("uri", s("u")), ("range", o(vec![("start", pos(0, 0))]))]);
    assert!(matches!(convert_location(&no_end), Err(DefinitionError::RangeEndMissing(RangeEnd::End))));
    let neg = o(vec![("uri", s("u")), ("range", o(vec![("start", pos(0, 0)), ("end", o(vec![("line", JsonValue::Number(JsonNumber::NegInt(-1))), ("character", n(0))]))]))]);
    assert!(matches!(
        convert_location(&neg),
        Err(DefinitionError::InvalidCoordinate(RangeEnd::End, Coordinate::Line))
    ));
    // the first bad entry decides
    let arr = JsonValue::Array(vec![o(vec![("uri", s("u")), ("range", range(0, 0, 0, 0))]), n(1), o(vec![])]);
    assert!(matches!(normalize_targets(&arr), Err(DefinitionError::EntryNotObject)));
}

#[test]
fn empty_answers_are_retried_three_times() {
    let tool = DefinitionTool::new();
    let mut attempts = tool.start();
    assert!(matches!(attempts.on_answer(&JsonValue::Null), DefinitionStep::RetryAfterDelay));
    assert!(matches!(attempts.on_answer(&JsonValue::Array(vec![])), DefinitionStep::RetryAfterDelay));
    match attempts.on_answer(&JsonValue::Null) {
        DefinitionStep::Done(Ok(r)) => assert!(r.targets.is_empty()),
        _ => panic!("third empty answer should end the lookup"),
    }
    assert_eq!(MAX_RETRIES, 3);

    let mut attempts = tool.start();
    assert!(matches!(attempts.on_answer(&JsonValue::Null), DefinitionStep::RetryAfterDelay));
    let loc = o(vec![("uri", s("file:///a.rs")), ("range", range(5, 0, 5, 3))]);
    match attempts.on_answer(&loc) {
        DefinitionStep::Done(Ok(r)) => assert_eq!(r.targets[0].range.start_line, 5),
        _ => panic!("a target should end the lookup"),
    }
    let mut attempts = tool.start();
    assert!(matches!(attempts.on_answer(&n(1)), DefinitionStep::Done(Err(DefinitionError::UnexpectedFormat(_)))));
}

#[test]
fn request_parameters_and_descriptor() {
    let req = DefinitionRequest { uri: "file:///m.rs".to_string(), line: 1, character: 16 };
    let params = DefinitionTool::request_params(&req);
    let td = params.get("textDocument").unwrap();
    assert_eq!(td.get("uri").unwrap().as_str().unwrap(), "file:///m.rs");
    let p = params.get("position").unwrap();
    assert_eq!(p.get("line").unwrap().as_u64(), Some(1));
    assert_eq!(p.get("character").unwrap().as_u64(), Some(16));

    assert_eq!(
        DefinitionTool::description(),
        "Return LSP-backed jump-to-definition targets for a given URI and position"
    );
    let d = DefinitionTool::descriptor();
    assert_eq!(d.get("name").unwrap().as_str().unwrap(), "definition");
    let schema = d.get("inputSchema").unwrap();
    assert_eq!(schema.get("type").unwrap().as_str().unwrap(), "object");
    let props = schema.get("properties").unwrap();
    assert_eq!(props.get("line").unwrap().get("type").unwrap().as_str().unwrap(), "integer");
    match schema.get("required").unwrap() {
        JsonValue::Array(items) => assert_eq!(items.len(), 3),
        _ => panic!("required must be an array"),
    }
}
