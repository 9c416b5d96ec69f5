use pathfinder_mcp::json::{JsonMember, JsonNumber, JsonValue};
use pathfinder_mcp::transport::{
    decode_frame_body, encode_frame, encode_message, FrameError, HeaderReader, HeaderStep,
};

/// Splits bytes into lines the way a buffered line reader does (each line
/// keeps its `\n`).
fn lines_of(bytes: &[u8]) -> Vec<String> {
    let mut out = Vec::new();
    let mut cur = Vec::new();
    for &b in bytes {
        cur.push(b);
        if b == b'\n' {
            out.push(String::from_utf8(cur.clone()).unwrap());
            cur.clear();
        }
    }
    if !cur.is_empty() {
        out.push(String::from_utf8(cur).unwrap());
    }
    out
}

/// Reads one frame from `bytes`: the body, or `None` at the end of the stream.
fn read_frame(bytes: &[u8]) -> Result<Option<Vec<u8>>, FrameError> {
    let mut reader = HeaderReader::new();
    let mut consumed = 0;
    let lines = lines_of(bytes);
    let mut complete = false;
    for line in &lines {
        consumed += line.len();
        if reader.feed_line(line) == HeaderStep::Complete {
            complete = true;
            break;
        }
    }
    if !complete {
        reader.at_end_of_stream()?;
        return Ok(None);
    }
    let n = reader.content_length()?;
    Ok(Some(bytes[consumed..consumed + n].to_vec()))
}

#[test]
fn frame_round_trip() {
    let body = br#"{"id":1,"jsonrpc":"2.0","method":"test"}"#;
    let frame = encode_frame(body);
    assert_eq!(&frame[..20], b"Content-Length: 40\r\n");
    assert_eq!(read_frame(&frame).unwrap().unwrap(), body.to_vec());
    let empty = encode_frame(b"");
    assert_eq!(empty, b"Content-Length: 0\r\n\r\n".to_vec());
    assert_eq!(read_frame(&empty).unwrap().unwrap(), Vec::<u8>::new());
}

#[test]
fn end_of_stream_before_headers() {
    assert_eq!(read_frame(b"").unwrap(), None);
    assert_eq!(read_frame(b"\r\n\r\nnoise\n").unwrap(), None);
    assert_eq!(read_frame(b"Content-Length: 3\r\n"), Err(FrameError::UnexpectedEof));
}

#[test]
fn header_lines() {
    let mut reader = HeaderReader::new();
    assert_eq!(reader.feed_line("\r\n"), HeaderStep::Continue);
    assert_eq!(reader.feed_line("  CONTENT-length :  +12 \r\n"), HeaderStep::Continue);
    assert_eq!(reader.feed_line("Content-Type: application/json\r\n"), HeaderStep::Continue);
    assert_eq!(reader.feed_line("no colon here\n"), HeaderStep::Continue);
    assert_eq!(reader.content_length(), Ok(12));
    assert_eq!(reader.feed_line("\n"), HeaderStep::Complete);

    let mut reader = HeaderReader::new();
    reader.feed_line("Content-Length: 5\r\n");
    reader.feed_line("Content-Length: 7\r\n");
    assert_eq!(reader.content_length(), Ok(7));
}

#[test]
fn content_length_errors() {
    let mut reader = HeaderReader::new();
    reader.feed_line("Content-Type: x\r\n");
    assert_eq!(reader.content_length(), Err(FrameError::MissingContentLength));
    let mut reader = HeaderReader::new();
    reader.feed_line("Content-Length: -1\r\n");
    assert_eq!(reader.content_length(), Err(FrameError::InvalidContentLength));
    let mut reader = HeaderReader::new();
    reader.feed_line("Content-Length: 99999999999999999999999\r\n");
    assert_eq!(reader.content_length(), Err(FrameError::InvalidContentLength));
    let mut reader = HeaderReader::new();
    reader.feed_line("Content-Length:\r\n");
    assert_eq!(reader.content_length(), Err(FrameError::InvalidContentLength));
}

/// Reads the headers of one frame from `bytes`: the reader and the bytes
/// that follow the header block.
fn read_headers(bytes: &[u8]) -> (HeaderReader, Vec<u8>) {
    let mut reader = HeaderReader::new();
    let mut consumed = 0;
    for line in &lines_of(bytes) {
        consumed += line.len();
        if reader.feed_line(line) == HeaderStep::Complete {
            break;
        }
    }
    (reader, bytes[consumed..].to_vec())
}

fn member(key: &str, value: JsonValue) -> JsonMember {
    JsonMember { key: key.to_string(), value }
}

#[test]
fn round_trip_json_payload() {
    let payload = JsonValue::Object(vec![
        member("jsonrpc", JsonValue::String("2.0".to_string())),
        member("id", JsonValue::Number(JsonNumber::PosInt(1))),
        member("method", JsonValue::String("test".to_string())),
    ]);
    let frame = encode_message(&payload);
    let (headers, body) = read_headers(&frame);
    let read_back = decode_frame_body(&headers, &body).unwrap();
    match &read_back {
        JsonValue::Object(members) => assert_eq!(members.len(), 3),
        _ => panic!("the payload is an object"),
    }
    assert_eq!(read_back.get("jsonrpc").unwrap().as_str().unwrap(), "2.0");
    assert_eq!(read_back.get("id").unwrap().as_u64(), Some(1));
    assert_eq!(read_back.get("method").unwrap().as_str().unwrap(), "test");
}

#[test]
fn message_bytes_are_the_json_text() {
    let payload = JsonValue::Object(vec![
        member("b", JsonValue::Array(vec![JsonValue::Null, JsonValue::Bool(true)])),
        member("a", JsonValue::Number(JsonNumber::NegInt(-3))),
        member("c", JsonValue::Number(JsonNumber::Float("1.5".to_string()))),
    ]);
    let frame = encode_message(&payload);
    let text = r#"{"a":-3,"b":[null,true],"c":1.5}"#;
    assert_eq!(frame, format!("Content-Length: {}\r\n\r\n{}", text.len(), text).into_bytes());
}

#[test]
fn frame_bodies_are_decoded() {
    let (headers, _) = read_headers(b"Content-Length: 29\r\n\r\n");
    let v = decode_frame_body(&headers, br#"{"x":[1,-2,2.5,"s"],"y":null}"#).unwrap();
    match v.get("x").unwrap() {
        JsonValue::Array(items) => {
            assert_eq!(items.len(), 4);
            assert_eq!(items[0].as_u64(), Some(1));
            assert_eq!(items[1].as_i64(), Some(-2));
            assert!(matches!(&items[2], JsonValue::Number(JsonNumber::Float(t)) if t == "2.5"));
            assert_eq!(items[3].as_str().unwrap(), "s");
        },
        _ => panic!("x is an array"),
    }
    assert!(matches!(v.get("y"), Some(JsonValue::Null)));
}

#[test]
fn frame_body_errors() {
    let (headers, _) = read_headers(b"Content-Length: 4\r\n\r\n");
    assert!(matches!(decode_frame_body(&headers, b"null"), Ok(JsonValue::Null)));
    assert_eq!(decode_frame_body(&headers, b"nul").unwrap_err(), FrameError::BodyLengthMismatch);
    assert_eq!(decode_frame_body(&headers, b"{}{}").unwrap_err(), FrameError::InvalidJson);
    assert_eq!(decode_frame_body(&headers, b"nulL").unwrap_err(), FrameError::InvalidJson);
    let (headers, _) = read_headers(b"Content-Type: x\r\n\r\n");
    assert_eq!(decode_frame_body(&headers, b"null").unwrap_err(), FrameError::MissingContentLength);
    let (headers, _) = read_headers(b"Content-Length: four\r\n\r\n");
    assert_eq!(decode_frame_body(&headers, b"null").unwrap_err(), FrameError::InvalidContentLength);
}

#[test]
fn eof_returns_none() {
    let next = read_frame(b"").unwrap();
    assert!(next.is_none());
}
