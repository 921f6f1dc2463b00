use minimal_web_server::http::parse_error::ParseErrorKind;
use minimal_web_server::http::parser::parse_request;
use minimal_web_server::request::request::{json_type, text_type, HttpRequest};

fn request_with(content_type: Option<&str>, body: &[u8]) -> HttpRequest {
    let mut head = vec!["POST /data HTTP/1.1".to_string()];
    if let Some(value) = content_type {
        head.push(format!("Content-Type: {}", value));
    }
    parse_request(&head, body.to_vec()).unwrap()
}

#[test]
fn text_body_is_decoded() {
    let request = request_with(Some("text/plain"), b"hello");
    assert_eq!(request.body_to_text().unwrap(), "hello");
}

#[test]
fn text_body_with_multibyte_characters() {
    let request = request_with(Some("text/plain; charset=utf-8"), "gr\u{fc}\u{df}e \u{1F600}".as_bytes());
    assert_eq!(request.body_to_text().unwrap(), "gr\u{fc}\u{df}e \u{1F600}");
}

#[test]
fn text_body_of_empty_request() {
    let request = request_with(Some("text/html"), b"");
    assert_eq!(request.body_to_text().unwrap(), "");
}

#[test]
fn text_body_without_content_type() {
    let err = request_with(None, b"hello").body_to_text().err().unwrap();
    assert_eq!(err.kind(), ParseErrorKind::MissingContentType);
    assert_eq!(err.description(), "request body has not content-type");
}

#[test]
fn text_body_of_binary_content() {
    let err = request_with(Some("image/png"), b"hello").body_to_text().err().unwrap();
    assert_eq!(err.kind(), ParseErrorKind::UnsupportedContent);
    assert_eq!(err.description(), "Content type is not text");
}

#[test]
fn text_body_that_is_not_utf8() {
    let err = request_with(Some("text/plain"), &[0x66, 0xff, 0x6f]).body_to_text().err().unwrap();
    assert_eq!(err.kind(), ParseErrorKind::InvalidUtf8);
    assert_eq!(err.description(), "Body is not valid UTF-8");
    let truncated = request_with(Some("text/plain"), &[0xe2, 0x82]).body_to_text().err().unwrap();
    assert_eq!(truncated.kind(), ParseErrorKind::InvalidUtf8);
}

#[test]
fn text_types() {
    assert!(text_type("text/plain"));
    assert!(text_type("TEXT/HTML"));
    assert!(text_type("application/json"));
    assert!(text_type("Application/JSON; charset=utf-8"));
    assert!(text_type("application/xml"));
    assert!(text_type("application/ld+json"));
    assert!(text_type("image/svg+xml"));
    assert!(text_type("application/x+TEXT"));
    assert!(!text_type("image/png"));
    assert!(!text_type("application/octet-stream"));
    assert!(!text_type(" text/plain"));
    assert!(!text_type("text"));
    assert!(!text_type(""));
}

#[test]
fn json_types() {
    assert!(json_type("application/json"));
    assert!(json_type("application/json; charset=utf-8"));
    assert!(!json_type("Application/JSON"));
    assert!(!json_type("application/ld+json"));
    assert!(!json_type("text/plain"));
    assert!(!json_type(""));
}

#[test]
fn json_body_is_parsed() {
    let request = request_with(Some("application/json"), br#"{"name":"ada","age":36,"tags":["x",null,true]}"#);
    let document = request.body_to_json().unwrap();
    assert_eq!(document["name"].as_str(), Some("ada"));
    assert_eq!(document["age"].as_u64(), Some(36));
    assert_eq!(document["tags"].as_array().unwrap().len(), 3);
    assert!(document["tags"][1].is_null());
    assert_eq!(document["tags"][2].as_bool(), Some(true));
    assert!(document.is_object());
}

#[test]
fn json_body_is_not_handed_back_as_text() {
    let request = request_with(Some("application/json"), b" 42 ");
    let document = request.body_to_json().unwrap();
    assert_eq!(document, serde_json::Value::from(42));
    assert!(!document.is_string());
}

#[test]
fn json_body_that_is_no_document() {
    let err = request_with(Some("application/json"), b"{\"name\":").body_to_json().err().unwrap();
    assert_eq!(err.kind(), ParseErrorKind::InvalidJson);
    assert_eq!(err.description(), "Body is not valid JSON");
    let trailing = request_with(Some("application/json"), b"1 2").body_to_json().err().unwrap();
    assert_eq!(trailing.kind(), ParseErrorKind::InvalidJson);
    let empty = request_with(Some("application/json"), b"").body_to_json().err().unwrap();
    assert_eq!(empty.kind(), ParseErrorKind::InvalidJson);
}

#[test]
fn json_body_that_is_not_utf8() {
    let err = request_with(Some("application/json"), &[0x7b, 0xff, 0x7d]).body_to_json().err().unwrap();
    assert_eq!(err.kind(), ParseErrorKind::InvalidUtf8);
}

#[test]
fn json_body_of_other_content() {
    let err = request_with(Some("text/plain"), b"{}").body_to_json().err().unwrap();
    assert_eq!(err.kind(), ParseErrorKind::UnsupportedContent);
    assert_eq!(err.description(), "Content is not application/json");
    let missing = request_with(None, b"{}").body_to_json().err().unwrap();
    assert_eq!(missing.kind(), ParseErrorKind::UnsupportedContent);
    assert_eq!(missing.description(), "Content is not application/json");
}
