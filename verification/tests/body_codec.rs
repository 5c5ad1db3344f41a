use relay_core::proxy::body_codec::{
    bytes_of_record, is_grpc_content_type, parse_messages, process_body, process_body_with_framing,
};

fn headers(content_type: &str) -> Vec<(String, String)> {
    vec![("content-type".to_string(), content_type.to_string())]
}

fn frame(payload: &[u8]) -> Vec<u8> {
    let mut out = vec![0u8];
    out.extend_from_slice(&(payload.len() as u32).to_be_bytes());
    out.extend_from_slice(payload);
    out
}

#[test]
fn a_grpc_body_gains_framing_and_a_normal_body_does_not() {
    let body = frame(b"\x08\x01");

    let (_, _, grpc) = process_body_with_framing(&body, &headers("application/grpc+proto"));
    let parsed = grpc.expect("a grpc body must carry framing");
    assert_eq!(parsed.messages.len(), 1);
    assert_eq!(parsed.messages[0].length, 2);
    assert!(parsed.is_unary());

    let (_, _, none) = process_body_with_framing(&body, &headers("application/octet-stream"));
    assert!(none.is_none(), "a non-grpc body has no framing to report");
}

#[test]
fn a_grpc_body_is_bytes_even_when_its_payload_is_text() {
    let body = frame(b"\x08\x01");

    let (encoding, content, grpc) = process_body_with_framing(&body, &headers("application/grpc+proto"));

    assert_eq!(encoding, "base64", "the framing is binary and must not be decoded as text");
    assert_eq!(content, data_encoding::BASE64.encode(&body));
    assert!(grpc.is_some());
}

#[test]
fn an_empty_grpc_message_is_bytes_with_empty_text() {
    let body = [0x00u8, 0x00, 0x00, 0x00, 0x00];

    let (encoding, _, grpc) = process_body_with_framing(&body, &headers("application/grpc"));

    assert_eq!(encoding, "base64");
    let parsed = grpc.expect("an empty message is still a message");
    assert!(parsed.is_unary());
    assert_eq!(parsed.messages[0].text, Some(String::new()));
}

#[test]
fn an_unparsable_grpc_body_reports_no_framing_rather_than_partial() {
    let mut body = frame(b"complete");
    body.extend_from_slice(&[0x00, 0x00, 0x00, 0x00, 0x20, b'x']);

    let (_, _, grpc) = process_body_with_framing(&body, &headers("application/grpc"));

    assert!(grpc.is_none(), "a short frame is a truncated capture, not a one-message call");
}

#[test]
fn text_is_shown_as_text_and_bytes_as_base64() {
    assert_eq!(
        process_body(b"hello", &headers("text/plain")),
        ("utf-8".to_string(), "hello".to_string())
    );
    assert_eq!(
        process_body(b"hello", &headers("image/png")),
        ("base64".to_string(), "aGVsbG8=".to_string())
    );
    assert_eq!(
        process_body(b"\xff\xfe", &headers("text/plain")),
        ("base64".to_string(), "//4=".to_string())
    );
    assert_eq!(process_body(b"hello", &[]), ("utf-8".to_string(), "hello".to_string()));
    assert_eq!(process_body(b"{}", &headers("Application/JSON")).0, "utf-8");
}

#[test]
fn what_is_shown_gives_the_bytes_back() {
    for body in [&b"hello"[..], b"\xff\x00\x80", b"", "žluť".as_bytes()] {
        for kind in ["text/plain", "image/png", "application/octet-stream", ""] {
            let (encoding, content) = process_body(body, &headers(kind));
            assert_eq!(bytes_of_record(&encoding, &content), body);
        }
    }
}

#[test]
fn undecodable_records_are_sent_as_written() {
    assert_eq!(bytes_of_record("base64", "not base64!"), b"not base64!");
    assert_eq!(bytes_of_record("base64", "aGk="), b"hi");
    assert_eq!(bytes_of_record("utf-8", "aGk="), b"aGk=");
}

#[test]
fn grpc_is_told_by_its_content_type() {
    assert!(is_grpc_content_type("application/grpc"));
    assert!(is_grpc_content_type("application/grpc+proto"));
    assert!(!is_grpc_content_type("application/json"));
}

#[test]
fn messages_cover_the_whole_body() {
    let mut body = frame(b"one");
    body.extend_from_slice(&frame(b"three"));
    let parsed = parse_messages(&body).expect("two messages");
    assert_eq!(parsed.messages.len(), 2);
    assert_eq!(parsed.messages[0].length, 3);
    assert_eq!(parsed.messages[1].length, 5);
    assert!(!parsed.is_unary());
    assert!(parse_messages(&body[..body.len() - 1]).is_none());
}
