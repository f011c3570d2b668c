use chatti::error::Application;
use chatti::stream::{
    lossy, delta_of, error_delta, error_of, read_record, record_of, whole_body_delta, LineDecoder,
    StreamRecord,
};

#[test]
fn two_chunks_give_two_deltas_in_order() {
    let mut decoder = LineDecoder::new();
    let first = decoder.feed(b"{\"message\":{\"content\":\"He\"}}\n");
    assert_eq!(first, vec!["He".to_string()]);
    assert!(!decoder.is_done());
    let second = decoder.feed(b"{\"message\":{\"content\":\"llo\"},\"done\":true}\n");
    assert_eq!(second, vec!["llo".to_string()]);
    assert!(decoder.is_done());
}

#[test]
fn nothing_is_decoded_after_done() {
    let mut decoder = LineDecoder::new();
    let deltas = decoder.feed(
        b"{\"message\":{\"content\":\"a\"},\"done\":true}\n{\"message\":{\"content\":\"b\"}}\n",
    );
    assert_eq!(deltas, vec!["a".to_string()]);
    assert!(decoder.is_done());
    let later = decoder.feed(b"{\"message\":{\"content\":\"c\"}}\n");
    assert!(later.is_empty());
    assert!(decoder.is_done());
}

#[test]
fn a_line_may_arrive_in_pieces() {
    let mut decoder = LineDecoder::new();
    assert!(decoder.feed(b"{\"message\":{\"con").is_empty());
    assert!(decoder.feed(b"tent\":\"Hi\"}}").is_empty());
    assert_eq!(decoder.feed(b"\n{\"mess"), vec!["Hi".to_string()]);
    assert_eq!(
        decoder.feed(b"age\":{\"content\":\"!\"}}\n"),
        vec!["!".to_string()]
    );
    assert!(!decoder.is_done());
}

#[test]
fn several_lines_in_one_chunk() {
    let mut decoder = LineDecoder::new();
    let deltas = decoder.feed(
        b"{\"message\":{\"content\":\"a\"}}\n{\"message\":{\"content\":\"b\"}}\n{\"message\":{\"content\":\"c\"}}\n",
    );
    assert_eq!(deltas, vec!["a".to_string(), "b".to_string(), "c".to_string()]);
}

#[test]
fn malformed_lines_are_skipped() {
    let mut decoder = LineDecoder::new();
    let deltas = decoder.feed(b"not json\n\n{\"message\":{\"content\":\"ok\"}}\n{\"other\":1}\n");
    assert_eq!(deltas, vec!["ok".to_string()]);
    assert!(!decoder.is_done());
}

#[test]
fn done_false_and_done_of_another_type_go_on() {
    let mut decoder = LineDecoder::new();
    let deltas = decoder.feed(
        b"{\"message\":{\"content\":\"a\"},\"done\":false}\n{\"done\":\"true\"}\n{\"message\":{\"content\":7}}\n",
    );
    assert_eq!(deltas, vec!["a".to_string()]);
    assert!(!decoder.is_done());
    assert!(decoder.feed(b"{\"done\":true}\n").is_empty());
    assert!(decoder.is_done());
}

#[test]
fn invalid_bytes_are_replaced_not_fatal() {
    let mut decoder = LineDecoder::new();
    let mut chunk = b"{\"message\":{\"content\":\"a".to_vec();
    chunk.push(0xff);
    chunk.extend_from_slice(b"b\"}}\n");
    let deltas = decoder.feed(&chunk);
    assert_eq!(deltas, vec!["a\u{fffd}b".to_string()]);
}

#[test]
fn records_add_their_content() {
    let mut deltas = vec!["x".to_string()];
    let done = LineDecoder::apply_record(
        Some(StreamRecord { content: Some("y".to_string()), done: None }),
        &mut deltas,
    );
    assert!(!done);
    assert_eq!(deltas, vec!["x".to_string(), "y".to_string()]);
    assert!(LineDecoder::apply_record(
        Some(StreamRecord { content: None, done: Some(true) }),
        &mut deltas
    ));
    assert!(!LineDecoder::apply_record(
        Some(StreamRecord { content: None, done: Some(false) }),
        &mut deltas
    ));
    assert!(!LineDecoder::apply_record(None, &mut deltas));
    assert_eq!(deltas.len(), 2);
}

#[test]
fn whole_body_gives_its_content() {
    match whole_body_delta("{\"message\":{\"role\":\"assistant\",\"content\":\"Hello\"}}") {
        Ok(Some(text)) => assert_eq!(text, "Hello"),
        other => panic!("unexpected: {:?}", other),
    }
    assert!(matches!(whole_body_delta("{\"message\":{}}"), Ok(None)));
    assert!(matches!(whole_body_delta("[1, 2]"), Ok(None)));
    match whole_body_delta("<html>") {
        Err(Application::JsonParse(body)) => assert_eq!(body, "<html>"),
        other => panic!("unexpected: {:?}", other),
    }
}

#[test]
fn error_bodies_become_errors() {
    match error_delta("{\"error\":\"model not found\"}") {
        Application::ApiError(text) => assert_eq!(text, "model not found"),
        other => panic!("unexpected: {:?}", other),
    }
    match error_delta("{\"error\":{\"code\":1}}") {
        Application::Unexpected(text) => assert_eq!(text, "Unknown API error"),
        other => panic!("unexpected: {:?}", other),
    }
    match error_delta("{\"status\":500}") {
        Application::Unexpected(text) => assert_eq!(text, "Unknown API error"),
        other => panic!("unexpected: {:?}", other),
    }
    match error_delta("Bad Gateway") {
        Application::ApiError(text) => assert_eq!(text, "Bad Gateway"),
        other => panic!("unexpected: {:?}", other),
    }
}

#[test]
fn what_was_found_decides_what_a_body_stands_for() {
    let text = |t: &str| Some(Some(t.to_string()));
    assert!(matches!(delta_of(text("c"), "body"), Ok(Some(found)) if found == "c"));
    assert!(matches!(delta_of(Some(None), "body"), Ok(None)));
    assert!(matches!(delta_of(None, "body"), Err(Application::JsonParse(found)) if found == "body"));
    assert!(matches!(error_of(text("e"), "body"), Application::ApiError(found) if found == "e"));
    assert!(matches!(
        error_of(Some(None), "body"),
        Application::Unexpected(found) if found == "Unknown API error"
    ));
    assert!(matches!(error_of(None, "body"), Application::ApiError(found) if found == "body"));
}

#[test]
fn records_are_made_of_what_was_found() {
    let record = record_of(Some(Some("x".to_string())), Some(Some(true))).unwrap();
    assert_eq!(record.content, Some("x".to_string()));
    assert_eq!(record.done, Some(true));
    let bare = record_of(Some(None), Some(None)).unwrap();
    assert_eq!(bare.content, None);
    assert_eq!(bare.done, None);
    let odd = record_of(Some(None), None).unwrap();
    assert_eq!(odd.done, None);
    assert!(record_of(None, Some(Some(true))).is_none());
}

#[test]
fn lines_are_read_as_records() {
    let record = read_record("{\"message\":{\"content\":\"hi\"},\"done\":false}").unwrap();
    assert_eq!(record.content, Some("hi".to_string()));
    assert_eq!(record.done, Some(false));
    let other = read_record("{\"message\":[\"content\"],\"done\":1}").unwrap();
    assert_eq!(other.content, None);
    assert_eq!(other.done, None);
    assert!(read_record("{\"message\":").is_none());
    assert!(read_record("").is_none());
}

#[test]
fn cutting_the_bytes_elsewhere_changes_nothing() {
    let bytes = b"{\"message\":{\"content\":\"He\"}}\nnoise\n{\"message\":{\"content\":\"llo\"},\"done\":true}\n{\"message\":{\"content\":\"late\"}}\n";
    let mut whole = LineDecoder::new();
    let expected = whole.feed(bytes);
    assert_eq!(expected, vec!["He".to_string(), "llo".to_string()]);
    for cut in 0..=bytes.len() {
        let mut decoder = LineDecoder::new();
        let mut deltas = decoder.feed(&bytes[..cut]);
        deltas.extend(decoder.feed(&bytes[cut..]));
        assert_eq!(deltas, expected);
        assert!(decoder.is_done());
    }
    let mut bytewise = LineDecoder::new();
    let mut deltas = Vec::new();
    for byte in bytes.iter() {
        deltas.extend(bytewise.feed(&[*byte]));
    }
    assert_eq!(deltas, expected);
}

#[test]
fn any_bytes_are_taken_in() {
    let mut decoder = LineDecoder::new();
    let mut bytes = Vec::new();
    for i in 0..=255u8 {
        bytes.push(i);
        bytes.push(b'\n');
    }
    assert!(decoder.feed(&bytes).is_empty());
    assert!(!decoder.is_done());
    assert!(decoder.feed(&[]).is_empty());
    assert_eq!(
        decoder.feed(b"\"text\"\n[]\nnull\n{\"message\":null}\n{\"message\":{\"content\":\"\"}}\n"),
        vec![String::new()]
    );
}

#[test]
fn valid_bytes_are_decoded_as_they_are() {
    assert_eq!(lossy("héllo 日本".as_bytes()), "héllo 日本");
    assert_eq!(lossy(b""), "");
    assert_eq!(lossy(&[b'a', 0xff, b'b']), "a\u{fffd}b");
    assert_eq!(lossy(&[0xe6, 0x97]), "\u{fffd}");
}
