use responses_proxy::sse::{SseEventParser, is_blank_payload, is_done_marker};

#[test]
fn one_event_one_payload() {
    let mut p = SseEventParser::new();
    let out = p.push_and_drain_events(b"data: hello\n\n");
    assert_eq!(out.len(), 1);
    assert_eq!(out[0], b"hello".to_vec());
}

#[test]
fn event_split_across_chunks() {
    let mut p = SseEventParser::new();
    let out1 = p.push_and_drain_events(b"data: hel");
    assert_eq!(out1.len(), 0);
    let out2 = p.push_and_drain_events(b"lo\n\n");
    assert_eq!(out2.len(), 1);
    assert_eq!(out2[0], b"hello".to_vec());
}

#[test]
fn byte_at_a_time_equals_one_chunk() {
    let stream: &[u8] = b"data: {\"a\":1}\n\ndata: two\r\n\r\nretry: 5\ndata: three\n\n";
    let mut whole = SseEventParser::new();
    let expected = whole.push_and_drain_events(stream);

    let mut byte_wise = SseEventParser::new();
    let mut got: Vec<Vec<u8>> = Vec::new();
    for b in stream {
        let mut out = byte_wise.push_and_drain_events(&[*b]);
        got.append(&mut out);
    }
    assert_eq!(got, expected);
    assert_eq!(expected.len(), 3);
    assert_eq!(expected[0], b"{\"a\":1}".to_vec());
    assert_eq!(expected[1], b"two".to_vec());
    assert_eq!(expected[2], b"three".to_vec());
}

#[test]
fn multiple_data_lines_concatenate() {
    let mut p = SseEventParser::new();
    let out = p.push_and_drain_events(b"data: ab\ndata: cd\n\n");
    assert_eq!(out.len(), 1);
    assert_eq!(out[0], b"abcd".to_vec());
}

#[test]
fn non_data_lines_are_ignored() {
    let mut p = SseEventParser::new();
    let out = p.push_and_drain_events(b": keepalive\nevent: message\nid: 7\ndata: x\n\n");
    assert_eq!(out.len(), 1);
    assert_eq!(out[0], b"x".to_vec());
}

#[test]
fn event_without_data_yields_nothing() {
    let mut p = SseEventParser::new();
    let out = p.push_and_drain_events(b": comment only\n\n\n\n");
    assert_eq!(out.len(), 0);
}

#[test]
fn leading_whitespace_after_data_is_stripped() {
    let mut p = SseEventParser::new();
    let out = p.push_and_drain_events(b"data:   \t spaced\n\n");
    assert_eq!(out[0], b"spaced".to_vec());
}

#[test]
fn crlf_line_endings() {
    let mut p = SseEventParser::new();
    let out = p.push_and_drain_events(b"data: one\r\n\r\n");
    assert_eq!(out.len(), 1);
    assert_eq!(out[0], b"one".to_vec());
}

#[test]
fn done_marker_detection() {
    assert!(is_done_marker(&b"[DONE]".to_vec()));
    assert!(is_done_marker(&b"  [DONE] \n".to_vec()));
    assert!(!is_done_marker(&b"[DONE".to_vec()));
    assert!(!is_done_marker(&b"done".to_vec()));
    let mut p = SseEventParser::new();
    let out = p.push_and_drain_events(b"data: [DONE]\n\n");
    assert_eq!(out[0], b"[DONE]".to_vec());
    assert!(is_done_marker(&out[0]));
}

#[test]
fn blank_payload_detection() {
    assert!(is_blank_payload(&b"".to_vec()));
    assert!(is_blank_payload(&b" \t ".to_vec()));
    assert!(!is_blank_payload(&b"x".to_vec()));
}
