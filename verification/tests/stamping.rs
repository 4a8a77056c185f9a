use responses_proxy::dumps::{dump_backend_chunk, dump_backend_request, dump_request, dump_stream_event};
use responses_proxy::models::StreamEvent;
use responses_proxy::sequencer::EventSequencer;

fn bare_event(type_: &str) -> StreamEvent {
    StreamEvent {
        type_: type_.to_string(),
        event_id: None,
        response_id: None,
        response: None,
        item_id: None,
        output_index: None,
        content_index: None,
        delta: None,
        text: None,
        item: None,
        sequence_number: None,
        call_id: None,
        name: None,
        arguments: None,
        error: None,
    }
}

#[test]
fn prepare_stamps_monotonic_ids() {
    let mut seq = EventSequencer::new();
    let (e1, n1) = seq.prepare(bare_event("response.created"), "resp_9");
    assert_eq!(n1, 1);
    assert_eq!(e1.sequence_number, Some(1));
    assert_eq!(e1.response_id.as_deref(), Some("resp_9"));
    assert_eq!(e1.event_id.as_deref(), Some("evt_resp_9_0000000000000001"));
    assert_eq!(e1.type_, "response.created");

    let (e2, n2) = seq.prepare(bare_event("response.completed"), "resp_9");
    assert_eq!(n2, 2);
    assert_eq!(e2.event_id.as_deref(), Some("evt_resp_9_0000000000000002"));
}

#[test]
fn prepare_keeps_payload_fields() {
    let mut seq = EventSequencer::new();
    let mut ev = bare_event("response.output_text.delta");
    ev.delta = Some("abc".to_string());
    ev.output_index = Some(0);
    let (stamped, _) = seq.prepare(ev, "r");
    assert_eq!(stamped.delta.as_deref(), Some("abc"));
    assert_eq!(stamped.output_index, Some(0));
}

#[test]
fn hex_counter_is_sixteen_digits() {
    let mut seq = EventSequencer::new();
    for _ in 0..17 {
        let (e, _) = seq.prepare(bare_event("t"), "r");
        let id = e.event_id.unwrap();
        let suffix = &id["evt_r_".len()..];
        assert_eq!(suffix.len(), 16);
        assert!(suffix.chars().all(|c| c.is_ascii_hexdigit()));
    }
    let (e, _) = seq.prepare(bare_event("t"), "r");
    assert_eq!(e.event_id.as_deref(), Some("evt_r_0000000000000012"));
}

#[test]
fn request_dump_is_pretty_printed() {
    let d = dump_request("{\"a\":1}", "rid", "20240101_000000.000");
    assert_eq!(d.name, "20240101_000000.000_request_rid.json");
    assert_eq!(d.content, "{\n  \"a\": 1\n}");
}

#[test]
fn invalid_json_dump_is_verbatim() {
    let d = dump_request("not json", "rid", "ts");
    assert_eq!(d.content, "not json");
}

#[test]
fn stream_event_dump_pads_sequence() {
    let d = dump_stream_event("{}", "rid", 7, "ts");
    assert_eq!(d.name, "ts_stream_rid_0007.json");
    let d2 = dump_stream_event("{}", "rid", 12345, "ts");
    assert_eq!(d2.name, "ts_stream_rid_12345.json");
}

#[test]
fn backend_dumps() {
    let r = dump_backend_request("{\"m\":2}", "rid", "ts");
    assert_eq!(r.name, "ts_backend_request_rid.json");
    assert_eq!(r.content, "{\n  \"m\": 2\n}");
    let c = dump_backend_chunk("raw chunk", "rid", 3, "ts");
    assert_eq!(c.name, "ts_backend_chunk_rid_0003.txt");
    assert_eq!(c.content, "raw chunk");
}
