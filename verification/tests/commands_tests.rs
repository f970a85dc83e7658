use eventstore::commands::{
    raw_uuid_to_uuid, read_resp_to_resolved_event, server_event_to_client_event,
    try_read_resp_to_resolved_event, ReadStreamEvents,
};
use eventstore::messages::{
    CountOption, ReadDirection, ReadEvent, ReadResp, RevisionOption, StreamOption, StructuredUuid,
    Uuid, UuidValue, WireRecordedEvent,
};
use eventstore::position::Position;
use std::collections::HashMap;

const ID: &str = "550e8400-e29b-41d4-a716-446655440000";
const ID_VALUE: u128 = 0x550e8400_e29b_41d4_a716_446655440000;

fn text_id(s: &str) -> Uuid {
    Uuid { value: Some(UuidValue::String(s.to_string())) }
}

fn wire(stream: &str, id: Option<Uuid>) -> WireRecordedEvent {
    let mut metadata = HashMap::new();
    metadata.insert("type".to_string(), "x".to_string());
    WireRecordedEvent {
        id,
        stream_name: stream.to_string(),
        stream_revision: 4,
        prepare_position: 10,
        commit_position: 20,
        metadata,
        custom_metadata: vec![1],
        data: vec![9, 8],
    }
}

#[test]
fn uuid_from_text() {
    assert_eq!(raw_uuid_to_uuid(text_id(ID)), ID_VALUE);
}

#[test]
fn uuid_from_halves() {
    let halves = |hi: i64, lo: i64| Uuid {
        value: Some(UuidValue::Structured(StructuredUuid { most_significant_bits: hi, least_significant_bits: lo })),
    };
    assert_eq!(raw_uuid_to_uuid(halves(1, 2)), (1u128 << 64) + 2);
    assert_eq!(raw_uuid_to_uuid(halves(0x550e8400e29b41d4, 0xa716446655440000u64 as i64)), ID_VALUE);
    assert_eq!(raw_uuid_to_uuid(halves(-1, -1)), u128::MAX);
}

#[test]
fn server_event_converts() {
    let e = server_event_to_client_event(wire("s", Some(text_id(ID))));
    assert_eq!(e.event_stream_id, "s");
    assert_eq!(e.event_id, ID_VALUE);
    assert_eq!(e.stream_revision, 4);
    assert_eq!(e.event_type, "<not known yet>");
    assert_eq!(e.position, Position { commit: 20, prepare: 10 });
    assert_eq!(e.data, vec![9, 8]);
    assert_eq!(e.metadata.get("type").map(|s| s.as_str()), Some("x"));
}

#[test]
fn read_response_converts() {
    let resp = ReadResp {
        event: Some(ReadEvent { event: Some(wire("a", Some(text_id(ID)))), link: Some(wire("b", Some(text_id(ID)))), position: None }),
    };
    let r = read_resp_to_resolved_event(resp);
    assert!(r.is_resolved());
    assert!(r.position.is_none());
    assert_eq!(r.get_original_stream_id(), Some("b"));
}

#[test]
fn read_response_that_cannot_convert() {
    assert!(try_read_resp_to_resolved_event(ReadResp { event: None }).is_none());
    let no_id = ReadResp { event: Some(ReadEvent { event: Some(wire("a", None)), link: None, position: None }) };
    assert!(try_read_resp_to_resolved_event(no_id).is_none());
    let bad_text = ReadResp { event: Some(ReadEvent { event: Some(wire("a", Some(text_id("nope")))), link: None, position: None }) };
    assert!(try_read_resp_to_resolved_event(bad_text).is_none());
    let halves = Uuid { value: Some(UuidValue::Structured(StructuredUuid { most_significant_bits: 1, least_significant_bits: 2 })) };
    let structured = ReadResp { event: Some(ReadEvent { event: Some(wire("a", Some(halves))), link: None, position: None }) };
    let r = try_read_resp_to_resolved_event(structured).unwrap();
    assert_eq!(r.event.unwrap().event_id, (1u128 << 64) + 2);
    let ok = ReadResp { event: Some(ReadEvent { event: Some(wire("a", Some(text_id(ID)))), link: None, position: None }) };
    let r = try_read_resp_to_resolved_event(ok).unwrap();
    assert!(!r.is_resolved());
    assert_eq!(r.get_original_stream_id(), Some("a"));
}

#[test]
fn read_command_defaults_and_builders() {
    let c = ReadStreamEvents::new((), "stream".to_string());
    assert_eq!(c.max_count, 500);
    assert_eq!(c.start, 0);
    assert!(!c.resolve_link_tos);
    assert_eq!(c.read_direction, ReadDirection::Forwards);
    let c = c.backward().max_count(10).start_from(7).resolve_links();
    assert_eq!(c.read_direction, ReadDirection::Backwards);
    assert_eq!(c.max_count, 10);
    assert_eq!(c.start, 7);
    assert!(c.resolve_link_tos);
    let c = c.start_from_beginning();
    assert_eq!((c.start, c.read_direction), (0, ReadDirection::Forwards));
    let c = c.start_from_end_of_stream().no_resolve_links();
    assert_eq!((c.start, c.read_direction), (-1, ReadDirection::Backwards));
    assert!(!c.resolve_link_tos);
    let c = c.forward();
    assert_eq!(c.read_direction, ReadDirection::Forwards);
}

#[test]
fn read_command_request() {
    let c = ReadStreamEvents::new(42u8, "orders".to_string()).backward().max_count(3).resolve_links();
    let (client, req) = c.into_request();
    assert_eq!(client, 42);
    let o = req.options.unwrap();
    assert_eq!(o.read_direction, 1);
    assert!(o.resolve_links);
    match o.stream_option {
        Some(StreamOption::Stream(s)) => {
            assert_eq!(s.stream_name, "orders");
            assert_eq!(s.revision_options, Some(RevisionOption::Start));
        },
        _ => panic!("expected a stream read"),
    }
    assert_eq!(o.count_option, Some(CountOption::Count(3)));
    assert!(o.filter_option.is_none());
    assert_eq!(ReadDirection::Forwards.to_i32(), 0);
}

fn revision_sent(c: ReadStreamEvents<()>) -> Option<RevisionOption> {
    match c.into_request().1.options.unwrap().stream_option {
        Some(StreamOption::Stream(s)) => s.revision_options,
        _ => panic!("expected a stream read"),
    }
}

#[test]
fn read_command_sends_its_start() {
    let c = || ReadStreamEvents::new((), "s".to_string());
    assert_eq!(revision_sent(c()), Some(RevisionOption::Start));
    assert_eq!(revision_sent(c().start_from(12)), Some(RevisionOption::Revision(12)));
    assert_eq!(revision_sent(c().start_from(12).max_count(3).backward()), Some(RevisionOption::Revision(12)));
    assert_eq!(revision_sent(c().start_from(-1)), Some(RevisionOption::End));
    assert_eq!(revision_sent(c().start_from(12).start_from_beginning()), Some(RevisionOption::Start));
    assert_eq!(revision_sent(c().start_from_end_of_stream()), Some(RevisionOption::End));
}
