//! The command that reads events from a stream, and the conversion of what
//! the server answers into the client's event types.

use vstd::prelude::*;
use crate::external::{parse_uuid, uuid_parse};
use crate::messages::{
    CountOption, ReadDirection, ReadOptions, ReadReq, ReadResp, RevisionOption, StreamOption,
    StreamOptions, StructuredUuid, Uuid, UuidValue, WireRecordedEvent,
};
use crate::position::Position;
use crate::types::{RecordedEvent, ResolvedEvent};

verus! {

/// The UUID two 64-bit halves give: the most significant half, then the
/// least significant one, each read as its 64 bits in big-endian order.
pub open spec fn uuid_of_halves(h: StructuredUuid) -> u128 {
    ((h.most_significant_bits as u64) as int * 0x1_0000_0000_0000_0000 + (
    h.least_significant_bits as u64) as int) as u128
}

/// The UUID an identifier from the server gives, when it can be converted:
/// two halves always convert; a text converts when the UUID parser accepts
/// it.
pub open spec fn uuid_of(src: Uuid) -> Option<u128> {
    match src.value {
        Some(UuidValue::String(s)) => uuid_parse(s@),
        Some(UuidValue::Structured(h)) => Some(uuid_of_halves(h)),
        None => None,
    }
}

/// Joins the two halves of a UUID into its 128-bit value.
pub fn join_halves(h: StructuredUuid) -> (r: u128)
    ensures
        r == uuid_of_halves(h),
{
    let hi = h.most_significant_bits as u64;
    let lo = h.least_significant_bits as u64;
    (hi as u128) * 0x1_0000_0000_0000_0000u128 + (lo as u128)
}

/// Whether an event from the server can be converted: it has an identifier
/// that converts.
pub open spec fn convertible_event(src: WireRecordedEvent) -> bool {
    src.id matches Some(id) && uuid_of(id) is Some
}

/// Whether an event converts depends on its identifier alone, whatever its
/// stream, revision, positions, data or metadata: two events with the same
/// identifier convert alike; an identifier made of two halves always
/// converts, one made of text converts when the UUID parser accepts it, and
/// an event without an identifier does not convert.
pub proof fn lemma_event_conversion_needs_only_the_id(a: WireRecordedEvent, b: WireRecordedEvent)
    ensures
        a.id == b.id ==> convertible_event(a) == convertible_event(b),
        a.id matches Some(id) ==> (id.value matches Some(UuidValue::Structured(_))
            ==> convertible_event(a)),
        a.id matches Some(id) ==> (id.value matches Some(UuidValue::String(s)) ==> (
        convertible_event(a) <==> uuid_parse(s@) is Some)),
        a.id is None ==> !convertible_event(a),
{
}

/// Whether a read response can be converted: it holds an event read, whose
/// event and link, where present, convert.
pub open spec fn convertible_response(resp: ReadResp) -> bool {
    resp.event matches Some(e) && (e.event matches Some(ev) ==> convertible_event(ev)) && (
    e.link matches Some(l) ==> convertible_event(l))
}

/// The client event an event from the server converts to.
pub open spec fn converted_event(src: WireRecordedEvent, out: RecordedEvent) -> bool {
    &&& out.event_stream_id == src.stream_name
    &&& Some(out.event_id) == uuid_of(src.id.unwrap())
    &&& out.stream_revision == src.stream_revision
    &&& out.data == src.data
    &&& out.metadata == src.metadata
    &&& out.event_type@ == "<not known yet>"@
    &&& out.position == Position { commit: src.commit_position, prepare: src.prepare_position }
}

/// A response that holds an event read converts exactly when its event and
/// its link, where present, have identifiers that convert; nothing else of
/// them matters.
pub proof fn lemma_response_conversion(resp: ReadResp)
    ensures
        convertible_response(resp) <==> (resp.event matches Some(e) && (e.event matches Some(ev)
            ==> ev.id matches Some(id) && uuid_of(id) is Some) && (e.link matches Some(l)
            ==> l.id matches Some(id) && uuid_of(id) is Some)),
{
}

/// Converts an identifier into its 128-bit value.
pub fn raw_uuid_to_uuid(src: Uuid) -> (r: u128)
    requires
        uuid_of(src) is Some,
    ensures
        Some(r) == uuid_of(src),
{
    match src.value {
        Some(UuidValue::String(s)) => match parse_uuid(s.as_str()) {
            Some(u) => u,
            None => 0,
        },
        Some(UuidValue::Structured(h)) => join_halves(h),
        None => 0,
    }
}

/// Converts an event as the server sends it into the client's event.
pub fn server_event_to_client_event(src: WireRecordedEvent) -> (r: RecordedEvent)
    requires
        convertible_event(src),
    ensures
        converted_event(src, r),
{
    let ghost s = src;
    let position = Position { commit: src.commit_position, prepare: src.prepare_position };
    let event_id = match src.id {
        Some(id) => raw_uuid_to_uuid(id),
        None => 0,
    };
    let r = RecordedEvent {
        event_stream_id: src.stream_name,
        stream_revision: src.stream_revision,
        data: src.data,
        metadata: src.metadata,
        event_type: String::from_str("<not known yet>"),
        position,
        event_id,
    };
    assert(converted_event(s, r));
    r
}

/// Converts a read response into the resolved event it holds: its event
/// and its link, converted; no position.
pub fn read_resp_to_resolved_event(resp: ReadResp) -> (r: ResolvedEvent)
    requires
        convertible_response(resp),
    ensures
        r.position is None,
        ({
            let e = resp.event.unwrap();
            &&& (e.event is None <==> r.event is None)
            &&& (e.event matches Some(ev) ==> converted_event(ev, r.event.unwrap()))
            &&& (e.link is None <==> r.link is None)
            &&& (e.link matches Some(l) ==> converted_event(l, r.link.unwrap()))
        }),
{
    match resp.event {
        Some(read) => {
            let event = match read.event {
                Some(ev) => Some(server_event_to_client_event(ev)),
                None => None,
            };
            let link = match read.link {
                Some(l) => Some(server_event_to_client_event(l)),
                None => None,
            };
            ResolvedEvent { event, link, position: None }
        },
        None => ResolvedEvent { event: None, link: None, position: None },
    }
}

/// Whether an event from the server has an identifier that converts; this
/// asks the UUID parser.
pub fn event_convertible(src: &WireRecordedEvent) -> (r: bool)
    ensures
        r == convertible_event(*src),
{
    match &src.id {
        Some(id) => match &id.value {
            Some(UuidValue::String(s)) => parse_uuid(s.as_str()).is_some(),
            Some(UuidValue::Structured(_)) => true,
            None => false,
        },
        None => false,
    }
}

/// Converts a read response into the resolved event it holds, or gives
/// `None` when it cannot be converted.
pub fn try_read_resp_to_resolved_event(resp: ReadResp) -> (r: Option<ResolvedEvent>)
    ensures
        r is Some <==> convertible_response(resp),
        r matches Some(out) ==> {
            let e = resp.event.unwrap();
            &&& out.position is None
            &&& (e.event is None <==> out.event is None)
            &&& (e.event matches Some(ev) ==> converted_event(ev, out.event.unwrap()))
            &&& (e.link is None <==> out.link is None)
            &&& (e.link matches Some(l) ==> converted_event(l, out.link.unwrap()))
        },
{
    let ok = match &resp.event {
        Some(read) => {
            let event_ok = match &read.event {
                Some(ev) => event_convertible(ev),
                None => true,
            };
            let link_ok = match &read.link {
                Some(l) => event_convertible(l),
                None => true,
            };
            event_ok && link_ok
        },
        None => false,
    };
    if ok {
        Some(read_resp_to_resolved_event(resp))
    } else {
        None
    }
}

/// A command that reads several events from a stream. It can read events
/// forward or backward.
pub struct ReadStreamEvents<C> {
    pub client: C,
    pub stream: String,
    pub max_count: i32,
    pub start: i64,
    pub resolve_link_tos: bool,
    pub read_direction: ReadDirection,
    /// Where the read starts, as the request asks for it.
    pub revision: RevisionOption,
}

/// Where a read set to start at event `start` starts: that event when it is
/// not negative, otherwise the end of the stream.
pub open spec fn revision_for(start: i64) -> RevisionOption {
    if start >= 0 {
        RevisionOption::Revision(start as u64)
    } else {
        RevisionOption::End
    }
}

impl<C> ReadStreamEvents<C> {
    /// A read of `stream` through `client`: forward, from event 0, at most
    /// 500 events, without resolving links.
    pub fn new(client: C, stream: String) -> (r: Self)
        ensures
            r.client == client,
            r.stream == stream,
            r.max_count == 500,
            r.start == 0,
            !r.resolve_link_tos,
            r.read_direction == ReadDirection::Forwards,
            r.revision == RevisionOption::Start,
    {
        ReadStreamEvents {
            client,
            stream,
            max_count: 500,
            start: 0,
            resolve_link_tos: false,
            read_direction: ReadDirection::Forwards,
            revision: RevisionOption::Start,
        }
    }

    /// Asks the command to read forward (toward the end of the stream).
    /// That's the default behavior.
    pub fn forward(self) -> (r: Self)
        ensures
            r == (ReadStreamEvents { read_direction: ReadDirection::Forwards, ..self }),
    {
        ReadStreamEvents { read_direction: ReadDirection::Forwards, ..self }
    }

    /// Asks the command to read backward (toward the beginning of the
    /// stream).
    pub fn backward(self) -> (r: Self)
        ensures
            r == (ReadStreamEvents { read_direction: ReadDirection::Backwards, ..self }),
    {
        ReadStreamEvents { read_direction: ReadDirection::Backwards, ..self }
    }

    /// Max batch size.
    pub fn max_count(self, max_count: i32) -> (r: Self)
        ensures
            r == (ReadStreamEvents { max_count, ..self }),
    {
        ReadStreamEvents { max_count, ..self }
    }

    /// Starts the read at the given event number. By default, it starts at
    /// 0. A negative number starts at the end of the stream.
    pub fn start_from(self, start: i64) -> (r: Self)
        ensures
            r == (ReadStreamEvents { start, revision: revision_for(start), ..self }),
    {
        let revision = if start >= 0 {
            RevisionOption::Revision(start as u64)
        } else {
            RevisionOption::End
        };
        ReadStreamEvents { start, revision, ..self }
    }

    /// Starts the read from the beginning of the stream. It also sets the
    /// read direction to forward.
    pub fn start_from_beginning(self) -> (r: Self)
        ensures
            r == (ReadStreamEvents {
                start: 0,
                read_direction: ReadDirection::Forwards,
                revision: RevisionOption::Start,
                ..self
            }),
    {
        ReadStreamEvents {
            start: 0,
            read_direction: ReadDirection::Forwards,
            revision: RevisionOption::Start,
            ..self
        }
    }

    /// Starts the read from the end of the stream. It also sets the read
    /// direction to backward.
    pub fn start_from_end_of_stream(self) -> (r: Self)
        ensures
            r == (ReadStreamEvents {
                start: -1i64,
                read_direction: ReadDirection::Backwards,
                revision: RevisionOption::End,
                ..self
            }),
    {
        ReadStreamEvents {
            start: -1,
            read_direction: ReadDirection::Backwards,
            revision: RevisionOption::End,
            ..self
        }
    }

    /// The server resolves links and returns the events they point to.
    pub fn resolve_links(self) -> (r: Self)
        ensures
            r == (ReadStreamEvents { resolve_link_tos: true, ..self }),
    {
        ReadStreamEvents { resolve_link_tos: true, ..self }
    }

    /// The server returns links as they are.
    pub fn no_resolve_links(self) -> (r: Self)
        ensures
            r == (ReadStreamEvents { resolve_link_tos: false, ..self }),
    {
        ReadStreamEvents { resolve_link_tos: false, ..self }
    }

    /// The request this command sends, and the client to send it with: the
    /// stream, from the chosen start, in the chosen direction,
    /// resolving links or not, at most `max_count` events, unfiltered.
    pub fn into_request(self) -> (r: (C, ReadReq))
        ensures
            r.0 == self.client,
            r.1.options matches Some(o) && {
                &&& o.read_direction == self.read_direction.wire_value()
                &&& o.resolve_links == self.resolve_link_tos
                &&& o.stream_option matches Some(StreamOption::Stream(so)) && so.stream_name
                    == self.stream && so.revision_options == Some(self.revision)
                &&& o.count_option == Some(CountOption::Count(self.max_count))
                &&& o.filter_option is None
            },
    {
        let stream_options = StreamOptions {
            stream_name: self.stream,
            revision_options: Some(self.revision),
        };
        let options = ReadOptions {
            read_direction: self.read_direction.to_i32(),
            resolve_links: self.resolve_link_tos,
            stream_option: Some(StreamOption::Stream(stream_options)),
            count_option: Some(CountOption::Count(self.max_count)),
            filter_option: None,
        };
        (self.client, ReadReq { options: Some(options) })
    }
}

} // verus!
