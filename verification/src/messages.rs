//! The messages of the streams service that the stream commands build and
//! read: the read request and the read response.

use vstd::prelude::*;
use std::collections::HashMap;

verus! {

/// The direction of a read.
#[derive(Clone, Copy, Debug, PartialEq, Eq, Structural)]
pub enum ReadDirection {
    Forwards,
    Backwards,
}

impl ReadDirection {
    /// The number a direction is sent as.
    pub open spec fn wire_value(self) -> i32 {
        match self {
            ReadDirection::Forwards => 0i32,
            ReadDirection::Backwards => 1i32,
        }
    }

    pub fn to_i32(self) -> (r: i32)
        ensures
            r == self.wire_value(),
    {
        match self {
            ReadDirection::Forwards => 0,
            ReadDirection::Backwards => 1,
        }
    }
}

/// Where in a stream a read starts.
#[derive(Clone, Debug, PartialEq, Eq, Structural)]
pub enum RevisionOption {
    Revision(u64),
    Start,
    End,
}

/// Reading a single stream.
#[derive(Clone, Debug)]
pub struct StreamOptions {
    pub stream_name: String,
    pub revision_options: Option<RevisionOption>,
}

/// Where in the `$all` stream a read starts.
#[derive(Clone, Debug, PartialEq, Eq, Structural)]
pub enum AllOption {
    Position { commit_position: u64, prepare_position: u64 },
    Start,
    End,
}

/// What is read: one stream, or all of them.
#[derive(Clone, Debug)]
pub enum StreamOption {
    Stream(StreamOptions),
    All(Option<AllOption>),
}

/// How many events are read, or a subscription.
#[derive(Clone, Debug, PartialEq, Eq, Structural)]
pub enum CountOption {
    Count(i32),
    Subscription,
}

/// A filter expression on stream names or event types.
#[derive(Clone, Debug)]
pub struct Expression {
    pub regex: String,
    pub prefix: Vec<String>,
}

#[derive(Clone, Debug)]
pub enum Filter {
    StreamName(Expression),
    EventType(Expression),
}

#[derive(Clone, Debug, PartialEq, Eq, Structural)]
pub enum Window {
    Max(i32),
    Count,
}

#[derive(Clone, Debug)]
pub struct FilterOptions {
    pub filter: Option<Filter>,
    pub window: Option<Window>,
}

#[derive(Clone, Debug)]
pub enum FilterOption {
    Filter(FilterOptions),
    NoFilter,
}

/// The options of a read request.
#[derive(Clone, Debug)]
pub struct ReadOptions {
    pub read_direction: i32,
    pub resolve_links: bool,
    pub stream_option: Option<StreamOption>,
    pub count_option: Option<CountOption>,
    pub filter_option: Option<FilterOption>,
}

/// A read request.
#[derive(Clone, Debug)]
pub struct ReadReq {
    pub options: Option<ReadOptions>,
}

/// A UUID given as two 64-bit halves.
#[derive(Clone, Copy, Debug, PartialEq, Eq, Structural)]
pub struct StructuredUuid {
    pub most_significant_bits: i64,
    pub least_significant_bits: i64,
}

/// A UUID as the server sends it: in halves or as text.
#[derive(Clone, Debug)]
pub enum UuidValue {
    Structured(StructuredUuid),
    String(String),
}

#[derive(Clone, Debug)]
pub struct Uuid {
    pub value: Option<UuidValue>,
}

/// An event as the server sends it.
#[derive(Debug)]
pub struct WireRecordedEvent {
    pub id: Option<Uuid>,
    pub stream_name: String,
    pub stream_revision: u64,
    pub prepare_position: u64,
    pub commit_position: u64,
    pub metadata: HashMap<String, String>,
    pub custom_metadata: Vec<u8>,
    pub data: Vec<u8>,
}

/// The position of a read event in the transaction file, if any.
#[derive(Clone, Copy, Debug, PartialEq, Eq, Structural)]
pub enum ReadEventPosition {
    CommitPosition(u64),
    NoPosition,
}

/// An event read, with the link that led to it, if any.
#[derive(Debug)]
pub struct ReadEvent {
    pub event: Option<WireRecordedEvent>,
    pub link: Option<WireRecordedEvent>,
    pub position: Option<ReadEventPosition>,
}

/// One answer to a read request.
#[derive(Debug)]
pub struct ReadResp {
    pub event: Option<ReadEvent>,
}

} // verus!
