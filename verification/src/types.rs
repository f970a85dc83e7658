//! Settings and value types shared by the commands, the discovery and the
//! registry.

use vstd::prelude::*;
use std::time::Duration;
use crate::credentials::Credentials;
use crate::external::{duration_from_millis, duration_from_secs, duration_nanos, seed_list};
use crate::position::Position;

verus! {

// ---------------------------------------------------------------------------
// Errors
// ---------------------------------------------------------------------------

/// The category of an [`Error`].
#[derive(Copy, Clone, Debug, PartialEq, Eq, Structural)]
pub enum ErrorKind {
    /// A name or an address could not be resolved.
    NotFound,
    /// A value read from the network was not what was expected.
    InvalidData,
    /// Any other failure.
    Other,
}

/// An error with its category and a human-readable message.
#[derive(Clone, Debug)]
pub struct Error {
    pub kind: ErrorKind,
    pub message: String,
}

// ---------------------------------------------------------------------------
// Retry strategy
// ---------------------------------------------------------------------------

/// Represents a reconnection strategy when a connection has dropped or is
/// about to be created.
#[derive(Copy, Clone, Debug, PartialEq, Eq, Structural)]
pub enum Retry {
    Undefinately,
    Only(usize),
}

impl Retry {
    /// The number of attempts this strategy allows; unbounded is `usize::MAX`.
    pub open spec fn spec_to_usize(self) -> usize {
        match self {
            Retry::Undefinately => usize::MAX,
            Retry::Only(x) => x,
        }
    }

    pub fn to_usize(&self) -> (r: usize)
        ensures
            r == self.spec_to_usize(),
    {
        match *self {
            Retry::Undefinately => usize::MAX,
            Retry::Only(x) => x,
        }
    }
}

// ---------------------------------------------------------------------------
// Link resolution
// ---------------------------------------------------------------------------

/// Determines whether any link event encountered in the stream will be
/// resolved.
#[derive(Clone, Copy, Debug, PartialEq, Eq, Structural)]
pub enum LinkTos {
    ResolveLink,
    NoResolution,
}

impl LinkTos {
    /// The flag this setting is sent as.
    pub open spec fn spec_raw_resolve_lnk_tos(self) -> bool {
        self == LinkTos::ResolveLink
    }

    /// The setting a flag stands for.
    pub open spec fn spec_from_bool(raw: bool) -> LinkTos {
        if raw {
            LinkTos::ResolveLink
        } else {
            LinkTos::NoResolution
        }
    }

    pub fn raw_resolve_lnk_tos(self) -> (r: bool)
        ensures
            r == self.spec_raw_resolve_lnk_tos(),
    {
        match self {
            LinkTos::ResolveLink => true,
            LinkTos::NoResolution => false,
        }
    }

    pub fn from_bool(raw: bool) -> (r: LinkTos)
        ensures
            r == Self::spec_from_bool(raw),
    {
        if raw {
            LinkTos::ResolveLink
        } else {
            LinkTos::NoResolution
        }
    }
}

/// Converting a flag to a `LinkTos` and back gives the flag, and converting
/// a `LinkTos` to a flag and back gives the `LinkTos`.
pub proof fn lemma_link_tos_round_trip(l: LinkTos, b: bool)
    ensures
        LinkTos::spec_from_bool(b).spec_raw_resolve_lnk_tos() == b,
        LinkTos::spec_from_bool(l.spec_raw_resolve_lnk_tos()) == l,
{
}

// ---------------------------------------------------------------------------
// Expected version
// ---------------------------------------------------------------------------

/// Constants used for expected version control.
///
/// The server assures idempotency for all operations using any value in
/// `ExpectedVersion` except `ExpectedVersion::Any`.
#[derive(Copy, Clone, Debug, PartialEq, Eq, Structural)]
pub enum ExpectedVersion {
    /// This write should not conflict with anything and should always succeed.
    Any,
    /// The stream should exist.
    StreamExists,
    /// The stream being written to should not yet exist.
    NoStream,
    /// The last event written to the stream should have this event number.
    Exact(i64),
}

impl ExpectedVersion {
    /// The number that stands for an expected version on the wire.
    pub open spec fn spec_to_i64(self) -> i64 {
        match self {
            ExpectedVersion::Any => -2i64,
            ExpectedVersion::StreamExists => -4i64,
            ExpectedVersion::NoStream => -1i64,
            ExpectedVersion::Exact(n) => n,
        }
    }

    /// The expected version that a number on the wire stands for.
    pub open spec fn spec_from_i64(ver: i64) -> ExpectedVersion {
        if ver == -2 {
            ExpectedVersion::Any
        } else if ver == -4 {
            ExpectedVersion::StreamExists
        } else if ver == -1 {
            ExpectedVersion::NoStream
        } else {
            ExpectedVersion::Exact(ver)
        }
    }

    pub fn to_i64(self) -> (r: i64)
        ensures
            r == self.spec_to_i64(),
    {
        match self {
            ExpectedVersion::Any => -2,
            ExpectedVersion::StreamExists => -4,
            ExpectedVersion::NoStream => -1,
            ExpectedVersion::Exact(n) => n,
        }
    }

    pub fn from_i64(ver: i64) -> (r: ExpectedVersion)
        ensures
            r == Self::spec_from_i64(ver),
    {
        if ver == -2 {
            ExpectedVersion::Any
        } else if ver == -4 {
            ExpectedVersion::StreamExists
        } else if ver == -1 {
            ExpectedVersion::NoStream
        } else {
            ExpectedVersion::Exact(ver)
        }
    }
}

/// Reading a wire number as an expected version and writing it back gives
/// the number.
pub proof fn lemma_expected_version_number_round_trip(n: i64)
    ensures
        ExpectedVersion::spec_from_i64(n).spec_to_i64() == n,
{
}

/// Writing an expected version and reading it back gives it, unless it is
/// an `Exact` version whose number is one of the reserved -1, -2 or -4.
pub proof fn lemma_expected_version_round_trip(v: ExpectedVersion)
    requires
        !(v matches ExpectedVersion::Exact(n) && (n == -1 || n == -2 || n == -4)),
    ensures
        ExpectedVersion::spec_from_i64(v.spec_to_i64()) == v,
{
}

// ---------------------------------------------------------------------------
// Node preference
// ---------------------------------------------------------------------------

/// Indicates which order of preferred nodes for connecting to.
#[derive(Copy, Clone, Eq, PartialEq, Debug, Structural)]
pub enum NodePreference {
    /// When attempting connection, prefers master node.
    Master,
    /// When attempting connection, prefers slave node.
    Slave,
    /// When attempting connection, has no node preference.
    Random,
}

impl NodePreference {
    /// The text this preference is shown as.
    pub fn name(&self) -> (r: &'static str)
        ensures
            r@ == (match *self {
                NodePreference::Master => "Master"@,
                NodePreference::Slave => "Slave"@,
                NodePreference::Random => "Random"@,
            }),
    {
        match self {
            NodePreference::Master => "Master",
            NodePreference::Slave => "Slave",
            NodePreference::Random => "Random",
        }
    }
}

// ---------------------------------------------------------------------------
// Addresses, endpoints and gossip seeds
// ---------------------------------------------------------------------------

/// An IP address: version 4 as its 32-bit value, version 6 as its 128-bit
/// value with the flow information and scope of the socket address.
#[derive(Copy, Clone, Debug, PartialEq, Eq, Structural)]
pub enum IpAddress {
    V4(u32),
    V6 { addr: u128, flowinfo: u32, scope_id: u32 },
}

/// An IP address and a port.
#[derive(Copy, Clone, Debug, PartialEq, Eq, Structural)]
pub struct SocketAddress {
    pub ip: IpAddress,
    pub port: u16,
}

impl SocketAddress {
    /// The same address with another port.
    pub fn with_port(self, port: u16) -> (r: SocketAddress)
        ensures
            r == (SocketAddress { port, ..self }),
    {
        SocketAddress { port, ..self }
    }
}

#[derive(Copy, Clone, Debug, PartialEq, Eq, Structural)]
pub struct Endpoint {
    pub addr: SocketAddress,
}

impl Endpoint {
    pub fn from_addr(addr: SocketAddress) -> (r: Endpoint)
        ensures
            r.addr == addr,
    {
        Endpoint { addr }
    }
}

/// Represents a source of cluster gossip: the external HTTP endpoint of a
/// node, through which the client exchanges gossip with the server.
#[derive(Copy, Clone, Debug, PartialEq, Eq, Structural)]
pub struct GossipSeed {
    pub endpoint: Endpoint,
}

impl GossipSeed {
    /// Creates a gossip seed from the addresses a name resolved to: the first
    /// of them, or a `NotFound` error when there is none.
    pub fn new(resolved: Vec<SocketAddress>) -> (r: Result<GossipSeed, Error>)
        ensures
            resolved@.len() > 0 ==> r == Ok::<GossipSeed, Error>(
                GossipSeed { endpoint: Endpoint { addr: resolved@[0] } },
            ),
            resolved@.len() == 0 ==> (r matches Err(e) && e.kind == ErrorKind::NotFound
                && e.message@ == "Failed to resolve socket address."@),
    {
        if resolved.len() > 0 {
            let addr = resolved[0];
            Ok(GossipSeed::from_endpoint(Endpoint { addr }))
        } else {
            Err(
                Error {
                    kind: ErrorKind::NotFound,
                    message: String::from_str("Failed to resolve socket address."),
                },
            )
        }
    }

    pub fn from_endpoint(endpoint: Endpoint) -> (r: GossipSeed)
        ensures
            r.endpoint == endpoint,
    {
        GossipSeed { endpoint }
    }

    pub fn from_socket_addr(addr: SocketAddress) -> (r: GossipSeed)
        ensures
            r.endpoint.addr == addr,
    {
        GossipSeed::from_endpoint(Endpoint::from_addr(addr))
    }
}

// ---------------------------------------------------------------------------
// Connection settings
// ---------------------------------------------------------------------------

/// Global connection settings.
#[derive(Clone, Debug)]
pub struct Settings {
    /// Maximum delay of inactivity before the client sends a heartbeat request.
    pub heartbeat_delay: Duration,
    /// Maximum delay the server has to issue a heartbeat response.
    pub heartbeat_timeout: Duration,
    /// Delay in which an operation will be retried if no response arrived.
    pub operation_timeout: Duration,
    /// Retry strategy when an operation has timeout.
    pub operation_retry: Retry,
    /// Retry strategy when failing to connect.
    pub connection_retry: Retry,
    /// Credentials used when none are given with a command.
    pub default_user: Option<Credentials>,
    /// Default connection name.
    pub connection_name: Option<String>,
    /// The period used to check pending commands.
    pub operation_check_period: Duration,
}

impl Default for Settings {
    fn default() -> (s: Self)
        ensures
            duration_nanos(s.heartbeat_delay) == 750_000_000,
            duration_nanos(s.heartbeat_timeout) == 1_500_000_000,
            duration_nanos(s.operation_timeout) == 7_000_000_000,
            s.operation_retry == Retry::Only(3),
            s.connection_retry == Retry::Only(3),
            s.default_user is None,
            s.connection_name is None,
            duration_nanos(s.operation_check_period) == 1_000_000_000,
    {
        Settings {
            heartbeat_delay: duration_from_millis(750),
            heartbeat_timeout: duration_from_millis(1_500),
            operation_timeout: duration_from_secs(7),
            operation_retry: Retry::Only(3),
            connection_retry: Retry::Only(3),
            default_user: None,
            connection_name: None,
            operation_check_period: duration_from_secs(1),
        }
    }
}

/// Contains settings related to a cluster of fixed nodes.
#[derive(Debug)]
pub struct GossipSeedClusterSettings {
    pub seeds: vec1::Vec1<GossipSeed>,
    pub preference: NodePreference,
    pub gossip_timeout: Duration,
    pub max_discover_attempts: usize,
}

impl GossipSeedClusterSettings {
    /// Creates a `GossipSeedClusterSettings` from a non-empty list of gossip
    /// seeds.
    pub fn new(seeds: vec1::Vec1<GossipSeed>) -> (r: GossipSeedClusterSettings)
        ensures
            seed_list(r.seeds) == seed_list(seeds),
            r.preference == NodePreference::Random,
            duration_nanos(r.gossip_timeout) == 1_000_000_000,
            r.max_discover_attempts == 10,
    {
        GossipSeedClusterSettings {
            seeds,
            preference: NodePreference::Random,
            gossip_timeout: duration_from_secs(1),
            max_discover_attempts: 10,
        }
    }

    /// Maximum duration a node should take when requested a gossip request.
    pub fn set_gossip_timeout(self, gossip_timeout: Duration) -> (r: GossipSeedClusterSettings)
        ensures
            seed_list(r.seeds) == seed_list(self.seeds),
            r.preference == self.preference,
            r.gossip_timeout == gossip_timeout,
            r.max_discover_attempts == self.max_discover_attempts,
    {
        GossipSeedClusterSettings { gossip_timeout, ..self }
    }

    /// Maximum number of retries during a discovery process.
    pub fn set_max_discover_attempts(self, max_attempt: usize) -> (r: GossipSeedClusterSettings)
        ensures
            seed_list(r.seeds) == seed_list(self.seeds),
            r.preference == self.preference,
            r.gossip_timeout == self.gossip_timeout,
            r.max_discover_attempts == max_attempt,
    {
        GossipSeedClusterSettings { max_discover_attempts: max_attempt, ..self }
    }
}

// ---------------------------------------------------------------------------
// Events
// ---------------------------------------------------------------------------

#[derive(Debug)]
pub struct RecordedEvent {
    /// The event stream that events belongs to.
    pub event_stream_id: String,
    /// Unique identifier representing this event, as its 128-bit value.
    pub event_id: u128,
    /// Revision of the stream. Used to be event number.
    pub stream_revision: u64,
    /// Type of this event.
    pub event_type: String,
    pub position: Position,
    /// Payload of this event.
    pub data: Vec<u8>,
    /// Representing the metadata associated with this event.
    pub metadata: std::collections::HashMap<String, String>,
}

/// A structure representing a single event or a resolved link event.
#[derive(Debug)]
pub struct ResolvedEvent {
    /// The event, or the resolved link event if this `ResolvedEvent` is a link
    /// event.
    pub event: Option<RecordedEvent>,
    /// The link event if this `ResolvedEvent` is a link event.
    pub link: Option<RecordedEvent>,
    /// Possible `Position` of that event in the server transaction file.
    pub position: Option<Position>,
}

impl ResolvedEvent {
    /// The event that was read or which triggered the subscription: the
    /// link when there is one, otherwise the event.
    pub open spec fn original_event(&self) -> Option<RecordedEvent> {
        match self.link {
            Some(l) => Some(l),
            None => self.event,
        }
    }

    /// If it's a link event with its associated resolved event.
    pub fn is_resolved(&self) -> (r: bool)
        ensures
            r <==> (self.event is Some && self.link is Some),
    {
        self.event.is_some() && self.link.is_some()
    }

    /// Returns the event that was read or which triggered the subscription.
    /// If this `ResolvedEvent` represents a link event, the link will be the
    /// original event, otherwise it will be the event.
    pub fn get_original_event(&self) -> (r: Option<&RecordedEvent>)
        ensures
            r matches Some(e) ==> self.original_event() == Some(*e),
            r is None <==> self.original_event() is None,
    {
        match &self.link {
            Some(l) => Some(l),
            None => match &self.event {
                Some(e) => Some(e),
                None => None,
            },
        }
    }

    /// Returns the stream id of the original event.
    pub fn get_original_stream_id(&self) -> (r: Option<&str>)
        ensures
            r matches Some(s) ==> (self.original_event() matches Some(e) && s@ == e.event_stream_id@),
            r is None <==> self.original_event() is None,
    {
        match self.get_original_event() {
            Some(e) => Some(e.event_stream_id.as_str()),
            None => None,
        }
    }
}

} // verus!
