use eventstore::types::{
    Endpoint, ErrorKind, ExpectedVersion, GossipSeed, GossipSeedClusterSettings, IpAddress,
    LinkTos, NodePreference, RecordedEvent, ResolvedEvent, Retry, Settings, SocketAddress,
};
use eventstore::position::Position;
use eventstore::external::seeds_from_vec;
use std::collections::HashMap;
use std::time::Duration;

fn addr(ip: u32, port: u16) -> SocketAddress {
    SocketAddress { ip: IpAddress::V4(ip), port }
}

#[test]
fn retry_to_usize() {
    assert_eq!(Retry::Only(3).to_usize(), 3);
    assert_eq!(Retry::Only(0).to_usize(), 0);
    assert_eq!(Retry::Undefinately.to_usize(), usize::MAX);
}

#[test]
fn link_tos_round_trip() {
    assert!(LinkTos::ResolveLink.raw_resolve_lnk_tos());
    assert!(!LinkTos::NoResolution.raw_resolve_lnk_tos());
    assert_eq!(LinkTos::from_bool(true), LinkTos::ResolveLink);
    assert_eq!(LinkTos::from_bool(false), LinkTos::NoResolution);
    for b in [true, false] {
        assert_eq!(LinkTos::from_bool(b).raw_resolve_lnk_tos(), b);
    }
}

#[test]
fn expected_version_numbers() {
    assert_eq!(ExpectedVersion::Any.to_i64(), -2);
    assert_eq!(ExpectedVersion::StreamExists.to_i64(), -4);
    assert_eq!(ExpectedVersion::NoStream.to_i64(), -1);
    assert_eq!(ExpectedVersion::Exact(42).to_i64(), 42);
    assert_eq!(ExpectedVersion::from_i64(-2), ExpectedVersion::Any);
    assert_eq!(ExpectedVersion::from_i64(-4), ExpectedVersion::StreamExists);
    assert_eq!(ExpectedVersion::from_i64(-1), ExpectedVersion::NoStream);
    assert_eq!(ExpectedVersion::from_i64(0), ExpectedVersion::Exact(0));
    assert_eq!(ExpectedVersion::from_i64(-3), ExpectedVersion::Exact(-3));
}

#[test]
fn expected_version_round_trip_except_reserved() {
    for v in [ExpectedVersion::Any, ExpectedVersion::StreamExists, ExpectedVersion::NoStream, ExpectedVersion::Exact(7)] {
        assert_eq!(ExpectedVersion::from_i64(v.to_i64()), v);
    }
    // An exact version with a reserved number does not come back as itself.
    assert_eq!(ExpectedVersion::from_i64(ExpectedVersion::Exact(-1).to_i64()), ExpectedVersion::NoStream);
    for n in [-5i64, -4, -3, -2, -1, 0, 1, i64::MAX, i64::MIN] {
        assert_eq!(ExpectedVersion::from_i64(n).to_i64(), n);
    }
}

#[test]
fn node_preference_names() {
    assert_eq!(NodePreference::Master.name(), "Master");
    assert_eq!(NodePreference::Slave.name(), "Slave");
    assert_eq!(NodePreference::Random.name(), "Random");
}

#[test]
fn default_settings() {
    let s = Settings::default();
    assert_eq!(s.heartbeat_delay, Duration::from_millis(750));
    assert_eq!(s.heartbeat_timeout, Duration::from_millis(1500));
    assert_eq!(s.operation_timeout, Duration::from_secs(7));
    assert_eq!(s.operation_retry, Retry::Only(3));
    assert_eq!(s.connection_retry, Retry::Only(3));
    assert!(s.default_user.is_none());
    assert!(s.connection_name.is_none());
    assert_eq!(s.operation_check_period, Duration::from_secs(1));
}

#[test]
fn gossip_seed_takes_first_resolved_address() {
    let seed = GossipSeed::new(vec![addr(1, 2113), addr(2, 2114)]).unwrap();
    assert_eq!(seed.endpoint.addr, addr(1, 2113));
    let err = GossipSeed::new(vec![]).unwrap_err();
    assert_eq!(err.kind, ErrorKind::NotFound);
    assert_eq!(err.message, "Failed to resolve socket address.");
    assert_eq!(GossipSeed::from_socket_addr(addr(3, 1)).endpoint, Endpoint::from_addr(addr(3, 1)));
}

#[test]
fn socket_address_with_port() {
    let a = SocketAddress { ip: IpAddress::V6 { addr: 1, flowinfo: 2, scope_id: 3 }, port: 80 };
    let b = a.with_port(443);
    assert_eq!(b.port, 443);
    assert_eq!(b.ip, a.ip);
}

#[test]
fn cluster_settings_defaults_and_setters() {
    let seeds = seeds_from_vec(vec![GossipSeed::from_socket_addr(addr(1, 2113))]).unwrap();
    let s = GossipSeedClusterSettings::new(seeds);
    assert_eq!(s.preference, NodePreference::Random);
    assert_eq!(s.gossip_timeout, Duration::from_secs(1));
    assert_eq!(s.max_discover_attempts, 10);
    let s = s.set_gossip_timeout(Duration::from_millis(5)).set_max_discover_attempts(2);
    assert_eq!(s.gossip_timeout, Duration::from_millis(5));
    assert_eq!(s.max_discover_attempts, 2);
    assert_eq!(s.seeds.len(), 1);
    assert!(seeds_from_vec(vec![]).is_err());
}

fn event(stream: &str) -> RecordedEvent {
    RecordedEvent {
        event_stream_id: stream.to_string(),
        event_id: 1,
        stream_revision: 0,
        event_type: "t".to_string(),
        position: Position { commit: 0, prepare: 0 },
        data: vec![],
        metadata: HashMap::new(),
    }
}

#[test]
fn resolved_event_original() {
    let plain = ResolvedEvent { event: Some(event("a")), link: None, position: None };
    assert!(!plain.is_resolved());
    assert_eq!(plain.get_original_stream_id(), Some("a"));
    let linked = ResolvedEvent { event: Some(event("a")), link: Some(event("b")), position: None };
    assert!(linked.is_resolved());
    assert_eq!(linked.get_original_event().unwrap().event_stream_id, "b");
    assert_eq!(linked.get_original_stream_id(), Some("b"));
    let empty = ResolvedEvent { event: None, link: None, position: None };
    assert!(empty.get_original_event().is_none());
    assert_eq!(empty.get_original_stream_id(), None);
}
