use eventstore::discovery::{
    determine_best_node, gossip_found, traverse_opt, Candidates, GossipSeedDiscovery, Member,
    MemberInfo, StaticDiscovery, VNodeState,
};
use eventstore::external::seeds_from_vec;
use eventstore::types::{
    Endpoint, Error, ErrorKind, GossipSeed, GossipSeedClusterSettings, IpAddress, NodePreference,
    SocketAddress,
};

/// Reads "a.b.c.d" as an IPv4 address; anything else is refused.
fn resolve(ip: &String, port: u16) -> Result<SocketAddress, Error> {
    let parts: Vec<&str> = ip.split('.').collect();
    if parts.len() != 4 {
        return Err(Error { kind: ErrorKind::InvalidData, message: format!("bad address {}", ip) });
    }
    let mut v: u32 = 0;
    for p in parts {
        match p.parse::<u8>() {
            Ok(b) => v = (v << 8) | b as u32,
            Err(_) => {
                return Err(Error { kind: ErrorKind::InvalidData, message: format!("bad address {}", ip) })
            },
        }
    }
    Ok(SocketAddress { ip: IpAddress::V4(v), port })
}

fn info(state: VNodeState, last_octet: u8, secure: u16) -> MemberInfo {
    MemberInfo {
        instance_id: last_octet as u128,
        state,
        is_alive: true,
        internal_tcp_ip: format!("10.0.0.{}", last_octet),
        internal_tcp_port: 1112,
        internal_secure_tcp_port: 0,
        external_tcp_ip: format!("192.168.0.{}", last_octet),
        external_tcp_port: 1113,
        external_secure_tcp_port: secure,
        internal_http_ip: format!("10.0.0.{}", last_octet),
        internal_http_port: 2112,
        external_http_ip: format!("192.168.0.{}", last_octet),
        external_http_port: 2113,
        last_commit_position: 0,
        writer_checkpoint: 0,
        chaser_checkpoint: 0,
        epoch_position: 0,
        epoch_number: 0,
        epoch_id: 0,
        node_priority: 0,
    }
}

fn v4(last_octet: u8) -> u32 {
    0xC0A8_0000 | last_octet as u32
}

#[test]
fn member_from_info_resolves_addresses() {
    let m = Member::from_member_info(info(VNodeState::Master, 3, 1115), &resolve).unwrap();
    assert_eq!(m.external_tcp, SocketAddress { ip: IpAddress::V4(v4(3)), port: 1113 });
    assert_eq!(m.external_secure_tcp, Some(SocketAddress { ip: IpAddress::V4(v4(3)), port: 1115 }));
    assert_eq!(m.external_http.port, 2113);
    assert_eq!(m.internal_tcp, SocketAddress { ip: IpAddress::V4(0x0A00_0003), port: 1112 });
    assert_eq!(m.internal_secure_tcp, None);
    assert_eq!(m.state, VNodeState::Master);
}

#[test]
fn member_from_info_reports_bad_address() {
    let mut i = info(VNodeState::Master, 3, 0);
    i.external_http_ip = "not an ip".to_string();
    let e = Member::from_member_info(i, &resolve).unwrap_err();
    assert_eq!(e.kind, ErrorKind::InvalidData);
    assert_eq!(e.message, "bad address not an ip");
}

#[test]
fn member_from_info_reports_first_bad_address() {
    let mut i = info(VNodeState::Master, 3, 0);
    i.internal_http_ip = "last".to_string();
    i.external_http_ip = "middle".to_string();
    i.internal_tcp_ip = "later".to_string();
    let e = Member::from_member_info(i, &resolve).unwrap_err();
    assert_eq!(e.message, "bad address middle");
}

#[test]
fn best_node_prefers_master_then_slave() {
    let members = || vec![
        info(VNodeState::Manager, 1, 0),
        info(VNodeState::Slave, 2, 0),
        info(VNodeState::Master, 3, 1115),
        info(VNodeState::Slave, 4, 0),
    ];
    let n = determine_best_node(NodePreference::Master, members(), &resolve).unwrap().unwrap();
    assert_eq!(n.tcp_endpoint.addr, SocketAddress { ip: IpAddress::V4(v4(3)), port: 1113 });
    assert_eq!(n.secure_tcp_endpoint, Some(Endpoint { addr: SocketAddress { ip: IpAddress::V4(v4(3)), port: 1115 } }));
    let n = determine_best_node(NodePreference::Slave, members(), &resolve).unwrap().unwrap();
    assert_eq!(n.tcp_endpoint.addr, SocketAddress { ip: IpAddress::V4(v4(2)), port: 1113 });
    assert_eq!(n.secure_tcp_endpoint, None);
}

#[test]
fn best_node_without_preferred_state_takes_first_state() {
    // No master: the first member in the first state of the order.
    let members = vec![
        info(VNodeState::Manager, 1, 0),
        info(VNodeState::Slave, 2, 0),
        info(VNodeState::Clone, 3, 0),
        info(VNodeState::Slave, 4, 0),
    ];
    let n = determine_best_node(NodePreference::Master, members, &resolve).unwrap().unwrap();
    assert_eq!(n.tcp_endpoint.addr.ip, IpAddress::V4(v4(3)));

    let members = vec![info(VNodeState::ShuttingDown, 1, 0), info(VNodeState::Master, 3, 1115)];
    let n = determine_best_node(NodePreference::Slave, members, &resolve).unwrap().unwrap();
    assert_eq!(n.tcp_endpoint.addr.ip, IpAddress::V4(v4(3)));
    assert_eq!(n.secure_tcp_endpoint, Some(Endpoint { addr: SocketAddress { ip: IpAddress::V4(v4(3)), port: 1115 } }));
}

#[test]
fn best_node_random_picks_an_allowed_member() {
    for _ in 0..20 {
        let members = vec![
            info(VNodeState::Manager, 1, 0),
            info(VNodeState::Slave, 2, 0),
            info(VNodeState::Shutdown, 3, 0),
            info(VNodeState::Master, 4, 0),
        ];
        let n = determine_best_node(NodePreference::Random, members, &resolve).unwrap().unwrap();
        let ip = n.tcp_endpoint.addr.ip;
        assert!(ip == IpAddress::V4(v4(2)) || ip == IpAddress::V4(v4(4)));
    }
}

#[test]
fn best_node_none_without_allowed_member() {
    let members = vec![info(VNodeState::Manager, 1, 0), info(VNodeState::Shutdown, 2, 0)];
    assert!(determine_best_node(NodePreference::Random, members, &resolve).unwrap().is_none());
    assert!(determine_best_node(NodePreference::Master, vec![], &resolve).unwrap().is_none());
}

#[test]
fn best_node_reports_resolution_error() {
    let mut i = info(VNodeState::Master, 1, 0);
    i.external_tcp_ip = "x".to_string();
    assert!(determine_best_node(NodePreference::Master, vec![i], &resolve).is_err());
}

#[test]
fn traverse_opt_cases() {
    let none: Result<Option<u32>, String> = traverse_opt(None::<u32>, |x: u32| Ok::<u32, String>(x + 1));
    assert_eq!(none, Ok(None));
    assert_eq!(traverse_opt(Some(1u32), |x: u32| Ok::<u32, String>(x + 1)), Ok(Some(2)));
    assert_eq!(traverse_opt(Some(1u32), |_x: u32| Err::<u32, String>("e".to_string())), Err("e".to_string()));
}

fn member(last_octet: u8, state: VNodeState) -> Member {
    Member::from_member_info(info(state, last_octet, 0), &resolve).unwrap()
}

#[test]
fn candidates_put_managers_last() {
    let mut c = Candidates::new();
    c.push(member(1, VNodeState::Manager));
    c.push(member(2, VNodeState::Slave));
    c.push(member(3, VNodeState::Master));
    assert_eq!(c.nodes.len(), 2);
    assert_eq!(c.managers.len(), 1);
    c.shuffle();
    let seeds = c.gossip_seeds();
    assert_eq!(seeds.len(), 3);
    assert_eq!(seeds[2].endpoint.addr.ip, IpAddress::V4(v4(1)));
    assert_eq!(seeds[2].endpoint.addr.port, 2113);
}

fn discovery() -> GossipSeedDiscovery {
    let seeds = seeds_from_vec(vec![
        GossipSeed::from_socket_addr(SocketAddress { ip: IpAddress::V4(1), port: 2113 }),
        GossipSeed::from_socket_addr(SocketAddress { ip: IpAddress::V4(2), port: 2113 }),
    ])
    .unwrap();
    GossipSeedDiscovery::new(GossipSeedClusterSettings::new(seeds))
}

#[test]
fn discovery_starts_from_configured_seeds() {
    let mut d = discovery();
    assert_eq!(d.preference, NodePreference::Random);
    let mut first = d.next_candidates(None);
    first.sort_by_key(|s| match s.endpoint.addr.ip { IpAddress::V4(v) => v, _ => 0 });
    assert_eq!(first.len(), 2);
    assert_eq!(first[0].endpoint.addr.ip, IpAddress::V4(1));
    assert_eq!(first[1].endpoint.addr.ip, IpAddress::V4(2));
}

#[test]
fn discovery_uses_previous_gossip_without_failed_node() {
    let mut d = discovery();
    let failed = member(2, VNodeState::Master);
    d.previous_candidates = Some(vec![member(1, VNodeState::Manager), failed, member(3, VNodeState::Slave)]);
    let seeds = d.next_candidates(Some(&Endpoint { addr: failed.external_tcp }));
    assert!(d.previous_candidates.is_none());
    assert_eq!(seeds.len(), 2);
    assert_eq!(seeds[0].endpoint.addr.ip, IpAddress::V4(v4(3)));
    assert_eq!(seeds[1].endpoint.addr.ip, IpAddress::V4(v4(1)));
    // Once used, the previous gossip is gone: the configured seeds come back.
    assert_eq!(d.next_candidates(None).len(), 2);
}

#[test]
fn gossip_answers() {
    assert!(!gossip_found(&Ok(vec![])));
    assert!(gossip_found(&Ok(vec![info(VNodeState::Master, 1, 0)])));
    assert!(!gossip_found(&Err(Error { kind: ErrorKind::Other, message: String::new() })));
}

#[test]
fn static_discovery_gives_its_address() {
    let a = SocketAddress { ip: IpAddress::V4(5), port: 1113 };
    let d = StaticDiscovery::new(a);
    assert_eq!(d.discover(None).addr, a);
    assert_eq!(d.discover(Some(&Endpoint { addr: SocketAddress { ip: IpAddress::V4(6), port: 1 } })).addr, a);
}

#[test]
fn state_order() {
    assert_eq!(VNodeState::Initializing.order(), 0);
    assert_eq!(VNodeState::Master.order(), 7);
    assert_eq!(VNodeState::Shutdown.order(), 10);
    assert!(!VNodeState::Manager.allowed_state());
    assert!(VNodeState::Clone.allowed_state());
}
