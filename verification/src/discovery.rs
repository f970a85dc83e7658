//! Cluster discovery: which nodes to ask for gossip, and which node of the
//! gossip to connect to.
//!
//! Turning an IP address text and a port into a socket address is up to the
//! caller, through a resolver function; the discovery decides which texts
//! are resolved, in which order, and what is made of the result.

use vstd::prelude::*;
use crate::external::{seed_list, seeds_to_vec, shuffle};
use crate::types::{
    Endpoint, Error, GossipSeed, GossipSeedClusterSettings, NodePreference, SocketAddress,
};

verus! {

broadcast use vstd::seq_lib::group_to_multiset_ensures;

/// The state of a node of the cluster, in the order nodes are preferred.
#[derive(Debug, Eq, PartialEq, Copy, Clone, Structural)]
pub enum VNodeState {
    Initializing,
    Unknown,
    PreReplica,
    CatchingUp,
    Clone,
    Slave,
    PreMaster,
    Master,
    Manager,
    ShuttingDown,
    Shutdown,
}

impl VNodeState {
    /// The place of a state in the order of states.
    pub open spec fn rank(self) -> int {
        match self {
            VNodeState::Initializing => 0,
            VNodeState::Unknown => 1,
            VNodeState::PreReplica => 2,
            VNodeState::CatchingUp => 3,
            VNodeState::Clone => 4,
            VNodeState::Slave => 5,
            VNodeState::PreMaster => 6,
            VNodeState::Master => 7,
            VNodeState::Manager => 8,
            VNodeState::ShuttingDown => 9,
            VNodeState::Shutdown => 10,
        }
    }

    /// A node in this state may be connected to: it is neither a manager nor
    /// shutting down.
    pub open spec fn allowed(self) -> bool {
        !(self == VNodeState::Manager || self == VNodeState::ShuttingDown || self
            == VNodeState::Shutdown)
    }

    pub fn order(&self) -> (r: u8)
        ensures
            r == self.rank(),
    {
        match self {
            VNodeState::Initializing => 0,
            VNodeState::Unknown => 1,
            VNodeState::PreReplica => 2,
            VNodeState::CatchingUp => 3,
            VNodeState::Clone => 4,
            VNodeState::Slave => 5,
            VNodeState::PreMaster => 6,
            VNodeState::Master => 7,
            VNodeState::Manager => 8,
            VNodeState::ShuttingDown => 9,
            VNodeState::Shutdown => 10,
        }
    }

    pub fn allowed_state(&self) -> (r: bool)
        ensures
            r == self.allowed(),
            r <==> !(*self is Manager || *self is ShuttingDown || *self is Shutdown),
    {
        match self {
            VNodeState::Manager | VNodeState::ShuttingDown | VNodeState::Shutdown => false,
            _ => true,
        }
    }
}

/// What a node says about a member of the cluster in its gossip.
#[derive(Debug)]
pub struct MemberInfo {
    pub instance_id: u128,
    pub state: VNodeState,
    pub is_alive: bool,
    pub internal_tcp_ip: String,
    pub internal_tcp_port: u16,
    pub internal_secure_tcp_port: u16,
    pub external_tcp_ip: String,
    pub external_tcp_port: u16,
    pub external_secure_tcp_port: u16,
    pub internal_http_ip: String,
    pub internal_http_port: u16,
    pub external_http_ip: String,
    pub external_http_port: u16,
    pub last_commit_position: i64,
    pub writer_checkpoint: i64,
    pub chaser_checkpoint: i64,
    pub epoch_position: i64,
    pub epoch_number: i64,
    pub epoch_id: u128,
    pub node_priority: i64,
}

/// A member of the cluster with its addresses resolved.
#[derive(Debug, Copy, Clone, PartialEq, Eq, Structural)]
pub struct Member {
    pub external_tcp: SocketAddress,
    pub external_secure_tcp: Option<SocketAddress>,
    pub external_http: SocketAddress,
    pub internal_tcp: SocketAddress,
    pub internal_secure_tcp: Option<SocketAddress>,
    pub internal_http: SocketAddress,
    pub state: VNodeState,
}

/// The secure address of a member: none when the port is 0, otherwise what
/// resolving the IP with that port gave.
pub open spec fn secure_resolved<F: Fn(&String, u16) -> Result<SocketAddress, Error>>(
    resolve: F,
    ip: &String,
    port: u16,
    got: Option<SocketAddress>,
) -> bool {
    if port < 1 {
        got is None
    } else {
        got matches Some(a) && resolve.ensures((ip, port), Ok::<SocketAddress, Error>(a))
    }
}

/// Whether resolving `ip` with `port` may have given the error `e`; a secure
/// port 0 is never resolved.
pub open spec fn failed_on<F: Fn(&String, u16) -> Result<SocketAddress, Error>>(
    resolve: F,
    ip: &String,
    port: u16,
    secure: bool,
    e: Error,
) -> bool {
    !(secure && port < 1) && resolve.ensures((ip, port), Err::<SocketAddress, Error>(e))
}

/// Whether resolving `ip` with `port` may succeed; a secure port 0 is never
/// resolved, and so never fails.
pub open spec fn resolves_on<F: Fn(&String, u16) -> Result<SocketAddress, Error>>(
    resolve: F,
    ip: &String,
    port: u16,
    secure: bool,
) -> bool {
    (secure && port < 1) || exists|a: SocketAddress|
        #[trigger] resolve.ensures((ip, port), Ok::<SocketAddress, Error>(a))
}

/// Whether `e` is the first failure when resolving a member's addresses in
/// the order [`Member::from_member_info`] resolves them: the resolution it
/// comes from failed with it, and every earlier one succeeded.
pub open spec fn first_failure<F: Fn(&String, u16) -> Result<SocketAddress, Error>>(
    resolve: F,
    info: MemberInfo,
    e: Error,
) -> bool {
    let ok0 = resolves_on(resolve, &info.external_tcp_ip, info.external_tcp_port, false);
    let ok1 = resolves_on(resolve, &info.external_tcp_ip, info.external_secure_tcp_port, true);
    let ok2 = resolves_on(resolve, &info.external_http_ip, info.external_http_port, false);
    let ok3 = resolves_on(resolve, &info.internal_tcp_ip, info.internal_tcp_port, false);
    let ok4 = resolves_on(resolve, &info.internal_tcp_ip, info.internal_secure_tcp_port, true);
    ||| failed_on(resolve, &info.external_tcp_ip, info.external_tcp_port, false, e)
    ||| ok0 && failed_on(resolve, &info.external_tcp_ip, info.external_secure_tcp_port, true, e)
    ||| ok0 && ok1 && failed_on(resolve, &info.external_http_ip, info.external_http_port, false, e)
    ||| ok0 && ok1 && ok2 && failed_on(
        resolve,
        &info.internal_tcp_ip,
        info.internal_tcp_port,
        false,
        e,
    )
    ||| ok0 && ok1 && ok2 && ok3 && failed_on(
        resolve,
        &info.internal_tcp_ip,
        info.internal_secure_tcp_port,
        true,
        e,
    )
    ||| ok0 && ok1 && ok2 && ok3 && ok4 && failed_on(
        resolve,
        &info.internal_http_ip,
        info.internal_http_port,
        false,
        e,
    )
}

impl Member {
    /// Resolves the addresses a member's gossip gives, in this order:
    /// external TCP, external secure TCP (on the external TCP IP, unless its
    /// port is 0), external HTTP, internal TCP, internal secure TCP (on the
    /// internal TCP IP, unless its port is 0), internal HTTP. The first
    /// failure is returned.
    pub fn from_member_info<F: Fn(&String, u16) -> Result<SocketAddress, Error>>(
        info: MemberInfo,
        resolve: &F,
    ) -> (r: Result<Member, Error>)
        requires
            forall|ip: &String, port: u16| resolve.requires((ip, port)),
        ensures
            r matches Ok(m) ==> {
                &&& resolve.ensures(
                    (&info.external_tcp_ip, info.external_tcp_port),
                    Ok::<SocketAddress, Error>(m.external_tcp),
                )
                &&& secure_resolved(
                    *resolve,
                    &info.external_tcp_ip,
                    info.external_secure_tcp_port,
                    m.external_secure_tcp,
                )
                &&& resolve.ensures(
                    (&info.external_http_ip, info.external_http_port),
                    Ok::<SocketAddress, Error>(m.external_http),
                )
                &&& resolve.ensures(
                    (&info.internal_tcp_ip, info.internal_tcp_port),
                    Ok::<SocketAddress, Error>(m.internal_tcp),
                )
                &&& secure_resolved(
                    *resolve,
                    &info.internal_tcp_ip,
                    info.internal_secure_tcp_port,
                    m.internal_secure_tcp,
                )
                &&& resolve.ensures(
                    (&info.internal_http_ip, info.internal_http_port),
                    Ok::<SocketAddress, Error>(m.internal_http),
                )
                &&& m.state == info.state
            },
            r matches Err(e) ==> first_failure(*resolve, info, e),
    {
        let external_tcp = match resolve(&info.external_tcp_ip, info.external_tcp_port) {
            Ok(a) => a,
            Err(e) => return Err(e),
        };
        let external_secure_tcp = if info.external_secure_tcp_port < 1 {
            None
        } else {
            match resolve(&info.external_tcp_ip, info.external_secure_tcp_port) {
                Ok(a) => Some(a),
                Err(e) => return Err(e),
            }
        };
        let external_http = match resolve(&info.external_http_ip, info.external_http_port) {
            Ok(a) => a,
            Err(e) => return Err(e),
        };
        let internal_tcp = match resolve(&info.internal_tcp_ip, info.internal_tcp_port) {
            Ok(a) => a,
            Err(e) => return Err(e),
        };
        let internal_secure_tcp = if info.internal_secure_tcp_port < 1 {
            None
        } else {
            match resolve(&info.internal_tcp_ip, info.internal_secure_tcp_port) {
                Ok(a) => Some(a),
                Err(e) => return Err(e),
            }
        };
        let internal_http = match resolve(&info.internal_http_ip, info.internal_http_port) {
            Ok(a) => a,
            Err(e) => return Err(e),
        };
        Ok(
            Member {
                external_tcp,
                external_secure_tcp,
                external_http,
                internal_tcp,
                internal_secure_tcp,
                internal_http,
                state: info.state,
            },
        )
    }
}

/// The endpoints of the node chosen to connect to.
#[derive(Debug, Copy, Clone, PartialEq, Eq, Structural)]
pub struct NodeEndpoints {
    pub tcp_endpoint: Endpoint,
    pub secure_tcp_endpoint: Option<Endpoint>,
}

/// Member `i` is the first of the allowed members whose state comes first in
/// the order of states.
pub open spec fn is_best(members: Seq<MemberInfo>, i: int) -> bool {
    &&& 0 <= i < members.len()
    &&& members[i].state.allowed()
    &&& forall|j: int|
        0 <= j < members.len() && #[trigger] members[j].state.allowed() ==> members[i].state.rank()
            <= members[j].state.rank()
    &&& forall|j: int|
        0 <= j < i && #[trigger] members[j].state.allowed() ==> members[i].state.rank()
            < members[j].state.rank()
}

/// The state a preference asks for: master for `Master`, slave otherwise.
pub open spec fn preferred_state(preference: NodePreference) -> VNodeState {
    if preference == NodePreference::Master {
        VNodeState::Master
    } else {
        VNodeState::Slave
    }
}

/// Member `i` is the first member in state `s`.
pub open spec fn is_first_in(members: Seq<MemberInfo>, i: int, s: VNodeState) -> bool {
    &&& 0 <= i < members.len()
    &&& members[i].state == s
    &&& forall|j: int| 0 <= j < i ==> #[trigger] members[j].state != s
}

/// Some member is in state `s`.
pub open spec fn has_state(members: Seq<MemberInfo>, s: VNodeState) -> bool {
    exists|j: int| 0 <= j < members.len() && #[trigger] members[j].state == s
}

/// Member `i` may be chosen under `preference`: with no preference any
/// allowed member; with a preference for the master (or a slave), the first
/// member in that state when there is one, otherwise the best allowed
/// member.
pub open spec fn choosable(preference: NodePreference, members: Seq<MemberInfo>, i: int) -> bool {
    if preference == NodePreference::Random {
        0 <= i < members.len() && members[i].state.allowed()
    } else if has_state(members, preferred_state(preference)) {
        is_first_in(members, i, preferred_state(preference))
    } else {
        is_best(members, i)
    }
}

/// A member that is a manager, shutting down or shut down is never chosen,
/// whatever the preference; a member in any other state may be chosen when
/// there is no preference.
pub proof fn lemma_chosen_states(preference: NodePreference, members: Seq<MemberInfo>, i: int)
    requires
        0 <= i < members.len(),
    ensures
        (members[i].state is Manager || members[i].state is ShuttingDown
            || members[i].state is Shutdown) ==> !choosable(preference, members, i),
        !(members[i].state is Manager || members[i].state is ShuttingDown
            || members[i].state is Shutdown) ==> choosable(NodePreference::Random, members, i),
{
}

/// The endpoints a chosen member gives, its external TCP address having
/// been resolved to `addr`: the TCP endpoint, and the same address with the
/// secure port when that port is not 0.
pub open spec fn endpoints_of(m: MemberInfo, addr: SocketAddress) -> NodeEndpoints {
    NodeEndpoints {
        tcp_endpoint: Endpoint { addr },
        secure_tcp_endpoint: if m.external_secure_tcp_port > 0 {
            Some(Endpoint { addr: SocketAddress { port: m.external_secure_tcp_port, ..addr } })
        } else {
            None
        },
    }
}

/// Chooses the node to connect to among the members of a gossip. Managers
/// and nodes shutting down are never chosen. With no preference the node is
/// chosen at random. With a preference for the master (or for a slave), it
/// is the first member in that state; when there is none, the first member
/// whose state comes first in the order of states. Its external TCP address is resolved; when
/// no member may be chosen, there is no node.
pub fn determine_best_node<F: Fn(&String, u16) -> Result<SocketAddress, Error>>(
    preference: NodePreference,
    members: Vec<MemberInfo>,
    resolve: &F,
) -> (r: Result<Option<NodeEndpoints>, Error>)
    requires
        forall|ip: &String, port: u16| resolve.requires((ip, port)),
    ensures
        (forall|i: int| 0 <= i < members@.len() ==> !#[trigger] members@[i].state.allowed())
            <==> r == Ok::<Option<NodeEndpoints>, Error>(None),
        r matches Ok(Some(n)) ==> exists|i: int, a: SocketAddress|
            #![trigger members@[i], endpoints_of(members@[i], a)]
            {
                &&& choosable(preference, members@, i)
                &&& resolve.ensures(
                    (&members@[i].external_tcp_ip, members@[i].external_tcp_port),
                    Ok::<SocketAddress, Error>(a),
                )
                &&& n == endpoints_of(members@[i], a)
            },
        (forall|i: int|
            0 <= i < members@.len() ==> (#[trigger] members@[i].state is Manager || members@[i].state is ShuttingDown
                || members@[i].state is Shutdown)) ==> r == Ok::<Option<NodeEndpoints>, Error>(None),
        r matches Ok(Some(n)) ==> exists|i: int, a: SocketAddress|
            #![trigger members@[i], endpoints_of(members@[i], a)]
            {
                &&& 0 <= i < members@.len()
                &&& !(members@[i].state is Manager || members@[i].state is ShuttingDown
                    || members@[i].state is Shutdown)
                &&& resolve.ensures(
                    (&members@[i].external_tcp_ip, members@[i].external_tcp_port),
                    Ok::<SocketAddress, Error>(a),
                )
                &&& n == endpoints_of(members@[i], a)
            },
        r matches Err(e) ==> exists|i: int|
            #![trigger members@[i]]
            {
                &&& 0 <= i < members@.len()
                &&& !(members@[i].state is Manager || members@[i].state is ShuttingDown
                    || members@[i].state is Shutdown)
                &&& resolve.ensures(
                    (&members@[i].external_tcp_ip, members@[i].external_tcp_port),
                    Err::<SocketAddress, Error>(e),
                )
            },
        r matches Err(e) ==> exists|i: int|
            #![trigger members@[i]]
            {
                &&& choosable(preference, members@, i)
                &&& resolve.ensures(
                    (&members@[i].external_tcp_ip, members@[i].external_tcp_port),
                    Err::<SocketAddress, Error>(e),
                )
            },
{
    let ghost all = members@;
    let mut members = members;
    let chosen: Option<usize> = if preference == NodePreference::Random {
        let mut candidates: Vec<usize> = Vec::new();
        let mut i: usize = 0;
        while i < members.len()
            invariant
                i <= members@.len(),
                members@ == all,
                forall|k: int| 0 <= k < candidates@.len() ==> {
                    &&& #[trigger] candidates@[k] < members@.len()
                    &&& all[candidates@[k] as int].state.allowed()
                },
                forall|j: int| 0 <= j < i && #[trigger] all[j].state.allowed() ==> candidates@.contains(j as usize),
            decreases members@.len() - i,
        {
            let ghost old_c = candidates@;
            if members[i].state.allowed_state() {
                candidates.push(i);
            }
            proof {
                assert forall|j: int| 0 <= j < i + 1 && #[trigger] all[j].state.allowed() implies candidates@.contains(j as usize) by {
                    if j == i {
                        assert(candidates@[candidates@.len() - 1] == j as usize);
                    } else {
                        assert(old_c.contains(j as usize));
                        let w = choose|w: int| 0 <= w < old_c.len() && old_c[w] == j as usize;
                        assert(candidates@[w] == j as usize);
                    }
                }
            }
            i = i + 1;
        }
        shuffle(&mut candidates);
        if candidates.len() > 0 {
            let c = candidates[0];
            proof {
                assert(candidates@.to_multiset().count(c) > 0);
            }
            Some(c)
        } else {
            proof {
                assert forall|j: int| 0 <= j < all.len() implies !#[trigger] all[j].state.allowed() by {
                    if all[j].state.allowed() {
                        assert(candidates@.contains(j as usize));
                    }
                }
            }
            None
        }
    } else {
        let mut best: Option<usize> = None;
        let mut i: usize = 0;
        while i < members.len()
            invariant
                i <= members@.len(),
                members@ == all,
                best is None ==> forall|j: int| 0 <= j < i ==> !#[trigger] all[j].state.allowed(),
                best matches Some(b) ==> {
                    &&& b < i
                    &&& all[b as int].state.allowed()
                    &&& forall|j: int|
                        0 <= j < i && #[trigger] all[j].state.allowed() ==> all[b as int].state.rank()
                            <= all[j].state.rank()
                    &&& forall|j: int|
                        0 <= j < b && #[trigger] all[j].state.allowed() ==> all[b as int].state.rank()
                            < all[j].state.rank()
                },
            decreases members@.len() - i,
        {
            if members[i].state.allowed_state() {
                match best {
                    None => {
                        best = Some(i);
                    },
                    Some(b) => {
                        if members[i].state.order() < members[b].state.order() {
                            best = Some(i);
                        }
                    },
                }
            }
            i = i + 1;
        }
        let wanted = if preference == NodePreference::Master {
            VNodeState::Master
        } else {
            VNodeState::Slave
        };
        let mut first: Option<usize> = None;
        let mut k: usize = 0;
        while k < members.len()
            invariant
                k <= members@.len(),
                members@ == all,
                wanted == preferred_state(preference),
                first is None ==> forall|j: int| 0 <= j < k ==> #[trigger] all[j].state != wanted,
                first matches Some(f) ==> is_first_in(all, f as int, wanted),
            decreases members@.len() - k,
        {
            if first.is_none() && members[k].state == wanted {
                first = Some(k);
            }
            k = k + 1;
        }
        match first {
            Some(f) => {
                proof {
                    assert(all[f as int].state.allowed());
                }
                Some(f)
            },
            None => {
                proof {
                    assert(!has_state(all, wanted));
                }
                best
            },
        }
    };
    match chosen {
        None => Ok(None),
        Some(idx) => {
            let member = members.swap_remove(idx);
            assert(member == all[idx as int]);
            let addr = match resolve(&member.external_tcp_ip, member.external_tcp_port) {
                Ok(a) => a,
                Err(e) => {
                    assert(choosable(preference, all, idx as int));
                    return Err(e);
                },
            };
            let tcp_endpoint = Endpoint::from_addr(addr);
            let secure_tcp_endpoint = if member.external_secure_tcp_port > 0 {
                Some(Endpoint::from_addr(addr.with_port(member.external_secure_tcp_port)))
            } else {
                None
            };
            let n = NodeEndpoints { tcp_endpoint, secure_tcp_endpoint };
            assert(choosable(preference, all, idx as int));
            assert(n == endpoints_of(all[idx as int], addr));
            Ok(Some(n))
        },
    }
}

/// Applies `f` to the value of `option`, if there is one, and gathers the
/// outcome.
pub fn traverse_opt<A, B, E, F: FnOnce(A) -> Result<B, E>>(option: Option<A>, f: F) -> (r: Result<
    Option<B>,
    E,
>)
    requires
        option matches Some(a) ==> f.requires((a,)),
    ensures
        option is None ==> r == Ok::<Option<B>, E>(None),
        option matches Some(a) ==> match r {
            Ok(Some(b)) => f.ensures((a,), Ok::<B, E>(b)),
            Ok(None) => false,
            Err(e) => f.ensures((a,), Err::<B, E>(e)),
        },
{
    match option {
        None => Ok(None),
        Some(a) => {
            let b = match f(a) {
                Ok(b) => b,
                Err(e) => return Err(e),
            };
            Ok(Some(b))
        },
    }
}

/// The gossip seed of a member: its external HTTP address.
pub open spec fn seed_of(m: Member) -> GossipSeed {
    GossipSeed { endpoint: Endpoint { addr: m.external_http } }
}

/// Whether a member is a manager.
pub open spec fn manager_pred() -> spec_fn(Member) -> bool {
    |m: Member| m.state == VNodeState::Manager
}

/// Whether a member is not a manager.
pub open spec fn node_pred() -> spec_fn(Member) -> bool {
    |m: Member| m.state != VNodeState::Manager
}

/// Whether a member's external TCP address is not `addr`.
pub open spec fn not_at(addr: SocketAddress) -> spec_fn(Member) -> bool {
    |m: Member| m.external_tcp != addr
}

/// After a failure on `addr`, a member of the previous gossip is asked again
/// exactly when its external TCP address differs from `addr` in its IP or
/// in its port: only a member at that very address is left out, and one on
/// the same host with another port is kept.
pub proof fn lemma_failed_member_left_out(candidates: Seq<Member>, addr: SocketAddress)
    ensures
        forall|m: Member|
            #[trigger] candidates.filter(not_at(addr)).contains(m) <==> (candidates.contains(m) && (
            m.external_tcp.ip != addr.ip || m.external_tcp.port != addr.port)),
{
    broadcast use vstd::seq_lib::group_filter_ensures;

    assert forall|m: Member|
        #[trigger] candidates.filter(not_at(addr)).contains(m) <==> (candidates.contains(m) && (
        m.external_tcp.ip != addr.ip || m.external_tcp.port != addr.port)) by {
        let kept = candidates.filter(not_at(addr));
        if kept.contains(m) {
            candidates.lemma_filter_contains_rev(not_at(addr), m);
            let j = choose|j: int| 0 <= j < kept.len() && kept[j] == m;
            candidates.lemma_filter_pred(not_at(addr), j);
        }
        if candidates.contains(m) && (m.external_tcp.ip != addr.ip || m.external_tcp.port
            != addr.port) {
            let j = choose|j: int| 0 <= j < candidates.len() && candidates[j] == m;
            candidates.lemma_filter_contains(not_at(addr), j);
        }
    }
}

/// `seeds` asks the members `candidates` for gossip: first the members that
/// are not managers, then the managers, each group in some order.
pub open spec fn arranged(seeds: Seq<GossipSeed>, candidates: Seq<Member>) -> bool {
    exists|ns: Seq<Member>, ms: Seq<Member>|
        {
            &&& #[trigger] ns.to_multiset() == candidates.filter(node_pred()).to_multiset()
            &&& #[trigger] ms.to_multiset() == candidates.filter(manager_pred()).to_multiset()
            &&& seeds == (ns + ms).map_values(|m: Member| seed_of(m))
        }
}

/// Gossip seeds arranged from some members ask each of those members, by its
/// external HTTP address, and ask no one else.
pub proof fn lemma_arranged_asks_each_member(seeds: Seq<GossipSeed>, candidates: Seq<Member>)
    requires
        arranged(seeds, candidates),
    ensures
        forall|m: Member| #[trigger] candidates.contains(m) ==> seeds.contains(seed_of(m)),
        forall|g: GossipSeed|
            #[trigger] seeds.contains(g) ==> exists|m: Member| candidates.contains(m) && g == seed_of(m),
{
    broadcast use vstd::seq_lib::group_to_multiset_ensures;
    broadcast use vstd::seq_lib::group_filter_ensures;

    let (ns, ms) = choose|ns: Seq<Member>, ms: Seq<Member>|
        {
            &&& #[trigger] ns.to_multiset() == candidates.filter(node_pred()).to_multiset()
            &&& #[trigger] ms.to_multiset() == candidates.filter(manager_pred()).to_multiset()
            &&& seeds == (ns + ms).map_values(|m: Member| seed_of(m))
        };
    let all = ns + ms;
    assert forall|m: Member| #[trigger] candidates.contains(m) implies seeds.contains(seed_of(m)) by {
        let j = choose|j: int| 0 <= j < candidates.len() && candidates[j] == m;
        if m.state == VNodeState::Manager {
            candidates.lemma_filter_contains(manager_pred(), j);
            assert(candidates.filter(manager_pred()).to_multiset().count(m) > 0);
            assert(ms.contains(m));
            let w = choose|w: int| 0 <= w < ms.len() && ms[w] == m;
            assert(all[ns.len() + w] == m);
            assert(seeds[ns.len() + w] == seed_of(m));
        } else {
            candidates.lemma_filter_contains(node_pred(), j);
            assert(candidates.filter(node_pred()).to_multiset().count(m) > 0);
            assert(ns.contains(m));
            let w = choose|w: int| 0 <= w < ns.len() && ns[w] == m;
            assert(all[w] == m);
            assert(seeds[w] == seed_of(m));
        }
    }
    assert forall|g: GossipSeed| #[trigger] seeds.contains(g) implies exists|m: Member|
        candidates.contains(m) && g == seed_of(m) by {
        let idx = choose|idx: int| 0 <= idx < seeds.len() && seeds[idx] == g;
        let m = all[idx];
        assert(g == seed_of(m));
        if idx < ns.len() {
            assert(ns[idx] == m);
            assert(ns.to_multiset().count(m) > 0);
            assert(candidates.filter(node_pred()).contains(m));
            candidates.lemma_filter_contains_rev(node_pred(), m);
        } else {
            assert(ms[idx - ns.len()] == m);
            assert(ms.to_multiset().count(m) > 0);
            assert(candidates.filter(manager_pred()).contains(m));
            candidates.lemma_filter_contains_rev(manager_pred(), m);
        }
    }
}

/// The members to ask for gossip, managers apart.
pub struct Candidates {
    pub nodes: Vec<Member>,
    pub managers: Vec<Member>,
}

impl Candidates {
    pub fn new() -> (r: Candidates)
        ensures
            r.nodes@ == Seq::<Member>::empty(),
            r.managers@ == Seq::<Member>::empty(),
    {
        Candidates { nodes: Vec::new(), managers: Vec::new() }
    }

    /// Adds a member to the managers or to the other nodes.
    pub fn push(&mut self, member: Member)
        ensures
            member.state == VNodeState::Manager ==> final(self).managers@ == old(
                self,
            ).managers@.push(member) && final(self).nodes@ == old(self).nodes@,
            member.state != VNodeState::Manager ==> final(self).nodes@ == old(self).nodes@.push(
                member,
            ) && final(self).managers@ == old(self).managers@,
    {
        if member.state == VNodeState::Manager {
            self.managers.push(member);
        } else {
            self.nodes.push(member);
        }
    }

    /// Shuffles the nodes and the managers, each among themselves.
    pub fn shuffle(&mut self)
        ensures
            final(self).nodes@.to_multiset() == old(self).nodes@.to_multiset(),
            final(self).managers@.to_multiset() == old(self).managers@.to_multiset(),
    {
        shuffle(&mut self.nodes);
        shuffle(&mut self.managers);
    }

    /// The gossip seeds of the nodes, then of the managers.
    pub fn gossip_seeds(self) -> (r: Vec<GossipSeed>)
        ensures
            r@ == (self.nodes@ + self.managers@).map_values(|m: Member| seed_of(m)),
    {
        let ghost all = self.nodes@ + self.managers@;
        let mut nodes = self.nodes;
        let managers = self.managers;
        let mut i: usize = 0;
        while i < managers.len()
            invariant
                i <= managers@.len(),
                nodes@ == all.take(self.nodes@.len() + i),
                all == self.nodes@ + managers@,
            decreases managers@.len() - i,
        {
            nodes.push(managers[i]);
            i = i + 1;
            assert(nodes@ =~= all.take(self.nodes@.len() + i));
        }
        assert(nodes@ =~= all);
        let mut r: Vec<GossipSeed> = Vec::new();
        let mut j: usize = 0;
        while j < nodes.len()
            invariant
                j <= nodes@.len(),
                nodes@ == all,
                r@ == all.take(j as int).map_values(|m: Member| seed_of(m)),
            decreases nodes@.len() - j,
        {
            r.push(GossipSeed::from_socket_addr(nodes[j].external_http));
            j = j + 1;
            assert(r@ =~= all.take(j as int).map_values(|m: Member| seed_of(m)));
        }
        assert(all.take(all.len() as int) =~= all);
        r
    }
}

/// Discovers the node to connect to by asking gossip seeds about the
/// cluster.
pub struct GossipSeedDiscovery {
    pub settings: GossipSeedClusterSettings,
    pub previous_candidates: Option<Vec<Member>>,
    pub preference: NodePreference,
}

impl GossipSeedDiscovery {
    pub fn new(settings: GossipSeedClusterSettings) -> (r: GossipSeedDiscovery)
        ensures
            seed_list(r.settings.seeds) == seed_list(settings.seeds),
            r.settings.preference == settings.preference,
            r.settings.gossip_timeout == settings.gossip_timeout,
            r.settings.max_discover_attempts == settings.max_discover_attempts,
            r.previous_candidates is None,
            r.preference == NodePreference::Random,
    {
        GossipSeedDiscovery { settings, previous_candidates: None, preference: NodePreference::Random }
    }

    /// The configured gossip seeds, in random order.
    pub fn candidates_from_dns(&self) -> (r: Vec<GossipSeed>)
        ensures
            r@.to_multiset() == seed_list(self.settings.seeds).to_multiset(),
            r@.len() > 0,
    {
        let mut src = seeds_to_vec(&self.settings.seeds);
        shuffle(&mut src);
        src
    }

    /// The members of the previous gossip to ask, leaving out the member
    /// whose external TCP address is the endpoint that failed.
    pub fn candidates_from_old_gossip(
        &self,
        failed_endpoint: Option<&Endpoint>,
        old_candidates: Vec<Member>,
    ) -> (r: Vec<GossipSeed>)
        ensures
            arranged(
                r@,
                match failed_endpoint {
                    Some(e) => old_candidates@.filter(not_at(e.addr)),
                    None => old_candidates@,
                },
            ),
    {
        let candidates = match failed_endpoint {
            Some(endpoint) => {
                let ghost keep = not_at(endpoint.addr);
                let mut kept: Vec<Member> = Vec::new();
                let mut i: usize = 0;
                while i < old_candidates.len()
                    invariant
                        i <= old_candidates@.len(),
                        keep == not_at(endpoint.addr),
                        kept@ == old_candidates@.take(i as int).filter(keep),
                    decreases old_candidates@.len() - i,
                {
                    let m = old_candidates[i];
                    proof {
                        assert(old_candidates@.take(i + 1) =~= old_candidates@.take(i as int).push(m));
                        old_candidates@.take(i as int).lemma_filter_push(m, keep);
                        
                    }
                    if m.external_tcp != endpoint.addr {
                        kept.push(m);
                    }
                    i = i + 1;
                }
                assert(old_candidates@.take(old_candidates@.len() as int) =~= old_candidates@);
                kept
            },
            None => old_candidates,
        };
        self.arrange_gossip_candidates(candidates)
    }

    /// The gossip seeds of the members: the nodes in random order, then the
    /// managers in random order.
    pub fn arrange_gossip_candidates(&self, candidates: Vec<Member>) -> (r: Vec<GossipSeed>)
        ensures
            arranged(r@, candidates@),
    {
        let mut arranged_candidates = Candidates::new();
        let mut i: usize = 0;
        while i < candidates.len()
            invariant
                i <= candidates@.len(),
                arranged_candidates.nodes@ == candidates@.take(i as int).filter(node_pred()),
                arranged_candidates.managers@ == candidates@.take(i as int).filter(manager_pred()),
            decreases candidates@.len() - i,
        {
            let m = candidates[i];
            proof {
                assert(candidates@.take(i + 1) =~= candidates@.take(i as int).push(m));
                candidates@.take(i as int).lemma_filter_push(m, node_pred());
                candidates@.take(i as int).lemma_filter_push(m, manager_pred());
            }
            arranged_candidates.push(m);
            i = i + 1;
        }
        assert(candidates@.take(candidates@.len() as int) =~= candidates@);
        arranged_candidates.shuffle();
        let ghost ns = arranged_candidates.nodes@;
        let ghost ms = arranged_candidates.managers@;
        let r = arranged_candidates.gossip_seeds();
        assert(ns.to_multiset() == candidates@.filter(node_pred()).to_multiset());
        assert(ms.to_multiset() == candidates@.filter(manager_pred()).to_multiset());
        r
    }

    /// The gossip seeds a discovery asks, in order: the members of the
    /// previous gossip when there is one (which is used up), leaving out the
    /// endpoint that failed last; otherwise the configured seeds.
    pub fn next_candidates(&mut self, last: Option<&Endpoint>) -> (r: Vec<GossipSeed>)
        ensures
            final(self).previous_candidates is None,
            final(self).preference == old(self).preference,
            seed_list(final(self).settings.seeds) == seed_list(old(self).settings.seeds),
            match old(self).previous_candidates {
                Some(old_candidates) => arranged(
                    r@,
                    match last {
                        Some(e) => old_candidates@.filter(not_at(e.addr)),
                        None => old_candidates@,
                    },
                ),
                None => r@.to_multiset() == seed_list(old(self).settings.seeds).to_multiset(),
            },
    {
        let previous = self.previous_candidates.take();
        match previous {
            Some(old_candidates) => self.candidates_from_old_gossip(last, old_candidates),
            None => self.candidates_from_dns(),
        }
    }
}

/// Whether a gossip seed's answer ends the search: it does when the seed
/// answered with at least one member; an error or an empty answer moves on
/// to the next seed.
pub fn gossip_found(answer: &Result<Vec<MemberInfo>, Error>) -> (r: bool)
    ensures
        r <==> (answer matches Ok(members) && members@.len() > 0),
{
    match answer {
        Ok(members) => members.len() > 0,
        Err(_) => false,
    }
}

/// A discovery that always gives the same address.
#[derive(Debug, Copy, Clone)]
pub struct StaticDiscovery {
    pub addr: SocketAddress,
}

impl StaticDiscovery {
    pub fn new(addr: SocketAddress) -> (r: StaticDiscovery)
        ensures
            r.addr == addr,
    {
        StaticDiscovery { addr }
    }

    /// The endpoint to connect to: the configured address, whatever failed
    /// before.
    pub fn discover(&self, last: Option<&Endpoint>) -> (r: Endpoint)
        ensures
            r.addr == self.addr,
    {
        Endpoint { addr: self.addr }
    }
}

} // verus!
