use supervisor::config::{ChainConfig, Config, GlobalConfig, PacketFilter};
use supervisor::filter::{
    evidence_host, CacheKey, ChannelEvidence, ClientState, ConnectionEvidence, Evidence, FilterPolicy, Permission,
    QueryError, TrustThreshold,
};
use supervisor::ident::{ChainId, ChannelId, ClientId, ConnectionId, PortId};
use supervisor::object::{Channel, Client, Connection, Object, Packet};
use supervisor::supervisor::Supervisor;

fn chain(id: &str) -> ChainId {
    ChainId::new(id.to_string())
}

fn client(id: &str) -> ClientId {
    ClientId::new(id.to_string())
}

fn state(of: &str, numerator: u64, denominator: u64) -> ClientState {
    ClientState {
        chain_id: chain(of),
        trust_threshold: Some(TrustThreshold { numerator, denominator }),
        expired: false,
    }
}

fn third() -> FilterPolicy {
    FilterPolicy::default()
}

fn connection_evidence(local: ClientState, remote: ClientState) -> ConnectionEvidence {
    ConnectionEvidence {
        client_id: client("07-tendermint-0"),
        client_state: local,
        counterparty_client_id: client("07-tendermint-5"),
        counterparty_client_state: remote,
    }
}

fn channel_evidence(local: ClientState, remote: ClientState) -> ChannelEvidence {
    ChannelEvidence {
        connection_id: ConnectionId::new("connection-0".to_string()),
        connection: connection_evidence(local, remote),
    }
}

fn packet() -> Packet {
    Packet {
        dst_chain_id: chain("B"),
        src_chain_id: chain("A"),
        src_channel_id: ChannelId::new("channel-0".to_string()),
        src_port_id: PortId::new("transfer".to_string()),
    }
}

fn client_object() -> Client {
    Client { dst_chain_id: chain("A"), dst_client_id: client("07-tendermint-0"), src_chain_id: chain("B") }
}

#[test]
fn permission_and() {
    assert_eq!(Permission::Allow.and(Permission::Allow), Permission::Allow);
    assert_eq!(Permission::Allow.and(Permission::Deny), Permission::Deny);
    assert_eq!(Permission::Deny.and(Permission::Allow), Permission::Deny);
    assert_eq!(Permission::Deny.and(Permission::Deny), Permission::Deny);
}

#[test]
fn trust_threshold_is_held_against_the_lower_bound() {
    let policy = third();
    assert_eq!(policy.decide(&state("B", 1, 3)), Permission::Allow);
    assert_eq!(policy.decide(&state("B", 2, 6)), Permission::Allow);
    assert_eq!(policy.decide(&state("B", 2, 3)), Permission::Allow);
    assert_eq!(policy.decide(&state("B", 1, 1)), Permission::Allow);
    assert_eq!(policy.decide(&state("B", 1, 4)), Permission::Deny);
    assert_eq!(policy.decide(&state("B", 33, 100)), Permission::Deny);
    assert_eq!(policy.decide(&state("B", 34, 100)), Permission::Allow);
    assert_eq!(policy.decide(&state("B", 0, 1)), Permission::Deny);
}

#[test]
fn ill_formed_thresholds_are_denied() {
    let policy = third();
    assert_eq!(policy.decide(&state("B", 1, 0)), Permission::Deny);
    assert_eq!(policy.decide(&state("B", 0, 0)), Permission::Deny);
    assert_eq!(policy.decide(&state("B", 4, 3)), Permission::Deny);
    let none = ClientState { chain_id: chain("B"), trust_threshold: None, expired: false };
    assert_eq!(policy.decide(&none), Permission::Deny);
}

#[test]
fn expired_client_is_denied() {
    let mut s = state("B", 2, 3);
    s.expired = true;
    assert_eq!(third().decide(&s), Permission::Deny);
}

#[test]
fn thresholds_near_the_machine_limit_do_not_wrap() {
    let policy = FilterPolicy::new(TrustThreshold { numerator: u64::MAX - 1, denominator: u64::MAX });
    assert_eq!(policy.decide(&state("B", u64::MAX - 1, u64::MAX)), Permission::Allow);
    assert_eq!(policy.decide(&state("B", u64::MAX - 2, u64::MAX)), Permission::Deny);
    assert_eq!(policy.decide(&state("B", u64::MAX, u64::MAX)), Permission::Allow);
    assert_eq!(policy.decide(&state("B", u64::MAX - 2, u64::MAX - 1)), Permission::Deny);
}

#[test]
fn client_decision_is_remembered() {
    let mut policy = third();
    assert_eq!(policy.control_client(&chain("A"), &client("c"), &state("B", 1, 3)), Permission::Allow);
    // The remembered decision wins over what is shown later.
    assert_eq!(policy.control_client(&chain("A"), &client("c"), &state("B", 1, 4)), Permission::Allow);
    // Another chain, another client.
    assert_eq!(policy.control_client(&chain("B"), &client("c"), &state("A", 1, 4)), Permission::Deny);
    assert_eq!(policy.get(&CacheKey::Client(chain("A"), client("c"))), Some(Permission::Allow));
    assert_eq!(policy.get(&CacheKey::Client(chain("B"), client("c"))), Some(Permission::Deny));
    assert_eq!(policy.get(&CacheKey::Client(chain("C"), client("c"))), None);
}

#[test]
fn connection_needs_both_clients() {
    let conn = ConnectionId::new("connection-0".to_string());
    let mut policy = third();
    let both = connection_evidence(state("B", 1, 3), state("A", 1, 3));
    assert_eq!(policy.control_connection_end_and_client(&chain("A"), &conn, &both), Permission::Allow);
    assert_eq!(policy.get(&CacheKey::Client(chain("A"), client("07-tendermint-0"))), Some(Permission::Allow));
    assert_eq!(policy.get(&CacheKey::Client(chain("B"), client("07-tendermint-5"))), Some(Permission::Allow));
    assert_eq!(policy.get(&CacheKey::Connection(chain("A"), conn.clone())), Some(Permission::Allow));

    let mut policy = third();
    let remote_weak = connection_evidence(state("B", 1, 3), state("A", 1, 10));
    assert_eq!(policy.control_connection_end_and_client(&chain("A"), &conn, &remote_weak), Permission::Deny);
    let mut policy = third();
    let local_weak = connection_evidence(state("B", 1, 10), state("A", 1, 3));
    assert_eq!(policy.control_connection_end_and_client(&chain("A"), &conn, &local_weak), Permission::Deny);
}

#[test]
fn channel_decision_rests_on_its_connection() {
    let mut policy = third();
    let p = packet();
    let good = channel_evidence(state("B", 1, 3), state("A", 1, 3));
    assert_eq!(
        policy.control_channel(&chain("A"), &p.src_port_id, &p.src_channel_id, &good),
        Permission::Allow
    );
    assert_eq!(
        policy.get(&CacheKey::Channel(chain("A"), p.src_port_id.clone(), p.src_channel_id.clone())),
        Some(Permission::Allow)
    );
    assert_eq!(
        policy.get(&CacheKey::Connection(chain("A"), ConnectionId::new("connection-0".to_string()))),
        Some(Permission::Allow)
    );
}

#[test]
fn object_decisions_read_evidence_only_on_a_miss() {
    let mut policy = third();
    let c = client_object();
    assert_eq!(policy.control_client_object(&c, Err(QueryError::Failed)), Err(QueryError::Failed));
    assert!(!policy.knows(&Object::Client(client_object())));
    assert_eq!(policy.control_client_object(&c, Ok(&state("B", 1, 3))), Ok(Permission::Allow));
    assert!(policy.knows(&Object::Client(client_object())));
    // A hit: the error is not even looked at.
    assert_eq!(policy.control_client_object(&c, Err(QueryError::ChainUnavailable)), Ok(Permission::Allow));

    let p = packet();
    // The local client was allowed above, and stays so; the remote one is weak.
    let bad = channel_evidence(state("B", 1, 5), state("A", 1, 5));
    assert_eq!(policy.control_packet_object(&p, Err(QueryError::NotFound)), Err(QueryError::NotFound));
    assert_eq!(policy.control_packet_object(&p, Ok(&bad)), Ok(Permission::Deny));
    assert_eq!(
        policy.get(&CacheKey::Client(chain("A"), client("07-tendermint-0"))),
        Some(Permission::Allow)
    );
    assert_eq!(
        policy.get(&CacheKey::Client(chain("B"), client("07-tendermint-5"))),
        Some(Permission::Deny)
    );
    // The channel object of the same channel end shares the decision.
    let ch = Channel {
        dst_chain_id: chain("B"),
        src_chain_id: chain("A"),
        src_channel_id: p.src_channel_id.clone(),
        src_port_id: p.src_port_id.clone(),
    };
    assert_eq!(policy.control_chan_object(&ch, Err(QueryError::Failed)), Ok(Permission::Deny));

    let conn = Connection {
        dst_chain_id: chain("B"),
        src_chain_id: chain("A"),
        src_connection_id: ConnectionId::new("connection-7".to_string()),
    };
    assert_eq!(policy.control_conn_object(&conn, Err(QueryError::ChainUnavailable)), Err(QueryError::ChainUnavailable));
    let mut good = connection_evidence(state("B", 1, 2), state("A", 1, 2));
    good.counterparty_client_id = client("07-tendermint-8");
    assert_eq!(policy.control_conn_object(&conn, Ok(&good)), Ok(Permission::Allow));
}

#[test]
fn evidence_of_another_kind_counts_as_not_found() {
    let mut policy = third();
    let object = Object::Packet(packet());
    assert_eq!(
        policy.control_object(&object, &Ok(Evidence::Client(state("B", 1, 3)))),
        Err(QueryError::NotFound)
    );
    let good = Evidence::Channel(channel_evidence(state("B", 1, 3), state("A", 1, 3)));
    assert_eq!(policy.control_object(&object, &Ok(good)), Ok(Permission::Allow));
}

#[test]
fn forgetting_a_chain_forgets_its_entities_only() {
    let mut policy = third();
    policy.control_client(&chain("A"), &client("c"), &state("B", 1, 3));
    policy.control_client(&chain("B"), &client("c"), &state("A", 1, 3));
    policy.control_channel(
        &chain("A"),
        &PortId::new("transfer".to_string()),
        &ChannelId::new("channel-0".to_string()),
        &channel_evidence(state("B", 1, 3), state("A", 1, 3)),
    );
    policy.forget_chain(&chain("A"));
    assert_eq!(policy.get(&CacheKey::Client(chain("A"), client("c"))), None);
    assert_eq!(
        policy.get(&CacheKey::Channel(chain("A"), PortId::new("transfer".to_string()), ChannelId::new("channel-0".to_string()))),
        None
    );
    assert_eq!(policy.get(&CacheKey::Client(chain("B"), client("c"))), Some(Permission::Allow));
    assert_eq!(policy.get(&CacheKey::Client(chain("B"), client("07-tendermint-5"))), Some(Permission::Allow));
    policy.clear();
    assert_eq!(policy.get(&CacheKey::Client(chain("B"), client("c"))), None);
}

fn supervisor(filter: bool, allowed: PacketFilter) -> Supervisor {
    Supervisor::new(Config {
        global: GlobalConfig { filter, handshake_enabled: false },
        chains: vec![
            ChainConfig { id: chain("A"), packet_filter: allowed },
            ChainConfig { id: chain("B"), packet_filter: PacketFilter::AllowAll },
        ],
    })
}

#[test]
fn without_filter_every_object_is_relayed_on() {
    let mut s = supervisor(false, PacketFilter::Allow(vec![]));
    let weak = Ok(Evidence::Channel(channel_evidence(state("B", 0, 1), state("A", 0, 1))));
    assert!(s.relay_on_object(&chain("A"), &Object::Packet(packet()), &weak));
    assert!(s.relay_on_object(&chain("A"), &Object::Packet(packet()), &Err(QueryError::Failed)));
    assert!(s.relay_on_object(&chain("Z"), &Object::Client(client_object()), &Err(QueryError::Failed)));
    assert!(!s.needs_evidence(&chain("A"), &Object::Packet(packet())));
    assert!(!s.client_filter_enabled());
    assert!(!s.channel_filter_enabled());
    assert!(s.relay_packets_on_channel(&chain("Z"), &packet().src_port_id, &packet().src_channel_id));
}

#[test]
fn with_filter_the_channel_list_decides_first() {
    let mut s = supervisor(true, PacketFilter::Allow(vec![(PortId::new("transfer".to_string()), ChannelId::new("channel-1".to_string()))]));
    let good = Ok(Evidence::Channel(channel_evidence(state("B", 1, 3), state("A", 1, 3))));
    assert!(!s.needs_evidence(&chain("A"), &Object::Packet(packet())));
    assert!(!s.relay_on_object(&chain("A"), &Object::Packet(packet()), &good));
    assert!(!s.relay_packets_on_channel(&chain("A"), &packet().src_port_id, &packet().src_channel_id));
    // A chain without an entry allows nothing.
    assert!(!s.relay_packets_on_channel(&chain("Z"), &packet().src_port_id, &packet().src_channel_id));
    // The channel object of the same channel end is not a packet object.
    let ch = Object::Channel(Channel {
        dst_chain_id: chain("B"),
        src_chain_id: chain("A"),
        src_channel_id: packet().src_channel_id,
        src_port_id: packet().src_port_id,
    });
    assert!(s.needs_evidence(&chain("A"), &ch));
    assert!(s.relay_on_object(&chain("A"), &ch, &good));
}

#[test]
fn with_filter_deny_and_error_both_deny() {
    let mut s = supervisor(true, PacketFilter::AllowAll);
    assert!(s.needs_evidence(&chain("A"), &Object::Packet(packet())));
    assert!(!s.relay_on_object(&chain("A"), &Object::Packet(packet()), &Err(QueryError::Failed)));
    // An error is not remembered.
    assert!(s.needs_evidence(&chain("A"), &Object::Packet(packet())));
    let weak = Ok(Evidence::Channel(channel_evidence(state("B", 1, 9), state("A", 1, 3))));
    assert!(!s.relay_on_object(&chain("A"), &Object::Packet(packet()), &weak));
    // A denial is.
    assert!(!s.needs_evidence(&chain("A"), &Object::Packet(packet())));
    let good = Ok(Evidence::Channel(channel_evidence(state("B", 1, 3), state("A", 1, 3))));
    assert!(!s.relay_on_object(&chain("A"), &Object::Packet(packet()), &good));
    // The denial of the client under the channel holds for its client object too.
    assert!(!s.relay_on_object(&chain("A"), &Object::Client(client_object()), &Ok(Evidence::Client(state("B", 1, 3)))));
    let other = Client { dst_chain_id: chain("A"), dst_client_id: client("07-tendermint-3"), src_chain_id: chain("B") };
    assert!(s.relay_on_object(&chain("A"), &Object::Client(other), &Ok(Evidence::Client(state("B", 1, 3)))));
}

#[test]
fn evidence_is_asked_of_the_hosting_chain() {
    assert_eq!(evidence_host(&Object::Client(client_object())), &chain("A"));
    assert_eq!(evidence_host(&Object::Packet(packet())), &chain("A"));
    let conn = Object::Connection(Connection {
        dst_chain_id: chain("B"),
        src_chain_id: chain("C"),
        src_connection_id: ConnectionId::new("connection-7".to_string()),
    });
    assert_eq!(evidence_host(&conn), &chain("C"));
}
