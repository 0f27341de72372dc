use supervisor::collected::{collect_events, lookup_for, route_event, Lookup};
use supervisor::event::{ChannelAttributes, ConnectionAttributes, Event, EventBatch, PacketAttributes};
use supervisor::ident::{ChainId, ChannelId, ClientId, ConnectionId, Height, PortId};
use supervisor::object::{Channel, Client, Connection, Object, ObjectError, Packet, Resolution};
use supervisor::worker::WorkerMap;

fn chain(id: &str) -> ChainId {
    ChainId::new(id.to_string())
}

fn port(id: &str) -> PortId {
    PortId::new(id.to_string())
}

fn channel(id: &str) -> ChannelId {
    ChannelId::new(id.to_string())
}

fn client(id: &str) -> ClientId {
    ClientId::new(id.to_string())
}

fn connection(id: &str) -> ConnectionId {
    ConnectionId::new(id.to_string())
}

fn to_b() -> Resolution {
    Resolution { counterparty: Some(chain("B")), client: Some(client("07-tendermint-0")) }
}

fn packet_attrs() -> PacketAttributes {
    PacketAttributes {
        sequence: 5,
        source_port: port("transfer"),
        source_channel: channel("channel-0"),
        destination_port: port("ica"),
        destination_channel: channel("channel-9"),
    }
}

fn channel_attrs(id: Option<&str>) -> ChannelAttributes {
    ChannelAttributes {
        port_id: port("transfer"),
        channel_id: id.map(channel),
        connection_id: connection("connection-0"),
    }
}

fn connection_attrs(id: Option<&str>) -> ConnectionAttributes {
    ConnectionAttributes { connection_id: id.map(connection), client_id: client("07-tendermint-0") }
}

fn packet_object(p: &str, c: &str) -> Object {
    Object::Packet(Packet {
        dst_chain_id: chain("B"),
        src_chain_id: chain("A"),
        src_channel_id: channel(c),
        src_port_id: port(p),
    })
}

fn channel_object() -> Object {
    Object::Channel(Channel {
        dst_chain_id: chain("B"),
        src_chain_id: chain("A"),
        src_channel_id: channel("channel-0"),
        src_port_id: port("transfer"),
    })
}

fn client_object() -> Object {
    Object::Client(Client {
        dst_chain_id: chain("A"),
        dst_client_id: client("07-tendermint-0"),
        src_chain_id: chain("B"),
    })
}

fn connection_object() -> Object {
    Object::Connection(Connection {
        dst_chain_id: chain("B"),
        src_chain_id: chain("A"),
        src_connection_id: connection("connection-0"),
    })
}

fn routes(event: &Event, handshake_enabled: bool) -> Vec<Object> {
    route_event(event, &to_b(), &chain("A"), handshake_enabled, &WorkerMap::new())
}

#[test]
fn new_block_is_routed_nowhere() {
    assert!(routes(&Event::NewBlock(Height::new(0, 1)), true).is_empty());
    assert_eq!(lookup_for(&Event::NewBlock(Height::new(0, 1)), true), Lookup::Nothing);
}

#[test]
fn other_events_are_ignored() {
    assert!(routes(&Event::Other, true).is_empty());
    assert!(routes(&Event::OpenConfirmConnection(connection_attrs(Some("connection-0"))), true).is_empty());
    assert_eq!(lookup_for(&Event::Other, true), Lookup::Nothing);
}

#[test]
fn update_client_is_kept_only_if_a_worker_exists() {
    let event = Event::UpdateClient(client("07-tendermint-0"));
    let mut workers = WorkerMap::new();
    assert!(route_event(&event, &to_b(), &chain("A"), false, &workers).is_empty());
    workers.get_or_spawn(client_object());
    assert_eq!(route_event(&event, &to_b(), &chain("A"), false, &workers), vec![client_object()]);
    assert_eq!(lookup_for(&event, false), Lookup::Client(client("07-tendermint-0")));
}

#[test]
fn connection_handshake_is_gated() {
    for event in [
        Event::OpenInitConnection(connection_attrs(Some("connection-0"))),
        Event::OpenTryConnection(connection_attrs(Some("connection-0"))),
        Event::OpenAckConnection(connection_attrs(Some("connection-0"))),
    ] {
        assert!(routes(&event, false).is_empty());
        assert_eq!(routes(&event, true), vec![connection_object()]);
        assert_eq!(lookup_for(&event, false), Lookup::Nothing);
        assert_eq!(lookup_for(&event, true), Lookup::Connection(connection("connection-0")));
    }
}

#[test]
fn channel_open_init_and_try_are_gated() {
    for event in [
        Event::OpenInitChannel(channel_attrs(Some("channel-0"))),
        Event::OpenTryChannel(channel_attrs(Some("channel-0"))),
    ] {
        assert!(routes(&event, false).is_empty());
        assert_eq!(routes(&event, true), vec![channel_object()]);
        assert_eq!(lookup_for(&event, false), Lookup::Nothing);
        assert_eq!(lookup_for(&event, true), Lookup::Channel(port("transfer"), channel("channel-0")));
    }
}

#[test]
fn channel_open_ack_gives_client_packet_and_channel() {
    let event = Event::OpenAckChannel(channel_attrs(Some("channel-0")));
    assert_eq!(
        routes(&event, true),
        vec![client_object(), packet_object("transfer", "channel-0"), channel_object()]
    );
    assert_eq!(routes(&event, false), vec![client_object(), packet_object("transfer", "channel-0")]);
    assert_eq!(
        lookup_for(&event, false),
        Lookup::ChannelAndClient(port("transfer"), channel("channel-0"))
    );
}

#[test]
fn channel_open_confirm_gives_client_and_packet() {
    let event = Event::OpenConfirmChannel(channel_attrs(Some("channel-0")));
    assert_eq!(routes(&event, true), vec![client_object(), packet_object("transfer", "channel-0")]);
    assert_eq!(routes(&event, false), vec![client_object(), packet_object("transfer", "channel-0")]);
}

#[test]
fn packet_events_are_routed_by_their_own_channel_end() {
    assert_eq!(routes(&Event::SendPacket(packet_attrs()), false), vec![packet_object("transfer", "channel-0")]);
    assert_eq!(routes(&Event::TimeoutPacket(packet_attrs()), false), vec![packet_object("transfer", "channel-0")]);
    assert_eq!(routes(&Event::WriteAcknowledgement(packet_attrs()), false), vec![packet_object("ica", "channel-9")]);
    assert_eq!(
        routes(&Event::CloseInitChannel(port("transfer"), channel("channel-4")), false),
        vec![packet_object("transfer", "channel-4")]
    );
    assert_eq!(
        lookup_for(&Event::WriteAcknowledgement(packet_attrs()), false),
        Lookup::Channel(port("ica"), channel("channel-9"))
    );
}

#[test]
fn ill_formed_events_are_dropped() {
    let unresolved = Resolution::unresolved();
    let send = Event::SendPacket(packet_attrs());
    assert!(route_event(&send, &unresolved, &chain("A"), true, &WorkerMap::new()).is_empty());
    assert!(routes(&Event::OpenInitChannel(channel_attrs(None)), true).is_empty());
    assert!(routes(&Event::OpenAckChannel(channel_attrs(None)), true).is_empty());
    assert!(routes(&Event::OpenInitConnection(connection_attrs(None)), true).is_empty());
    // Without the client under the channel only the packet object is built.
    let no_client = Resolution { counterparty: Some(chain("B")), client: None };
    assert_eq!(
        route_event(&Event::OpenConfirmChannel(channel_attrs(Some("channel-0"))), &no_client, &chain("A"), false, &WorkerMap::new()),
        vec![packet_object("transfer", "channel-0")]
    );
}

#[test]
fn constructors_name_their_errors() {
    let unresolved = Resolution::unresolved();
    assert_eq!(
        Object::for_update_client(&client("c"), &chain("A"), &unresolved),
        Err(ObjectError::Unresolved)
    );
    assert_eq!(
        Object::connection_from_conn_open_events(&connection_attrs(None), &chain("A"), &to_b()),
        Err(ObjectError::MissingConnectionId)
    );
    assert_eq!(
        Object::connection_from_conn_open_events(&connection_attrs(Some("connection-0")), &chain("A"), &unresolved),
        Err(ObjectError::Unresolved)
    );
    assert_eq!(
        Object::channel_from_chan_open_events(&channel_attrs(None), &chain("A"), &to_b()),
        Err(ObjectError::MissingChannelId)
    );
    assert_eq!(
        Object::packet_from_chan_open_events(&channel_attrs(None), &chain("A"), &to_b()),
        Err(ObjectError::MissingChannelId)
    );
    assert_eq!(
        Object::client_from_chan_open_events(&channel_attrs(None), &chain("A"), &to_b()),
        Err(ObjectError::MissingChannelId)
    );
    assert_eq!(
        Object::client_from_chan_open_events(&channel_attrs(Some("channel-0")), &chain("A"), &unresolved),
        Err(ObjectError::Unresolved)
    );
    assert_eq!(
        Object::for_send_packet(&packet_attrs(), &chain("A"), &unresolved),
        Err(ObjectError::Unresolved)
    );
    assert_eq!(Object::for_send_packet(&packet_attrs(), &chain("A"), &to_b()), Ok(packet_object("transfer", "channel-0")));
    assert_eq!(Object::for_timeout_packet(&packet_attrs(), &chain("A"), &to_b()), Ok(packet_object("transfer", "channel-0")));
    assert_eq!(Object::for_write_ack(&packet_attrs(), &chain("A"), &to_b()), Ok(packet_object("ica", "channel-9")));
    assert_eq!(
        Object::for_close_init_channel(&port("p"), &channel("c"), &chain("A"), &to_b()),
        Ok(packet_object("p", "c"))
    );
    assert_eq!(Object::for_update_client(&client("07-tendermint-0"), &chain("A"), &to_b()), Ok(client_object()));
}

#[test]
fn batch_is_grouped_by_object_in_order() {
    let first = Event::SendPacket(packet_attrs());
    let mut later = packet_attrs();
    later.sequence = 6;
    let second = Event::SendPacket(later);
    let ack = Event::WriteAcknowledgement(packet_attrs());
    let block_1 = Event::NewBlock(Height::new(0, 7));
    let block_2 = Event::NewBlock(Height::new(0, 8));
    let batch = EventBatch {
        chain_id: chain("A"),
        height: Height::new(0, 8),
        events: vec![block_1, first.clone(), ack.clone(), Event::Other, second.clone(), block_2.clone()],
    };
    let resolutions: Vec<Resolution> = (0..6).map(|_| to_b()).collect();
    let collected = collect_events(&batch, &resolutions, false, &WorkerMap::new());
    assert_eq!(collected.height(), Height::new(0, 8));
    assert_eq!(collected.chain_id(), &chain("A"));
    // One new block at most: the last one.
    assert!(collected.has_new_block());
    assert_eq!(collected.new_block(), &Some(block_2));
    assert_eq!(collected.len(), 2);
    assert_eq!(collected.get(0), Some((&packet_object("transfer", "channel-0"), &vec![first, second])));
    assert_eq!(collected.get(1), Some((&packet_object("ica", "channel-9"), &vec![ack.clone()])));
    assert_eq!(collected.get(2), None);
    assert_eq!(collected.events_for(&packet_object("ica", "channel-9")), Some(&vec![ack]));
    assert_eq!(collected.events_for(&channel_object()), None);
}

#[test]
fn every_collected_object_names_the_batch_chain() {
    let batch = EventBatch {
        chain_id: chain("A"),
        height: Height::new(0, 8),
        events: vec![
            Event::OpenAckChannel(channel_attrs(Some("channel-0"))),
            Event::OpenInitConnection(connection_attrs(Some("connection-0"))),
            Event::SendPacket(packet_attrs()),
        ],
    };
    let resolutions: Vec<Resolution> = (0..3).map(|_| to_b()).collect();
    let collected = collect_events(&batch, &resolutions, true, &WorkerMap::new());
    assert_eq!(collected.len(), 4);
    for i in 0..collected.len() {
        let (object, events) = collected.get(i).unwrap();
        assert!(!events.is_empty());
        match object {
            Object::Client(c) => assert_eq!(c.dst_chain_id, chain("A")),
            other => assert_eq!(other.src_chain_id(), &chain("A")),
        }
    }
}

#[test]
fn events_past_the_answers_count_as_unanswered() {
    let batch = EventBatch {
        chain_id: chain("A"),
        height: Height::new(0, 8),
        events: vec![Event::SendPacket(packet_attrs()), Event::WriteAcknowledgement(packet_attrs())],
    };
    let collected = collect_events(&batch, &vec![to_b()], false, &WorkerMap::new());
    assert_eq!(collected.len(), 1);
    assert!(!collected.has_new_block());
    assert_eq!(collected.get(0).unwrap().0, &packet_object("transfer", "channel-0"));
}
