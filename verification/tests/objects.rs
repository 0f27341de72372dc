use supervisor::ident::{ChainId, ChannelId, ClientId, PortId};
use supervisor::object::{Client, Object, Packet};

fn chain(id: &str) -> ChainId {
    ChainId::new(id.to_string())
}

fn packet(src: &str, dst: &str, port: &str, channel: &str) -> Object {
    Object::Packet(Packet {
        dst_chain_id: chain(dst),
        src_chain_id: chain(src),
        src_channel_id: ChannelId::new(channel.to_string()),
        src_port_id: PortId::new(port.to_string()),
    })
}

#[test]
fn object_names_its_two_chains() {
    let o = packet("ibc-0", "ibc-1", "transfer", "channel-0");
    assert_eq!(o.src_chain_id().as_str(), "ibc-0");
    assert_eq!(o.dst_chain_id().as_str(), "ibc-1");
    assert!(o.for_chain(&chain("ibc-0")));
    assert!(o.for_chain(&chain("ibc-1")));
    assert!(!o.for_chain(&chain("ibc-2")));
    assert!(o.notify_new_block(&chain("ibc-0")));
    assert!(!o.notify_new_block(&chain("ibc-1")));
}

#[test]
fn object_short_names() {
    let p = packet("ibc-0", "ibc-1", "transfer", "channel-0");
    assert_eq!(p.short_name(), "packet::ibc-0:transfer/channel-0->ibc-1");
    let c = Object::Client(Client {
        dst_chain_id: chain("ibc-1"),
        dst_client_id: ClientId::new("07-tendermint-0".to_string()),
        src_chain_id: chain("ibc-0"),
    });
    assert_eq!(c.short_name(), "client::ibc-0->ibc-1:07-tendermint-0");
}

#[test]
fn objects_differ_by_variant_and_by_field() {
    let p = packet("ibc-0", "ibc-1", "transfer", "channel-0");
    assert_eq!(p, packet("ibc-0", "ibc-1", "transfer", "channel-0"));
    assert_ne!(p, packet("ibc-0", "ibc-1", "transfer", "channel-1"));
    assert_ne!(p, packet("ibc-1", "ibc-0", "transfer", "channel-0"));
}
