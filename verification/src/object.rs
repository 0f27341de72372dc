//! Routing keys.
//!
//! An [`Object`] names one cross-chain flow: the chain whose events drive it
//! (the source), the chain that is acted on (the destination), and the client,
//! connection or channel concerned. Two objects are the same when every field
//! of their common variant is the same, which contracts state over
//! [`ObjectView`].

use vstd::prelude::*;
use vstd::std_specs::cmp::PartialEqSpecImpl;
use vstd::string::StringExecFns;
use crate::event::{ChannelAttributes, ConnectionAttributes, PacketAttributes};
use crate::ident::{ChainId, ChannelId, ClientId, ConnectionId, PortId};

verus! {

/// Keeps the client `dst_client_id` on `dst_chain_id` up to date with the
/// headers of `src_chain_id`.
#[derive(Debug, Eq, Hash)]
pub struct Client {
    pub dst_chain_id: ChainId,
    pub dst_client_id: ClientId,
    pub src_chain_id: ChainId,
}

/// Drives the handshake of the connection `src_connection_id` on
/// `src_chain_id` with its counterparty on `dst_chain_id`.
#[derive(Debug, Eq, Hash)]
pub struct Connection {
    pub dst_chain_id: ChainId,
    pub src_chain_id: ChainId,
    pub src_connection_id: ConnectionId,
}

/// Drives the handshake of the channel `src_port_id`/`src_channel_id` on
/// `src_chain_id` with its counterparty on `dst_chain_id`.
#[derive(Debug, Eq, Hash)]
pub struct Channel {
    pub dst_chain_id: ChainId,
    pub src_chain_id: ChainId,
    pub src_channel_id: ChannelId,
    pub src_port_id: PortId,
}

/// Relays the packets of the channel `src_port_id`/`src_channel_id` on
/// `src_chain_id` to `dst_chain_id`.
#[derive(Debug, Eq, Hash)]
pub struct Packet {
    pub dst_chain_id: ChainId,
    pub src_chain_id: ChainId,
    pub src_channel_id: ChannelId,
    pub src_port_id: PortId,
}

/// A routing key: the flow that an event belongs to, and that one worker
/// serves.
#[derive(Debug, Eq, Hash)]
pub enum Object {
    Client(Client),
    Connection(Connection),
    Channel(Channel),
    Packet(Packet),
}

/// The mathematical value of an [`Object`].
pub enum ObjectView {
    Client { dst_chain_id: Seq<char>, dst_client_id: Seq<char>, src_chain_id: Seq<char> },
    Connection { dst_chain_id: Seq<char>, src_chain_id: Seq<char>, src_connection_id: Seq<char> },
    Channel {
        dst_chain_id: Seq<char>,
        src_chain_id: Seq<char>,
        src_channel_id: Seq<char>,
        src_port_id: Seq<char>,
    },
    Packet {
        dst_chain_id: Seq<char>,
        src_chain_id: Seq<char>,
        src_channel_id: Seq<char>,
        src_port_id: Seq<char>,
    },
}

impl ObjectView {
    /// The chain whose events drive the flow.
    pub open spec fn src_chain_id(self) -> Seq<char> {
        match self {
            ObjectView::Client { src_chain_id, .. } => src_chain_id,
            ObjectView::Connection { src_chain_id, .. } => src_chain_id,
            ObjectView::Channel { src_chain_id, .. } => src_chain_id,
            ObjectView::Packet { src_chain_id, .. } => src_chain_id,
        }
    }

    /// The chain that the flow acts on.
    pub open spec fn dst_chain_id(self) -> Seq<char> {
        match self {
            ObjectView::Client { dst_chain_id, .. } => dst_chain_id,
            ObjectView::Connection { dst_chain_id, .. } => dst_chain_id,
            ObjectView::Channel { dst_chain_id, .. } => dst_chain_id,
            ObjectView::Packet { dst_chain_id, .. } => dst_chain_id,
        }
    }

    /// Whether `chain_id` is the source or the destination of the flow.
    pub open spec fn for_chain(self, chain_id: Seq<char>) -> bool {
        self.src_chain_id() == chain_id || self.dst_chain_id() == chain_id
    }

    /// Whether a new block on `chain_id` concerns the flow: it does when
    /// `chain_id` is its source.
    pub open spec fn notify_new_block(self, chain_id: Seq<char>) -> bool {
        self.src_chain_id() == chain_id
    }

    /// The short name of the flow: its kind, then its source, `->` and its
    /// destination.
    pub open spec fn short_name(self) -> Seq<char> {
        match self {
            ObjectView::Client { dst_chain_id, dst_client_id, src_chain_id } => "client::"@
                + src_chain_id + "->"@ + dst_chain_id + ":"@ + dst_client_id,
            ObjectView::Connection { dst_chain_id, src_chain_id, src_connection_id } =>
                "connection::"@ + src_chain_id + ":"@ + src_connection_id + "->"@ + dst_chain_id,
            ObjectView::Channel { dst_chain_id, src_chain_id, src_channel_id, src_port_id } =>
                "channel::"@ + src_chain_id + ":"@ + src_port_id + "/"@ + src_channel_id + "->"@
                    + dst_chain_id,
            ObjectView::Packet { dst_chain_id, src_chain_id, src_channel_id, src_port_id } =>
                "packet::"@ + src_chain_id + ":"@ + src_port_id + "/"@ + src_channel_id + "->"@
                    + dst_chain_id,
        }
    }
}

impl View for Client {
    type V = ObjectView;

    open spec fn view(&self) -> ObjectView {
        ObjectView::Client {
            dst_chain_id: self.dst_chain_id@,
            dst_client_id: self.dst_client_id@,
            src_chain_id: self.src_chain_id@,
        }
    }
}

impl View for Connection {
    type V = ObjectView;

    open spec fn view(&self) -> ObjectView {
        ObjectView::Connection {
            dst_chain_id: self.dst_chain_id@,
            src_chain_id: self.src_chain_id@,
            src_connection_id: self.src_connection_id@,
        }
    }
}

impl View for Channel {
    type V = ObjectView;

    open spec fn view(&self) -> ObjectView {
        ObjectView::Channel {
            dst_chain_id: self.dst_chain_id@,
            src_chain_id: self.src_chain_id@,
            src_channel_id: self.src_channel_id@,
            src_port_id: self.src_port_id@,
        }
    }
}

impl View for Packet {
    type V = ObjectView;

    open spec fn view(&self) -> ObjectView {
        ObjectView::Packet {
            dst_chain_id: self.dst_chain_id@,
            src_chain_id: self.src_chain_id@,
            src_channel_id: self.src_channel_id@,
            src_port_id: self.src_port_id@,
        }
    }
}

impl View for Object {
    type V = ObjectView;

    open spec fn view(&self) -> ObjectView {
        match self {
            Object::Client(c) => c@,
            Object::Connection(c) => c@,
            Object::Channel(c) => c@,
            Object::Packet(p) => p@,
        }
    }
}

impl Clone for Client {
    fn clone(&self) -> (r: Client)
        ensures
            r == *self,
    {
        Client {
            dst_chain_id: self.dst_chain_id.clone(),
            dst_client_id: self.dst_client_id.clone(),
            src_chain_id: self.src_chain_id.clone(),
        }
    }
}

impl Clone for Connection {
    fn clone(&self) -> (r: Connection)
        ensures
            r == *self,
    {
        Connection {
            dst_chain_id: self.dst_chain_id.clone(),
            src_chain_id: self.src_chain_id.clone(),
            src_connection_id: self.src_connection_id.clone(),
        }
    }
}

impl Clone for Channel {
    fn clone(&self) -> (r: Channel)
        ensures
            r == *self,
    {
        Channel {
            dst_chain_id: self.dst_chain_id.clone(),
            src_chain_id: self.src_chain_id.clone(),
            src_channel_id: self.src_channel_id.clone(),
            src_port_id: self.src_port_id.clone(),
        }
    }
}

impl Clone for Packet {
    fn clone(&self) -> (r: Packet)
        ensures
            r == *self,
    {
        Packet {
            dst_chain_id: self.dst_chain_id.clone(),
            src_chain_id: self.src_chain_id.clone(),
            src_channel_id: self.src_channel_id.clone(),
            src_port_id: self.src_port_id.clone(),
        }
    }
}

impl Clone for Object {
    fn clone(&self) -> (r: Object)
        ensures
            r == *self,
    {
        match self {
            Object::Client(c) => Object::Client(c.clone()),
            Object::Connection(c) => Object::Connection(c.clone()),
            Object::Channel(c) => Object::Channel(c.clone()),
            Object::Packet(p) => Object::Packet(p.clone()),
        }
    }
}

impl PartialEq for Client {
    fn eq(&self, other: &Client) -> (r: bool) {
        self.dst_chain_id == other.dst_chain_id && self.dst_client_id == other.dst_client_id
            && self.src_chain_id == other.src_chain_id
    }
}

impl PartialEqSpecImpl for Client {
    open spec fn obeys_eq_spec() -> bool {
        true
    }

    open spec fn eq_spec(&self, other: &Client) -> bool {
        self@ == other@
    }
}

impl PartialEq for Connection {
    fn eq(&self, other: &Connection) -> (r: bool) {
        self.dst_chain_id == other.dst_chain_id && self.src_chain_id == other.src_chain_id
            && self.src_connection_id == other.src_connection_id
    }
}

impl PartialEqSpecImpl for Connection {
    open spec fn obeys_eq_spec() -> bool {
        true
    }

    open spec fn eq_spec(&self, other: &Connection) -> bool {
        self@ == other@
    }
}

impl PartialEq for Channel {
    fn eq(&self, other: &Channel) -> (r: bool) {
        self.dst_chain_id == other.dst_chain_id && self.src_chain_id == other.src_chain_id
            && self.src_channel_id == other.src_channel_id && self.src_port_id
            == other.src_port_id
    }
}

impl PartialEqSpecImpl for Channel {
    open spec fn obeys_eq_spec() -> bool {
        true
    }

    open spec fn eq_spec(&self, other: &Channel) -> bool {
        self@ == other@
    }
}

impl PartialEq for Packet {
    fn eq(&self, other: &Packet) -> (r: bool) {
        self.dst_chain_id == other.dst_chain_id && self.src_chain_id == other.src_chain_id
            && self.src_channel_id == other.src_channel_id && self.src_port_id
            == other.src_port_id
    }
}

impl PartialEqSpecImpl for Packet {
    open spec fn obeys_eq_spec() -> bool {
        true
    }

    open spec fn eq_spec(&self, other: &Packet) -> bool {
        self@ == other@
    }
}

impl PartialEq for Object {
    fn eq(&self, other: &Object) -> (r: bool) {
        match (self, other) {
            (Object::Client(a), Object::Client(b)) => a == b,
            (Object::Connection(a), Object::Connection(b)) => a == b,
            (Object::Channel(a), Object::Channel(b)) => a == b,
            (Object::Packet(a), Object::Packet(b)) => a == b,
            _ => false,
        }
    }
}

impl PartialEqSpecImpl for Object {
    open spec fn obeys_eq_spec() -> bool {
        true
    }

    open spec fn eq_spec(&self, other: &Object) -> bool {
        self@ == other@
    }
}

impl Client {
    /// The name under which the flow appears in logs.
    pub fn short_name(&self) -> (s: String)
        ensures
            s@ == self@.short_name(),
    {
        let mut s = String::from_str("client::");
        s.append(self.src_chain_id.as_str());
        s.append("->");
        s.append(self.dst_chain_id.as_str());
        s.append(":");
        s.append(self.dst_client_id.as_str());
        s
    }
}

impl Connection {
    /// The name under which the flow appears in logs.
    pub fn short_name(&self) -> (s: String)
        ensures
            s@ == self@.short_name(),
    {
        let mut s = String::from_str("connection::");
        s.append(self.src_chain_id.as_str());
        s.append(":");
        s.append(self.src_connection_id.as_str());
        s.append("->");
        s.append(self.dst_chain_id.as_str());
        s
    }
}

impl Channel {
    /// The port of the channel end on the source chain.
    pub fn src_port_id(&self) -> (p: &PortId)
        ensures
            *p == self.src_port_id,
    {
        &self.src_port_id
    }

    /// The channel end on the source chain.
    pub fn src_channel_id(&self) -> (c: &ChannelId)
        ensures
            *c == self.src_channel_id,
    {
        &self.src_channel_id
    }

    /// The name under which the flow appears in logs.
    pub fn short_name(&self) -> (s: String)
        ensures
            s@ == self@.short_name(),
    {
        let mut s = String::from_str("channel::");
        s.append(self.src_chain_id.as_str());
        s.append(":");
        s.append(self.src_port_id.as_str());
        s.append("/");
        s.append(self.src_channel_id.as_str());
        s.append("->");
        s.append(self.dst_chain_id.as_str());
        s
    }
}

impl Packet {
    /// The port of the channel end on the source chain.
    pub fn src_port_id(&self) -> (p: &PortId)
        ensures
            *p == self.src_port_id,
    {
        &self.src_port_id
    }

    /// The channel end on the source chain.
    pub fn src_channel_id(&self) -> (c: &ChannelId)
        ensures
            *c == self.src_channel_id,
    {
        &self.src_channel_id
    }

    /// The name under which the flow appears in logs.
    pub fn short_name(&self) -> (s: String)
        ensures
            s@ == self@.short_name(),
    {
        let mut s = String::from_str("packet::");
        s.append(self.src_chain_id.as_str());
        s.append(":");
        s.append(self.src_port_id.as_str());
        s.append("/");
        s.append(self.src_channel_id.as_str());
        s.append("->");
        s.append(self.dst_chain_id.as_str());
        s
    }
}

/// What the chain that emitted an event answered when asked where the
/// entity named by the event leads.
#[derive(Debug, PartialEq, Eq)]
pub struct Resolution {
    /// The chain at the far end: the one that the client tracks, or that holds
    /// the counterparty of the connection or channel. `None` when the chain
    /// could not tell.
    pub counterparty: Option<ChainId>,
    /// The client under the channel that the event names. `None` when the
    /// event names no channel or the chain could not tell.
    pub client: Option<ClientId>,
}

impl Resolution {
    /// The answer of a chain that could tell nothing.
    pub fn unresolved() -> (r: Resolution)
        ensures
            r.counterparty is None,
            r.client is None,
    {
        Resolution { counterparty: None, client: None }
    }
}

/// Why an event gave no object.
#[derive(Clone, Copy, Debug, PartialEq, Eq, Structural)]
pub enum ObjectError {
    /// The event does not carry the identifier of its connection.
    MissingConnectionId,
    /// The event does not carry the identifier of its channel.
    MissingChannelId,
    /// The chain could not tell where the entity leads.
    Unresolved,
}

/// The value of the result of an object constructor.
pub open spec fn result_view(r: Result<Object, ObjectError>) -> Result<ObjectView, ObjectError> {
    match r {
        Ok(o) => Ok(o@),
        Err(e) => Err(e),
    }
}

/// The client object of an update of `client_id` on `dst_chain_id`.
pub open spec fn spec_for_update_client(
    client_id: ClientId,
    dst_chain_id: ChainId,
    resolution: Resolution,
) -> Result<ObjectView, ObjectError> {
    match resolution.counterparty {
        Some(src) => Ok(
            ObjectView::Client {
                dst_chain_id: dst_chain_id@,
                dst_client_id: client_id@,
                src_chain_id: src@,
            },
        ),
        None => Err(ObjectError::Unresolved),
    }
}

/// The connection object of a connection handshake event on `src_chain_id`.
pub open spec fn spec_connection_from_conn_open_events(
    attributes: ConnectionAttributes,
    src_chain_id: ChainId,
    resolution: Resolution,
) -> Result<ObjectView, ObjectError> {
    match (attributes.connection_id, resolution.counterparty) {
        (None, _) => Err(ObjectError::MissingConnectionId),
        (Some(_), None) => Err(ObjectError::Unresolved),
        (Some(connection_id), Some(dst)) => Ok(
            ObjectView::Connection {
                dst_chain_id: dst@,
                src_chain_id: src_chain_id@,
                src_connection_id: connection_id@,
            },
        ),
    }
}

/// The channel object of a channel handshake event on `src_chain_id`.
pub open spec fn spec_channel_from_chan_open_events(
    attributes: ChannelAttributes,
    src_chain_id: ChainId,
    resolution: Resolution,
) -> Result<ObjectView, ObjectError> {
    match (attributes.channel_id, resolution.counterparty) {
        (None, _) => Err(ObjectError::MissingChannelId),
        (Some(_), None) => Err(ObjectError::Unresolved),
        (Some(channel_id), Some(dst)) => Ok(
            ObjectView::Channel {
                dst_chain_id: dst@,
                src_chain_id: src_chain_id@,
                src_channel_id: channel_id@,
                src_port_id: attributes.port_id@,
            },
        ),
    }
}

/// The packet object of a channel handshake event on `src_chain_id`.
pub open spec fn spec_packet_from_chan_open_events(
    attributes: ChannelAttributes,
    src_chain_id: ChainId,
    resolution: Resolution,
) -> Result<ObjectView, ObjectError> {
    match (attributes.channel_id, resolution.counterparty) {
        (None, _) => Err(ObjectError::MissingChannelId),
        (Some(_), None) => Err(ObjectError::Unresolved),
        (Some(channel_id), Some(dst)) => Ok(
            ObjectView::Packet {
                dst_chain_id: dst@,
                src_chain_id: src_chain_id@,
                src_channel_id: channel_id@,
                src_port_id: attributes.port_id@,
            },
        ),
    }
}

/// The client object of a channel handshake event on `chain_id`: the client
/// under the channel, which lives on `chain_id` and tracks the counterparty.
pub open spec fn spec_client_from_chan_open_events(
    attributes: ChannelAttributes,
    chain_id: ChainId,
    resolution: Resolution,
) -> Result<ObjectView, ObjectError> {
    match (attributes.channel_id, resolution.client, resolution.counterparty) {
        (None, _, _) => Err(ObjectError::MissingChannelId),
        (Some(_), Some(client_id), Some(src)) => Ok(
            ObjectView::Client {
                dst_chain_id: chain_id@,
                dst_client_id: client_id@,
                src_chain_id: src@,
            },
        ),
        (Some(_), _, _) => Err(ObjectError::Unresolved),
    }
}

/// The packet object of the channel end `port_id`/`channel_id` on
/// `src_chain_id`.
pub open spec fn spec_packet_on_channel(
    port_id: PortId,
    channel_id: ChannelId,
    src_chain_id: ChainId,
    resolution: Resolution,
) -> Result<ObjectView, ObjectError> {
    match resolution.counterparty {
        Some(dst) => Ok(
            ObjectView::Packet {
                dst_chain_id: dst@,
                src_chain_id: src_chain_id@,
                src_channel_id: channel_id@,
                src_port_id: port_id@,
            },
        ),
        None => Err(ObjectError::Unresolved),
    }
}

impl Object {
    /// Builds the object of an update of the client `client_id`, seen on
    /// `dst_chain_id`: the client lives there and tracks the counterparty.
    pub fn for_update_client(
        client_id: &ClientId,
        dst_chain_id: &ChainId,
        resolution: &Resolution,
    ) -> (r: Result<Object, ObjectError>)
        ensures
            result_view(r) == spec_for_update_client(*client_id, *dst_chain_id, *resolution),
    {
        match &resolution.counterparty {
            Some(src) => Ok(
                Object::Client(
                    Client {
                        dst_chain_id: dst_chain_id.clone(),
                        dst_client_id: client_id.clone(),
                        src_chain_id: src.clone(),
                    },
                ),
            ),
            None => Err(ObjectError::Unresolved),
        }
    }

    /// Builds the connection object of a connection handshake event seen on
    /// `src_chain_id`.
    pub fn connection_from_conn_open_events(
        attributes: &ConnectionAttributes,
        src_chain_id: &ChainId,
        resolution: &Resolution,
    ) -> (r: Result<Object, ObjectError>)
        ensures
            result_view(r) == spec_connection_from_conn_open_events(
                *attributes,
                *src_chain_id,
                *resolution,
            ),
    {
        match (&attributes.connection_id, &resolution.counterparty) {
            (None, _) => Err(ObjectError::MissingConnectionId),
            (Some(_), None) => Err(ObjectError::Unresolved),
            (Some(connection_id), Some(dst)) => Ok(
                Object::Connection(
                    Connection {
                        dst_chain_id: dst.clone(),
                        src_chain_id: src_chain_id.clone(),
                        src_connection_id: connection_id.clone(),
                    },
                ),
            ),
        }
    }

    /// Builds the channel object of a channel handshake event seen on
    /// `src_chain_id`.
    pub fn channel_from_chan_open_events(
        attributes: &ChannelAttributes,
        src_chain_id: &ChainId,
        resolution: &Resolution,
    ) -> (r: Result<Object, ObjectError>)
        ensures
            result_view(r) == spec_channel_from_chan_open_events(
                *attributes,
                *src_chain_id,
                *resolution,
            ),
    {
        match (&attributes.channel_id, &resolution.counterparty) {
            (None, _) => Err(ObjectError::MissingChannelId),
            (Some(_), None) => Err(ObjectError::Unresolved),
            (Some(channel_id), Some(dst)) => Ok(
                Object::Channel(
                    Channel {
                        dst_chain_id: dst.clone(),
                        src_chain_id: src_chain_id.clone(),
                        src_channel_id: channel_id.clone(),
                        src_port_id: attributes.port_id.clone(),
                    },
                ),
            ),
        }
    }

    /// Builds the packet object of a channel handshake event seen on
    /// `src_chain_id`.
    pub fn packet_from_chan_open_events(
        attributes: &ChannelAttributes,
        src_chain_id: &ChainId,
        resolution: &Resolution,
    ) -> (r: Result<Object, ObjectError>)
        ensures
            result_view(r) == spec_packet_from_chan_open_events(
                *attributes,
                *src_chain_id,
                *resolution,
            ),
    {
        match (&attributes.channel_id, &resolution.counterparty) {
            (None, _) => Err(ObjectError::MissingChannelId),
            (Some(_), None) => Err(ObjectError::Unresolved),
            (Some(channel_id), Some(dst)) => Ok(
                Object::Packet(
                    Packet {
                        dst_chain_id: dst.clone(),
                        src_chain_id: src_chain_id.clone(),
                        src_channel_id: channel_id.clone(),
                        src_port_id: attributes.port_id.clone(),
                    },
                ),
            ),
        }
    }

    /// Builds the client object of a channel handshake event seen on
    /// `chain_id`.
    pub fn client_from_chan_open_events(
        attributes: &ChannelAttributes,
        chain_id: &ChainId,
        resolution: &Resolution,
    ) -> (r: Result<Object, ObjectError>)
        ensures
            result_view(r) == spec_client_from_chan_open_events(
                *attributes,
                *chain_id,
                *resolution,
            ),
    {
        match (&attributes.channel_id, &resolution.client, &resolution.counterparty) {
            (None, _, _) => Err(ObjectError::MissingChannelId),
            (Some(_), Some(client_id), Some(src)) => Ok(
                Object::Client(
                    Client {
                        dst_chain_id: chain_id.clone(),
                        dst_client_id: client_id.clone(),
                        src_chain_id: src.clone(),
                    },
                ),
            ),
            (Some(_), _, _) => Err(ObjectError::Unresolved),
        }
    }

    /// Builds the packet object of the channel end `port_id`/`channel_id` on
    /// `src_chain_id`.
    pub fn packet_on_channel(
        port_id: &PortId,
        channel_id: &ChannelId,
        src_chain_id: &ChainId,
        resolution: &Resolution,
    ) -> (r: Result<Object, ObjectError>)
        ensures
            result_view(r) == spec_packet_on_channel(
                *port_id,
                *channel_id,
                *src_chain_id,
                *resolution,
            ),
    {
        match &resolution.counterparty {
            Some(dst) => Ok(
                Object::Packet(
                    Packet {
                        dst_chain_id: dst.clone(),
                        src_chain_id: src_chain_id.clone(),
                        src_channel_id: channel_id.clone(),
                        src_port_id: port_id.clone(),
                    },
                ),
            ),
            None => Err(ObjectError::Unresolved),
        }
    }

    /// Builds the object of a packet sent from `src_chain_id`: the packets of
    /// the channel end that it left.
    pub fn for_send_packet(
        packet: &PacketAttributes,
        src_chain_id: &ChainId,
        resolution: &Resolution,
    ) -> (r: Result<Object, ObjectError>)
        ensures
            result_view(r) == spec_packet_on_channel(
                packet.source_port,
                packet.source_channel,
                *src_chain_id,
                *resolution,
            ),
    {
        Object::packet_on_channel(
            &packet.source_port,
            &packet.source_channel,
            src_chain_id,
            resolution,
        )
    }

    /// Builds the object of a packet that timed out on `src_chain_id`: the
    /// packets of the channel end that it left.
    pub fn for_timeout_packet(
        packet: &PacketAttributes,
        src_chain_id: &ChainId,
        resolution: &Resolution,
    ) -> (r: Result<Object, ObjectError>)
        ensures
            result_view(r) == spec_packet_on_channel(
                packet.source_port,
                packet.source_channel,
                *src_chain_id,
                *resolution,
            ),
    {
        Object::packet_on_channel(
            &packet.source_port,
            &packet.source_channel,
            src_chain_id,
            resolution,
        )
    }

    /// Builds the object of an acknowledgement written on `src_chain_id`: the
    /// packets of the channel end that the acknowledged packet reached.
    pub fn for_write_ack(
        packet: &PacketAttributes,
        src_chain_id: &ChainId,
        resolution: &Resolution,
    ) -> (r: Result<Object, ObjectError>)
        ensures
            result_view(r) == spec_packet_on_channel(
                packet.destination_port,
                packet.destination_channel,
                *src_chain_id,
                *resolution,
            ),
    {
        Object::packet_on_channel(
            &packet.destination_port,
            &packet.destination_channel,
            src_chain_id,
            resolution,
        )
    }

    /// Builds the object of a channel that began to close on `src_chain_id`.
    pub fn for_close_init_channel(
        port_id: &PortId,
        channel_id: &ChannelId,
        src_chain_id: &ChainId,
        resolution: &Resolution,
    ) -> (r: Result<Object, ObjectError>)
        ensures
            result_view(r) == spec_packet_on_channel(
                *port_id,
                *channel_id,
                *src_chain_id,
                *resolution,
            ),
    {
        Object::packet_on_channel(port_id, channel_id, src_chain_id, resolution)
    }

    /// The chain whose events drive the flow.
    pub fn src_chain_id(&self) -> (id: &ChainId)
        ensures
            id@ == self@.src_chain_id(),
    {
        match self {
            Object::Client(c) => &c.src_chain_id,
            Object::Connection(c) => &c.src_chain_id,
            Object::Channel(c) => &c.src_chain_id,
            Object::Packet(p) => &p.src_chain_id,
        }
    }

    /// The chain that the flow acts on.
    pub fn dst_chain_id(&self) -> (id: &ChainId)
        ensures
            id@ == self@.dst_chain_id(),
    {
        match self {
            Object::Client(c) => &c.dst_chain_id,
            Object::Connection(c) => &c.dst_chain_id,
            Object::Channel(c) => &c.dst_chain_id,
            Object::Packet(p) => &p.dst_chain_id,
        }
    }

    /// Whether `chain_id` is the source or the destination of the flow.
    pub fn for_chain(&self, chain_id: &ChainId) -> (r: bool)
        ensures
            r == self@.for_chain(chain_id@),
    {
        *self.src_chain_id() == *chain_id || *self.dst_chain_id() == *chain_id
    }

    /// Whether a new block on `src_chain_id` concerns the flow.
    pub fn notify_new_block(&self, src_chain_id: &ChainId) -> (r: bool)
        ensures
            r == self@.notify_new_block(src_chain_id@),
    {
        *self.src_chain_id() == *src_chain_id
    }

    /// The name under which the flow appears in logs.
    pub fn short_name(&self) -> (s: String)
        ensures
            s@ == self@.short_name(),
    {
        match self {
            Object::Client(c) => c.short_name(),
            Object::Connection(c) => c.short_name(),
            Object::Channel(c) => c.short_name(),
            Object::Packet(p) => p.short_name(),
        }
    }
}

} // verus!
