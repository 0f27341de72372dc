//! Chain events as the supervisor reads them, and the batches they arrive in.
//!
//! An [`Event`] keeps, of an event that a chain emitted, the kind and the
//! identifiers by which it is routed. Events are never compared: they are
//! classified, copied and handed on.

use vstd::prelude::*;
use crate::ident::{ChainId, ChannelId, ClientId, ConnectionId, Height, PortId};

verus! {

/// What a connection handshake event says of the connection end on the chain
/// that emitted it. The connection identifier may be missing from an
/// ill-formed event.
#[derive(Debug, PartialEq, Eq)]
pub struct ConnectionAttributes {
    pub connection_id: Option<ConnectionId>,
    pub client_id: ClientId,
}

/// What a channel handshake event says of the channel end on the chain that
/// emitted it. The channel identifier may be missing from an ill-formed
/// event.
#[derive(Debug, PartialEq, Eq)]
pub struct ChannelAttributes {
    pub port_id: PortId,
    pub channel_id: Option<ChannelId>,
    pub connection_id: ConnectionId,
}

/// The two ends of the channel that a packet travels, and its sequence
/// number on that channel.
#[derive(Debug, PartialEq, Eq)]
pub struct PacketAttributes {
    pub sequence: u64,
    pub source_port: PortId,
    pub source_channel: ChannelId,
    pub destination_port: PortId,
    pub destination_channel: ChannelId,
}

/// An event emitted by a chain.
#[derive(Debug, PartialEq, Eq)]
pub enum Event {
    NewBlock(Height),
    UpdateClient(ClientId),
    OpenInitConnection(ConnectionAttributes),
    OpenTryConnection(ConnectionAttributes),
    OpenAckConnection(ConnectionAttributes),
    OpenConfirmConnection(ConnectionAttributes),
    OpenInitChannel(ChannelAttributes),
    OpenTryChannel(ChannelAttributes),
    OpenAckChannel(ChannelAttributes),
    OpenConfirmChannel(ChannelAttributes),
    /// The channel end named by port and channel began to close.
    CloseInitChannel(PortId, ChannelId),
    SendPacket(PacketAttributes),
    WriteAcknowledgement(PacketAttributes),
    TimeoutPacket(PacketAttributes),
    /// Any event that the supervisor does not route.
    Other,
}

impl Clone for ConnectionAttributes {
    fn clone(&self) -> (r: ConnectionAttributes)
        ensures
            r == *self,
    {
        let connection_id = match &self.connection_id {
            Some(id) => Some(id.clone()),
            None => None,
        };
        ConnectionAttributes { connection_id, client_id: self.client_id.clone() }
    }
}

impl Clone for ChannelAttributes {
    fn clone(&self) -> (r: ChannelAttributes)
        ensures
            r == *self,
    {
        let channel_id = match &self.channel_id {
            Some(id) => Some(id.clone()),
            None => None,
        };
        ChannelAttributes {
            port_id: self.port_id.clone(),
            channel_id,
            connection_id: self.connection_id.clone(),
        }
    }
}

impl Clone for PacketAttributes {
    fn clone(&self) -> (r: PacketAttributes)
        ensures
            r == *self,
    {
        PacketAttributes {
            sequence: self.sequence,
            source_port: self.source_port.clone(),
            source_channel: self.source_channel.clone(),
            destination_port: self.destination_port.clone(),
            destination_channel: self.destination_channel.clone(),
        }
    }
}

impl Clone for Event {
    fn clone(&self) -> (r: Event)
        ensures
            r == *self,
    {
        match self {
            Event::NewBlock(h) => Event::NewBlock(*h),
            Event::UpdateClient(c) => Event::UpdateClient(c.clone()),
            Event::OpenInitConnection(a) => Event::OpenInitConnection(a.clone()),
            Event::OpenTryConnection(a) => Event::OpenTryConnection(a.clone()),
            Event::OpenAckConnection(a) => Event::OpenAckConnection(a.clone()),
            Event::OpenConfirmConnection(a) => Event::OpenConfirmConnection(a.clone()),
            Event::OpenInitChannel(a) => Event::OpenInitChannel(a.clone()),
            Event::OpenTryChannel(a) => Event::OpenTryChannel(a.clone()),
            Event::OpenAckChannel(a) => Event::OpenAckChannel(a.clone()),
            Event::OpenConfirmChannel(a) => Event::OpenConfirmChannel(a.clone()),
            Event::CloseInitChannel(p, c) => Event::CloseInitChannel(p.clone(), c.clone()),
            Event::SendPacket(p) => Event::SendPacket(p.clone()),
            Event::WriteAcknowledgement(p) => Event::WriteAcknowledgement(p.clone()),
            Event::TimeoutPacket(p) => Event::TimeoutPacket(p.clone()),
            Event::Other => Event::Other,
        }
    }
}

/// The events that one chain emitted at one height.
#[derive(Debug, PartialEq, Eq)]
pub struct EventBatch {
    pub chain_id: ChainId,
    pub height: Height,
    pub events: Vec<Event>,
}

} // verus!
