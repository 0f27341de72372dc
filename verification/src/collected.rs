//! Classifying the events of a batch.
//!
//! Each event of a batch is routed to no, one or several objects, by its
//! kind, by what the chain answered about the entity it names, and, for
//! client updates, by the workers that exist. [`CollectedEvents`] holds the
//! events of a batch under the objects they were routed to.

use vstd::prelude::*;
use crate::event::{Event, EventBatch};
use crate::ident::{ChainId, ChannelId, ClientId, ConnectionId, Height, PortId};
use crate::object::{
    spec_channel_from_chan_open_events,
    spec_client_from_chan_open_events,
    spec_connection_from_conn_open_events,
    spec_for_update_client,
    spec_packet_from_chan_open_events,
    spec_packet_on_channel,
    Object,
    ObjectError,
    ObjectView,
    Resolution,
};
use crate::seqs::lemma_filter_push;
use crate::worker::{has_object, WorkerMap, WorkerView};

verus! {

/// What has to be asked of the chain that emitted an event before the event
/// can be routed.
#[derive(Debug, PartialEq, Eq)]
pub enum Lookup {
    /// Nothing: the event is routed, or dropped, as it stands.
    Nothing,
    /// The chain that the client tracks.
    Client(ClientId),
    /// The chain that holds the counterparty of the connection.
    Connection(ConnectionId),
    /// The chain that holds the counterparty of the channel end.
    Channel(PortId, ChannelId),
    /// The chain that holds the counterparty of the channel end, and the
    /// client under the channel.
    ChannelAndClient(PortId, ChannelId),
}

/// What has to be asked about `event`. Handshake events of connections, and
/// those that open a channel on one side only, need no answer when
/// handshakes are not relayed; an event without the identifier of its
/// connection or channel needs none either.
pub open spec fn spec_lookup_for(event: Event, handshake_enabled: bool) -> Lookup {
    match event {
        Event::UpdateClient(client_id) => Lookup::Client(client_id),
        Event::OpenInitConnection(a) => connection_lookup(a.connection_id, handshake_enabled),
        Event::OpenTryConnection(a) => connection_lookup(a.connection_id, handshake_enabled),
        Event::OpenAckConnection(a) => connection_lookup(a.connection_id, handshake_enabled),
        Event::OpenInitChannel(a) => channel_lookup(a.port_id, a.channel_id, handshake_enabled),
        Event::OpenTryChannel(a) => channel_lookup(a.port_id, a.channel_id, handshake_enabled),
        Event::OpenAckChannel(a) => match a.channel_id {
            Some(channel_id) => Lookup::ChannelAndClient(a.port_id, channel_id),
            None => Lookup::Nothing,
        },
        Event::OpenConfirmChannel(a) => match a.channel_id {
            Some(channel_id) => Lookup::ChannelAndClient(a.port_id, channel_id),
            None => Lookup::Nothing,
        },
        Event::CloseInitChannel(port_id, channel_id) => Lookup::Channel(port_id, channel_id),
        Event::SendPacket(p) => Lookup::Channel(p.source_port, p.source_channel),
        Event::TimeoutPacket(p) => Lookup::Channel(p.source_port, p.source_channel),
        Event::WriteAcknowledgement(p) => Lookup::Channel(
            p.destination_port,
            p.destination_channel,
        ),
        _ => Lookup::Nothing,
    }
}

/// What has to be asked about a connection handshake event.
pub open spec fn connection_lookup(
    connection_id: Option<ConnectionId>,
    handshake_enabled: bool,
) -> Lookup {
    match connection_id {
        Some(id) if handshake_enabled => Lookup::Connection(id),
        _ => Lookup::Nothing,
    }
}

/// What has to be asked about an event that opens a channel on one side.
pub open spec fn channel_lookup(
    port_id: PortId,
    channel_id: Option<ChannelId>,
    handshake_enabled: bool,
) -> Lookup {
    match channel_id {
        Some(id) if handshake_enabled => Lookup::Channel(port_id, id),
        _ => Lookup::Nothing,
    }
}

/// The object that a constructor gave, if it gave one.
pub open spec fn built(r: Result<ObjectView, ObjectError>) -> Seq<ObjectView> {
    match r {
        Ok(o) => seq![o],
        Err(_) => Seq::empty(),
    }
}

/// The objects that `event`, emitted by `chain_id`, is routed to, in order.
///
/// A new block is routed to no object. A client update is routed to its
/// client object if a worker serves that object. Connection handshake
/// events, and the events that open a channel on one side, are routed to
/// their connection or channel object if handshakes are relayed. The
/// acknowledgement of a channel opening is routed to the client and packet
/// objects of the channel and, if handshakes are relayed, to its channel
/// object; its confirmation to the client and packet objects. Packet events
/// and the closing of a channel are routed to their packet object. An event
/// for which no object can be built is routed nowhere.
pub open spec fn event_routes(
    event: Event,
    resolution: Resolution,
    chain_id: ChainId,
    handshake_enabled: bool,
    workers: Seq<WorkerView>,
) -> Seq<ObjectView> {
    match event {
        Event::UpdateClient(client_id) => match spec_for_update_client(
            client_id,
            chain_id,
            resolution,
        ) {
            Ok(o) if has_object(workers, o) => seq![o],
            _ => Seq::empty(),
        },
        Event::OpenInitConnection(a) => if handshake_enabled {
            built(spec_connection_from_conn_open_events(a, chain_id, resolution))
        } else {
            Seq::empty()
        },
        Event::OpenTryConnection(a) => if handshake_enabled {
            built(spec_connection_from_conn_open_events(a, chain_id, resolution))
        } else {
            Seq::empty()
        },
        Event::OpenAckConnection(a) => if handshake_enabled {
            built(spec_connection_from_conn_open_events(a, chain_id, resolution))
        } else {
            Seq::empty()
        },
        Event::OpenInitChannel(a) => if handshake_enabled {
            built(spec_channel_from_chan_open_events(a, chain_id, resolution))
        } else {
            Seq::empty()
        },
        Event::OpenTryChannel(a) => if handshake_enabled {
            built(spec_channel_from_chan_open_events(a, chain_id, resolution))
        } else {
            Seq::empty()
        },
        Event::OpenAckChannel(a) => built(
            spec_client_from_chan_open_events(a, chain_id, resolution),
        ) + built(spec_packet_from_chan_open_events(a, chain_id, resolution)) + if handshake_enabled {
            built(spec_channel_from_chan_open_events(a, chain_id, resolution))
        } else {
            Seq::empty()
        },
        Event::OpenConfirmChannel(a) => built(
            spec_client_from_chan_open_events(a, chain_id, resolution),
        ) + built(spec_packet_from_chan_open_events(a, chain_id, resolution)),
        Event::CloseInitChannel(port_id, channel_id) => built(
            spec_packet_on_channel(port_id, channel_id, chain_id, resolution),
        ),
        Event::SendPacket(p) => built(
            spec_packet_on_channel(p.source_port, p.source_channel, chain_id, resolution),
        ),
        Event::TimeoutPacket(p) => built(
            spec_packet_on_channel(p.source_port, p.source_channel, chain_id, resolution),
        ),
        Event::WriteAcknowledgement(p) => built(
            spec_packet_on_channel(p.destination_port, p.destination_channel, chain_id, resolution),
        ),
        _ => Seq::empty(),
    }
}

/// One routing: an event and an object that it is routed to.
pub struct Routing {
    pub object: ObjectView,
    pub event: Event,
}

/// The routings of `event` to each of `objects`, in order.
pub open spec fn routings_of(objects: Seq<ObjectView>, event: Event) -> Seq<Routing> {
    objects.map_values(|o: ObjectView| Routing { object: o, event })
}

/// The answer about the event at `index`: the one given at that index, or
/// none where the answers fall short.
pub open spec fn resolution_at(resolutions: Seq<Resolution>, index: int) -> Resolution {
    if 0 <= index < resolutions.len() {
        resolutions[index]
    } else {
        Resolution { counterparty: None, client: None }
    }
}

/// The routings of the first `n` events of a batch, event by event.
pub open spec fn batch_routings(
    events: Seq<Event>,
    resolutions: Seq<Resolution>,
    n: int,
    chain_id: ChainId,
    handshake_enabled: bool,
    workers: Seq<WorkerView>,
) -> Seq<Routing>
    decreases n,
{
    if n <= 0 {
        Seq::empty()
    } else {
        batch_routings(events, resolutions, n - 1, chain_id, handshake_enabled, workers)
            + routings_of(
            event_routes(
                events[n - 1],
                resolution_at(resolutions, n - 1),
                chain_id,
                handshake_enabled,
                workers,
            ),
            events[n - 1],
        )
    }
}

/// The routings to `object`.
pub open spec fn routed_to(object: ObjectView) -> spec_fn(Routing) -> bool {
    |r: Routing| r.object == object
}

/// The events that `routings` route to `object`, in order.
pub open spec fn events_routed(routings: Seq<Routing>, object: ObjectView) -> Seq<Event> {
    routings.filter(routed_to(object)).map_values(|r: Routing| r.event)
}

/// The events of `routings` under the objects that they are routed to. An
/// object is a key exactly when some event is routed to it.
pub open spec fn grouped(routings: Seq<Routing>) -> Map<ObjectView, Seq<Event>> {
    Map::new(
        |o: ObjectView| events_routed(routings, o).len() > 0,
        |o: ObjectView| events_routed(routings, o),
    )
}

/// Whether `entries` holds events under `object`.
pub open spec fn has_key(entries: Seq<(ObjectView, Seq<Event>)>, object: ObjectView) -> bool {
    exists|i: int| 0 <= i < entries.len() && (#[trigger] entries[i]).0 == object
}

/// Where `entries` holds the events under `object`.
pub open spec fn key_index(entries: Seq<(ObjectView, Seq<Event>)>, object: ObjectView) -> int {
    choose|i: int| 0 <= i < entries.len() && (#[trigger] entries[i]).0 == object
}

/// `entries` with `event` put after the events under `object`, or, if there
/// are none yet, with `object` and `event` put after the other entries.
pub open spec fn put(
    entries: Seq<(ObjectView, Seq<Event>)>,
    object: ObjectView,
    event: Event,
) -> Seq<(ObjectView, Seq<Event>)> {
    if has_key(entries, object) {
        let i = key_index(entries, object);
        entries.update(i, (object, entries[i].1.push(event)))
    } else {
        entries.push((object, seq![event]))
    }
}

/// The events of `routings` under the objects that they are routed to, the
/// objects in the order in which they are first routed to.
pub open spec fn ordered(routings: Seq<Routing>) -> Seq<(ObjectView, Seq<Event>)>
    decreases routings.len(),
{
    if routings.len() == 0 {
        Seq::empty()
    } else {
        put(ordered(routings.drop_last()), routings.last().object, routings.last().event)
    }
}

/// The last new block among the first `n` events.
pub open spec fn last_new_block(events: Seq<Event>, n: int) -> Option<Event>
    decreases n,
{
    if n <= 0 {
        None
    } else if events[n - 1] is NewBlock {
        Some(events[n - 1])
    } else {
        last_new_block(events, n - 1)
    }
}

/// The events of one batch, under the objects that they were routed to.
#[derive(Debug)]
pub struct CollectedEvents {
    height: Height,
    chain_id: ChainId,
    new_block: Option<Event>,
    per_object: Vec<(Object, Vec<Event>)>,
}

impl CollectedEvents {
    /// The height at which the chain emitted the events.
    pub closed spec fn spec_height(&self) -> Height {
        self.height
    }

    /// The chain that emitted the events.
    pub closed spec fn spec_chain_id(&self) -> ChainId {
        self.chain_id
    }

    /// The new block of the batch, if it announced one.
    pub closed spec fn spec_new_block(&self) -> Option<Event> {
        self.new_block
    }

    /// The height at which the chain emitted the events.
    pub fn height(&self) -> (h: Height)
        ensures
            h == self.spec_height(),
    {
        self.height
    }

    /// The chain that emitted the events.
    pub fn chain_id(&self) -> (id: &ChainId)
        ensures
            *id == self.spec_chain_id(),
    {
        &self.chain_id
    }

    /// The new block of the batch, if it announced one.
    pub fn new_block(&self) -> (e: &Option<Event>)
        ensures
            *e == self.spec_new_block(),
    {
        &self.new_block
    }

    /// Records `event` as the new block of the batch.
    pub fn set_new_block(&mut self, event: Event)
        ensures
            final(self).spec_new_block() == Some(event),
            final(self).spec_height() == old(self).spec_height(),
            final(self).spec_chain_id() == old(self).spec_chain_id(),
            final(self).entries() == old(self).entries(),
    {
        self.new_block = Some(event);
    }

    /// The objects and their events, in the order in which the objects were
    /// first routed to.
    pub closed spec fn entries(&self) -> Seq<(ObjectView, Seq<Event>)> {
        self.per_object@.map_values(|e: (Object, Vec<Event>)| (e.0@, e.1@))
    }

    /// No object occurs twice, and every object has an event.
    pub open spec fn wf(&self) -> bool {
        &&& forall|i: int, j: int|
            0 <= i < j < self.entries().len() ==> (#[trigger] self.entries()[i]).0
                != (#[trigger] self.entries()[j]).0
        &&& forall|i: int| 0 <= i < self.entries().len() ==> (#[trigger] self.entries()[i]).1.len() > 0
    }

    /// The events under each object.
    pub open spec fn per_object(&self) -> Map<ObjectView, Seq<Event>> {
        Map::new(
            |o: ObjectView|
                exists|i: int| 0 <= i < self.entries().len() && (#[trigger] self.entries()[i]).0 == o,
            |o: ObjectView|
                self.entries()[choose|i: int|
                    0 <= i < self.entries().len() && (#[trigger] self.entries()[i]).0 == o].1,
        )
    }

    /// Nothing collected yet from the batch of `chain_id` at `height`.
    pub fn new(height: Height, chain_id: ChainId) -> (c: CollectedEvents)
        ensures
            c.wf(),
            c.spec_height() == height,
            c.spec_chain_id() == chain_id,
            c.spec_new_block() is None,
            c.entries() == Seq::<(ObjectView, Seq<Event>)>::empty(),
            c.per_object() == Map::<ObjectView, Seq<Event>>::empty(),
    {
        let c = CollectedEvents { height, chain_id, new_block: None, per_object: Vec::new() };
        assert(c.entries() =~= Seq::<(ObjectView, Seq<Event>)>::empty());
        assert(c.per_object() =~= Map::<ObjectView, Seq<Event>>::empty());
        c
    }

    /// Whether the batch announced a new block.
    pub fn has_new_block(&self) -> (r: bool)
        ensures
            r == self.spec_new_block() is Some,
    {
        self.new_block.is_some()
    }

    /// The number of objects that events were routed to.
    pub fn len(&self) -> (n: usize)
        ensures
            n == self.entries().len(),
    {
        self.per_object.len()
    }

    /// The object at `index`, in the order in which objects were first routed
    /// to, and its events; `None` past the last object.
    pub fn get(&self, index: usize) -> (r: Option<(&Object, &Vec<Event>)>)
        ensures
            match r {
                Some(entry) => index < self.entries().len() && (entry.0@, entry.1@)
                    == self.entries()[index as int],
                None => index >= self.entries().len(),
            },
    {
        if index < self.per_object.len() {
            Some(self.entry(index))
        } else {
            None
        }
    }

    /// The object at `index` and its events.
    pub(crate) fn entry(&self, index: usize) -> (r: (&Object, &Vec<Event>))
        requires
            index < self.entries().len(),
        ensures
            (r.0@, r.1@) == self.entries()[index as int],
    {
        let e = &self.per_object[index];
        (&e.0, &e.1)
    }

    fn position(&self, object: &Object) -> (r: Option<usize>)
        ensures
            match r {
                Some(i) => i < self.entries().len() && self.entries()[i as int].0 == object@,
                None => forall|i: int|
                    0 <= i < self.entries().len() ==> (#[trigger] self.entries()[i]).0 != object@,
            },
    {
        let mut i: usize = 0;
        while i < self.per_object.len()
            invariant
                i <= self.per_object.len(),
                forall|j: int| 0 <= j < i ==> (#[trigger] self.entries()[j]).0 != object@,
            decreases self.per_object.len() - i,
        {
            if self.per_object[i].0 == *object {
                return Some(i);
            }
            i += 1;
        }
        None
    }

    /// The events under `object`, if there are any.
    pub fn events_for(&self, object: &Object) -> (r: Option<&Vec<Event>>)
        requires
            self.wf(),
        ensures
            match r {
                Some(events) => self.per_object().dom().contains(object@)
                    && self.per_object()[object@] == events@,
                None => !self.per_object().dom().contains(object@),
            },
    {
        match self.position(object) {
            Some(i) => {
                proof {
                    self.lemma_entry(i as int);
                }
                Some(&self.per_object[i].1)
            },
            None => None,
        }
    }

    /// The entry at index `i` is the only one for its object.
    proof fn lemma_index(&self, i: int)
        requires
            self.wf(),
            0 <= i < self.entries().len(),
        ensures
            has_key(self.entries(), self.entries()[i].0),
            key_index(self.entries(), self.entries()[i].0) == i,
    {
        let o = self.entries()[i].0;
        let k = key_index(self.entries(), o);
        if k < i {
            assert(self.entries()[k].0 != self.entries()[i].0);
        } else if i < k {
            assert(self.entries()[i].0 != self.entries()[k].0);
        }
    }

    /// The entry at index `i` is what the map holds under its object.
    proof fn lemma_entry(&self, i: int)
        requires
            self.wf(),
            0 <= i < self.entries().len(),
        ensures
            self.per_object().dom().contains(self.entries()[i].0),
            self.per_object()[self.entries()[i].0] == self.entries()[i].1,
    {
        let o = self.entries()[i].0;
        let k = choose|k: int| 0 <= k < self.entries().len() && (#[trigger] self.entries()[k]).0 == o;
        assert(k == i) by {
            if k < i {
                assert(self.entries()[k].0 != self.entries()[i].0);
            } else if i < k {
                assert(self.entries()[i].0 != self.entries()[k].0);
            }
        }
    }

    /// Puts `event` after the events under `object`.
    pub fn push(&mut self, object: Object, event: Event)
        requires
            old(self).wf(),
        ensures
            final(self).wf(),
            final(self).spec_height() == old(self).spec_height(),
            final(self).spec_chain_id() == old(self).spec_chain_id(),
            final(self).spec_new_block() == old(self).spec_new_block(),
            final(self).entries().len() <= old(self).entries().len() + 1,
            final(self).entries() == put(old(self).entries(), object@, event),
            final(self).per_object() == old(self).per_object().insert(
                object@,
                if old(self).per_object().dom().contains(object@) {
                    old(self).per_object()[object@].push(event)
                } else {
                    seq![event]
                },
            ),
    {
        let ghost before = *self;
        let ghost o = object@;
        match self.position(&object) {
            Some(i) => {
                let mut entry = self.per_object.remove(i);
                entry.1.push(event);
                self.per_object.insert(i, entry);
                proof {
                    before.lemma_entry(i as int);
                    before.lemma_index(i as int);
                    let updated = (o, before.entries()[i as int].1.push(event));
                    assert(self.entries() =~= before.entries().update(i as int, updated));
                    assert(self.wf());
                    assert forall|x: ObjectView| #[trigger]
                        self.per_object().dom().contains(x) == (before.per_object().dom().contains(
                            x,
                        ) || x == o) by {
                        if before.per_object().dom().contains(x) {
                            let k = choose|k: int|
                                0 <= k < before.entries().len() && (
                                #[trigger] before.entries()[k]).0 == x;
                            assert(self.entries()[k].0 == x);
                        }
                        if self.per_object().dom().contains(x) {
                            let k = choose|k: int|
                                0 <= k < self.entries().len() && (#[trigger] self.entries()[k]).0
                                    == x;
                            assert(before.entries()[k].0 == x);
                        }
                    }
                    assert forall|x: ObjectView| #[trigger]
                        self.per_object().dom().contains(x) implies self.per_object()[x]
                        == before.per_object().insert(o, updated.1)[x] by {
                        let k = choose|k: int|
                            0 <= k < self.entries().len() && (#[trigger] self.entries()[k]).0 == x;
                        self.lemma_entry(k);
                        if k != i {
                            before.lemma_entry(k);
                        }
                    }
                    assert(self.per_object() =~= before.per_object().insert(o, updated.1));
                }
            },
            None => {
                let mut events: Vec<Event> = Vec::new();
                events.push(event);
                self.per_object.push((object, events));
                proof {
                    let added = (o, seq![event]);
                    assert(events@ =~= seq![event]);
                    assert(self.entries() =~= before.entries().push(added));
                    assert(self.wf());
                    assert(!before.per_object().dom().contains(o));
                    assert forall|x: ObjectView| #[trigger]
                        self.per_object().dom().contains(x) == (before.per_object().dom().contains(
                            x,
                        ) || x == o) by {
                        if before.per_object().dom().contains(x) {
                            let k = choose|k: int|
                                0 <= k < before.entries().len() && (
                                #[trigger] before.entries()[k]).0 == x;
                            assert(self.entries()[k].0 == x);
                        }
                        if x == o {
                            assert(self.entries()[before.entries().len() as int].0 == x);
                        }
                        if self.per_object().dom().contains(x) && x != o {
                            let k = choose|k: int|
                                0 <= k < self.entries().len() && (#[trigger] self.entries()[k]).0
                                    == x;
                            assert(before.entries()[k].0 == x);
                        }
                    }
                    assert forall|x: ObjectView| #[trigger]
                        self.per_object().dom().contains(x) implies self.per_object()[x]
                        == before.per_object().insert(o, added.1)[x] by {
                        let k = choose|k: int|
                            0 <= k < self.entries().len() && (#[trigger] self.entries()[k]).0 == x;
                        self.lemma_entry(k);
                        if k < before.entries().len() {
                            before.lemma_entry(k);
                        }
                    }
                    assert(self.per_object() =~= before.per_object().insert(o, added.1));
                }
            },
        }
    }
}

/// Whether `object` belongs to `chain_id` as the objects of its events do: a
/// client object acts on the chain that hosts the client, every other object
/// is driven by the chain.
pub open spec fn of_chain(object: ObjectView, chain_id: Seq<char>) -> bool {
    if object is Client {
        object.dst_chain_id() == chain_id
    } else {
        object.src_chain_id() == chain_id
    }
}

/// The views of a list of objects.
pub open spec fn object_views(objects: Seq<Object>) -> Seq<ObjectView> {
    objects.map_values(|o: Object| o@)
}

/// What has to be asked of the chain that emitted `event` before the event
/// can be routed.
pub fn lookup_for(event: &Event, handshake_enabled: bool) -> (r: Lookup)
    ensures
        r == spec_lookup_for(*event, handshake_enabled),
{
    match event {
        Event::UpdateClient(client_id) => Lookup::Client(client_id.clone()),
        Event::OpenInitConnection(a) | Event::OpenTryConnection(a) | Event::OpenAckConnection(
            a,
        ) => match &a.connection_id {
            Some(id) => if handshake_enabled {
                Lookup::Connection(id.clone())
            } else {
                Lookup::Nothing
            },
            None => Lookup::Nothing,
        },
        Event::OpenInitChannel(a) | Event::OpenTryChannel(a) => match &a.channel_id {
            Some(id) => if handshake_enabled {
                Lookup::Channel(a.port_id.clone(), id.clone())
            } else {
                Lookup::Nothing
            },
            None => Lookup::Nothing,
        },
        Event::OpenAckChannel(a) | Event::OpenConfirmChannel(a) => match &a.channel_id {
            Some(id) => Lookup::ChannelAndClient(a.port_id.clone(), id.clone()),
            None => Lookup::Nothing,
        },
        Event::CloseInitChannel(port_id, channel_id) => Lookup::Channel(
            port_id.clone(),
            channel_id.clone(),
        ),
        Event::SendPacket(p) | Event::TimeoutPacket(p) => Lookup::Channel(
            p.source_port.clone(),
            p.source_channel.clone(),
        ),
        Event::WriteAcknowledgement(p) => Lookup::Channel(
            p.destination_port.clone(),
            p.destination_channel.clone(),
        ),
        _ => Lookup::Nothing,
    }
}

fn push_built(objects: &mut Vec<Object>, built_object: Result<Object, ObjectError>)
    ensures
        object_views(final(objects)@) == object_views(old(objects)@) + built(
            crate::object::result_view(built_object),
        ),
{
    let ghost before = object_views(objects@);
    match built_object {
        Ok(object) => {
            objects.push(object);
            assert(object_views(objects@) =~= before + seq![object@]);
        },
        Err(_) => {
            assert(object_views(objects@) =~= before + Seq::<ObjectView>::empty());
        },
    }
}

/// The objects that `event`, emitted by `chain_id`, is routed to, in order.
pub fn route_event(
    event: &Event,
    resolution: &Resolution,
    chain_id: &ChainId,
    handshake_enabled: bool,
    workers: &WorkerMap,
) -> (r: Vec<Object>)
    ensures
        object_views(r@) == event_routes(
            *event,
            *resolution,
            *chain_id,
            handshake_enabled,
            workers@,
        ),
{
    let mut r: Vec<Object> = Vec::new();
    assert(object_views(r@) =~= Seq::<ObjectView>::empty());
    match event {
        Event::UpdateClient(client_id) => {
            match Object::for_update_client(client_id, chain_id, resolution) {
                Ok(object) => {
                    if workers.contains(&object) {
                        r.push(object);
                        assert(object_views(r@) =~= seq![object@]);
                    }
                },
                Err(_) => {},
            }
        },
        Event::OpenInitConnection(a) | Event::OpenTryConnection(a) | Event::OpenAckConnection(
            a,
        ) => {
            if handshake_enabled {
                push_built(
                    &mut r,
                    Object::connection_from_conn_open_events(a, chain_id, resolution),
                );
            }
        },
        Event::OpenInitChannel(a) | Event::OpenTryChannel(a) => {
            if handshake_enabled {
                push_built(&mut r, Object::channel_from_chan_open_events(a, chain_id, resolution));
            }
        },
        Event::OpenAckChannel(a) => {
            push_built(&mut r, Object::client_from_chan_open_events(a, chain_id, resolution));
            push_built(&mut r, Object::packet_from_chan_open_events(a, chain_id, resolution));
            if handshake_enabled {
                push_built(&mut r, Object::channel_from_chan_open_events(a, chain_id, resolution));
            }
        },
        Event::OpenConfirmChannel(a) => {
            push_built(&mut r, Object::client_from_chan_open_events(a, chain_id, resolution));
            push_built(&mut r, Object::packet_from_chan_open_events(a, chain_id, resolution));
        },
        Event::CloseInitChannel(port_id, channel_id) => {
            push_built(
                &mut r,
                Object::for_close_init_channel(port_id, channel_id, chain_id, resolution),
            );
        },
        Event::SendPacket(p) => {
            push_built(&mut r, Object::for_send_packet(p, chain_id, resolution));
        },
        Event::TimeoutPacket(p) => {
            push_built(&mut r, Object::for_timeout_packet(p, chain_id, resolution));
        },
        Event::WriteAcknowledgement(p) => {
            push_built(&mut r, Object::for_write_ack(p, chain_id, resolution));
        },
        _ => {},
    }
    assert(object_views(r@) =~= event_routes(
        *event,
        *resolution,
        *chain_id,
        handshake_enabled,
        workers@,
    ));
    r
}

/// One more routing adds its event under its object.
pub proof fn lemma_grouped_push(routings: Seq<Routing>, routing: Routing)
    ensures
        grouped(routings.push(routing)) == grouped(routings).insert(
            routing.object,
            if grouped(routings).dom().contains(routing.object) {
                grouped(routings)[routing.object].push(routing.event)
            } else {
                seq![routing.event]
            },
        ),
{
    let after = grouped(routings.push(routing));
    let expected = grouped(routings).insert(
        routing.object,
        if grouped(routings).dom().contains(routing.object) {
            grouped(routings)[routing.object].push(routing.event)
        } else {
            seq![routing.event]
        },
    );
    assert forall|o: ObjectView|
        events_routed(routings.push(routing), o) == if routing.object == o {
            events_routed(routings, o).push(routing.event)
        } else {
            events_routed(routings, o)
        } by {
        lemma_filter_push(routings, routing, routed_to(o));
        if routing.object == o {
            assert(routings.filter(routed_to(o)).push(routing).map_values(|r: Routing| r.event)
                =~= events_routed(routings, o).push(routing.event));
        }
    }
    assert forall|o: ObjectView| after.dom().contains(o) == expected.dom().contains(o) by {}
    assert forall|o: ObjectView| after.dom().contains(o) implies after[o] == expected[o] by {
        if routing.object == o && !grouped(routings).dom().contains(o) {
            assert(events_routed(routings, o).push(routing.event) =~= seq![routing.event]);
        }
    }
    assert(after =~= expected);
}

/// Every object that an event of `chain_id` is routed to belongs to
/// `chain_id`.
pub proof fn event_routes_of_chain(
    event: Event,
    resolution: Resolution,
    chain_id: ChainId,
    handshake_enabled: bool,
    workers: Seq<WorkerView>,
    i: int,
)
    requires
        0 <= i < event_routes(event, resolution, chain_id, handshake_enabled, workers).len(),
    ensures
        of_chain(
            event_routes(event, resolution, chain_id, handshake_enabled, workers)[i],
            chain_id@,
        ),
{
}

/// Every routing of a batch of `chain_id` is to an object that belongs to
/// `chain_id`, and is of an event of the batch.
pub proof fn batch_routings_of_chain(
    events: Seq<Event>,
    resolutions: Seq<Resolution>,
    n: int,
    chain_id: ChainId,
    handshake_enabled: bool,
    workers: Seq<WorkerView>,
    i: int,
)
    requires
        0 <= n <= events.len(),
        0 <= i < batch_routings(events, resolutions, n, chain_id, handshake_enabled, workers).len(),
    ensures
        of_chain(
            batch_routings(events, resolutions, n, chain_id, handshake_enabled, workers)[i].object,
            chain_id@,
        ),
        exists|k: int|
            0 <= k < n && events[k] == #[trigger] batch_routings(
                events,
                resolutions,
                n,
                chain_id,
                handshake_enabled,
                workers,
            )[i].event,
    decreases n,
{
    let before = batch_routings(events, resolutions, n - 1, chain_id, handshake_enabled, workers);
    if i < before.len() {
        batch_routings_of_chain(
            events,
            resolutions,
            n - 1,
            chain_id,
            handshake_enabled,
            workers,
            i,
        );
    } else {
        event_routes_of_chain(
            events[n - 1],
            resolution_at(resolutions, n - 1),
            chain_id,
            handshake_enabled,
            workers,
            i - before.len(),
        );
        assert(events[n - 1] == batch_routings(
            events,
            resolutions,
            n,
            chain_id,
            handshake_enabled,
            workers,
        )[i].event);
    }
}

/// A new block is routed to no object: no routing of a batch is of a new
/// block, so a batch yields at most the one new block that is kept apart.
pub proof fn new_block_is_kept_apart(
    events: Seq<Event>,
    resolutions: Seq<Resolution>,
    n: int,
    chain_id: ChainId,
    handshake_enabled: bool,
    workers: Seq<WorkerView>,
    i: int,
)
    requires
        0 <= n <= events.len(),
        0 <= i < batch_routings(events, resolutions, n, chain_id, handshake_enabled, workers).len(),
    ensures
        !(batch_routings(events, resolutions, n, chain_id, handshake_enabled, workers)[i].event
            is NewBlock),
    decreases n,
{
    let before = batch_routings(events, resolutions, n - 1, chain_id, handshake_enabled, workers);
    if i < before.len() {
        new_block_is_kept_apart(events, resolutions, n - 1, chain_id, handshake_enabled, workers, i);
    }
}

/// Every object that an event of a batch is routed to has the chain of the
/// batch as its source, unless it is a client object.
pub proof fn routed_objects_have_the_batch_chain_as_source(
    events: Seq<Event>,
    resolutions: Seq<Resolution>,
    chain_id: ChainId,
    handshake_enabled: bool,
    workers: Seq<WorkerView>,
    object: ObjectView,
)
    requires
        grouped(
            batch_routings(
                events,
                resolutions,
                events.len() as int,
                chain_id,
                handshake_enabled,
                workers,
            ),
        ).dom().contains(object),
        !(object is Client),
    ensures
        object.src_chain_id() == chain_id@,
{
    routed_objects_belong_to_the_batch_chain(
        events,
        resolutions,
        chain_id,
        handshake_enabled,
        workers,
        object,
    );
}

/// Every client object that an event of a batch is routed to has the chain
/// of the batch as its destination: the client that the event names lives
/// on the chain that emitted the event.
pub proof fn routed_client_objects_act_on_the_batch_chain(
    events: Seq<Event>,
    resolutions: Seq<Resolution>,
    chain_id: ChainId,
    handshake_enabled: bool,
    workers: Seq<WorkerView>,
    object: ObjectView,
)
    requires
        grouped(
            batch_routings(
                events,
                resolutions,
                events.len() as int,
                chain_id,
                handshake_enabled,
                workers,
            ),
        ).dom().contains(object),
        object is Client,
    ensures
        object.dst_chain_id() == chain_id@,
{
    routed_objects_belong_to_the_batch_chain(
        events,
        resolutions,
        chain_id,
        handshake_enabled,
        workers,
        object,
    );
}

proof fn routed_objects_belong_to_the_batch_chain(
    events: Seq<Event>,
    resolutions: Seq<Resolution>,
    chain_id: ChainId,
    handshake_enabled: bool,
    workers: Seq<WorkerView>,
    object: ObjectView,
)
    requires
        grouped(
            batch_routings(
                events,
                resolutions,
                events.len() as int,
                chain_id,
                handshake_enabled,
                workers,
            ),
        ).dom().contains(object),
    ensures
        of_chain(object, chain_id@),
{
    let routings = batch_routings(
        events,
        resolutions,
        events.len() as int,
        chain_id,
        handshake_enabled,
        workers,
    );
    let kept = routings.filter(routed_to(object));
    assert(kept.len() > 0);
    crate::seqs::lemma_filter_member(routings, routed_to(object), 0);
    let j = choose|j: int| 0 <= j < routings.len() && routings[j] == kept[0];
    batch_routings_of_chain(
        events,
        resolutions,
        events.len() as int,
        chain_id,
        handshake_enabled,
        workers,
        j,
    );
}

/// An event that needs no answer is routed the same way whatever the answer.
pub proof fn nothing_to_look_up(
    event: Event,
    a: Resolution,
    b: Resolution,
    chain_id: ChainId,
    handshake_enabled: bool,
    workers: Seq<WorkerView>,
)
    requires
        spec_lookup_for(event, handshake_enabled) is Nothing,
    ensures
        event_routes(event, a, chain_id, handshake_enabled, workers) == event_routes(
            event,
            b,
            chain_id,
            handshake_enabled,
            workers,
        ),
{
}

/// Classifies the events of `batch`.
///
/// `resolutions` holds, for each event in order, what the chain answered to
/// [`lookup_for`]; events past its end count as unanswered. `workers` are the
/// workers that exist: a client update is kept only for a client object that
/// one of them serves.
pub fn collect_events(
    batch: &EventBatch,
    resolutions: &Vec<Resolution>,
    handshake_enabled: bool,
    workers: &WorkerMap,
) -> (c: CollectedEvents)
    ensures
        c.wf(),
        c.spec_height() == batch.height,
        c.spec_chain_id() == batch.chain_id,
        c.spec_new_block() == last_new_block(batch.events@, batch.events@.len() as int),
        c.per_object() == grouped(
            batch_routings(
                batch.events@,
                resolutions@,
                batch.events@.len() as int,
                batch.chain_id,
                handshake_enabled,
                workers@,
            ),
        ),
        c.entries() == ordered(
            batch_routings(
                batch.events@,
                resolutions@,
                batch.events@.len() as int,
                batch.chain_id,
                handshake_enabled,
                workers@,
            ),
        ),
        forall|o: ObjectView| #[trigger]
            c.per_object().dom().contains(o) ==> of_chain(o, batch.chain_id@),
        c.entries().len() <= 3 * batch.events@.len(),
{
    let mut collected = CollectedEvents::new(batch.height, batch.chain_id.clone());
    let unresolved = Resolution::unresolved();
    let ghost events = batch.events@;
    let ghost chain_id = batch.chain_id;
    let mut i: usize = 0;
    assert(collected.per_object() =~= grouped(
        batch_routings(events, resolutions@, 0, chain_id, handshake_enabled, workers@),
    ));
    while i < batch.events.len()
        invariant
            i <= batch.events.len(),
            events == batch.events@,
            chain_id == batch.chain_id,
            unresolved == (Resolution { counterparty: None, client: None }),
            collected.wf(),
            collected.spec_height() == batch.height,
            collected.spec_chain_id() == batch.chain_id,
            collected.spec_new_block() == last_new_block(events, i as int),
            collected.entries().len() <= 3 * i,
            collected.entries() == ordered(
                batch_routings(
                    events,
                    resolutions@,
                    i as int,
                    chain_id,
                    handshake_enabled,
                    workers@,
                ),
            ),
            collected.per_object() == grouped(
                batch_routings(
                    events,
                    resolutions@,
                    i as int,
                    chain_id,
                    handshake_enabled,
                    workers@,
                ),
            ),
        decreases batch.events.len() - i,
    {
        let event = &batch.events[i];
        let resolution = if i < resolutions.len() {
            &resolutions[i]
        } else {
            &unresolved
        };
        assert(*resolution == resolution_at(resolutions@, i as int));
        let ghost base = batch_routings(
            events,
            resolutions@,
            i as int,
            chain_id,
            handshake_enabled,
            workers@,
        );
        match event {
            Event::NewBlock(_) => {
                collected.set_new_block(event.clone());
                assert(collected.per_object() == grouped(base));
                assert(collected.wf());
            },
            _ => {},
        }
        let mut objects = route_event(
            event,
            resolution,
            &batch.chain_id,
            handshake_enabled,
            workers,
        );
        let ghost routes = routings_of(object_views(objects@), *event);
        assert(batch_routings(
            events,
            resolutions@,
            i as int + 1,
            chain_id,
            handshake_enabled,
            workers@,
        ) == base + routes);
        let ghost mut done: int = 0;
        assert(base + routes.take(0) =~= base);
        assert(routes.len() <= 3);
        while objects.len() > 0
            invariant
                0 <= done <= routes.len(),
                routes.len() <= 3,
                collected.entries().len() <= 3 * i + done,
                objects@.len() == routes.len() - done,
                forall|k: int|
                    0 <= k < objects@.len() ==> (#[trigger] objects@[k])@ == routes[done + k].object,
                forall|k: int| 0 <= k < routes.len() ==> (#[trigger] routes[k]).event == *event,
                collected.wf(),
                collected.spec_height() == batch.height,
                collected.spec_chain_id() == batch.chain_id,
                collected.spec_new_block() == last_new_block(events, i as int + 1),
                collected.entries() == ordered(base + routes.take(done)),
                collected.per_object() == grouped(base + routes.take(done)),
            decreases objects.len(),
        {
            let object = objects.remove(0);
            proof {
                let routing = routes[done];
                assert(object@ == routing.object);
                lemma_grouped_push(base + routes.take(done), routing);
                assert((base + routes.take(done)).push(routing) =~= base + routes.take(done + 1));
                assert((base + routes.take(done)).push(routing).drop_last() =~= base + routes.take(
                    done,
                ));
            }
            collected.push(object, event.clone());
            proof {
                done = done + 1;
            }
        }
        assert(routes.take(done) =~= routes);
        i += 1;
    }
    proof {
        let routings = batch_routings(
            events,
            resolutions@,
            events.len() as int,
            chain_id,
            handshake_enabled,
            workers@,
        );
        assert forall|o: ObjectView| #[trigger]
            collected.per_object().dom().contains(o) implies of_chain(o, batch.chain_id@) by {
            routed_objects_belong_to_the_batch_chain(
                events,
                resolutions@,
                chain_id,
                handshake_enabled,
                workers@,
                o,
            );
        }
    }
    collected
}

} // verus!
