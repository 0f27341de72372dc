//! The client-state filter.
//!
//! An object may be relayed on only if every client that it rests on is in a
//! state that the policy accepts. The policy decides from the client states
//! that it is shown; it remembers each decision under the client, connection
//! or channel that it was made for, and reuses it until the chain of that
//! entity is forgotten.

use vstd::prelude::*;
use vstd::std_specs::cmp::PartialEqSpecImpl;
use crate::ident::{ChainId, ChannelId, ClientId, ConnectionId, PortId};
use crate::object::{Channel, Client, Connection, Object, ObjectView, Packet};
use crate::seqs::lemma_filter_take_step;

verus! {

/// Whether an object may be relayed on.
#[derive(Clone, Copy, Debug, PartialEq, Eq, Structural)]
pub enum Permission {
    Allow,
    Deny,
}

impl Permission {
    /// `Allow` when both are.
    pub open spec fn spec_and(self, other: Permission) -> Permission {
        if self == Permission::Allow && other == Permission::Allow {
            Permission::Allow
        } else {
            Permission::Deny
        }
    }

    /// `Allow` when both are.
    pub fn and(self, other: Permission) -> (r: Permission)
        ensures
            r == self.spec_and(other),
    {
        match (self, other) {
            (Permission::Allow, Permission::Allow) => Permission::Allow,
            _ => Permission::Deny,
        }
    }
}

/// The fraction of a validator set that a client trusts, as numerator over
/// denominator.
#[derive(Clone, Copy, Debug, PartialEq, Eq, Structural)]
pub struct TrustThreshold {
    pub numerator: u64,
    pub denominator: u64,
}

impl TrustThreshold {
    /// Whether this is a fraction between 0 and 1 that is no less than
    /// `bound`.
    pub open spec fn meets(self, bound: TrustThreshold) -> bool {
        &&& self.denominator > 0
        &&& self.numerator <= self.denominator
        &&& self.numerator * bound.denominator >= bound.numerator * self.denominator
    }
}

/// The state of a client, as far as the policy reads it.
#[derive(Debug, PartialEq, Eq)]
pub struct ClientState {
    /// The chain that the client tracks.
    pub chain_id: ChainId,
    /// The trust threshold of the client, if its kind has one.
    pub trust_threshold: Option<TrustThreshold>,
    /// Whether the client has gone without an update for longer than it
    /// trusts a header.
    pub expired: bool,
}

/// The decision of the policy on a client in state `state`: the client has a
/// trust threshold that meets `bound`, and has not expired.
pub open spec fn permission_for(state: ClientState, bound: TrustThreshold) -> Permission {
    match state.trust_threshold {
        Some(t) if t.meets(bound) && !state.expired => Permission::Allow,
        _ => Permission::Deny,
    }
}

/// Why the client states that an object rests on could not be had.
#[derive(Clone, Copy, Debug, PartialEq, Eq, Structural)]
pub enum QueryError {
    /// The runtime of the chain could not be reached.
    ChainUnavailable,
    /// The chain does not know the client, connection or channel.
    NotFound,
    /// The chain answered with an error.
    Failed,
}

/// The two clients that a connection rests on, and their states: the client
/// on the connection's own chain, and the client on the chain that this one
/// tracks.
#[derive(Debug, PartialEq, Eq)]
pub struct ConnectionEvidence {
    pub client_id: ClientId,
    pub client_state: ClientState,
    pub counterparty_client_id: ClientId,
    pub counterparty_client_state: ClientState,
}

/// The connection under a channel, and the clients that it rests on.
#[derive(Debug, PartialEq, Eq)]
pub struct ChannelEvidence {
    pub connection_id: ConnectionId,
    pub connection: ConnectionEvidence,
}

/// What a decision is remembered under.
#[derive(Debug, Eq, Hash)]
pub enum CacheKey {
    Client(ChainId, ClientId),
    Connection(ChainId, ConnectionId),
    Channel(ChainId, PortId, ChannelId),
}

/// The mathematical value of a [`CacheKey`].
pub enum CacheKeyView {
    Client(Seq<char>, Seq<char>),
    Connection(Seq<char>, Seq<char>),
    Channel(Seq<char>, Seq<char>, Seq<char>),
}

impl CacheKeyView {
    /// The chain of the client, connection or channel.
    pub open spec fn chain_id(self) -> Seq<char> {
        match self {
            CacheKeyView::Client(chain_id, _) => chain_id,
            CacheKeyView::Connection(chain_id, _) => chain_id,
            CacheKeyView::Channel(chain_id, _, _) => chain_id,
        }
    }
}

impl View for CacheKey {
    type V = CacheKeyView;

    open spec fn view(&self) -> CacheKeyView {
        match self {
            CacheKey::Client(chain_id, client_id) => CacheKeyView::Client(chain_id@, client_id@),
            CacheKey::Connection(chain_id, connection_id) => CacheKeyView::Connection(
                chain_id@,
                connection_id@,
            ),
            CacheKey::Channel(chain_id, port_id, channel_id) => CacheKeyView::Channel(
                chain_id@,
                port_id@,
                channel_id@,
            ),
        }
    }
}

impl PartialEq for CacheKey {
    fn eq(&self, other: &CacheKey) -> (r: bool) {
        match (self, other) {
            (CacheKey::Client(a, b), CacheKey::Client(c, d)) => a == c && b == d,
            (CacheKey::Connection(a, b), CacheKey::Connection(c, d)) => a == c && b == d,
            (CacheKey::Channel(a, b, c), CacheKey::Channel(d, e, f)) => a == d && b == e && c == f,
            _ => false,
        }
    }
}

impl PartialEqSpecImpl for CacheKey {
    open spec fn obeys_eq_spec() -> bool {
        true
    }

    open spec fn eq_spec(&self, other: &CacheKey) -> bool {
        self@ == other@
    }
}

impl CacheKey {
    /// The chain of the client, connection or channel.
    pub fn chain_id(&self) -> (id: &ChainId)
        ensures
            id@ == self@.chain_id(),
    {
        match self {
            CacheKey::Client(chain_id, _) => chain_id,
            CacheKey::Connection(chain_id, _) => chain_id,
            CacheKey::Channel(chain_id, _, _) => chain_id,
        }
    }
}

/// The remembered decisions, oldest first.
pub type Cache = Seq<(CacheKeyView, Permission)>;

/// The decision remembered under `key`: that of the first entry for it.
pub open spec fn cached(cache: Cache, key: CacheKeyView) -> Option<Permission>
    decreases cache.len(),
{
    if cache.len() == 0 {
        None
    } else if cache[0].0 == key {
        Some(cache[0].1)
    } else {
        cached(cache.skip(1), key)
    }
}

/// The decisions about entities of chains other than `chain_id`.
pub open spec fn not_of_chain(chain_id: Seq<char>) -> spec_fn((CacheKeyView, Permission)) -> bool {
    |e: (CacheKeyView, Permission)| e.0.chain_id() != chain_id
}

/// The cache and the decision after the policy was asked about the client
/// `client_id` on `chain_id`, shown `state`: the remembered decision if there
/// is one, else the decision on `state`, which is then remembered.
pub open spec fn spec_control_client(
    cache: Cache,
    bound: TrustThreshold,
    chain_id: Seq<char>,
    client_id: Seq<char>,
    state: ClientState,
) -> (Cache, Permission) {
    let key = CacheKeyView::Client(chain_id, client_id);
    match cached(cache, key) {
        Some(p) => (cache, p),
        None => {
            let p = permission_for(state, bound);
            (cache.push((key, p)), p)
        },
    }
}

/// The cache and the decision after the policy was asked about the
/// connection `connection_id` on `chain_id`: the remembered decision if there
/// is one, else `Allow` when the policy allows both clients that the
/// connection rests on, which is then remembered.
pub open spec fn spec_control_connection(
    cache: Cache,
    bound: TrustThreshold,
    chain_id: Seq<char>,
    connection_id: Seq<char>,
    evidence: ConnectionEvidence,
) -> (Cache, Permission) {
    let key = CacheKeyView::Connection(chain_id, connection_id);
    match cached(cache, key) {
        Some(p) => (cache, p),
        None => {
            let (cache1, p1) = spec_control_client(
                cache,
                bound,
                chain_id,
                evidence.client_id@,
                evidence.client_state,
            );
            let (cache2, p2) = spec_control_client(
                cache1,
                bound,
                evidence.client_state.chain_id@,
                evidence.counterparty_client_id@,
                evidence.counterparty_client_state,
            );
            let p = p1.spec_and(p2);
            (cache2.push((key, p)), p)
        },
    }
}

/// The cache and the decision after the policy was asked about the channel
/// end `port_id`/`channel_id` on `chain_id`: the remembered decision if there
/// is one, else the decision on the connection under the channel, which is
/// then remembered for the channel too.
pub open spec fn spec_control_channel(
    cache: Cache,
    bound: TrustThreshold,
    chain_id: Seq<char>,
    port_id: Seq<char>,
    channel_id: Seq<char>,
    evidence: ChannelEvidence,
) -> (Cache, Permission) {
    let key = CacheKeyView::Channel(chain_id, port_id, channel_id);
    match cached(cache, key) {
        Some(p) => (cache, p),
        None => {
            let (cache1, p) = spec_control_connection(
                cache,
                bound,
                chain_id,
                evidence.connection_id@,
                evidence.connection,
            );
            (cache1.push((key, p)), p)
        },
    }
}

/// What the policy was shown about an object, by the kind of the object: the
/// state of the client of a client object, the clients under the connection
/// of a connection object, the connection and clients under the channel of a
/// channel or packet object.
#[derive(Debug, PartialEq, Eq)]
pub enum Evidence {
    Client(ClientState),
    Connection(ConnectionEvidence),
    Channel(ChannelEvidence),
}

/// What was shown, by value.
pub open spec fn owned<E>(shown: Result<&E, QueryError>) -> Result<E, QueryError> {
    match shown {
        Ok(e) => Ok(*e),
        Err(e) => Err(e),
    }
}

/// The evidence for a client object in `evidence`. Evidence of another kind
/// counts as not found.
pub open spec fn client_evidence(evidence: Result<Evidence, QueryError>) -> Result<
    ClientState,
    QueryError,
> {
    match evidence {
        Ok(Evidence::Client(s)) => Ok(s),
        Ok(_) => Err(QueryError::NotFound),
        Err(e) => Err(e),
    }
}

/// The evidence for a connection object in `evidence`. Evidence of another
/// kind counts as not found.
pub open spec fn connection_evidence(evidence: Result<Evidence, QueryError>) -> Result<
    ConnectionEvidence,
    QueryError,
> {
    match evidence {
        Ok(Evidence::Connection(c)) => Ok(c),
        Ok(_) => Err(QueryError::NotFound),
        Err(e) => Err(e),
    }
}

/// The evidence for a channel or packet object in `evidence`. Evidence of
/// another kind counts as not found.
pub open spec fn channel_evidence(evidence: Result<Evidence, QueryError>) -> Result<
    ChannelEvidence,
    QueryError,
> {
    match evidence {
        Ok(Evidence::Channel(c)) => Ok(c),
        Ok(_) => Err(QueryError::NotFound),
        Err(e) => Err(e),
    }
}

/// The key under which the decision on `object` is remembered: its client,
/// its connection, or the channel end that it drives or relays for.
pub open spec fn object_key(object: ObjectView) -> CacheKeyView {
    match object {
        ObjectView::Client { dst_chain_id, dst_client_id, .. } => CacheKeyView::Client(
            dst_chain_id,
            dst_client_id,
        ),
        ObjectView::Connection { src_chain_id, src_connection_id, .. } => CacheKeyView::Connection(
            src_chain_id,
            src_connection_id,
        ),
        ObjectView::Channel { src_chain_id, src_port_id, src_channel_id, .. } =>
            CacheKeyView::Channel(src_chain_id, src_port_id, src_channel_id),
        ObjectView::Packet { src_chain_id, src_port_id, src_channel_id, .. } =>
            CacheKeyView::Channel(src_chain_id, src_port_id, src_channel_id),
    }
}

/// The chain that hosts what the decision on `object` rests on: the chain of
/// its client, of its connection, or of its channel end. That is the chain to
/// ask for the evidence.
pub fn evidence_host(object: &Object) -> (id: &ChainId)
    ensures
        id@ == object_key(object@).chain_id(),
{
    match object {
        Object::Client(c) => &c.dst_chain_id,
        Object::Connection(c) => &c.src_chain_id,
        Object::Channel(c) => &c.src_chain_id,
        Object::Packet(p) => &p.src_chain_id,
    }
}

/// The cache and the decision that the evidence for `object` gives when no
/// decision is remembered, or the error if the evidence could not be had or
/// is of another kind than the object.
pub open spec fn spec_decide_object(
    cache: Cache,
    bound: TrustThreshold,
    object: ObjectView,
    evidence: Result<Evidence, QueryError>,
) -> Result<(Cache, Permission), QueryError> {
    match object {
        ObjectView::Client { dst_chain_id, dst_client_id, .. } => match client_evidence(evidence) {
            Err(e) => Err(e),
            Ok(s) => Ok(spec_control_client(cache, bound, dst_chain_id, dst_client_id, s)),
        },
        ObjectView::Connection { src_chain_id, src_connection_id, .. } =>
            match connection_evidence(evidence) {
            Err(e) => Err(e),
            Ok(ev) => Ok(spec_control_connection(cache, bound, src_chain_id, src_connection_id, ev)),
        },
        ObjectView::Channel { src_chain_id, src_port_id, src_channel_id, .. } =>
            match channel_evidence(evidence) {
            Err(e) => Err(e),
            Ok(ev) => Ok(
                spec_control_channel(cache, bound, src_chain_id, src_port_id, src_channel_id, ev),
            ),
        },
        ObjectView::Packet { src_chain_id, src_port_id, src_channel_id, .. } =>
            match channel_evidence(evidence) {
            Err(e) => Err(e),
            Ok(ev) => Ok(
                spec_control_channel(cache, bound, src_chain_id, src_port_id, src_channel_id, ev),
            ),
        },
    }
}

/// The cache and the outcome after the policy was asked about `object`: the
/// remembered decision if there is one; else the error, if the evidence
/// could not be had or is of another kind than the object; else the decision
/// on the evidence, which is then remembered.
pub open spec fn spec_control_object(
    cache: Cache,
    bound: TrustThreshold,
    object: ObjectView,
    evidence: Result<Evidence, QueryError>,
) -> (Cache, Result<Permission, QueryError>) {
    match cached(cache, object_key(object)) {
        Some(p) => (cache, Ok(p)),
        None => match spec_decide_object(cache, bound, object, evidence) {
            Err(e) => (cache, Err(e)),
            Ok((after, p)) => (after, Ok(p)),
        },
    }
}

/// The client-state policy and the decisions that it remembers.
#[derive(Debug)]
pub struct FilterPolicy {
    lower_bound: TrustThreshold,
    permission_cache: Vec<(CacheKey, Permission)>,
}

impl FilterPolicy {
    /// The remembered decisions, oldest first.
    pub closed spec fn cache(&self) -> Cache {
        self.permission_cache@.map_values(|e: (CacheKey, Permission)| (e.0@, e.1))
    }

    /// The least trust threshold that the policy accepts.
    pub closed spec fn bound(&self) -> TrustThreshold {
        self.lower_bound
    }

    /// A policy that accepts trust thresholds of `lower_bound` and above,
    /// and remembers nothing yet.
    pub fn new(lower_bound: TrustThreshold) -> (f: FilterPolicy)
        ensures
            f.bound() == lower_bound,
            f.cache() == Seq::<(CacheKeyView, Permission)>::empty(),
    {
        let f = FilterPolicy { lower_bound, permission_cache: Vec::new() };
        assert(f.cache() =~= Seq::<(CacheKeyView, Permission)>::empty());
        f
    }

    /// The decision remembered under `key`.
    pub fn get(&self, key: &CacheKey) -> (r: Option<Permission>)
        ensures
            r == cached(self.cache(), key@),
    {
        let ghost cache = self.cache();
        let mut i: usize = 0;
        assert(cache.skip(0) =~= cache);
        while i < self.permission_cache.len()
            invariant
                i <= self.permission_cache.len(),
                cache == self.cache(),
                cached(cache, key@) == cached(cache.skip(i as int), key@),
            decreases self.permission_cache.len() - i,
        {
            assert(cache.skip(i as int)[0] == cache[i as int]);
            if self.permission_cache[i].0 == *key {
                return Some(self.permission_cache[i].1);
            }
            assert(cache.skip(i as int).skip(1) =~= cache.skip(i as int + 1));
            i += 1;
        }
        None
    }

    fn remember(&mut self, key: CacheKey, permission: Permission)
        ensures
            final(self).bound() == old(self).bound(),
            final(self).cache() == old(self).cache().push((key@, permission)),
    {
        let ghost before = self.cache();
        self.permission_cache.push((key, permission));
        assert(self.cache() =~= before.push((key@, permission)));
    }

    /// The decision of the policy on a client in state `state`.
    pub fn decide(&self, state: &ClientState) -> (r: Permission)
        ensures
            r == permission_for(*state, self.bound()),
    {
        match state.trust_threshold {
            Some(t) => {
                if state.expired || t.denominator == 0 || t.numerator > t.denominator {
                    return Permission::Deny;
                }
                let bound = self.lower_bound;
                assert(t.numerator * bound.denominator <= u128::MAX && bound.numerator
                    * t.denominator <= u128::MAX) by (nonlinear_arith)
                    requires
                        t.numerator <= u64::MAX,
                        t.denominator <= u64::MAX,
                        bound.numerator <= u64::MAX,
                        bound.denominator <= u64::MAX,
                ;
                let have: u128 = (t.numerator as u128) * (bound.denominator as u128);
                let need: u128 = (bound.numerator as u128) * (t.denominator as u128);
                if have >= need {
                    Permission::Allow
                } else {
                    Permission::Deny
                }
            },
            None => Permission::Deny,
        }
    }

    /// Decides on the client `client_id` on `chain_id`, shown its state.
    pub fn control_client(
        &mut self,
        chain_id: &ChainId,
        client_id: &ClientId,
        state: &ClientState,
    ) -> (r: Permission)
        ensures
            final(self).bound() == old(self).bound(),
            (final(self).cache(), r) == spec_control_client(
                old(self).cache(),
                old(self).bound(),
                chain_id@,
                client_id@,
                *state,
            ),
    {
        let key = CacheKey::Client(chain_id.clone(), client_id.clone());
        match self.get(&key) {
            Some(p) => p,
            None => {
                let p = self.decide(state);
                self.remember(key, p);
                p
            },
        }
    }

    /// Decides on the connection `connection_id` on `chain_id`, shown the
    /// clients that it rests on.
    pub fn control_connection_end_and_client(
        &mut self,
        chain_id: &ChainId,
        connection_id: &ConnectionId,
        evidence: &ConnectionEvidence,
    ) -> (r: Permission)
        ensures
            final(self).bound() == old(self).bound(),
            (final(self).cache(), r) == spec_control_connection(
                old(self).cache(),
                old(self).bound(),
                chain_id@,
                connection_id@,
                *evidence,
            ),
    {
        let key = CacheKey::Connection(chain_id.clone(), connection_id.clone());
        match self.get(&key) {
            Some(p) => p,
            None => {
                let p1 = self.control_client(chain_id, &evidence.client_id, &evidence.client_state);
                let p2 = self.control_client(
                    &evidence.client_state.chain_id,
                    &evidence.counterparty_client_id,
                    &evidence.counterparty_client_state,
                );
                let p = p1.and(p2);
                self.remember(key, p);
                p
            },
        }
    }

    /// Decides on the channel end `port_id`/`channel_id` on `chain_id`, shown
    /// the connection under it and the clients that it rests on.
    pub fn control_channel(
        &mut self,
        chain_id: &ChainId,
        port_id: &PortId,
        channel_id: &ChannelId,
        evidence: &ChannelEvidence,
    ) -> (r: Permission)
        ensures
            final(self).bound() == old(self).bound(),
            (final(self).cache(), r) == spec_control_channel(
                old(self).cache(),
                old(self).bound(),
                chain_id@,
                port_id@,
                channel_id@,
                *evidence,
            ),
    {
        let key = CacheKey::Channel(chain_id.clone(), port_id.clone(), channel_id.clone());
        match self.get(&key) {
            Some(p) => p,
            None => {
                let p = self.control_connection_end_and_client(
                    chain_id,
                    &evidence.connection_id,
                    &evidence.connection,
                );
                self.remember(key, p);
                p
            },
        }
    }

    /// Decides on a client object. `state` is the state of its client, or why
    /// that could not be had; it is read only when no decision is remembered.
    pub fn control_client_object(
        &mut self,
        object: &Client,
        state: Result<&ClientState, QueryError>,
    ) -> (r: Result<Permission, QueryError>)
        ensures
            final(self).bound() == old(self).bound(),
            forall|evidence: Result<Evidence, QueryError>|
                client_evidence(evidence) == owned(state) ==> (final(self).cache(), r)
                    == #[trigger] spec_control_object(
                    old(self).cache(),
                    old(self).bound(),
                    object@,
                    evidence,
                ),
    {
        let key = CacheKey::Client(object.dst_chain_id.clone(), object.dst_client_id.clone());
        match self.get(&key) {
            Some(p) => Ok(p),
            None => match state {
                Err(e) => Err(e),
                Ok(s) => Ok(self.control_client(&object.dst_chain_id, &object.dst_client_id, s)),
            },
        }
    }

    /// Decides on a connection object. `evidence` holds the clients that its
    /// connection rests on, or why they could not be had; it is read only
    /// when no decision is remembered.
    pub fn control_conn_object(
        &mut self,
        object: &Connection,
        evidence: Result<&ConnectionEvidence, QueryError>,
    ) -> (r: Result<Permission, QueryError>)
        ensures
            final(self).bound() == old(self).bound(),
            forall|shown: Result<Evidence, QueryError>|
                connection_evidence(shown) == owned(evidence) ==> (final(self).cache(), r)
                    == #[trigger] spec_control_object(
                    old(self).cache(),
                    old(self).bound(),
                    object@,
                    shown,
                ),
    {
        let key = CacheKey::Connection(
            object.src_chain_id.clone(),
            object.src_connection_id.clone(),
        );
        match self.get(&key) {
            Some(p) => Ok(p),
            None => match evidence {
                Err(e) => Err(e),
                Ok(ev) => Ok(
                    self.control_connection_end_and_client(
                        &object.src_chain_id,
                        &object.src_connection_id,
                        ev,
                    ),
                ),
            },
        }
    }

    /// Decides on a channel object. `evidence` holds the connection under its
    /// channel and the clients that it rests on, or why they could not be
    /// had; it is read only when no decision is remembered.
    pub fn control_chan_object(
        &mut self,
        object: &Channel,
        evidence: Result<&ChannelEvidence, QueryError>,
    ) -> (r: Result<Permission, QueryError>)
        ensures
            final(self).bound() == old(self).bound(),
            forall|shown: Result<Evidence, QueryError>|
                channel_evidence(shown) == owned(evidence) ==> (final(self).cache(), r)
                    == #[trigger] spec_control_object(
                    old(self).cache(),
                    old(self).bound(),
                    object@,
                    shown,
                ),
    {
        let key = CacheKey::Channel(
            object.src_chain_id.clone(),
            object.src_port_id.clone(),
            object.src_channel_id.clone(),
        );
        match self.get(&key) {
            Some(p) => Ok(p),
            None => match evidence {
                Err(e) => Err(e),
                Ok(ev) => Ok(
                    self.control_channel(
                        &object.src_chain_id,
                        &object.src_port_id,
                        &object.src_channel_id,
                        ev,
                    ),
                ),
            },
        }
    }

    /// Decides on a packet object, as on the channel that it relays for.
    pub fn control_packet_object(
        &mut self,
        object: &Packet,
        evidence: Result<&ChannelEvidence, QueryError>,
    ) -> (r: Result<Permission, QueryError>)
        ensures
            final(self).bound() == old(self).bound(),
            forall|shown: Result<Evidence, QueryError>|
                channel_evidence(shown) == owned(evidence) ==> (final(self).cache(), r)
                    == #[trigger] spec_control_object(
                    old(self).cache(),
                    old(self).bound(),
                    object@,
                    shown,
                ),
    {
        let key = CacheKey::Channel(
            object.src_chain_id.clone(),
            object.src_port_id.clone(),
            object.src_channel_id.clone(),
        );
        match self.get(&key) {
            Some(p) => Ok(p),
            None => match evidence {
                Err(e) => Err(e),
                Ok(ev) => Ok(
                    self.control_channel(
                        &object.src_chain_id,
                        &object.src_port_id,
                        &object.src_channel_id,
                        ev,
                    ),
                ),
            },
        }
    }

    /// Whether a decision on `object` is remembered.
    pub fn knows(&self, object: &Object) -> (r: bool)
        ensures
            r == cached(self.cache(), object_key(object@)) is Some,
    {
        let key = match object {
            Object::Client(c) => CacheKey::Client(c.dst_chain_id.clone(), c.dst_client_id.clone()),
            Object::Connection(c) => CacheKey::Connection(
                c.src_chain_id.clone(),
                c.src_connection_id.clone(),
            ),
            Object::Channel(c) => CacheKey::Channel(
                c.src_chain_id.clone(),
                c.src_port_id.clone(),
                c.src_channel_id.clone(),
            ),
            Object::Packet(p) => CacheKey::Channel(
                p.src_chain_id.clone(),
                p.src_port_id.clone(),
                p.src_channel_id.clone(),
            ),
        };
        self.get(&key).is_some()
    }

    /// Decides on `object`. `evidence` holds what `object` rests on, or why
    /// that could not be had; it is read only when no decision is
    /// remembered.
    pub fn control_object(&mut self, object: &Object, evidence: &Result<Evidence, QueryError>) -> (r:
        Result<Permission, QueryError>)
        ensures
            final(self).bound() == old(self).bound(),
            (final(self).cache(), r) == spec_control_object(
                old(self).cache(),
                old(self).bound(),
                object@,
                *evidence,
            ),
    {
        match object {
            Object::Client(c) => match evidence {
                Ok(Evidence::Client(s)) => self.control_client_object(c, Ok(s)),
                Ok(_) => self.control_client_object(c, Err(QueryError::NotFound)),
                Err(e) => self.control_client_object(c, Err(*e)),
            },
            Object::Connection(c) => match evidence {
                Ok(Evidence::Connection(ev)) => self.control_conn_object(c, Ok(ev)),
                Ok(_) => self.control_conn_object(c, Err(QueryError::NotFound)),
                Err(e) => self.control_conn_object(c, Err(*e)),
            },
            Object::Channel(c) => match evidence {
                Ok(Evidence::Channel(ev)) => self.control_chan_object(c, Ok(ev)),
                Ok(_) => self.control_chan_object(c, Err(QueryError::NotFound)),
                Err(e) => self.control_chan_object(c, Err(*e)),
            },
            Object::Packet(p) => match evidence {
                Ok(Evidence::Channel(ev)) => self.control_packet_object(p, Ok(ev)),
                Ok(_) => self.control_packet_object(p, Err(QueryError::NotFound)),
                Err(e) => self.control_packet_object(p, Err(*e)),
            },
        }
    }

    /// Forgets every decision.
    pub fn clear(&mut self)
        ensures
            final(self).bound() == old(self).bound(),
            final(self).cache() == Seq::<(CacheKeyView, Permission)>::empty(),
    {
        self.permission_cache = Vec::new();
        assert(self.cache() =~= Seq::<(CacheKeyView, Permission)>::empty());
    }

    /// Forgets every decision about a client, connection or channel of
    /// `chain_id`.
    pub fn forget_chain(&mut self, chain_id: &ChainId)
        ensures
            final(self).bound() == old(self).bound(),
            final(self).cache() == old(self).cache().filter(not_of_chain(chain_id@)),
    {
        let ghost before = self.cache();
        let ghost keep = not_of_chain(chain_id@);
        let ghost mut k: int = 0;
        let mut i: usize = 0;
        proof {
            reveal(Seq::filter);
            assert(before.take(0) =~= Seq::<(CacheKeyView, Permission)>::empty());
            assert(self.cache().take(0) =~= before.take(0).filter(keep));
            assert(self.cache().skip(0) =~= before.skip(0));
        }
        while i < self.permission_cache.len()
            invariant
                self.bound() == old(self).bound(),
                keep == not_of_chain(chain_id@),
                i <= self.permission_cache.len(),
                0 <= k <= before.len(),
                self.permission_cache.len() - i == before.len() - k,
                self.cache().take(i as int) == before.take(k).filter(keep),
                self.cache().skip(i as int) == before.skip(k),
            decreases self.permission_cache.len() - i,
        {
            let ghost now = self.cache();
            proof {
                assert(now[i as int] == now.skip(i as int)[0]);
                assert(before[k] == before.skip(k)[0]);
                lemma_filter_take_step(before, k, keep);
            }
            if *self.permission_cache[i].0.chain_id() == *chain_id {
                self.permission_cache.remove(i);
                proof {
                    assert(self.cache() =~= now.remove(i as int));
                    assert(self.cache().take(i as int) =~= now.take(i as int));
                    assert(self.cache().skip(i as int) =~= now.skip(i as int).skip(1));
                    assert(before.skip(k).skip(1) =~= before.skip(k + 1));
                    k = k + 1;
                }
            } else {
                proof {
                    assert(now.take(i as int + 1) =~= now.take(i as int).push(now[i as int]));
                    assert(now.skip(i as int + 1) =~= now.skip(i as int).skip(1));
                    assert(before.skip(k).skip(1) =~= before.skip(k + 1));
                    k = k + 1;
                }
                i += 1;
            }
        }
        proof {
            assert(self.cache().take(i as int) =~= self.cache());
            assert(before.take(k) =~= before);
        }
    }
}

impl Default for FilterPolicy {
    /// A policy that accepts trust thresholds of one third and above.
    fn default() -> (f: FilterPolicy)
        ensures
            f.bound() == (TrustThreshold { numerator: 1, denominator: 3 }),
            f.cache() == Seq::<(CacheKeyView, Permission)>::empty(),
    {
        FilterPolicy::new(TrustThreshold { numerator: 1, denominator: 3 })
    }
}

} // verus!
