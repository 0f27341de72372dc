//! The supervisor: the state that routes events to workers, and the steps
//! that change it.
//!
//! The supervisor owns the configuration, the registry of chain runtimes, the
//! worker map and the client-state filter. Each step takes what the outside
//! world answered (whether a runtime started, what a chain said of a client)
//! as an argument, changes the state, and returns what the caller has to
//! carry out: the workers to start or stop, the runtimes to shut down.

use vstd::prelude::*;
use crate::collected::{
    batch_routings,
    grouped,
    last_new_block,
    of_chain,
    ordered,
    spec_lookup_for,
    CollectedEvents,
    Lookup,
};
use crate::config::{ChainConfig, ChainConfigView, Config, ConfigView};
use crate::error::Error;
use crate::event::{Event, EventBatch};
use crate::filter::{
    cached,
    not_of_chain,
    object_key,
    spec_control_object,
    Cache,
    Evidence,
    FilterPolicy,
    Permission,
    QueryError,
    TrustThreshold,
};
use crate::ident::{ChainId, ChannelId, PortId};
use crate::object::{Object, ObjectView, Resolution};
use crate::registry::{itself, other_than, spec_spawn, Registry, RuntimeStart};
use crate::seqs::{
    distinct_by,
    lemma_filter_all,
    lemma_filter_distinct,
    lemma_filter_keeps,
    lemma_filter_member,
    lemma_filter_push,
};
use crate::worker::{
    for_chain,
    has_object,
    id_of,
    not_for_chain,
    notified_by,
    object_of,
    with_worker,
    Spawned,
    Worker,
    WorkerId,
    WorkerMap,
    WorkerView,
};

verus! {

/// Whether a command changed the configuration, so that the caller has to
/// subscribe to the chains anew.
#[derive(Clone, Copy, Debug, PartialEq, Eq, Structural)]
pub enum CmdEffect {
    ConfigChanged,
    Nothing,
}

impl CmdEffect {
    /// `ConfigChanged` when either is.
    pub open spec fn spec_or(self, other: CmdEffect) -> CmdEffect {
        if self == CmdEffect::ConfigChanged || other == CmdEffect::ConfigChanged {
            CmdEffect::ConfigChanged
        } else {
            CmdEffect::Nothing
        }
    }

    /// `ConfigChanged` when either is.
    pub fn or(self, other: CmdEffect) -> (r: CmdEffect)
        ensures
            r == self.spec_or(other),
    {
        match (self, other) {
            (CmdEffect::Nothing, CmdEffect::Nothing) => CmdEffect::Nothing,
            _ => CmdEffect::ConfigChanged,
        }
    }
}

/// In which situation workers are spawned: when the supervisor starts, into
/// an empty worker map, or after the configuration changed, into a map that
/// may hold some of the workers already.
#[derive(Clone, Copy, Debug, PartialEq, Eq, Structural)]
pub enum SpawnMode {
    Startup,
    Reload,
}

/// A flow that a scan of the chains found, and what it rests on.
#[derive(Debug, PartialEq, Eq)]
pub struct Discovered {
    /// The flow.
    pub object: Object,
    /// The client states that the flow rests on, or why they could not be
    /// had.
    pub evidence: Result<Evidence, QueryError>,
}

/// The mathematical value of a [`Supervisor`].
pub struct SupervisorView {
    /// The configuration.
    pub config: ConfigView,
    /// The chains that have a runtime.
    pub chains: Seq<Seq<char>>,
    /// The workers.
    pub workers: Seq<WorkerView>,
    /// The last worker identifier that was handed out.
    pub latest_worker_id: u64,
    /// The decisions that the client-state filter remembers.
    pub cache: Cache,
    /// The least trust threshold that the client-state filter accepts.
    pub bound: TrustThreshold,
}

impl SupervisorView {
    /// No chain is registered twice, no object has two workers, no worker
    /// identifier is used twice, and every one in use was handed out.
    pub open spec fn wf(self) -> bool {
        &&& distinct_by(self.chains, itself())
        &&& distinct_by(self.workers, object_of())
        &&& distinct_by(self.workers, id_of())
        &&& forall|i: int|
            0 <= i < self.workers.len() ==> 1 <= (#[trigger] self.workers[i]).id
                <= self.latest_worker_id
    }

    /// The state is well formed, every chain that has a runtime is
    /// configured, and both chains of every worker's object have a runtime.
    pub open spec fn inv(self) -> bool {
        &&& self.wf()
        &&& forall|i: int|
            0 <= i < self.chains.len() ==> self.config.has_chain(#[trigger] self.chains[i])
        &&& forall|i: int|
            0 <= i < self.workers.len() ==> self.chains.contains(
                (#[trigger] self.workers[i]).object.src_chain_id(),
            ) && self.chains.contains(self.workers[i].object.dst_chain_id())
    }

    /// Whether packets are relayed on the channel end `port_id`/`channel_id`
    /// of `chain_id`.
    pub open spec fn relay_packets_on_channel(
        self,
        chain_id: Seq<char>,
        port_id: Seq<char>,
        channel_id: Seq<char>,
    ) -> bool {
        !self.config.global.filter || self.config.packets_on_channel_allowed(
            chain_id,
            port_id,
            channel_id,
        )
    }

    /// Whether the channel filter turns `object`, seen on `chain_id`, away:
    /// it is a packet object for a channel on which packets are not relayed.
    pub open spec fn channel_denied(self, chain_id: Seq<char>, object: ObjectView) -> bool {
        match object {
            ObjectView::Packet { src_port_id, src_channel_id, .. } => !self.relay_packets_on_channel(
                chain_id,
                src_port_id,
                src_channel_id,
            ),
            _ => false,
        }
    }

    /// Whether the decision on `object` depends on evidence: filtering is on,
    /// the channel filter lets the object pass, and the client-state filter
    /// remembers no decision on it.
    pub open spec fn needs_evidence(self, chain_id: Seq<char>, object: ObjectView) -> bool {
        &&& self.config.global.filter
        &&& !self.channel_denied(chain_id, object)
        &&& cached(self.cache, object_key(object)) is None
    }

    /// The state after it was decided whether to relay on `object`, seen on
    /// `chain_id`, and the decision. Without filtering every object is
    /// relayed on. With filtering, a packet object is turned away if packets
    /// are not relayed on its channel; any other object, and a packet object
    /// that passed, is relayed on if the client-state filter allows it.
    pub open spec fn relay_on_object(
        self,
        chain_id: Seq<char>,
        object: ObjectView,
        evidence: Result<Evidence, QueryError>,
    ) -> (SupervisorView, bool) {
        if !self.config.global.filter {
            (self, true)
        } else if self.channel_denied(chain_id, object) {
            (self, false)
        } else {
            let (cache, outcome) = spec_control_object(self.cache, self.bound, object, evidence);
            (SupervisorView { cache, ..self }, outcome == Ok::<Permission, QueryError>(Permission::Allow))
        }
    }

    /// The state after a worker for `object` was asked for.
    pub open spec fn spawn(self, object: ObjectView) -> SupervisorView {
        SupervisorView {
            workers: with_worker(self.workers, self.latest_worker_id, object),
            latest_worker_id: if has_object(self.workers, object) {
                self.latest_worker_id
            } else {
                (self.latest_worker_id + 1) as u64
            },
            ..self
        }
    }

    /// The state after the worker for `object` was asked for, and the worker
    /// or why there is none. Both chains of the object need a runtime, the
    /// source first; if one cannot be had, the error is returned and no
    /// worker is spawned, though a runtime that did start stays registered.
    pub open spec fn worker_for(
        self,
        object: ObjectView,
        src_start: RuntimeStart,
        dst_start: RuntimeStart,
    ) -> (SupervisorView, Result<WorkerView, Error>) {
        let (chains1, src) = spec_spawn(self.chains, self.config, object.src_chain_id(), src_start);
        match src {
            Err(e) => (self, Err(e)),
            Ok(_) => {
                let (chains2, dst) = spec_spawn(
                    chains1,
                    self.config,
                    object.dst_chain_id(),
                    dst_start,
                );
                match dst {
                    Err(e) => (SupervisorView { chains: chains1, ..self }, Err(e)),
                    Ok(_) => {
                        let after = (SupervisorView { chains: chains2, ..self }).spawn(object);
                        (after, Ok(worker_of(after.workers, object)))
                    },
                }
            },
        }
    }

    /// Whether a flow that a scan found is one to spawn a worker for: it
    /// runs between two different chains that both have a runtime, it
    /// involves `only` if that names a chain, and, if it drives a handshake,
    /// handshakes are relayed.
    pub open spec fn eligible(self, object: ObjectView, only: Option<Seq<char>>) -> bool {
        &&& object.src_chain_id() != object.dst_chain_id()
        &&& self.chains.contains(object.src_chain_id())
        &&& self.chains.contains(object.dst_chain_id())
        &&& match only {
            Some(id) => object.for_chain(id),
            None => true,
        }
        &&& (object is Connection || object is Channel) ==> self.config.global.handshake_enabled
    }

    /// The state after one flow that a scan found was considered: a worker
    /// is asked for if the flow is eligible and may be relayed on.
    pub open spec fn spawn_discovered(
        self,
        discovered: Discovered,
        only: Option<Seq<char>>,
    ) -> SupervisorView {
        if !self.eligible(discovered.object@, only) {
            self
        } else {
            let (decided, relay) = self.relay_on_object(
                discovered.object@.src_chain_id(),
                discovered.object@,
                discovered.evidence,
            );
            if relay {
                decided.spawn(discovered.object@)
            } else {
                decided
            }
        }
    }

    /// The state after the first `n` flows of a scan were considered, one
    /// after the other.
    pub open spec fn spawn_scanned(
        self,
        scan: Seq<Discovered>,
        n: int,
        only: Option<Seq<char>>,
    ) -> SupervisorView
        decreases n,
    {
        if n <= 0 {
            self
        } else {
            self.spawn_scanned(scan, n - 1, only).spawn_discovered(scan[n - 1], only)
        }
    }

    /// The state before workers are spawned in `mode`: after the
    /// configuration changed, the client-state filter decides afresh, so that
    /// no worker is spawned on a decision that no longer holds.
    pub open spec fn entering(self, mode: SpawnMode) -> SupervisorView {
        match mode {
            SpawnMode::Startup => self,
            SpawnMode::Reload => SupervisorView { cache: Seq::empty(), ..self },
        }
    }

    /// The state after workers were spawned in `mode` for the flows of
    /// `scan`, for those that involve `only` if that names a chain.
    pub open spec fn spawn_workers(
        self,
        mode: SpawnMode,
        scan: Seq<Discovered>,
        only: Option<Seq<char>>,
    ) -> SupervisorView {
        self.entering(mode).spawn_scanned(scan, scan.len() as int, only)
    }

    /// The state after the runtimes of the first `n` configured chains were
    /// asked for, in the order of the configuration.
    pub open spec fn register_configured(self, starts: Seq<RuntimeStart>, n: int) -> SupervisorView
        decreases n,
    {
        if n <= 0 {
            self
        } else {
            let before = self.register_configured(starts, n - 1);
            SupervisorView {
                chains: spec_spawn(
                    before.chains,
                    self.config,
                    self.config.chains[n - 1].id,
                    start_at(starts, n - 1),
                ).0,
                ..before
            }
        }
    }

    /// Those of the first `n` configured chains whose runtime was there or
    /// started when it was asked for, in the order of the configuration.
    pub open spec fn available(self, starts: Seq<RuntimeStart>, n: int) -> Seq<Seq<char>>
        decreases n,
    {
        if n <= 0 {
            Seq::empty()
        } else {
            let before = self.register_configured(starts, n - 1);
            let id = self.config.chains[n - 1].id;
            if spec_spawn(before.chains, self.config, id, start_at(starts, n - 1)).1 is Ok {
                self.available(starts, n - 1).push(id)
            } else {
                self.available(starts, n - 1)
            }
        }
    }

    /// The state after every worker whose object has `id` as its source or
    /// destination was stopped.
    pub open spec fn shutdown_workers_for_chain(self, id: Seq<char>) -> SupervisorView {
        SupervisorView { workers: self.workers.filter(not_for_chain(id)), ..self }
    }

    /// The state after the chain of `chain` was to be added, and the effect.
    ///
    /// A chain that is configured is not added again. Else the chain is
    /// configured and its runtime registered; if the runtime did not start,
    /// nothing changes. Once the runtime is registered, workers are spawned,
    /// as after any change of the configuration, for the flows of `scan`
    /// that involve the chain.
    pub open spec fn add_chain(
        self,
        chain: ChainConfigView,
        start: RuntimeStart,
        scan: Seq<Discovered>,
    ) -> (SupervisorView, CmdEffect) {
        if self.config.has_chain(chain.id) {
            (self, CmdEffect::Nothing)
        } else {
            let config = self.config.with_chain(chain);
            let (chains, spawned) = spec_spawn(self.chains, config, chain.id, start);
            match spawned {
                Err(_) => (self, CmdEffect::Nothing),
                Ok(_) => (
                    (SupervisorView { config, chains, ..self }).spawn_workers(
                        SpawnMode::Reload,
                        scan,
                        Some(chain.id),
                    ),
                    CmdEffect::ConfigChanged,
                ),
            }
        }
    }

    /// The state after the chain `id` was to be removed, and the effect.
    ///
    /// A chain that is not configured is not removed. Else its entries leave
    /// the configuration, the workers that involve it are stopped, its
    /// runtime leaves the registry, and the client-state filter forgets what
    /// it decided about the chain's clients, connections and channels.
    pub open spec fn remove_chain(self, id: Seq<char>) -> (SupervisorView, CmdEffect) {
        if !self.config.has_chain(id) {
            (self, CmdEffect::Nothing)
        } else {
            (
                SupervisorView {
                    config: self.config.without_chain(id),
                    chains: self.chains.filter(other_than(id)),
                    workers: self.workers.filter(not_for_chain(id)),
                    cache: self.cache.filter(not_of_chain(id)),
                    ..self
                },
                CmdEffect::ConfigChanged,
            )
        }
    }

    /// The state after the chain of `chain` was to be updated, and the
    /// effect: the chain is removed, then added with its new configuration.
    pub open spec fn update_chain(
        self,
        chain: ChainConfigView,
        start: RuntimeStart,
        scan: Seq<Discovered>,
    ) -> (SupervisorView, CmdEffect) {
        let (without, removed) = self.remove_chain(chain.id);
        let (with, added) = without.add_chain(chain, start, scan);
        (with, removed.spec_or(added))
    }
}

/// Whether the runtime of the chain at `index` of the configuration
/// started: what `starts` says, and not where `starts` falls short.
pub open spec fn start_at(starts: Seq<RuntimeStart>, index: int) -> RuntimeStart {
    if 0 <= index < starts.len() {
        starts[index]
    } else {
        RuntimeStart::Failed
    }
}

/// The worker of `workers` that serves `object`.
pub open spec fn worker_of(workers: Seq<WorkerView>, object: ObjectView) -> WorkerView {
    workers[choose|i: int| 0 <= i < workers.len() && (#[trigger] workers[i]).object == object]
}

/// The chain that `only` names, if it names one.
pub open spec fn only_view(only: Option<&ChainId>) -> Option<Seq<char>> {
    match only {
        Some(id) => Some(id@),
        None => None,
    }
}

/// What the caller has to carry out after a step.
#[derive(Debug, PartialEq, Eq)]
pub struct Changes {
    /// The workers that were added and have to be started.
    pub spawned: Vec<Worker>,
    /// The workers that were dropped and have to be stopped.
    pub stopped: Vec<Worker>,
    /// The chain whose runtime has to be shut down.
    pub shutdown: Option<ChainId>,
}

/// The views of a list of workers.
pub open spec fn worker_views(workers: Seq<Worker>) -> Seq<WorkerView> {
    workers.map_values(|w: Worker| w@)
}

/// A message from a worker to the supervisor.
#[derive(Debug, PartialEq, Eq)]
pub enum WorkerMsg {
    /// The worker that served the object under the identifier has stopped.
    Stopped(WorkerId, Object),
}

/// A change of the configuration while the supervisor runs.
#[derive(Debug, PartialEq, Eq)]
pub enum ConfigUpdate {
    Add(ChainConfig),
    Remove(ChainId),
    Update(ChainConfig),
}

/// A command to the supervisor.
#[derive(Debug, PartialEq, Eq)]
pub enum SupervisorCmd {
    UpdateConfig(ConfigUpdate),
    DumpState,
}

/// A snapshot of what the supervisor runs: the chains that have a runtime
/// and the objects that have a worker.
#[derive(Debug, PartialEq, Eq)]
pub struct SupervisorState {
    pub chains: Vec<ChainId>,
    pub workers: Vec<Object>,
}

/// The supervisor's state.
#[derive(Debug)]
pub struct Supervisor {
    config: Config,
    registry: Registry,
    workers: WorkerMap,
    client_state_filter: FilterPolicy,
}

impl View for Supervisor {
    type V = SupervisorView;

    closed spec fn view(&self) -> SupervisorView {
        SupervisorView {
            config: self.config@,
            chains: self.registry@,
            workers: self.workers@,
            latest_worker_id: self.workers.latest_id(),
            cache: self.client_state_filter.cache(),
            bound: self.client_state_filter.bound(),
        }
    }
}

impl Supervisor {
    /// A supervisor for the chains of `config`. No chain has a runtime and no
    /// object a worker yet; the client-state filter accepts trust thresholds
    /// of one third and above, and remembers nothing.
    pub fn new(config: Config) -> (s: Supervisor)
        ensures
            s@.wf(),
            s@.config == config@,
            s@.chains == Seq::<Seq<char>>::empty(),
            s@.workers == Seq::<WorkerView>::empty(),
            s@.latest_worker_id == 0,
            s@.cache == Seq::<(crate::filter::CacheKeyView, Permission)>::empty(),
            s@.bound == (TrustThreshold { numerator: 1, denominator: 3 }),
    {
        Supervisor {
            config,
            registry: Registry::new(),
            workers: WorkerMap::new(),
            client_state_filter: FilterPolicy::new(TrustThreshold { numerator: 1, denominator: 3 }),
        }
    }

    /// The configuration.
    pub fn config(&self) -> (c: &Config)
        ensures
            c@ == self@.config,
    {
        &self.config
    }

    /// The registry of chain runtimes.
    pub fn registry(&self) -> (r: &Registry)
        ensures
            r@ == self@.chains,
    {
        &self.registry
    }

    /// The worker map.
    pub fn workers(&self) -> (w: &WorkerMap)
        ensures
            w@ == self@.workers,
            w.latest_id() == self@.latest_worker_id,
    {
        &self.workers
    }

    /// Whether objects are filtered by the state of their clients.
    pub fn client_filter_enabled(&self) -> (r: bool)
        ensures
            r == self@.config.global.filter,
    {
        self.config.global.filter
    }

    /// Whether packet objects are filtered by their channel.
    pub fn channel_filter_enabled(&self) -> (r: bool)
        ensures
            r == self@.config.global.filter,
    {
        self.config.global.filter
    }

    /// Whether packets are relayed on the channel end `port_id`/`channel_id`
    /// of `chain_id`.
    pub fn relay_packets_on_channel(
        &self,
        chain_id: &ChainId,
        port_id: &PortId,
        channel_id: &ChannelId,
    ) -> (r: bool)
        ensures
            r == self@.relay_packets_on_channel(chain_id@, port_id@, channel_id@),
    {
        if !self.channel_filter_enabled() {
            return true;
        }
        self.config.packets_on_channel_allowed(chain_id, port_id, channel_id)
    }

    fn channel_denied(&self, chain_id: &ChainId, object: &Object) -> (r: bool)
        ensures
            r == self@.channel_denied(chain_id@, object@),
    {
        match object {
            Object::Packet(p) => !self.relay_packets_on_channel(
                chain_id,
                p.src_port_id(),
                p.src_channel_id(),
            ),
            _ => false,
        }
    }

    /// Whether [`Supervisor::relay_on_object`] will read the evidence that it
    /// is given for `object`.
    pub fn needs_evidence(&self, chain_id: &ChainId, object: &Object) -> (r: bool)
        ensures
            r == self@.needs_evidence(chain_id@, object@),
    {
        self.config.global.filter && !self.channel_denied(chain_id, object)
            && !self.client_state_filter.knows(object)
    }

    /// Decides whether to relay on `object`, seen on `chain_id`. `evidence`
    /// holds what the object rests on, or why that could not be had; it is
    /// read only where [`Supervisor::needs_evidence`] holds.
    pub fn relay_on_object(
        &mut self,
        chain_id: &ChainId,
        object: &Object,
        evidence: &Result<Evidence, QueryError>,
    ) -> (r: bool)
        ensures
            (final(self)@, r) == old(self)@.relay_on_object(chain_id@, object@, *evidence),
            !old(self)@.config.global.filter ==> r,
    {
        if !self.channel_filter_enabled() && !self.client_filter_enabled() {
            return true;
        }
        if self.channel_denied(chain_id, object) {
            return false;
        }
        match self.client_state_filter.control_object(object, evidence) {
            Ok(Permission::Allow) => true,
            Ok(Permission::Deny) => false,
            Err(_) => false,
        }
    }

    /// What has to be asked of the chain that emitted `event` before the
    /// event can be routed.
    pub fn lookup_for(&self, event: &Event) -> (r: Lookup)
        ensures
            r == spec_lookup_for(*event, self@.config.global.handshake_enabled),
    {
        crate::collected::lookup_for(event, self.config.handshake_enabled())
    }

    /// Classifies the events of `batch`: each is put under the objects that
    /// it is routed to, the last new block is kept apart.
    ///
    /// `resolutions` holds, for each event in order, what the chain answered
    /// to [`Supervisor::lookup_for`]; events past its end count as
    /// unanswered.
    pub fn collect_events(&self, batch: &EventBatch, resolutions: &Vec<Resolution>) -> (c:
        CollectedEvents)
        ensures
            c.wf(),
            c.spec_height() == batch.height,
            c.spec_chain_id() == batch.chain_id,
            c.spec_new_block() == last_new_block(batch.events@, batch.events@.len() as int),
            c.per_object() == grouped(
                batch_routings(
                    batch.events@,
                    resolutions@,
                    batch.events@.len() as int,
                    batch.chain_id,
                    self@.config.global.handshake_enabled,
                    self@.workers,
                ),
            ),
            c.entries() == ordered(
                batch_routings(
                    batch.events@,
                    resolutions@,
                    batch.events@.len() as int,
                    batch.chain_id,
                    self@.config.global.handshake_enabled,
                    self@.workers,
                ),
            ),
            forall|o: ObjectView| #[trigger]
                c.per_object().dom().contains(o) ==> of_chain(o, batch.chain_id@),
            c.entries().len() <= 3 * batch.events@.len(),
    {
        crate::collected::collect_events(
            batch,
            resolutions,
            self.config.handshake_enabled(),
            &self.workers,
        )
    }

    /// Takes note of what a worker reported. A worker that stopped is
    /// forgotten, unless its object has been given another worker since.
    /// Returns whether a worker was forgotten.
    pub fn handle_worker_msg(&mut self, msg: WorkerMsg) -> (removed: bool)
        requires
            old(self)@.inv(),
        ensures
            final(self)@.inv(),
            match msg {
                WorkerMsg::Stopped(id, object) => {
                    &&& final(self)@ == (SupervisorView {
                        workers: old(self)@.workers.filter(
                            crate::worker::other_than(id.0, object@),
                        ),
                        ..old(self)@
                    })
                    &&& removed == old(self)@.workers.contains(
                        WorkerView { id: id.0, object: object@ },
                    )
                },
            },
    {
        match msg {
            WorkerMsg::Stopped(id, object) => {
                let ghost keep = crate::worker::other_than(id.0, object@);
                let ghost before = self@;
                let removed = self.workers.remove_stopped(id, &object);
                proof {
                    assert forall|i: int| 0 <= i < self@.workers.len() implies self@.chains.contains(
                        (#[trigger] self@.workers[i]).object.src_chain_id(),
                    ) && self@.chains.contains(self@.workers[i].object.dst_chain_id()) by {
                        lemma_filter_member(before.workers, keep, i);
                    }
                }
                removed
            },
        }
    }

    /// The workers that have to clear their pending packets after the
    /// subscription to `chain_id` was cancelled: those whose object has the
    /// chain as its source or destination.
    pub fn clear_pending_packets(&self, chain_id: &ChainId) -> (r: Vec<Worker>)
        ensures
            worker_views(r@) == self@.workers.filter(for_chain(chain_id@)),
    {
        self.workers.workers_for_chain(chain_id)
    }

    /// The workers that have to be told of a new block on `src_chain_id`:
    /// those whose object has the chain as its source.
    pub fn to_notify(&self, src_chain_id: &ChainId) -> (r: Vec<Worker>)
        ensures
            worker_views(r@) == self@.workers.filter(notified_by(src_chain_id@)),
    {
        self.workers.to_notify(src_chain_id)
    }

    /// A snapshot of the chains that have a runtime and of the objects that
    /// have a worker.
    pub fn dump_state(&self) -> (state: SupervisorState)
        ensures
            state.chains@.map_values(|c: ChainId| c@) == self@.chains,
            state.workers@.map_values(|o: Object| o@) == self@.workers.map_values(object_of()),
    {
        SupervisorState { chains: self.registry.chains(), workers: self.workers.objects() }
    }

    /// Whether a runtime has to be started before the chain `id` is
    /// acquired.
    pub fn must_start(&self, id: &ChainId) -> (r: bool)
        ensures
            r == crate::registry::spec_must_start(self@.chains, self@.config, id@),
    {
        self.registry.must_start(&self.config, id)
    }

    /// Makes sure that the chain `id` has a runtime. `start` says whether
    /// its runtime started; it is read only where [`Supervisor::must_start`]
    /// holds.
    pub fn acquire(&mut self, id: &ChainId, start: RuntimeStart) -> (r: Result<(), Error>)
        requires
            old(self)@.inv(),
        ensures
            final(self)@.inv(),
            final(self)@ == (SupervisorView {
                chains: spec_spawn(old(self)@.chains, old(self)@.config, id@, start).0,
                ..old(self)@
            }),
            match spec_spawn(old(self)@.chains, old(self)@.config, id@, start).1 {
                Ok(_) => r == Ok::<(), Error>(()),
                Err(e) => r == Err::<(), Error>(e),
            },
            r is Ok ==> final(self)@.chains.contains(id@),
    {
        let ghost before = self@;
        let r = self.registry.get_or_spawn(&self.config, id, start);
        proof {
            lemma_chains_grew(before, self@);
        }
        r
    }

    /// Asks for the runtime of every configured chain, in the order of the
    /// configuration. `starts` says, for each entry of the configuration,
    /// whether the runtime of its chain started; entries past its end count
    /// as not started. Returns the chains that have a runtime by now.
    pub fn register_chains(&mut self, starts: &Vec<RuntimeStart>) -> (r: Vec<ChainId>)
        requires
            old(self)@.inv(),
        ensures
            final(self)@.inv(),
            final(self)@ == old(self)@.register_configured(
                starts@,
                old(self)@.config.chains.len() as int,
            ),
            r@.map_values(|c: ChainId| c@) == old(self)@.available(
                starts@,
                old(self)@.config.chains.len() as int,
            ),
    {
        let ghost init = self@;
        let mut r: Vec<ChainId> = Vec::new();
        let mut i: usize = 0;
        assert(r@.map_values(|c: ChainId| c@) =~= init.available(starts@, 0));
        while i < self.config.chains.len()
            invariant
                init.inv(),
                self@.inv(),
                i <= self.config.chains.len(),
                self@.config == init.config,
                self@ == init.register_configured(starts@, i as int),
                r@.map_values(|c: ChainId| c@) == init.available(starts@, i as int),
            decreases self.config.chains.len() - i,
        {
            let start = if i < starts.len() {
                starts[i]
            } else {
                RuntimeStart::Failed
            };
            let ghost before = self@;
            let ghost listed = r@.map_values(|c: ChainId| c@);
            let id = self.config.chains[i].id.clone();
            assert(id@ == init.config.chains[i as int].id);
            match self.registry.get_or_spawn(&self.config, &id, start) {
                Ok(_) => {
                    r.push(id);
                    assert(r@.map_values(|c: ChainId| c@) =~= listed.push(id@));
                },
                Err(_) => {},
            }
            proof {
                lemma_chains_grew(before, self@);
            }
            i += 1;
        }
        r
    }

    /// Readies the chains to subscribe to: asks for the runtime of every
    /// configured chain, as [`Supervisor::register_chains`] does, and returns
    /// the chains that have one. Fails if no chain at all has a runtime.
    pub fn init_subscriptions(&mut self, starts: &Vec<RuntimeStart>) -> (r: Result<
        Vec<ChainId>,
        Error,
    >)
        requires
            old(self)@.inv(),
        ensures
            final(self)@.inv(),
            final(self)@ == old(self)@.register_configured(
                starts@,
                old(self)@.config.chains.len() as int,
            ),
            match r {
                Ok(chains) => final(self)@.chains.len() > 0 && chains@.map_values(|c: ChainId| c@)
                    == old(self)@.available(starts@, old(self)@.config.chains.len() as int),
                Err(e) => final(self)@.chains.len() == 0 && e == Error::NoChainsAvailable,
            },
    {
        let chains = self.register_chains(starts);
        if self.registry.size() == 0 {
            return Err(Error::NoChainsAvailable);
        }
        Ok(chains)
    }

    /// Returns the worker that serves `object`, spawning one if there is
    /// none, once both chains of the object have a runtime. `src_start` and
    /// `dst_start` say whether the runtime of the source and of the
    /// destination started; each is read only where
    /// [`Supervisor::must_start`] holds when its chain is acquired, the
    /// source first.
    pub fn worker_for(&mut self, object: &Object, src_start: RuntimeStart, dst_start: RuntimeStart) -> (r:
        Result<Spawned, Error>)
        requires
            old(self)@.inv(),
            old(self)@.latest_worker_id < u64::MAX,
        ensures
            final(self)@.inv(),
            final(self)@ == old(self)@.worker_for(object@, src_start, dst_start).0,
            match (r, old(self)@.worker_for(object@, src_start, dst_start).1) {
                (Ok(spawned), Ok(worker)) => {
                    &&& worker == (WorkerView { id: spawned.id.0, object: object@ })
                    &&& spawned.created == !has_object(old(self)@.workers, object@)
                    &&& final(self)@.workers.contains(worker)
                },
                (Err(e), Err(expected)) => e == expected,
                _ => false,
            },
    {
        match self.acquire(object.src_chain_id(), src_start) {
            Err(e) => {
                return Err(e);
            },
            Ok(_) => {},
        }
        let ghost sourced = self@;
        match self.acquire(object.dst_chain_id(), dst_start) {
            Err(e) => {
                return Err(e);
            },
            Ok(_) => {},
        }
        let ghost before = self@;
        proof {
            let a = choose|a: int|
                0 <= a < sourced.chains.len() && sourced.chains[a] == object@.src_chain_id();
            assert(before.chains[a] == object@.src_chain_id());
        }
        let spawned = self.workers.get_or_spawn(object.clone());
        proof {
            let served = WorkerView { id: spawned.id.0, object: object@ };
            let i = choose|i: int| 0 <= i < self@.workers.len() && self@.workers[i] == served;
            assert(self@.workers[i].object == object@);
            assert(has_object(self@.workers, object@));
            let k = choose|k: int|
                0 <= k < self@.workers.len() && (#[trigger] self@.workers[k]).object == object@;
            if k < i {
                assert(object_of()(self@.workers[k]) != object_of()(self@.workers[i]));
            } else if i < k {
                assert(object_of()(self@.workers[i]) != object_of()(self@.workers[k]));
            }
            assert(worker_of(self@.workers, object@) == served);
            assert forall|j: int| 0 <= j < self@.workers.len() implies self@.chains.contains(
                (#[trigger] self@.workers[j]).object.src_chain_id(),
            ) && self@.chains.contains(self@.workers[j].object.dst_chain_id()) by {
                if j < before.workers.len() {
                    assert(self@.workers[j] == before.workers[j]);
                }
            }
        }
        Ok(spawned)
    }

    fn eligible(&self, object: &Object, only: Option<&ChainId>) -> (r: bool)
        ensures
            r == self@.eligible(object@, only_view(only)),
    {
        let src = object.src_chain_id();
        let dst = object.dst_chain_id();
        if *src == *dst {
            return false;
        }
        if !self.registry.contains(src) || !self.registry.contains(dst) {
            return false;
        }
        match only {
            Some(id) => {
                if !object.for_chain(id) {
                    return false;
                }
            },
            None => {},
        }
        match object {
            Object::Connection(_) => self.config.handshake_enabled(),
            Object::Channel(_) => self.config.handshake_enabled(),
            _ => true,
        }
    }

    fn spawn_scanned(&mut self, scan: &Vec<Discovered>, only: Option<&ChainId>) -> (spawned: Vec<
        Worker,
    >)
        requires
            old(self)@.inv(),
            old(self)@.latest_worker_id + scan@.len() <= u64::MAX,
        ensures
            final(self)@.inv(),
            final(self)@ == old(self)@.spawn_scanned(scan@, scan@.len() as int, only_view(only)),
            old(self)@.workers.len() <= final(self)@.workers.len(),
            final(self)@.workers.take(old(self)@.workers.len() as int) == old(self)@.workers,
            worker_views(spawned@) == final(self)@.workers.skip(old(self)@.workers.len() as int),
    {
        let ghost init = self@;
        let ghost first = init.workers.len() as int;
        let mut spawned: Vec<Worker> = Vec::new();
        let mut i: usize = 0;
        proof {
            assert(self@.workers.take(first) =~= init.workers);
            assert(worker_views(spawned@) =~= self@.workers.skip(first));
        }
        while i < scan.len()
            invariant
                i <= scan.len(),
                first == init.workers.len(),
                init.latest_worker_id + scan@.len() <= u64::MAX,
                self@.inv(),
                self@ == init.spawn_scanned(scan@, i as int, only_view(only)),
                self@.latest_worker_id <= init.latest_worker_id + i,
                first <= self@.workers.len(),
                self@.workers.take(first) == init.workers,
                worker_views(spawned@) == self@.workers.skip(first),
            decreases scan.len() - i,
        {
            let discovered = &scan[i];
            let ghost before = self@;
            let ghost listed = worker_views(spawned@);
            if self.eligible(&discovered.object, only) {
                let relay = self.relay_on_object(
                    discovered.object.src_chain_id(),
                    &discovered.object,
                    &discovered.evidence,
                );
                if relay {
                    let ghost decided = self@;
                    let sp = self.workers.get_or_spawn(discovered.object.clone());
                    proof {
                        assert(self@ == decided.spawn(discovered.object@));
                    }
                    if sp.created {
                        spawned.push(Worker { id: sp.id, object: discovered.object.clone() });
                        proof {
                            let added = WorkerView { id: sp.id.0, object: discovered.object@ };
                            assert(self@.workers == before.workers.push(added));
                            assert(self@.workers.take(first) =~= before.workers.take(first));
                            assert(worker_views(spawned@) =~= listed.push(added));
                            assert(self@.workers.skip(first) =~= before.workers.skip(first).push(
                                added,
                            ));
                            assert(before.chains.contains(added.object.src_chain_id()));
                            assert(before.chains.contains(added.object.dst_chain_id()));
                        }
                    }
                }
            }
            i += 1;
        }
        spawned
    }

    fn enter(&mut self, mode: SpawnMode)
        requires
            old(self)@.inv(),
        ensures
            final(self)@.inv(),
            final(self)@ == old(self)@.entering(mode),
    {
        match mode {
            SpawnMode::Startup => {},
            SpawnMode::Reload => {
                self.client_state_filter.clear();
            },
        }
    }

    /// Spawns the workers for the flows that a scan of all chains found.
    /// Returns the workers that were added and have to be started.
    pub fn spawn_workers(&mut self, mode: SpawnMode, scan: &Vec<Discovered>) -> (spawned: Vec<
        Worker,
    >)
        requires
            old(self)@.inv(),
            old(self)@.latest_worker_id + scan@.len() <= u64::MAX,
        ensures
            final(self)@.inv(),
            final(self)@ == old(self)@.spawn_workers(mode, scan@, None),
            old(self)@.workers.len() <= final(self)@.workers.len(),
            final(self)@.workers.take(old(self)@.workers.len() as int) == old(self)@.workers,
            worker_views(spawned@) == final(self)@.workers.skip(old(self)@.workers.len() as int),
    {
        self.enter(mode);
        self.spawn_scanned(scan, None)
    }

    /// Spawns the workers for the flows of a scan that involve the chain
    /// `id`, as after a change of the configuration. Returns the workers
    /// that were added and have to be started.
    pub fn spawn_workers_for_chain(&mut self, id: &ChainId, scan: &Vec<Discovered>) -> (spawned:
        Vec<Worker>)
        requires
            old(self)@.inv(),
            old(self)@.latest_worker_id + scan@.len() <= u64::MAX,
        ensures
            final(self)@.inv(),
            final(self)@ == old(self)@.spawn_workers(SpawnMode::Reload, scan@, Some(id@)),
            old(self)@.workers.len() <= final(self)@.workers.len(),
            final(self)@.workers.take(old(self)@.workers.len() as int) == old(self)@.workers,
            worker_views(spawned@) == final(self)@.workers.skip(old(self)@.workers.len() as int),
    {
        self.enter(SpawnMode::Reload);
        self.spawn_scanned(scan, Some(id))
    }

    /// Drops every worker whose object has `id` as its source or
    /// destination. Returns the workers that were dropped and have to be
    /// stopped.
    pub fn shutdown_workers_for_chain(&mut self, id: &ChainId) -> (stopped: Vec<Worker>)
        requires
            old(self)@.inv(),
        ensures
            final(self)@.inv(),
            final(self)@ == old(self)@.shutdown_workers_for_chain(id@),
            worker_views(stopped@) == old(self)@.workers.filter(for_chain(id@)),
    {
        let ghost before = self@;
        let stopped = self.workers.shutdown_for_chain(id);
        proof {
            assert forall|i: int| 0 <= i < self@.workers.len() implies self@.chains.contains(
                (#[trigger] self@.workers[i]).object.src_chain_id(),
            ) && self@.chains.contains(self@.workers[i].object.dst_chain_id()) by {
                lemma_filter_member(before.workers, not_for_chain(id@), i);
            }
        }
        stopped
    }

    /// Adds a chain to the configuration and spawns the workers for it.
    /// `start` says whether the runtime of the chain started, `scan` holds
    /// the flows that a scan found once it had; neither is read if the chain
    /// is configured already, and `scan` is not read if the runtime did not
    /// start. Returns whether the configuration changed, and the workers
    /// that have to be started.
    pub fn add_chain(&mut self, chain: ChainConfig, start: RuntimeStart, scan: &Vec<Discovered>) -> (r:
        (CmdEffect, Changes))
        requires
            old(self)@.inv(),
            old(self)@.latest_worker_id + scan@.len() <= u64::MAX,
        ensures
            final(self)@.inv(),
            (final(self)@, r.0) == old(self)@.add_chain(chain@, start, scan@),
            r.1.stopped@.len() == 0,
            r.1.shutdown is None,
            old(self)@.workers.len() <= final(self)@.workers.len(),
            final(self)@.workers.take(old(self)@.workers.len() as int) == old(self)@.workers,
            worker_views(r.1.spawned@) == final(self)@.workers.skip(
                old(self)@.workers.len() as int,
            ),
    {
        let ghost init = self@;
        let id = chain.id.clone();
        proof {
            assert(self@.workers.take(init.workers.len() as int) =~= init.workers);
            assert(Seq::<WorkerView>::empty() =~= self@.workers.skip(init.workers.len() as int));
            assert(worker_views(Seq::<Worker>::empty()) =~= Seq::<WorkerView>::empty());
        }
        if self.config.has_chain(&id) {
            return (
                CmdEffect::Nothing,
                Changes { spawned: Vec::new(), stopped: Vec::new(), shutdown: None },
            );
        }
        self.config.add_chain(chain);
        let spawned = self.registry.spawn(&self.config, &id, start);
        match spawned {
            Err(_) => {
                self.config.remove_chain(&id);
                proof {
                    lemma_add_then_remove(init.config, chain@);
                    assert(self@.config.chains =~= init.config.chains);
                }
                return (
                    CmdEffect::Nothing,
                    Changes { spawned: Vec::new(), stopped: Vec::new(), shutdown: None },
                );
            },
            Ok(_) => {},
        }
        proof {
            lemma_config_grew(init, self@, chain@);
        }
        let spawned = self.spawn_workers_for_chain(&id, scan);
        (CmdEffect::ConfigChanged, Changes { spawned, stopped: Vec::new(), shutdown: None })
    }

    /// Removes a chain from the configuration, with its workers and its
    /// runtime. Returns whether the configuration changed, the workers that
    /// have to be stopped, and the chain if its runtime has to be shut down.
    /// Afterwards nothing of the chain is left: no entry in the
    /// configuration, no runtime, and no worker whose object has the chain as
    /// its source or destination.
    pub fn remove_chain(&mut self, id: &ChainId) -> (r: (CmdEffect, Changes))
        requires
            old(self)@.inv(),
        ensures
            final(self)@.inv(),
            (final(self)@, r.0) == old(self)@.remove_chain(id@),
            r.1.spawned@.len() == 0,
            worker_views(r.1.stopped@) == old(self)@.workers.filter(for_chain(id@)),
            match r.1.shutdown {
                Some(chain) => chain@ == id@ && old(self)@.chains.contains(id@),
                None => !old(self)@.chains.contains(id@),
            },
            !final(self)@.config.has_chain(id@),
            !final(self)@.chains.contains(id@),
            forall|i: int|
                0 <= i < final(self)@.workers.len() ==> !(#[trigger] final(self)@.workers[i]).object.for_chain(
                    id@,
                ),
    {
        let ghost init = self@;
        if !self.config.has_chain(id) {
            proof {
                lemma_nothing_of_unconfigured(init, id@);
                lemma_filter_none(init.workers, for_chain(id@));
                assert(worker_views(Seq::<Worker>::empty()) =~= Seq::<WorkerView>::empty());
            }
            return (
                CmdEffect::Nothing,
                Changes { spawned: Vec::new(), stopped: Vec::new(), shutdown: None },
            );
        }
        self.config.remove_chain(id);
        let stopped = self.workers.shutdown_for_chain(id);
        let registered = self.registry.shutdown(id);
        self.client_state_filter.forget_chain(id);
        let shutdown = if registered {
            Some(id.clone())
        } else {
            None
        };
        proof {
            lemma_removed(init, id@);
        }
        (CmdEffect::ConfigChanged, Changes { spawned: Vec::new(), stopped, shutdown })
    }

    /// Replaces the configuration of a chain: removes the chain, then adds
    /// it as configured now. `start` and `scan` are for the adding, as in
    /// [`Supervisor::add_chain`].
    pub fn update_chain(&mut self, chain: ChainConfig, start: RuntimeStart, scan: &Vec<Discovered>) -> (r:
        (CmdEffect, Changes))
        requires
            old(self)@.inv(),
            old(self)@.latest_worker_id + scan@.len() <= u64::MAX,
        ensures
            final(self)@.inv(),
            (final(self)@, r.0) == old(self)@.update_chain(chain@, start, scan@),
            worker_views(r.1.stopped@) == old(self)@.workers.filter(for_chain(chain.id@)),
            worker_views(r.1.spawned@) == final(self)@.workers.skip(
                old(self)@.workers.filter(not_for_chain(chain.id@)).len() as int,
            ),
            match r.1.shutdown {
                Some(id) => id@ == chain.id@ && old(self)@.chains.contains(chain.id@),
                None => !old(self)@.chains.contains(chain.id@),
            },
    {
        let ghost init = self@;
        let (removed, removal) = self.remove_chain(&chain.id);
        let ghost mid = self@;
        proof {
            if !init.config.has_chain(chain.id@) {
                lemma_nothing_of_unconfigured(init, chain.id@);
                lemma_filter_all(init.workers, not_for_chain(chain.id@));
            }
        }
        let (added, addition) = self.add_chain(chain, start, scan);
        (
            removed.or(added),
            Changes {
                spawned: addition.spawned,
                stopped: removal.stopped,
                shutdown: removal.shutdown,
            },
        )
    }

    /// Applies a change of the configuration. `start` and `scan` are for the
    /// chain that is added, as in [`Supervisor::add_chain`].
    pub fn update_config(
        &mut self,
        update: ConfigUpdate,
        start: RuntimeStart,
        scan: &Vec<Discovered>,
    ) -> (r: (CmdEffect, Changes))
        requires
            old(self)@.inv(),
            old(self)@.latest_worker_id + scan@.len() <= u64::MAX,
        ensures
            final(self)@.inv(),
            (final(self)@, r.0) == spec_update_config(old(self)@, update, start, scan@),
    {
        match update {
            ConfigUpdate::Add(chain) => self.add_chain(chain, start, scan),
            ConfigUpdate::Remove(id) => self.remove_chain(&id),
            ConfigUpdate::Update(chain) => self.update_chain(chain, start, scan),
        }
    }

    /// Carries out a command. A change of the configuration is applied, as
    /// [`Supervisor::update_config`] does; a request for the state is
    /// answered with a snapshot and changes nothing.
    pub fn handle_cmd(
        &mut self,
        cmd: SupervisorCmd,
        start: RuntimeStart,
        scan: &Vec<Discovered>,
    ) -> (r: CmdOutcome)
        requires
            old(self)@.inv(),
            old(self)@.latest_worker_id + scan@.len() <= u64::MAX,
        ensures
            final(self)@.inv(),
            match cmd {
                SupervisorCmd::UpdateConfig(update) => (final(self)@, r.effect)
                    == spec_update_config(old(self)@, update, start, scan@) && r.state is None,
                SupervisorCmd::DumpState => {
                    &&& final(self)@ == old(self)@
                    &&& r.effect == CmdEffect::Nothing
                    &&& r.changes.spawned@.len() == 0
                    &&& r.changes.stopped@.len() == 0
                    &&& r.changes.shutdown is None
                    &&& r.state matches Some(state)
                    &&& state.chains@.map_values(|c: ChainId| c@) == old(self)@.chains
                    &&& state.workers@.map_values(|o: Object| o@) == old(self)@.workers.map_values(
                        object_of(),
                    )
                },
            },
    {
        match cmd {
            SupervisorCmd::UpdateConfig(update) => {
                let (effect, changes) = self.update_config(update, start, scan);
                CmdOutcome { effect, changes, state: None }
            },
            SupervisorCmd::DumpState => CmdOutcome {
                effect: CmdEffect::Nothing,
                changes: Changes { spawned: Vec::new(), stopped: Vec::new(), shutdown: None },
                state: Some(self.dump_state()),
            },
        }
    }
}

/// The outcome of a command.
#[derive(Debug, PartialEq, Eq)]
pub struct CmdOutcome {
    /// Whether the configuration changed.
    pub effect: CmdEffect,
    /// What the caller has to carry out.
    pub changes: Changes,
    /// The snapshot that was asked for, if one was.
    pub state: Option<SupervisorState>,
}

/// The state after a change of the configuration, and the effect.
pub open spec fn spec_update_config(
    state: SupervisorView,
    update: ConfigUpdate,
    start: RuntimeStart,
    scan: Seq<Discovered>,
) -> (SupervisorView, CmdEffect) {
    match update {
        ConfigUpdate::Add(chain) => state.add_chain(chain@, start, scan),
        ConfigUpdate::Remove(id) => state.remove_chain(id@),
        ConfigUpdate::Update(chain) => state.update_chain(chain@, start, scan),
    }
}

/// A state whose registry grew stays sound.
proof fn lemma_chains_grew(before: SupervisorView, after: SupervisorView)
    requires
        before.inv(),
        distinct_by(after.chains, itself()),
        after == (SupervisorView { chains: after.chains, ..before }),
        after.chains == before.chains || (exists|id: Seq<char>|
            after.chains == before.chains.push(id) && before.config.has_chain(id)),
    ensures
        after.inv(),
{
    if after.chains != before.chains {
        let id = choose|id: Seq<char>|
            after.chains == before.chains.push(id) && before.config.has_chain(id);
        assert forall|c: Seq<char>| before.chains.contains(c) implies after.chains.contains(c) by {
            let j = choose|j: int| 0 <= j < before.chains.len() && before.chains[j] == c;
            assert(after.chains[j] == c);
        }
    }
}

/// Adding a chain that was not configured and removing it again leaves the
/// configuration as it was.
proof fn lemma_add_then_remove(config: ConfigView, chain: ChainConfigView)
    requires
        !config.has_chain(chain.id),
    ensures
        config.with_chain(chain).without_chain(chain.id) == config,
{
    let keep = crate::config::other_chain(chain.id);
    lemma_filter_push(config.chains, chain, keep);
    lemma_filter_all(config.chains, keep);
}

/// Once a chain is configured and registered, the state is sound again.
proof fn lemma_config_grew(before: SupervisorView, after: SupervisorView, chain: ChainConfigView)
    requires
        before.inv(),
        distinct_by(after.chains, itself()),
        after == (SupervisorView {
            config: before.config.with_chain(chain),
            chains: after.chains,
            ..before
        }),
        after.chains == before.chains || after.chains == before.chains.push(chain.id),
    ensures
        after.inv(),
{
    let n = before.config.chains.len() as int;
    assert(after.config.chains[n].id == chain.id);
    assert forall|c: Seq<char>| before.config.has_chain(c) implies after.config.has_chain(c) by {
        let j = choose|j: int|
            0 <= j < before.config.chains.len() && (#[trigger] before.config.chains[j]).id == c;
        assert(after.config.chains[j].id == c);
    }
    assert forall|c: Seq<char>| before.chains.contains(c) implies after.chains.contains(c) by {
        let j = choose|j: int| 0 <= j < before.chains.len() && before.chains[j] == c;
        assert(after.chains[j] == c);
    }
}

/// A chain that is not configured has no runtime and no worker.
proof fn lemma_nothing_of_unconfigured(state: SupervisorView, id: Seq<char>)
    requires
        state.inv(),
        !state.config.has_chain(id),
    ensures
        !state.chains.contains(id),
        forall|i: int|
            0 <= i < state.workers.len() ==> !(#[trigger] state.workers[i]).object.for_chain(id),
{
}

/// A filter gives nothing of a sequence whose elements all fail it.
proof fn lemma_filter_none<A>(s: Seq<A>, p: spec_fn(A) -> bool)
    requires
        forall|i: int| 0 <= i < s.len() ==> !p(#[trigger] s[i]),
    ensures
        s.filter(p) == Seq::<A>::empty(),
{
    if s.filter(p).len() > 0 {
        lemma_filter_member(s, p, 0);
    }
    assert(s.filter(p) =~= Seq::<A>::empty());
}

/// After a configured chain was removed, the state is sound and holds
/// nothing of the chain.
proof fn lemma_removed(before: SupervisorView, id: Seq<char>)
    requires
        before.inv(),
        before.config.has_chain(id),
    ensures
        before.remove_chain(id).0.inv(),
        !before.remove_chain(id).0.config.has_chain(id),
        !before.remove_chain(id).0.chains.contains(id),
        forall|i: int|
            0 <= i < before.remove_chain(id).0.workers.len() ==> !(
            #[trigger] before.remove_chain(id).0.workers[i]).object.for_chain(id),
{
    let after = before.remove_chain(id).0;
    lemma_filter_distinct(before.chains, other_than(id), itself());
    lemma_filter_distinct(before.workers, not_for_chain(id), object_of());
    lemma_filter_distinct(before.workers, not_for_chain(id), id_of());
    assert forall|i: int| 0 <= i < after.chains.len() implies after.config.has_chain(
        #[trigger] after.chains[i],
    ) && after.chains[i] != id by {
        lemma_filter_member(before.chains, other_than(id), i);
        crate::config::without_chain_has_chain(before.config, id, after.chains[i]);
    }
    crate::config::without_chain_has_chain(before.config, id, id);
    assert forall|i: int| 0 <= i < after.workers.len() implies {
        &&& !(#[trigger] after.workers[i]).object.for_chain(id)
        &&& 1 <= after.workers[i].id <= after.latest_worker_id
        &&& after.chains.contains(after.workers[i].object.src_chain_id())
        &&& after.chains.contains(after.workers[i].object.dst_chain_id())
    } by {
        lemma_filter_member(before.workers, not_for_chain(id), i);
        let w = after.workers[i];
        let j = choose|j: int| 0 <= j < before.workers.len() && before.workers[j] == w;
        let src = w.object.src_chain_id();
        let dst = w.object.dst_chain_id();
        let a = choose|a: int| 0 <= a < before.chains.len() && before.chains[a] == src;
        lemma_filter_keeps(before.chains, other_than(id), a);
        let b = choose|b: int| 0 <= b < before.chains.len() && before.chains[b] == dst;
        lemma_filter_keeps(before.chains, other_than(id), b);
    }
}

/// Spawning workers changes neither the configuration nor the registry.
pub proof fn spawning_keeps_chains(
    state: SupervisorView,
    scan: Seq<Discovered>,
    n: int,
    only: Option<Seq<char>>,
)
    ensures
        state.spawn_scanned(scan, n, only).config == state.config,
        state.spawn_scanned(scan, n, only).chains == state.chains,
    decreases n,
{
    if n > 0 {
        spawning_keeps_chains(state, scan, n - 1, only);
    }
}

/// Without filtering, every object is relayed on, whatever the chain and
/// whatever the evidence, and the state stays as it is.
pub proof fn unfiltered_relays_on_all(
    state: SupervisorView,
    chain_id: Seq<char>,
    object: ObjectView,
    evidence: Result<Evidence, QueryError>,
)
    requires
        !state.config.global.filter,
    ensures
        state.relay_on_object(chain_id, object, evidence) == (state, true),
{
}

/// Where no evidence is needed, the decision on an object and the state
/// after it are the same whatever evidence is given.
pub proof fn decision_without_evidence(
    state: SupervisorView,
    chain_id: Seq<char>,
    object: ObjectView,
    a: Result<Evidence, QueryError>,
    b: Result<Evidence, QueryError>,
)
    requires
        !state.needs_evidence(chain_id, object),
    ensures
        state.relay_on_object(chain_id, object, a) == state.relay_on_object(chain_id, object, b),
{
}

/// After a chain was removed, nothing of it is left, whether or not it was
/// configured: the configuration has no entry for it, the registry no
/// runtime, and no worker serves an object that has the chain as its source
/// or destination.
pub proof fn removed_chain_is_gone(state: SupervisorView, id: Seq<char>)
    requires
        state.inv(),
    ensures
        state.remove_chain(id).0.inv(),
        !state.remove_chain(id).0.config.has_chain(id),
        !state.remove_chain(id).0.chains.contains(id),
        forall|i: int|
            0 <= i < state.remove_chain(id).0.workers.len() ==> !(
            #[trigger] state.remove_chain(id).0.workers[i]).object.for_chain(id),
{
    if state.config.has_chain(id) {
        lemma_removed(state, id);
    } else {
        lemma_nothing_of_unconfigured(state, id);
    }
}

/// Adding a chain a second time changes nothing: after a chain was added,
/// adding a chain of the same identifier has no effect, whatever its
/// configuration, and whatever the runtime and the scan give.
pub proof fn add_chain_again(
    state: SupervisorView,
    chain: ChainConfigView,
    start: RuntimeStart,
    scan: Seq<Discovered>,
    again: ChainConfigView,
    start_again: RuntimeStart,
    scan_again: Seq<Discovered>,
)
    requires
        again.id == chain.id,
        state.add_chain(chain, start, scan).1 == CmdEffect::ConfigChanged
            || state.config.has_chain(chain.id),
    ensures
        state.add_chain(chain, start, scan).0.add_chain(again, start_again, scan_again) == (
            state.add_chain(chain, start, scan).0,
            CmdEffect::Nothing,
        ),
{
    if !state.config.has_chain(chain.id) {
        let config = state.config.with_chain(chain);
        let chains = spec_spawn(state.chains, config, chain.id, start).0;
        let registered = SupervisorView { config, chains, ..state };
        spawning_keeps_chains(
            registered.entering(SpawnMode::Reload),
            scan,
            scan.len() as int,
            Some(chain.id),
        );
        assert(config.chains[state.config.chains.len() as int].id == chain.id);
    }
}

/// Adding a chain twice, with the same outcomes, leaves the state that adding
/// it once leaves.
pub proof fn add_chain_twice(
    state: SupervisorView,
    chain: ChainConfigView,
    start: RuntimeStart,
    scan: Seq<Discovered>,
)
    ensures
        state.add_chain(chain, start, scan).0.add_chain(chain, start, scan).0 == state.add_chain(
            chain,
            start,
            scan,
        ).0,
{
    if state.add_chain(chain, start, scan).1 == CmdEffect::ConfigChanged
        || state.config.has_chain(chain.id) {
        add_chain_again(state, chain, start, scan, chain, start, scan);
    }
}

/// Removing a chain a second time changes nothing.
pub proof fn remove_chain_twice(state: SupervisorView, id: Seq<char>)
    ensures
        state.remove_chain(id).0.remove_chain(id) == (state.remove_chain(id).0, CmdEffect::Nothing),
{
    if state.config.has_chain(id) {
        crate::config::without_chain_has_chain(state.config, id, id);
    }
}

/// Updating a chain is removing it and then adding it as configured now: the
/// state is the same, and the configuration counts as changed when either
/// step changed it.
pub proof fn update_is_remove_then_add(
    state: SupervisorView,
    chain: ChainConfigView,
    start: RuntimeStart,
    scan: Seq<Discovered>,
)
    ensures
        state.update_chain(chain, start, scan).0 == state.remove_chain(chain.id).0.add_chain(
            chain,
            start,
            scan,
        ).0,
        state.update_chain(chain, start, scan).1 == state.remove_chain(chain.id).1.spec_or(
            state.remove_chain(chain.id).0.add_chain(chain, start, scan).1,
        ),
        state.remove_chain(chain.id).1 == CmdEffect::ConfigChanged && state.remove_chain(
            chain.id,
        ).0.add_chain(chain, start, scan).1 == CmdEffect::ConfigChanged ==> state.update_chain(
            chain,
            start,
            scan,
        ).1 == CmdEffect::ConfigChanged,
{
}

/// After the configuration changed, a worker is spawned only on a fresh
/// decision: a flow whose evidence could not be had gets no new worker while
/// filtering is on.
pub proof fn reload_spawns_on_evidence(
    state: SupervisorView,
    discovered: Discovered,
    only: Option<Seq<char>>,
)
    requires
        state.config.global.filter,
        discovered.evidence is Err,
    ensures
        state.entering(SpawnMode::Reload).spawn_discovered(discovered, only).workers
            == state.workers,
{
    reveal_with_fuel(cached, 1);
}

} // verus!
