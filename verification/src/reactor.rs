//! The supervisor at work: its state together with the chains that it
//! reaches.
//!
//! A [`Reactor`] carries the steps of the supervisor out against the chains:
//! it asks them what a step needs to know, as late as the step needs it, and
//! hands the answer to the step. What it returns is for the caller to
//! deliver: the messages for the workers, the workers to start and to stop.

use vstd::prelude::*;
use crate::collected::{batch_routings, last_new_block, ordered, CollectedEvents, Lookup};
use crate::config::ChainConfig;
use crate::error::Error;
use crate::event::{Event, EventBatch};
use crate::filter::{Evidence, QueryError};
use crate::ident::{ChainId, Height};
use crate::object::{Object, ObjectView, Resolution};
use crate::registry::{spec_must_start, RuntimeStart};
use crate::supervisor::{
    spec_update_config,
    worker_views,
    Changes,
    CmdEffect,
    CmdOutcome,
    ConfigUpdate,
    Discovered,
    SpawnMode,
    Supervisor,
    SupervisorCmd,
    SupervisorState,
    SupervisorView,
    WorkerMsg,
};
use crate::worker::{for_chain, has_object, notified_by, object_of, Worker, WorkerView};

verus! {

/// The chains, as the supervisor reaches them. Nothing is promised of what a
/// chain answers: the supervisor's steps are sound for every answer.
pub trait Chains {
    /// Asks the chain `chain_id` where the entity that `lookup` names leads.
    fn resolve(&mut self, chain_id: &ChainId, lookup: &Lookup) -> Resolution;

    /// Gathers the client states that `object` rests on.
    fn evidence(&mut self, object: &Object) -> Result<Evidence, QueryError>;

    /// Starts the runtime of a chain.
    fn start(&mut self, chain: &ChainConfig) -> RuntimeStart;

    /// Scans the chains that have a runtime for the flows between them:
    /// those that involve `only`, if that names a chain.
    fn scan(&mut self, only: Option<&ChainId>) -> Vec<Discovered>;

    /// Asks the runtime of a chain to shut down.
    fn shutdown(&mut self, chain_id: &ChainId);
}

/// A message for a worker.
#[derive(Debug, PartialEq, Eq)]
pub enum WorkerCmd {
    /// Events of the worker's object, emitted by `chain_id` at `height`.
    IbcEvents { height: Height, events: Vec<Event>, chain_id: ChainId },
    /// The source chain of the worker's object is at a new block.
    NewBlock { height: Height, new_block: Event },
    /// The subscription to a chain of the worker's object was cancelled:
    /// what the worker holds back has to be cleared.
    ClearPendingPackets,
}

/// The mathematical value of a [`WorkerCmd`].
pub enum WorkerCmdView {
    IbcEvents { height: Height, events: Seq<Event>, chain_id: Seq<char> },
    NewBlock { height: Height, new_block: Event },
    ClearPendingPackets,
}

impl View for WorkerCmd {
    type V = WorkerCmdView;

    open spec fn view(&self) -> WorkerCmdView {
        match self {
            WorkerCmd::IbcEvents { height, events, chain_id } => WorkerCmdView::IbcEvents {
                height: *height,
                events: events@,
                chain_id: chain_id@,
            },
            WorkerCmd::NewBlock { height, new_block } => WorkerCmdView::NewBlock {
                height: *height,
                new_block: *new_block,
            },
            WorkerCmd::ClearPendingPackets => WorkerCmdView::ClearPendingPackets,
        }
    }
}

/// A message to deliver to a worker.
#[derive(Debug, PartialEq, Eq)]
pub struct Delivery {
    /// The worker.
    pub worker: Worker,
    /// Whether the worker was added for this delivery and has to be started
    /// first.
    pub created: bool,
    /// The message.
    pub cmd: WorkerCmd,
}

/// The mathematical value of a [`Delivery`].
pub struct DeliveryView {
    pub worker: WorkerView,
    pub created: bool,
    pub cmd: WorkerCmdView,
}

impl View for Delivery {
    type V = DeliveryView;

    open spec fn view(&self) -> DeliveryView {
        DeliveryView { worker: self.worker@, created: self.created, cmd: self.cmd@ }
    }
}

/// The views of a list of deliveries.
pub open spec fn delivery_views(deliveries: Seq<Delivery>) -> Seq<DeliveryView> {
    deliveries.map_values(|d: Delivery| d@)
}

/// What the chains gave when the events of one object were dispatched: the
/// evidence for the object, and whether the runtimes of its two chains
/// started.
pub struct Answers {
    pub evidence: Result<Evidence, QueryError>,
    pub src_start: RuntimeStart,
    pub dst_start: RuntimeStart,
}

/// What a batch could not be had for.
#[derive(Clone, Copy, Debug, PartialEq, Eq, Structural)]
pub enum MonitorError {
    /// The subscription to the chain was cancelled.
    SubscriptionCancelled,
    /// The event monitor of the chain failed otherwise.
    Failed,
}

/// The state after the events of `object`, emitted by `chain_id`, were to be
/// dispatched, and the worker to dispatch them to: none if the object is not
/// relayed on; else the worker of the object, or the error for which there
/// is none.
pub open spec fn route(
    state: SupervisorView,
    chain_id: Seq<char>,
    object: ObjectView,
    answers: Answers,
) -> (SupervisorView, Result<Option<WorkerView>, Error>) {
    let (decided, relay) = state.relay_on_object(chain_id, object, answers.evidence);
    if !relay {
        (decided, Ok(None))
    } else {
        let (after, worker) = decided.worker_for(object, answers.src_start, answers.dst_start);
        (
            after,
            match worker {
                Ok(w) => Ok(Some(w)),
                Err(e) => Err(e),
            },
        )
    }
}

/// The state, the deliveries and the outcome after the first `n` entries of
/// a batch were dispatched, object by object, up to the first error.
pub open spec fn dispatch(
    state: SupervisorView,
    chain_id: Seq<char>,
    height: Height,
    entries: Seq<(ObjectView, Seq<Event>)>,
    answers: Seq<Answers>,
    n: int,
) -> (SupervisorView, Seq<DeliveryView>, Result<(), Error>)
    decreases n,
{
    if n <= 0 {
        (state, Seq::empty(), Ok(()))
    } else {
        let (before, sent, outcome) = dispatch(state, chain_id, height, entries, answers, n - 1);
        if outcome is Err {
            (before, sent, outcome)
        } else {
            let (after, routed) = route(before, chain_id, entries[n - 1].0, answers[n - 1]);
            match routed {
                Err(e) => (after, sent, Err(e)),
                Ok(None) => (after, sent, Ok(())),
                Ok(Some(worker)) => (
                    after,
                    sent.push(
                        DeliveryView {
                            worker,
                            created: !has_object(before.workers, entries[n - 1].0),
                            cmd: WorkerCmdView::IbcEvents {
                                height,
                                events: entries[n - 1].1,
                                chain_id,
                            },
                        },
                    ),
                    Ok(()),
                ),
            }
        }
    }
}

/// The announcement of `new_block` to one worker.
pub open spec fn announcement(height: Height, new_block: Event) -> spec_fn(WorkerView) -> DeliveryView {
    |w: WorkerView|
        DeliveryView {
            worker: w,
            created: false,
            cmd: WorkerCmdView::NewBlock { height, new_block },
        }
}

/// The announcements of the new block of a batch, if it has one, to the
/// workers whose object has the chain of the batch as its source.
pub open spec fn announcements(
    workers: Seq<WorkerView>,
    chain_id: Seq<char>,
    height: Height,
    new_block: Option<Event>,
) -> Seq<DeliveryView> {
    match new_block {
        Some(e) => workers.filter(notified_by(chain_id)).map_values(announcement(height, e)),
        None => Seq::empty(),
    }
}

/// The state, the deliveries and the outcome after `batch` was processed,
/// given what the chains answered: `resolutions` for the events, in order,
/// and `answers` for the objects that events were routed to, in the order in
/// which they were first routed to.
///
/// The events are classified; then, object by object, the events of each
/// object that is relayed on are delivered to its worker; then the new block
/// of the batch, if it has one, is announced. The first error ends the
/// processing.
pub open spec fn process(
    state: SupervisorView,
    batch: EventBatch,
    resolutions: Seq<Resolution>,
    answers: Seq<Answers>,
) -> (SupervisorView, Seq<DeliveryView>, Result<(), Error>) {
    let entries = ordered(
        batch_routings(
            batch.events@,
            resolutions,
            batch.events@.len() as int,
            batch.chain_id,
            state.config.global.handshake_enabled,
            state.workers,
        ),
    );
    let (after, sent, outcome) = dispatch(
        state,
        batch.chain_id@,
        batch.height,
        entries,
        answers,
        entries.len() as int,
    );
    match outcome {
        Err(e) => (after, sent, Err(e)),
        Ok(_) => (
            after,
            sent + announcements(
                after.workers,
                batch.chain_id@,
                batch.height,
                last_new_block(batch.events@, batch.events@.len() as int),
            ),
            Ok(()),
        ),
    }
}

/// Dispatching reads only the answers for the entries that it dispatches.
pub proof fn dispatch_reads_prefix(
    state: SupervisorView,
    chain_id: Seq<char>,
    height: Height,
    entries: Seq<(ObjectView, Seq<Event>)>,
    a: Seq<Answers>,
    b: Seq<Answers>,
    n: int,
)
    requires
        0 <= n <= a.len(),
        n <= b.len(),
        a.take(n) == b.take(n),
    ensures
        dispatch(state, chain_id, height, entries, a, n) == dispatch(
            state,
            chain_id,
            height,
            entries,
            b,
            n,
        ),
    decreases n,
{
    if n > 0 {
        assert(a.take(n - 1) =~= a.take(n).take(n - 1));
        assert(b.take(n - 1) =~= b.take(n).take(n - 1));
        dispatch_reads_prefix(state, chain_id, height, entries, a, b, n - 1);
        assert(a[n - 1] == a.take(n)[n - 1]);
        assert(b[n - 1] == b.take(n)[n - 1]);
    }
}

/// After the first error nothing more is dispatched.
pub proof fn dispatch_ends_at_error(
    state: SupervisorView,
    chain_id: Seq<char>,
    height: Height,
    entries: Seq<(ObjectView, Seq<Event>)>,
    answers: Seq<Answers>,
    k: int,
    n: int,
)
    requires
        0 <= k <= n,
        dispatch(state, chain_id, height, entries, answers, k).2 is Err,
    ensures
        dispatch(state, chain_id, height, entries, answers, n) == dispatch(
            state,
            chain_id,
            height,
            entries,
            answers,
            k,
        ),
    decreases n,
{
    if n > k {
        dispatch_ends_at_error(state, chain_id, height, entries, answers, k, n - 1);
    }
}

/// Dispatching changes neither the configuration nor what the client-state
/// filter accepts, and lets no worker go.
pub proof fn dispatch_keeps(
    state: SupervisorView,
    chain_id: Seq<char>,
    height: Height,
    entries: Seq<(ObjectView, Seq<Event>)>,
    answers: Seq<Answers>,
    n: int,
)
    ensures
        dispatch(state, chain_id, height, entries, answers, n).0.config == state.config,
        dispatch(state, chain_id, height, entries, answers, n).0.bound == state.bound,
        state.workers.len() <= dispatch(state, chain_id, height, entries, answers, n).0.workers.len(),
        dispatch(state, chain_id, height, entries, answers, n).0.workers.take(
            state.workers.len() as int,
        ) == state.workers,
    decreases n,
{
    if n > 0 {
        dispatch_keeps(state, chain_id, height, entries, answers, n - 1);
        let before = dispatch(state, chain_id, height, entries, answers, n - 1).0;
        let after = dispatch(state, chain_id, height, entries, answers, n).0;
        assert(after.workers.take(state.workers.len() as int) =~= before.workers.take(
            state.workers.len() as int,
        ));
    } else {
        assert(state.workers.take(state.workers.len() as int) =~= state.workers);
    }
}

fn clone_events(events: &Vec<Event>) -> (r: Vec<Event>)
    ensures
        r@ == events@,
{
    let mut r: Vec<Event> = Vec::new();
    let mut i: usize = 0;
    while i < events.len()
        invariant
            i <= events.len(),
            r@ == events@.take(i as int),
        decreases events.len() - i,
    {
        r.push(events[i].clone());
        assert(r@ =~= events@.take(i as int + 1));
        i += 1;
    }
    assert(events@.take(i as int) =~= events@);
    r
}

/// The supervisor's state, and the chains that it reaches.
pub struct Reactor<C: Chains> {
    supervisor: Supervisor,
    chains: C,
}

impl<C: Chains> View for Reactor<C> {
    type V = SupervisorView;

    closed spec fn view(&self) -> SupervisorView {
        self.supervisor@
    }
}

impl<C: Chains> Reactor<C> {
    /// The reactor of `supervisor` on `chains`.
    pub fn new(supervisor: Supervisor, chains: C) -> (r: Reactor<C>)
        ensures
            r@ == supervisor@,
    {
        Reactor { supervisor, chains }
    }

    /// The supervisor's state.
    pub fn supervisor(&self) -> (s: &Supervisor)
        ensures
            s@ == self@,
    {
        &self.supervisor
    }

    /// The chains.
    pub closed spec fn spec_chains(&self) -> C {
        self.chains
    }

    /// The chains.
    pub fn chains(&self) -> (c: &C)
        ensures
            *c == self.spec_chains(),
    {
        &self.chains
    }

    /// Starts the runtime of the chain `id` if one has to be started. Where
    /// none has to be, the chains are left alone and the answer is `Failed`,
    /// which no step then reads; else the chains are asked to start the
    /// runtime under the first entry of the configuration for `id`, and the
    /// answer is theirs.
    fn start(&mut self, id: &ChainId) -> (r: RuntimeStart)
        ensures
            final(self)@ == old(self)@,
            !spec_must_start(old(self)@.chains, old(self)@.config, id@) ==> r
                == RuntimeStart::Failed && final(self).spec_chains() == old(self).spec_chains(),
            spec_must_start(old(self)@.chains, old(self)@.config, id@) ==> exists|
                chains: &mut C,
                chain: &ChainConfig,
            |
                {
                    &&& old(self)@.config.find_chain(id@) == Some(chain@)
                    &&& mut_ref_current(chains) == old(self).spec_chains()
                    &&& mut_ref_future(chains) == final(self).spec_chains()
                    &&& #[trigger] call_ensures(C::start, (chains, chain), r)
                },
    {
        if !self.supervisor.must_start(id) {
            return RuntimeStart::Failed;
        }
        match self.supervisor.config().find_chain(id) {
            Some(chain) => self.chains.start(chain),
            None => RuntimeStart::Failed,
        }
    }

    /// Decides whether to relay on `object`, seen on `chain_id`. The chains
    /// are asked for evidence only if the decision depends on it.
    pub fn relay_on_object(&mut self, chain_id: &ChainId, object: &Object) -> (r: bool)
        ensures
            exists|evidence: Result<Evidence, QueryError>|
                (final(self)@, r) == #[trigger] old(self)@.relay_on_object(
                    chain_id@,
                    object@,
                    evidence,
                ),
            !old(self)@.config.global.filter ==> r && final(self)@ == old(self)@,
    {
        let evidence = if self.supervisor.needs_evidence(chain_id, object) {
            self.chains.evidence(object)
        } else {
            Err(QueryError::NotFound)
        };
        let r = self.supervisor.relay_on_object(chain_id, object, &evidence);
        assert((self@, r) == old(self)@.relay_on_object(chain_id@, object@, evidence));
        r
    }

    fn resolve_all(&mut self, batch: &EventBatch) -> (r: Vec<Resolution>)
        ensures
            final(self)@ == old(self)@,
            r@.len() == batch.events@.len(),
    {
        let mut r: Vec<Resolution> = Vec::new();
        let mut i: usize = 0;
        while i < batch.events.len()
            invariant
                i <= batch.events.len(),
                r@.len() == i,
                self@ == old(self)@,
            decreases batch.events.len() - i,
        {
            let lookup = self.supervisor.lookup_for(&batch.events[i]);
            let resolution = match lookup {
                Lookup::Nothing => Resolution::unresolved(),
                _ => self.chains.resolve(&batch.chain_id, &lookup),
            };
            r.push(resolution);
            i += 1;
        }
        r
    }

    /// Classifies the events of `batch`. The chain of the batch is asked
    /// about each event that cannot be routed as it stands.
    pub fn collect_events(&mut self, batch: &EventBatch) -> (c: CollectedEvents)
        ensures
            final(self)@ == old(self)@,
            c.wf(),
            c.spec_height() == batch.height,
            c.spec_chain_id() == batch.chain_id,
            c.spec_new_block() == last_new_block(batch.events@, batch.events@.len() as int),
            exists|resolutions: Seq<Resolution>|
                c.entries() == ordered(
                    #[trigger] batch_routings(
                        batch.events@,
                        resolutions,
                        batch.events@.len() as int,
                        batch.chain_id,
                        old(self)@.config.global.handshake_enabled,
                        old(self)@.workers,
                    ),
                ),
            forall|o: ObjectView| #[trigger]
                c.per_object().dom().contains(o) ==> crate::collected::of_chain(
                    o,
                    batch.chain_id@,
                ),
    {
        let resolutions = self.resolve_all(batch);
        self.supervisor.collect_events(batch, &resolutions)
    }

    /// Processes a batch: classifies its events, delivers those of each
    /// object that is relayed on to the worker of the object, and announces
    /// its new block. Returns the deliveries to make, in order, and the
    /// error that ended the processing, if one did. The outcome is what
    /// [`process`] gives for what the chains answered.
    pub fn process_batch(&mut self, batch: &EventBatch) -> (r: (Vec<Delivery>, Result<(), Error>))
        requires
            old(self)@.inv(),
            old(self)@.latest_worker_id + 3 * batch.events@.len() <= u64::MAX,
        ensures
            final(self)@.inv(),
            exists|resolutions: Seq<Resolution>, answers: Seq<Answers>|
                (final(self)@, delivery_views(r.0@), r.1) == #[trigger] process(
                    old(self)@,
                    *batch,
                    resolutions,
                    answers,
                ),
            final(self)@.config == old(self)@.config,
            old(self)@.workers.len() <= final(self)@.workers.len(),
            final(self)@.workers.take(old(self)@.workers.len() as int) == old(self)@.workers,
    {
        let ghost init = self@;
        let resolutions = self.resolve_all(batch);
        let collected = self.supervisor.collect_events(batch, &resolutions);
        let ghost entries = collected.entries();
        let ghost chain_id = batch.chain_id@;
        let ghost height = batch.height;
        let ghost mut answers: Seq<Answers> = Seq::empty();
        let mut deliveries: Vec<Delivery> = Vec::new();
        let mut i: usize = 0;
        assert(delivery_views(deliveries@) =~= Seq::<DeliveryView>::empty());
        while i < collected.len()
            invariant
                i <= collected.entries().len(),
                collected.wf(),
                entries == collected.entries(),
                init == old(self)@,
                entries == ordered(
                    batch_routings(
                        batch.events@,
                        resolutions@,
                        batch.events@.len() as int,
                        batch.chain_id,
                        init.config.global.handshake_enabled,
                        init.workers,
                    ),
                ),
                chain_id == batch.chain_id@,
                height == batch.height,
                answers.len() == i,
                init.latest_worker_id + entries.len() <= u64::MAX,
                self@.inv(),
                self@.latest_worker_id <= init.latest_worker_id + i,
                (self@, delivery_views(deliveries@), Ok::<(), Error>(())) == dispatch(
                    init,
                    chain_id,
                    height,
                    entries,
                    answers,
                    i as int,
                ),
            decreases collected.entries().len() - i,
        {
            let (object, events) = collected.entry(i);
            let ghost before = self@;
            let ghost sent = delivery_views(deliveries@);
            let evidence = if self.supervisor.needs_evidence(&batch.chain_id, object) {
                self.chains.evidence(object)
            } else {
                Err(QueryError::NotFound)
            };
            let relay = self.supervisor.relay_on_object(&batch.chain_id, object, &evidence);
            let mut src_start = RuntimeStart::Failed;
            let mut dst_start = RuntimeStart::Failed;
            let mut failed: Option<Error> = None;
            if relay {
                src_start = self.start(object.src_chain_id());
                let src_there = self.supervisor.registry().contains(object.src_chain_id());
                if src_there || src_start == RuntimeStart::Started {
                    dst_start = self.start(object.dst_chain_id());
                }
                match self.supervisor.worker_for(object, src_start, dst_start) {
                    Err(e) => {
                        failed = Some(e);
                    },
                    Ok(spawned) => {
                        deliveries.push(
                            Delivery {
                                worker: Worker { id: spawned.id, object: object.clone() },
                                created: spawned.created,
                                cmd: WorkerCmd::IbcEvents {
                                    height: batch.height,
                                    events: clone_events(events),
                                    chain_id: batch.chain_id.clone(),
                                },
                            },
                        );
                    },
                }
            }
            proof {
                let given = Answers { evidence, src_start, dst_start };
                let longer = answers.push(given);
                assert(longer.take(i as int) =~= answers);
                assert(answers.take(i as int) =~= answers);
                dispatch_reads_prefix(init, chain_id, height, entries, answers, longer, i as int);
                answers = longer;
                let routed = route(before, chain_id, entries[i as int].0, given);
                if relay && failed is None {
                    let worker = routed.1->Ok_0->Some_0;
                    assert(delivery_views(deliveries@) =~= sent.push(
                        DeliveryView {
                            worker,
                            created: !has_object(before.workers, entries[i as int].0),
                            cmd: WorkerCmdView::IbcEvents {
                                height,
                                events: entries[i as int].1,
                                chain_id,
                            },
                        },
                    ));
                }
                assert(dispatch(init, chain_id, height, entries, answers, i as int + 1) == (
                    self@,
                    delivery_views(deliveries@),
                    match failed {
                        Some(e) => Err::<(), Error>(e),
                        None => Ok::<(), Error>(()),
                    },
                ));
            }
            match failed {
                Some(e) => {
                    proof {
                        dispatch_ends_at_error(
                            init,
                            chain_id,
                            height,
                            entries,
                            answers,
                            i as int + 1,
                            entries.len() as int,
                        );
                        assert((self@, delivery_views(deliveries@), Err::<(), Error>(e)) == process(
                            init,
                            *batch,
                            resolutions@,
                            answers,
                        ));
                        dispatch_keeps(
                            init,
                            chain_id,
                            height,
                            entries,
                            answers,
                            entries.len() as int,
                        );
                    }
                    return (deliveries, Err(e));
                },
                None => {},
            }
            i += 1;
        }
        let ghost dispatched = delivery_views(deliveries@);
        match collected.new_block() {
            Some(new_block) => {
                let notified = self.supervisor.to_notify(&batch.chain_id);
                let ghost views = worker_views(notified@);
                let ghost announce = announcement(height, *new_block);
                let mut k: usize = 0;
                assert(views.take(0).map_values(announce) =~= Seq::<DeliveryView>::empty());
                assert(delivery_views(deliveries@) =~= dispatched + views.take(0).map_values(
                    announce,
                ));
                while k < notified.len()
                    invariant
                        k <= notified.len(),
                        views == worker_views(notified@),
                        announce == announcement(batch.height, *new_block),
                        delivery_views(deliveries@) == dispatched + views.take(k as int).map_values(
                            announce,
                        ),
                    decreases notified.len() - k,
                {
                    let ghost sent = delivery_views(deliveries@);
                    deliveries.push(
                        Delivery {
                            worker: notified[k].clone(),
                            created: false,
                            cmd: WorkerCmd::NewBlock {
                                height: batch.height,
                                new_block: new_block.clone(),
                            },
                        },
                    );
                    proof {
                        assert(delivery_views(deliveries@) =~= sent.push(announce(views[k as int])));
                        assert(views.take(k as int + 1).map_values(announce) =~= views.take(
                            k as int,
                        ).map_values(announce).push(announce(views[k as int])));
                    }
                    k += 1;
                }
                assert(views.take(k as int) =~= views);
            },
            None => {
                assert(delivery_views(deliveries@) =~= dispatched + Seq::<DeliveryView>::empty());
            },
        }
        assert((self@, delivery_views(deliveries@), Ok::<(), Error>(())) == process(
            init,
            *batch,
            resolutions@,
            answers,
        ));
        proof {
            dispatch_keeps(init, chain_id, height, entries, answers, entries.len() as int);
        }
        (deliveries, Ok(()))
    }

    /// The deliveries that tell the workers of `chain_id` to clear what they
    /// hold back, after the subscription to the chain was cancelled: one for
    /// each worker whose object has the chain as its source or destination.
    pub fn clear_pending_packets(&self, chain_id: &ChainId) -> (r: Vec<Delivery>)
        ensures
            delivery_views(r@) == self@.workers.filter(for_chain(chain_id@)).map_values(
                clearance(),
            ),
    {
        let workers = self.supervisor.clear_pending_packets(chain_id);
        let ghost views = worker_views(workers@);
        let mut r: Vec<Delivery> = Vec::new();
        let mut k: usize = 0;
        assert(delivery_views(r@) =~= views.take(0).map_values(clearance()));
        while k < workers.len()
            invariant
                k <= workers.len(),
                views == worker_views(workers@),
                delivery_views(r@) == views.take(k as int).map_values(clearance()),
            decreases workers.len() - k,
        {
            let ghost sent = delivery_views(r@);
            r.push(
                Delivery {
                    worker: workers[k].clone(),
                    created: false,
                    cmd: WorkerCmd::ClearPendingPackets,
                },
            );
            proof {
                assert(delivery_views(r@) =~= sent.push(clearance()(views[k as int])));
                assert(views.take(k as int + 1).map_values(clearance()) =~= views.take(
                    k as int,
                ).map_values(clearance()).push(clearance()(views[k as int])));
            }
            k += 1;
        }
        assert(views.take(k as int) =~= views);
        r
    }

    /// Handles what the subscription to `chain_id` delivered. A batch is
    /// processed; after a cancelled subscription the workers of the chain are
    /// told to clear what they hold back; any other failure is returned.
    pub fn handle_batch(&mut self, chain_id: &ChainId, batch: &Result<EventBatch, MonitorError>) -> (r:
        (Vec<Delivery>, Result<(), Error>))
        requires
            old(self)@.inv(),
            batch_fits(old(self)@, chain_id@, *batch),
        ensures
            final(self)@.inv(),
            exists|resolutions: Seq<Resolution>, answers: Seq<Answers>|
                (final(self)@, delivery_views(r.0@), r.1) == #[trigger] spec_handle_batch(
                    old(self)@,
                    chain_id@,
                    *batch,
                    resolutions,
                    answers,
                ),
            batch is Err ==> final(self)@ == old(self)@,
    {
        match batch {
            Ok(b) => {
                let r = self.process_batch(b);
                proof {
                    let (resolutions, answers) = choose|
                        resolutions: Seq<Resolution>,
                        answers: Seq<Answers>,
                    |
                        (self@, delivery_views(r.0@), r.1) == #[trigger] process(
                            old(self)@,
                            *b,
                            resolutions,
                            answers,
                        );
                    assert((self@, delivery_views(r.0@), r.1) == spec_handle_batch(
                        old(self)@,
                        chain_id@,
                        *batch,
                        resolutions,
                        answers,
                    ));
                }
                r
            },
            Err(MonitorError::SubscriptionCancelled) => {
                let r = (self.clear_pending_packets(chain_id), Ok(()));
                assert((self@, delivery_views(r.0@), r.1) == spec_handle_batch(
                    old(self)@,
                    chain_id@,
                    *batch,
                    Seq::empty(),
                    Seq::empty(),
                ));
                r
            },
            Err(MonitorError::Failed) => {
                let r = (Vec::new(), Err(Error::EventMonitor));
                assert((self@, delivery_views(r.0@), r.1) == spec_handle_batch(
                    old(self)@,
                    chain_id@,
                    *batch,
                    Seq::empty(),
                    Seq::empty(),
                ));
                r
            },
        }
    }

    /// Takes note of what a worker reported: a worker that stopped is
    /// forgotten, unless its object has been given another worker since.
    /// Returns whether a worker was forgotten.
    pub fn handle_worker_msg(&mut self, msg: WorkerMsg) -> (removed: bool)
        requires
            old(self)@.inv(),
        ensures
            final(self)@.inv(),
            final(self)@ == spec_handle_worker_msg(old(self)@, msg),
            match msg {
                WorkerMsg::Stopped(id, object) => removed == old(self)@.workers.contains(
                    WorkerView { id: id.0, object: object@ },
                ),
            },
    {
        self.supervisor.handle_worker_msg(msg)
    }

    /// A snapshot of the chains that have a runtime and of the objects that
    /// have a worker.
    pub fn dump_state(&self) -> (state: SupervisorState)
        ensures
            state.chains@.map_values(|c: ChainId| c@) == self@.chains,
            state.workers@.map_values(|o: Object| o@) == self@.workers.map_values(object_of()),
    {
        self.supervisor.dump_state()
    }

    /// Asks for the runtime of every configured chain, in the order of the
    /// configuration, starting those that have none. Returns the chains that
    /// have a runtime by now.
    pub fn register_chains(&mut self) -> (r: Vec<ChainId>)
        requires
            old(self)@.inv(),
        ensures
            final(self)@.inv(),
            exists|starts: Seq<RuntimeStart>|
                {
                    &&& final(self)@ == #[trigger] old(self)@.register_configured(
                        starts,
                        old(self)@.config.chains.len() as int,
                    )
                    &&& r@.map_values(|c: ChainId| c@) == old(self)@.available(
                        starts,
                        old(self)@.config.chains.len() as int,
                    )
                },
    {
        let ghost init = self@;
        let ghost mut starts: Seq<RuntimeStart> = Seq::empty();
        let mut r: Vec<ChainId> = Vec::new();
        let n = self.supervisor.config().chains.len();
        let mut i: usize = 0;
        assert(r@.map_values(|c: ChainId| c@) =~= init.available(starts, 0));
        while i < n
            invariant
                i <= n,
                n == init.config.chains.len(),
                init.inv(),
                self@.inv(),
                self@.config == init.config,
                starts.len() == i,
                self@ == init.register_configured(starts, i as int),
                r@.map_values(|c: ChainId| c@) == init.available(starts, i as int),
            decreases n - i,
        {
            let ghost listed = r@.map_values(|c: ChainId| c@);
            let id = self.supervisor.config().chains[i].id.clone();
            assert(id@ == init.config.chains[i as int].id);
            let start = self.start(&id);
            proof {
                let longer = starts.push(start);
                assert(longer.take(i as int) =~= starts);
                assert(starts.take(i as int) =~= starts);
                register_reads_prefix(init, starts, longer, i as int);
                starts = longer;
            }
            match self.supervisor.acquire(&id, start) {
                Ok(_) => {
                    r.push(id);
                    assert(r@.map_values(|c: ChainId| c@) =~= listed.push(id@));
                },
                Err(_) => {},
            }
            i += 1;
        }
        assert(self@ == init.register_configured(starts, init.config.chains.len() as int));
        r
    }

    /// Readies the chains to subscribe to: asks for the runtime of every
    /// configured chain, and returns the chains that have one. Fails if no
    /// chain at all has a runtime.
    pub fn init_subscriptions(&mut self) -> (r: Result<Vec<ChainId>, Error>)
        requires
            old(self)@.inv(),
        ensures
            final(self)@.inv(),
            exists|starts: Seq<RuntimeStart>|
                {
                    &&& final(self)@ == #[trigger] old(self)@.register_configured(
                        starts,
                        old(self)@.config.chains.len() as int,
                    )
                    &&& match r {
                        Ok(chains) => final(self)@.chains.len() > 0 && chains@.map_values(
                            |c: ChainId| c@,
                        ) == old(self)@.available(starts, old(self)@.config.chains.len() as int),
                        Err(e) => final(self)@.chains.len() == 0 && e == Error::NoChainsAvailable,
                    }
                },
    {
        let chains = self.register_chains();
        if self.supervisor.registry().size() == 0 {
            return Err(Error::NoChainsAvailable);
        }
        Ok(chains)
    }

    /// After a command: if it changed the configuration, the chains to
    /// subscribe to from now on. `None` leaves the subscriptions as they
    /// are: the configuration is as it was, or no chain has a runtime, and
    /// the reactor goes on until a chain is added.
    pub fn resubscribe(&mut self, effect: CmdEffect) -> (r: Option<Vec<ChainId>>)
        requires
            old(self)@.inv(),
        ensures
            final(self)@.inv(),
            exists|starts: Seq<RuntimeStart>|
                (final(self)@, chain_views(r)) == #[trigger] spec_resubscribe(
                    old(self)@,
                    effect,
                    starts,
                ),
            effect == CmdEffect::Nothing ==> r is None && final(self)@ == old(self)@,
    {
        match effect {
            CmdEffect::Nothing => {
                assert((self@, chain_views(None)) == spec_resubscribe(
                    old(self)@,
                    effect,
                    Seq::empty(),
                ));
                None
            },
            CmdEffect::ConfigChanged => {
                let subscribed = self.init_subscriptions();
                let r = match subscribed {
                    Ok(chains) => Some(chains),
                    Err(_) => None,
                };
                proof {
                    let n = old(self)@.config.chains.len() as int;
                    let starts = choose|starts: Seq<RuntimeStart>|
                        {
                            &&& self@ == #[trigger] old(self)@.register_configured(starts, n)
                            &&& match subscribed {
                                Ok(chains) => self@.chains.len() > 0 && chains@.map_values(
                                    |c: ChainId| c@,
                                ) == old(self)@.available(starts, n),
                                Err(e) => self@.chains.len() == 0 && e == Error::NoChainsAvailable,
                            }
                        };
                    assert((self@, chain_views(r)) == spec_resubscribe(old(self)@, effect, starts));
                }
                r
            },
        }
    }

    /// Asks the chains for a scan, and returns of what they found as many
    /// flows, from the first on, as there are worker identifiers left.
    fn scan(&mut self, only: Option<&ChainId>) -> (scan: Vec<Discovered>)
        ensures
            final(self)@ == old(self)@,
            old(self)@.latest_worker_id + scan@.len() <= u64::MAX,
            exists|chains: &mut C, found: Vec<Discovered>|
                {
                    &&& mut_ref_current(chains) == old(self).spec_chains()
                    &&& mut_ref_future(chains) == final(self).spec_chains()
                    &&& #[trigger] call_ensures(C::scan, (chains, only), found)
                    &&& scan@ == found@.take(
                        identifiers_left(old(self)@.latest_worker_id, found@.len()) as int,
                    )
                },
    {
        let mut scan = self.chains.scan(only);
        let ghost found = scan;
        let room: u64 = u64::MAX - self.supervisor.workers().latest_worker_id();
        let wanted: u64 = scan.len() as u64;
        if wanted > room {
            scan.truncate(room as usize);
        }
        assert(scan@ =~= found@.take(
            identifiers_left(old(self)@.latest_worker_id, found@.len()) as int,
        ));
        scan
    }

    /// Spawns the workers for the flows between the configured chains: asks
    /// for the runtime of every configured chain, scans the chains, and
    /// spawns a worker for each flow found that may be relayed on. As many
    /// flows are considered as there are worker identifiers left. Returns
    /// the workers that were added and have to be started.
    pub fn spawn_workers(&mut self, mode: SpawnMode) -> (spawned: Vec<Worker>)
        requires
            old(self)@.inv(),
        ensures
            final(self)@.inv(),
            exists|starts: Seq<RuntimeStart>, scan: Seq<Discovered>|
                final(self)@ == #[trigger] old(self)@.register_configured(
                    starts,
                    old(self)@.config.chains.len() as int,
                ).spawn_workers(mode, scan, None),
            old(self)@.workers.len() <= final(self)@.workers.len(),
            final(self)@.workers.take(old(self)@.workers.len() as int) == old(self)@.workers,
            worker_views(spawned@) == final(self)@.workers.skip(old(self)@.workers.len() as int),
    {
        let ghost init = self@;
        self.register_chains();
        let ghost registered = self@;
        proof {
            let starts = choose|starts: Seq<RuntimeStart>|
                registered == #[trigger] init.register_configured(
                    starts,
                    init.config.chains.len() as int,
                );
            registering_keeps(init, starts, init.config.chains.len() as int);
        }
        let scan = self.scan(None);
        let spawned = self.supervisor.spawn_workers(mode, &scan);
        assert(self@ == registered.spawn_workers(mode, scan@, None));
        spawned
    }

    /// Adds a chain to the configuration, starts its runtime, and spawns the
    /// workers for the flows that involve it. Returns whether the
    /// configuration changed, and the workers that have to be started.
    pub fn add_chain(&mut self, chain: ChainConfig) -> (r: (CmdEffect, Changes))
        requires
            old(self)@.inv(),
        ensures
            final(self)@.inv(),
            exists|start: RuntimeStart, scan: Seq<Discovered>|
                (final(self)@, r.0) == #[trigger] old(self)@.add_chain(chain@, start, scan),
            old(self)@.config.has_chain(chain.id@) ==> final(self)@ == old(self)@ && r.0
                == CmdEffect::Nothing,
            r.1.stopped@.len() == 0,
            r.1.shutdown is None,
            old(self)@.workers.len() <= final(self)@.workers.len(),
            final(self)@.workers.take(old(self)@.workers.len() as int) == old(self)@.workers,
            worker_views(r.1.spawned@) == final(self)@.workers.skip(
                old(self)@.workers.len() as int,
            ),
    {
        let mut start = RuntimeStart::Failed;
        let mut scan: Vec<Discovered> = Vec::new();
        if !self.supervisor.config().has_chain(&chain.id) {
            start = self.chains.start(&chain);
            match start {
                RuntimeStart::Started => {
                    scan = self.scan(Some(&chain.id));
                },
                RuntimeStart::Failed => {},
            }
        }
        let r = self.supervisor.add_chain(chain, start, &scan);
        assert((self@, r.0) == old(self)@.add_chain(chain@, start, scan@));
        r
    }

    /// Removes a chain from the configuration, with its workers and its
    /// runtime, which is asked to shut down. Returns whether the
    /// configuration changed, the workers that have to be stopped, and the
    /// chain if it had a runtime.
    pub fn remove_chain(&mut self, id: &ChainId) -> (r: (CmdEffect, Changes))
        requires
            old(self)@.inv(),
        ensures
            final(self)@.inv(),
            (final(self)@, r.0) == old(self)@.remove_chain(id@),
            r.1.spawned@.len() == 0,
            worker_views(r.1.stopped@) == old(self)@.workers.filter(for_chain(id@)),
            match r.1.shutdown {
                Some(chain) => chain@ == id@ && old(self)@.chains.contains(id@),
                None => !old(self)@.chains.contains(id@),
            },
            !final(self)@.config.has_chain(id@),
            !final(self)@.chains.contains(id@),
            forall|i: int|
                0 <= i < final(self)@.workers.len() ==> !(#[trigger] final(self)@.workers[i]).object.for_chain(
                    id@,
                ),
    {
        let r = self.supervisor.remove_chain(id);
        match &r.1.shutdown {
            Some(chain) => {
                self.chains.shutdown(chain);
            },
            None => {},
        }
        r
    }

    /// Replaces the configuration of a chain: removes the chain, then adds
    /// it as configured now.
    pub fn update_chain(&mut self, chain: ChainConfig) -> (r: (CmdEffect, Changes))
        requires
            old(self)@.inv(),
        ensures
            final(self)@.inv(),
            exists|start: RuntimeStart, scan: Seq<Discovered>|
                (final(self)@, r.0) == #[trigger] old(self)@.update_chain(chain@, start, scan),
            worker_views(r.1.stopped@) == old(self)@.workers.filter(for_chain(chain.id@)),
    {
        let ghost init = self@;
        let (removed, removal) = self.remove_chain(&chain.id);
        let ghost mid = self@;
        let (added, addition) = self.add_chain(chain);
        proof {
            let (start, scan) = choose|start: RuntimeStart, scan: Seq<Discovered>|
                (self@, added) == #[trigger] mid.add_chain(chain@, start, scan);
            assert((self@, removed.spec_or(added)) == init.update_chain(chain@, start, scan));
        }
        (
            removed.or(added),
            Changes {
                spawned: addition.spawned,
                stopped: removal.stopped,
                shutdown: removal.shutdown,
            },
        )
    }

    /// Applies a change of the configuration.
    pub fn update_config(&mut self, update: ConfigUpdate) -> (r: (CmdEffect, Changes))
        requires
            old(self)@.inv(),
        ensures
            final(self)@.inv(),
            exists|start: RuntimeStart, scan: Seq<Discovered>|
                (final(self)@, r.0) == #[trigger] spec_update_config(
                    old(self)@,
                    update,
                    start,
                    scan,
                ),
    {
        match update {
            ConfigUpdate::Add(chain) => {
                let r = self.add_chain(chain);
                proof {
                    let (start, scan) = choose|start: RuntimeStart, scan: Seq<Discovered>|
                        (self@, r.0) == #[trigger] old(self)@.add_chain(chain@, start, scan);
                    assert((self@, r.0) == spec_update_config(old(self)@, update, start, scan));
                }
                r
            },
            ConfigUpdate::Remove(id) => {
                let r = self.remove_chain(&id);
                assert((self@, r.0) == spec_update_config(
                    old(self)@,
                    update,
                    RuntimeStart::Failed,
                    Seq::empty(),
                ));
                r
            },
            ConfigUpdate::Update(chain) => {
                let r = self.update_chain(chain);
                proof {
                    let (start, scan) = choose|start: RuntimeStart, scan: Seq<Discovered>|
                        (self@, r.0) == #[trigger] old(self)@.update_chain(chain@, start, scan);
                    assert((self@, r.0) == spec_update_config(old(self)@, update, start, scan));
                }
                r
            },
        }
    }

    /// Carries out a command: applies a change of the configuration, or
    /// answers a request for the state with a snapshot.
    pub fn handle_cmd(&mut self, cmd: SupervisorCmd) -> (r: CmdOutcome)
        requires
            old(self)@.inv(),
        ensures
            final(self)@.inv(),
            exists|start: RuntimeStart, scan: Seq<Discovered>|
                (final(self)@, r.effect) == #[trigger] spec_handle_cmd(old(self)@, cmd, start, scan),
            match cmd {
                SupervisorCmd::UpdateConfig(_) => r.state is None,
                SupervisorCmd::DumpState => {
                    &&& final(self)@ == old(self)@
                    &&& r.changes.spawned@.len() == 0
                    &&& r.changes.stopped@.len() == 0
                    &&& r.changes.shutdown is None
                    &&& r.state matches Some(state)
                    &&& state.chains@.map_values(|c: ChainId| c@) == old(self)@.chains
                    &&& state.workers@.map_values(|o: Object| o@) == old(self)@.workers.map_values(
                        object_of(),
                    )
                },
            },
    {
        match cmd {
            SupervisorCmd::UpdateConfig(update) => {
                let (effect, changes) = self.update_config(update);
                proof {
                    let (start, scan) = choose|start: RuntimeStart, scan: Seq<Discovered>|
                        (self@, effect) == #[trigger] spec_update_config(
                            old(self)@,
                            update,
                            start,
                            scan,
                        );
                    assert((self@, effect) == spec_handle_cmd(old(self)@, cmd, start, scan));
                }
                CmdOutcome { effect, changes, state: None }
            },
            SupervisorCmd::DumpState => {
                assert((self@, CmdEffect::Nothing) == spec_handle_cmd(
                    old(self)@,
                    cmd,
                    RuntimeStart::Failed,
                    Seq::empty(),
                ));
                CmdOutcome {
                    effect: CmdEffect::Nothing,
                    changes: Changes { spawned: Vec::new(), stopped: Vec::new(), shutdown: None },
                    state: Some(self.dump_state()),
                }
            },
        }
    }

    /// One turn of the supervisor's loop: what a subscription delivered is
    /// handled first, then what a worker reported, then the command; if the
    /// command changed the configuration, the chains to subscribe to are
    /// readied anew. The outcome is what [`spec_turn`] gives for what the
    /// chains answered.
    pub fn turn(&mut self, received: Received) -> (r: Turn)
        requires
            old(self)@.inv(),
            match received.batch {
                Some((chain_id, batch)) => batch_fits(old(self)@, chain_id@, batch),
                None => true,
            },
        ensures
            final(self)@.inv(),
            exists|given: Given| turn_view(final(self)@, r) == #[trigger] spec_turn(
                old(self)@,
                received,
                given,
            ),
    {
        let ghost init = self@;
        let ghost got = received;
        let (deliveries, batch_outcome) = match &received.batch {
            Some((chain_id, batch)) => self.handle_batch(chain_id, batch),
            None => (Vec::new(), Ok(())),
        };
        let ghost handled = self@;
        match received.worker_msg {
            Some(msg) => {
                self.handle_worker_msg(msg);
            },
            None => {},
        }
        let ghost noted = self@;
        let command = match received.cmd {
            Some(cmd) => self.handle_cmd(cmd),
            None => CmdOutcome {
                effect: CmdEffect::Nothing,
                changes: Changes { spawned: Vec::new(), stopped: Vec::new(), shutdown: None },
                state: None,
            },
        };
        let ghost commanded = self@;
        let subscriptions = self.resubscribe(command.effect);
        let r = Turn { deliveries, batch_outcome, command, subscriptions };
        proof {
            let (resolutions, answers) = match got.batch {
                Some((chain_id, batch)) => choose|
                    resolutions: Seq<Resolution>,
                    answers: Seq<Answers>,
                |
                    (handled, delivery_views(deliveries@), batch_outcome)
                        == #[trigger] spec_handle_batch(
                        init,
                        chain_id@,
                        batch,
                        resolutions,
                        answers,
                    ),
                None => (Seq::empty(), Seq::empty()),
            };
            let (start, scan) = match got.cmd {
                Some(cmd) => choose|start: RuntimeStart, scan: Seq<Discovered>|
                    (commanded, command.effect) == #[trigger] spec_handle_cmd(
                        noted,
                        cmd,
                        start,
                        scan,
                    ),
                None => (RuntimeStart::Failed, Seq::empty()),
            };
            let starts = choose|starts: Seq<RuntimeStart>|
                (self@, chain_views(subscriptions)) == #[trigger] spec_resubscribe(
                    commanded,
                    command.effect,
                    starts,
                );
            let given = Given { resolutions, answers, start, scan, starts };
            assert((handled, delivery_views(deliveries@), batch_outcome) == match got.batch {
                Some((chain_id, batch)) => spec_handle_batch(
                    init,
                    chain_id@,
                    batch,
                    resolutions,
                    answers,
                ),
                None => (init, Seq::empty(), Ok::<(), Error>(())),
            }) by {
                if got.batch is None {
                    assert(delivery_views(deliveries@) =~= Seq::<DeliveryView>::empty());
                }
            }
            assert(noted == match got.worker_msg {
                Some(msg) => spec_handle_worker_msg(handled, msg),
                None => handled,
            });
            assert((commanded, command.effect) == match got.cmd {
                Some(cmd) => spec_handle_cmd(noted, cmd, start, scan),
                None => (noted, CmdEffect::Nothing),
            });
            assert(turn_view(self@, r) == spec_turn(init, got, given));
        }
        r
    }
}

/// What the loop received in one turn.
#[derive(Debug, PartialEq, Eq)]
pub struct Received {
    /// What a subscription delivered, with the chain that it is the
    /// subscription to.
    pub batch: Option<(ChainId, Result<EventBatch, MonitorError>)>,
    /// What a worker reported.
    pub worker_msg: Option<WorkerMsg>,
    /// The command.
    pub cmd: Option<SupervisorCmd>,
}

/// What a turn of the loop leaves for the caller to carry out.
#[derive(Debug, PartialEq, Eq)]
pub struct Turn {
    /// The messages to deliver to workers, in order.
    pub deliveries: Vec<Delivery>,
    /// The error that ended the handling of the batch, if one did.
    pub batch_outcome: Result<(), Error>,
    /// The outcome of the command; that of a command without effect if there
    /// was none.
    pub command: CmdOutcome,
    /// The chains to subscribe to from now on, if the subscriptions change.
    pub subscriptions: Option<Vec<ChainId>>,
}

/// What the chains gave in one turn: for the batch, the resolutions and the
/// answers; for the command, whether the runtime of the added chain started
/// and what the scan found; for the subscriptions, whether the runtime of
/// each configured chain started.
pub struct Given {
    pub resolutions: Seq<Resolution>,
    pub answers: Seq<Answers>,
    pub start: RuntimeStart,
    pub scan: Seq<Discovered>,
    pub starts: Seq<RuntimeStart>,
}

/// The state after a turn, with what the turn returned.
pub struct TurnView {
    pub state: SupervisorView,
    pub deliveries: Seq<DeliveryView>,
    pub batch_outcome: Result<(), Error>,
    pub effect: CmdEffect,
    pub subscriptions: Option<Seq<Seq<char>>>,
}

/// The state after a turn, with what the turn returned.
pub open spec fn turn_view(state: SupervisorView, turn: Turn) -> TurnView {
    TurnView {
        state,
        deliveries: delivery_views(turn.deliveries@),
        batch_outcome: turn.batch_outcome,
        effect: turn.command.effect,
        subscriptions: chain_views(turn.subscriptions),
    }
}

/// The views of a list of chains, if there is one.
pub open spec fn chain_views(chains: Option<Vec<ChainId>>) -> Option<Seq<Seq<char>>> {
    match chains {
        Some(list) => Some(list@.map_values(|c: ChainId| c@)),
        None => None,
    }
}

/// Whether `batch`, delivered by the subscription to `chain_id`, can be
/// handled: it is a batch of that chain, and there are worker identifiers
/// left for three workers for each of its events.
pub open spec fn batch_fits(
    state: SupervisorView,
    chain_id: Seq<char>,
    batch: Result<EventBatch, MonitorError>,
) -> bool {
    match batch {
        Ok(b) => b.chain_id@ == chain_id && state.latest_worker_id + 3 * b.events@.len()
            <= u64::MAX,
        Err(_) => true,
    }
}

/// The state, the deliveries and the outcome after what the subscription to
/// `chain_id` delivered was handled. A batch is processed; after a cancelled
/// subscription the workers of the chain are told to clear what they hold
/// back; any other failure is returned.
pub open spec fn spec_handle_batch(
    state: SupervisorView,
    chain_id: Seq<char>,
    batch: Result<EventBatch, MonitorError>,
    resolutions: Seq<Resolution>,
    answers: Seq<Answers>,
) -> (SupervisorView, Seq<DeliveryView>, Result<(), Error>) {
    match batch {
        Ok(b) => process(state, b, resolutions, answers),
        Err(MonitorError::SubscriptionCancelled) => (
            state,
            state.workers.filter(for_chain(chain_id)).map_values(clearance()),
            Ok(()),
        ),
        Err(MonitorError::Failed) => (state, Seq::empty(), Err(Error::EventMonitor)),
    }
}

/// The state after what a worker reported was taken note of.
pub open spec fn spec_handle_worker_msg(state: SupervisorView, msg: WorkerMsg) -> SupervisorView {
    match msg {
        WorkerMsg::Stopped(id, object) => SupervisorView {
            workers: state.workers.filter(crate::worker::other_than(id.0, object@)),
            ..state
        },
    }
}

/// The state after a command, and its effect. A request for the state
/// changes nothing.
pub open spec fn spec_handle_cmd(
    state: SupervisorView,
    cmd: SupervisorCmd,
    start: RuntimeStart,
    scan: Seq<Discovered>,
) -> (SupervisorView, CmdEffect) {
    match cmd {
        SupervisorCmd::UpdateConfig(update) => spec_update_config(state, update, start, scan),
        SupervisorCmd::DumpState => (state, CmdEffect::Nothing),
    }
}

/// The state after the subscriptions were looked after, and the chains to
/// subscribe to from now on. Nothing happens unless the configuration
/// changed. If it did, the runtime of every configured chain is asked for;
/// the chains that have one are the chains to subscribe to, and if none has,
/// the subscriptions stay as they are.
pub open spec fn spec_resubscribe(
    state: SupervisorView,
    effect: CmdEffect,
    starts: Seq<RuntimeStart>,
) -> (SupervisorView, Option<Seq<Seq<char>>>) {
    match effect {
        CmdEffect::Nothing => (state, None),
        CmdEffect::ConfigChanged => {
            let n = state.config.chains.len() as int;
            let after = state.register_configured(starts, n);
            (
                after,
                if after.chains.len() > 0 {
                    Some(state.available(starts, n))
                } else {
                    None
                },
            )
        },
    }
}

/// The state after one turn of the loop, with what the turn returns, given
/// what the chains answered: the batch is handled, then the worker's report,
/// then the command, then the subscriptions.
pub open spec fn spec_turn(state: SupervisorView, received: Received, given: Given) -> TurnView {
    let (handled, deliveries, batch_outcome) = match received.batch {
        Some((chain_id, batch)) => spec_handle_batch(
            state,
            chain_id@,
            batch,
            given.resolutions,
            given.answers,
        ),
        None => (state, Seq::empty(), Ok(())),
    };
    let noted = match received.worker_msg {
        Some(msg) => spec_handle_worker_msg(handled, msg),
        None => handled,
    };
    let (commanded, effect) = match received.cmd {
        Some(cmd) => spec_handle_cmd(noted, cmd, given.start, given.scan),
        None => (noted, CmdEffect::Nothing),
    };
    let (after, subscriptions) = spec_resubscribe(commanded, effect, given.starts);
    TurnView { state: after, deliveries, batch_outcome, effect, subscriptions }
}

/// Of `found` flows, the number for which worker identifiers are left after
/// `latest` was handed out: all of them, or as many as there are identifiers.
pub open spec fn identifiers_left(latest: u64, found: nat) -> nat {
    if found <= u64::MAX - latest {
        found
    } else {
        (u64::MAX - latest) as nat
    }
}

/// The order to one worker to clear what it holds back.
pub open spec fn clearance() -> spec_fn(WorkerView) -> DeliveryView {
    |w: WorkerView|
        DeliveryView { worker: w, created: false, cmd: WorkerCmdView::ClearPendingPackets }
}

/// Registering the first `n` configured chains reads only what is said of
/// those chains.
pub proof fn register_reads_prefix(
    state: SupervisorView,
    a: Seq<RuntimeStart>,
    b: Seq<RuntimeStart>,
    n: int,
)
    requires
        0 <= n <= a.len(),
        n <= b.len(),
        a.take(n) == b.take(n),
    ensures
        state.register_configured(a, n) == state.register_configured(b, n),
        state.available(a, n) == state.available(b, n),
    decreases n,
{
    if n > 0 {
        assert(a.take(n - 1) =~= a.take(n).take(n - 1));
        assert(b.take(n - 1) =~= b.take(n).take(n - 1));
        register_reads_prefix(state, a, b, n - 1);
        assert(a[n - 1] == a.take(n)[n - 1]);
        assert(b[n - 1] == b.take(n)[n - 1]);
    }
}

/// Registering chains changes neither the workers nor the configuration.
pub proof fn registering_keeps(state: SupervisorView, starts: Seq<RuntimeStart>, n: int)
    ensures
        state.register_configured(starts, n).workers == state.workers,
        state.register_configured(starts, n).latest_worker_id == state.latest_worker_id,
        state.register_configured(starts, n).config == state.config,
    decreases n,
{
    if n > 0 {
        registering_keeps(state, starts, n - 1);
    }
}

} // verus!
