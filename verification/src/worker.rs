//! The map from objects to the workers that serve them.
//!
//! The map records, for each object that has a worker, the identifier under
//! which that worker was started. Starting and stopping the worker's task is
//! left to the caller: [`WorkerMap::get_or_spawn`] says whether a worker was
//! added and has to be started, [`WorkerMap::shutdown_worker`] hands back the
//! worker that has to be stopped.

use vstd::prelude::*;
use crate::ident::ChainId;
use crate::object::{Object, ObjectView};
use crate::seqs::{
    distinct_by,
    lemma_filter_all,
    lemma_filter_distinct,
    lemma_filter_member,
    lemma_filter_take_step,
    lemma_remove_is_filter,
};

verus! {

/// The identifier of a worker. Identifiers are handed out in increasing
/// order and never reused.
#[derive(Clone, Copy, Debug, PartialEq, Eq, Structural, Hash)]
pub struct WorkerId(pub u64);

/// A worker: the object it serves and the identifier it was started under.
#[derive(Debug, PartialEq, Eq)]
pub struct Worker {
    pub id: WorkerId,
    pub object: Object,
}

/// The mathematical value of a [`Worker`].
pub struct WorkerView {
    pub id: u64,
    pub object: ObjectView,
}

impl View for Worker {
    type V = WorkerView;

    open spec fn view(&self) -> WorkerView {
        WorkerView { id: self.id.0, object: self.object@ }
    }
}

impl Clone for Worker {
    fn clone(&self) -> (r: Worker)
        ensures
            r == *self,
    {
        Worker { id: self.id, object: self.object.clone() }
    }
}

/// What [`WorkerMap::get_or_spawn`] found or did.
#[derive(Clone, Copy, Debug, PartialEq, Eq, Structural)]
pub struct Spawned {
    /// The identifier of the worker that serves the object.
    pub id: WorkerId,
    /// Whether the worker was added by this call and has yet to be started.
    pub created: bool,
}

/// The object that a worker serves.
pub open spec fn object_of() -> spec_fn(WorkerView) -> ObjectView {
    |w: WorkerView| w.object
}

/// The identifier of a worker.
pub open spec fn id_of() -> spec_fn(WorkerView) -> u64 {
    |w: WorkerView| w.id
}

/// The workers whose object has `chain_id` as its source or destination.
pub open spec fn for_chain(chain_id: Seq<char>) -> spec_fn(WorkerView) -> bool {
    |w: WorkerView| w.object.for_chain(chain_id)
}

/// The workers whose object has `chain_id` neither as its source nor as its
/// destination.
pub open spec fn not_for_chain(chain_id: Seq<char>) -> spec_fn(WorkerView) -> bool {
    |w: WorkerView| !w.object.for_chain(chain_id)
}

/// The workers that a new block on `chain_id` concerns.
pub open spec fn notified_by(chain_id: Seq<char>) -> spec_fn(WorkerView) -> bool {
    |w: WorkerView| w.object.notify_new_block(chain_id)
}

/// All workers but the one that serves `object` under `id`.
pub open spec fn other_than(id: u64, object: ObjectView) -> spec_fn(WorkerView) -> bool {
    |w: WorkerView| !(w.id == id && w.object == object)
}

/// All workers but the one that serves `object`.
pub open spec fn not_serving(object: ObjectView) -> spec_fn(WorkerView) -> bool {
    |w: WorkerView| w.object != object
}

/// Whether some worker of `workers` serves `object`.
pub open spec fn has_object(workers: Seq<WorkerView>, object: ObjectView) -> bool {
    exists|i: int| 0 <= i < workers.len() && (#[trigger] workers[i]).object == object
}

/// The workers after a worker for `object` was asked for: unchanged when one
/// serves it, else with a new worker under the identifier after `latest`.
pub open spec fn with_worker(workers: Seq<WorkerView>, latest: u64, object: ObjectView) -> Seq<
    WorkerView,
> {
    if has_object(workers, object) {
        workers
    } else {
        workers.push(WorkerView { id: (latest + 1) as u64, object })
    }
}

/// The map from objects to workers.
#[derive(Debug)]
pub struct WorkerMap {
    workers: Vec<Worker>,
    latest_worker_id: u64,
}

impl View for WorkerMap {
    type V = Seq<WorkerView>;

    closed spec fn view(&self) -> Seq<WorkerView> {
        self.workers@.map_values(|w: Worker| w@)
    }
}

impl WorkerMap {
    /// The last identifier that was handed out, 0 when none was.
    pub closed spec fn latest_id(&self) -> u64 {
        self.latest_worker_id
    }

    /// No object has two workers, no identifier is used twice, and every
    /// identifier in use was handed out by this map.
    pub open spec fn wf(&self) -> bool {
        &&& distinct_by(self@, object_of())
        &&& distinct_by(self@, id_of())
        &&& forall|i: int| 0 <= i < self@.len() ==> 1 <= (#[trigger] self@[i]).id <= self.latest_id()
    }

    /// A map without workers.
    pub fn new() -> (m: WorkerMap)
        ensures
            m.wf(),
            m@ == Seq::<WorkerView>::empty(),
            m.latest_id() == 0,
    {
        let m = WorkerMap { workers: Vec::new(), latest_worker_id: 0 };
        assert(m@ =~= Seq::<WorkerView>::empty());
        m
    }

    /// The number of workers.
    pub fn len(&self) -> (n: usize)
        ensures
            n == self@.len(),
    {
        self.workers.len()
    }

    fn position(&self, object: &Object) -> (r: Option<usize>)
        ensures
            match r {
                Some(i) => i < self@.len() && self@[i as int].object == object@,
                None => !has_object(self@, object@),
            },
    {
        let mut i: usize = 0;
        while i < self.workers.len()
            invariant
                i <= self.workers.len(),
                forall|j: int| 0 <= j < i ==> (#[trigger] self@[j]).object != object@,
            decreases self.workers.len() - i,
        {
            if self.workers[i].object == *object {
                return Some(i);
            }
            i += 1;
        }
        None
    }

    /// Whether a worker serves `object`.
    pub fn contains(&self, object: &Object) -> (r: bool)
        ensures
            r == has_object(self@, object@),
    {
        self.position(object).is_some()
    }

    /// The worker that serves `object`, if there is one.
    pub fn get(&self, object: &Object) -> (r: Option<Worker>)
        ensures
            match r {
                Some(w) => self@.contains(w@) && w@.object == object@,
                None => !has_object(self@, object@),
            },
    {
        match self.position(object) {
            Some(i) => {
                let w = self.workers[i].clone();
                assert(self@[i as int] == w@);
                Some(w)
            },
            None => None,
        }
    }

    /// Returns the worker that serves `object`, adding one under the next
    /// identifier when there is none.
    pub fn get_or_spawn(&mut self, object: Object) -> (r: Spawned)
        requires
            old(self).wf(),
            old(self).latest_id() < u64::MAX,
        ensures
            final(self).wf(),
            final(self)@ == with_worker(old(self)@, old(self).latest_id(), object@),
            r.created == !has_object(old(self)@, object@),
            final(self).latest_id() == if r.created {
                (old(self).latest_id() + 1) as u64
            } else {
                old(self).latest_id()
            },
            final(self)@.contains(WorkerView { id: r.id.0, object: object@ }),
    {
        match self.position(&object) {
            Some(i) => {
                let id = self.workers[i].id;
                assert(self@[i as int] == WorkerView { id: id.0, object: object@ });
                Spawned { id, created: false }
            },
            None => {
                let id = WorkerId(self.latest_worker_id + 1);
                let ghost before = self@;
                let ghost view = WorkerView { id: id.0, object: object@ };
                self.latest_worker_id = id.0;
                self.workers.push(Worker { id, object });
                assert(self@ =~= before.push(view));
                assert(self@[before.len() as int] == view);
                Spawned { id, created: true }
            },
        }
    }

    /// Forgets the worker that stopped, unless the object is by now served by
    /// another worker. Returns whether a worker was forgotten.
    pub fn remove_stopped(&mut self, id: WorkerId, object: &Object) -> (removed: bool)
        requires
            old(self).wf(),
        ensures
            final(self).wf(),
            final(self).latest_id() == old(self).latest_id(),
            final(self)@ == old(self)@.filter(other_than(id.0, object@)),
            removed == old(self)@.contains(WorkerView { id: id.0, object: object@ }),
    {
        let ghost before = self@;
        let ghost keep = other_than(id.0, object@);
        let ghost gone = WorkerView { id: id.0, object: object@ };
        let found = match self.position(object) {
            Some(i) => if self.workers[i].id == id {
                Some(i)
            } else {
                None
            },
            None => None,
        };
        match found {
            Some(i) => {
                self.workers.remove(i);
                proof {
                    assert(before[i as int] == gone);
                    assert(self@ =~= before.remove(i as int));
                    assert forall|j: int| 0 <= j < before.len() && j != i implies keep(
                        #[trigger] before[j],
                    ) by {
                        if j < i {
                            assert(object_of()(before[j]) != object_of()(before[i as int]));
                        } else {
                            assert(object_of()(before[i as int]) != object_of()(before[j]));
                        }
                    }
                    lemma_remove_is_filter(before, i as int, keep);
                    lemma_filter_distinct(before, keep, object_of());
                    lemma_filter_distinct(before, keep, id_of());
                    assert forall|k: int| 0 <= k < self@.len() implies 1 <= (#[trigger] self@[k]).id
                        <= self.latest_id() by {
                        lemma_filter_member(before, keep, k);
                    }
                }
                true
            },
            None => {
                proof {
                    assert forall|k: int| 0 <= k < before.len() implies keep(
                        #[trigger] before[k],
                    ) by {
                        if before[k].object == object@ {
                            one_worker_per_object(*self, object@);
                        }
                    }
                    lemma_filter_all(before, keep);
                    assert forall|k: int| 0 <= k < before.len() implies before[k] != gone by {
                        assert(keep(before[k]));
                    }
                }
                false
            },
        }
    }

    /// Forgets the worker that serves `object` and hands it back, so that it
    /// can be stopped.
    pub fn shutdown_worker(&mut self, object: &Object) -> (r: Option<Worker>)
        requires
            old(self).wf(),
        ensures
            final(self).wf(),
            final(self).latest_id() == old(self).latest_id(),
            final(self)@ == old(self)@.filter(not_serving(object@)),
            match r {
                Some(w) => old(self)@.contains(w@) && w@.object == object@,
                None => !has_object(old(self)@, object@),
            },
    {
        let ghost before = self@;
        let ghost keep = not_serving(object@);
        match self.position(object) {
            Some(i) => {
                let w = self.workers.remove(i);
                proof {
                    assert(before[i as int] == w@);
                    assert(self@ =~= before.remove(i as int));
                    assert forall|j: int| 0 <= j < before.len() && j != i implies keep(
                        #[trigger] before[j],
                    ) by {
                        if j < i {
                            assert(object_of()(before[j]) != object_of()(before[i as int]));
                        } else {
                            assert(object_of()(before[i as int]) != object_of()(before[j]));
                        }
                    }
                    lemma_remove_is_filter(before, i as int, keep);
                    lemma_filter_distinct(before, keep, object_of());
                    lemma_filter_distinct(before, keep, id_of());
                    assert forall|k: int| 0 <= k < self@.len() implies 1 <= (#[trigger] self@[k]).id
                        <= self.latest_id() by {
                        lemma_filter_member(before, keep, k);
                    }
                }
                Some(w)
            },
            None => {
                proof {
                    assert forall|k: int| 0 <= k < before.len() implies keep(
                        #[trigger] before[k],
                    ) by {}
                    lemma_filter_all(before, keep);
                }
                None
            },
        }
    }

    /// Forgets every worker whose object has `chain_id` as its source or
    /// destination, and hands them back, so that they can be stopped.
    pub fn shutdown_for_chain(&mut self, chain_id: &ChainId) -> (stopped: Vec<Worker>)
        requires
            old(self).wf(),
        ensures
            final(self).wf(),
            final(self).latest_id() == old(self).latest_id(),
            final(self)@ == old(self)@.filter(not_for_chain(chain_id@)),
            stopped@.map_values(|w: Worker| w@) == old(self)@.filter(for_chain(chain_id@)),
    {
        let ghost before = self@;
        let ghost keep = not_for_chain(chain_id@);
        let ghost drop = for_chain(chain_id@);
        let ghost mut k: int = 0;
        let mut stopped: Vec<Worker> = Vec::new();
        let mut i: usize = 0;
        proof {
            reveal(Seq::filter);
            assert(before.take(0) =~= Seq::<WorkerView>::empty());
            assert(self@.take(0) =~= before.take(0).filter(keep));
            assert(self@.skip(0) =~= before.skip(0));
            assert(stopped@.map_values(|w: Worker| w@) =~= before.take(0).filter(drop));
        }
        while i < self.workers.len()
            invariant
                self.latest_id() == old(self).latest_id(),
                keep == not_for_chain(chain_id@),
                drop == for_chain(chain_id@),
                i <= self.workers.len(),
                0 <= k <= before.len(),
                self.workers.len() - i == before.len() - k,
                self@.take(i as int) == before.take(k).filter(keep),
                self@.skip(i as int) == before.skip(k),
                stopped@.map_values(|w: Worker| w@) == before.take(k).filter(drop),
            decreases self.workers.len() - i,
        {
            let ghost now = self@;
            let ghost gone = stopped@.map_values(|w: Worker| w@);
            proof {
                assert(now[i as int] == now.skip(i as int)[0]);
                assert(before[k] == before.skip(k)[0]);
                lemma_filter_take_step(before, k, keep);
                lemma_filter_take_step(before, k, drop);
            }
            if self.workers[i].object.for_chain(chain_id) {
                let w = self.workers.remove(i);
                stopped.push(w);
                proof {
                    assert(self@ =~= now.remove(i as int));
                    assert(self@.take(i as int) =~= now.take(i as int));
                    assert(self@.skip(i as int) =~= now.skip(i as int).skip(1));
                    assert(before.skip(k).skip(1) =~= before.skip(k + 1));
                    assert(stopped@.map_values(|w: Worker| w@) =~= gone.push(before[k]));
                    k = k + 1;
                }
            } else {
                proof {
                    assert(now.take(i as int + 1) =~= now.take(i as int).push(now[i as int]));
                    assert(now.skip(i as int + 1) =~= now.skip(i as int).skip(1));
                    assert(before.skip(k).skip(1) =~= before.skip(k + 1));
                    k = k + 1;
                }
                i += 1;
            }
        }
        proof {
            assert(self@.take(i as int) =~= self@);
            assert(before.take(k) =~= before);
            lemma_filter_distinct(before, keep, object_of());
            lemma_filter_distinct(before, keep, id_of());
            assert forall|j: int| 0 <= j < self@.len() implies 1 <= (#[trigger] self@[j]).id
                <= self.latest_id() by {
                lemma_filter_member(before, keep, j);
            }
        }
        stopped
    }

    /// The last identifier that was handed out, 0 when none was.
    pub fn latest_worker_id(&self) -> (id: u64)
        ensures
            id == self.latest_id(),
    {
        self.latest_worker_id
    }

    /// The objects that have a worker, in the order in which their workers
    /// were added.
    pub fn objects(&self) -> (r: Vec<Object>)
        ensures
            r@.map_values(|o: Object| o@) == self@.map_values(object_of()),
    {
        let mut r: Vec<Object> = Vec::new();
        let mut i: usize = 0;
        while i < self.workers.len()
            invariant
                i <= self.workers.len(),
                r@.len() == i,
                forall|j: int| 0 <= j < i ==> (#[trigger] r@[j])@ == self@[j].object,
            decreases self.workers.len() - i,
        {
            r.push(self.workers[i].object.clone());
            i += 1;
        }
        assert(r@.map_values(|o: Object| o@) =~= self@.map_values(object_of()));
        r
    }

    fn select(&self, chain_id: &ChainId, source_only: bool) -> (r: Vec<Worker>)
        ensures
            r@.map_values(|w: Worker| w@) == self@.filter(
                if source_only {
                    notified_by(chain_id@)
                } else {
                    for_chain(chain_id@)
                },
            ),
    {
        let ghost p = if source_only {
            notified_by(chain_id@)
        } else {
            for_chain(chain_id@)
        };
        let mut r: Vec<Worker> = Vec::new();
        let mut i: usize = 0;
        proof {
            reveal(Seq::filter);
            assert(self@.take(0) =~= Seq::<WorkerView>::empty());
            assert(r@.map_values(|w: Worker| w@) =~= self@.take(0).filter(p));
        }
        while i < self.workers.len()
            invariant
                i <= self.workers.len(),
                p == if source_only {
                    notified_by(chain_id@)
                } else {
                    for_chain(chain_id@)
                },
                r@.map_values(|w: Worker| w@) == self@.take(i as int).filter(p),
            decreases self.workers.len() - i,
        {
            let ghost before = r@.map_values(|w: Worker| w@);
            let w = &self.workers[i];
            let keep = if source_only {
                w.object.notify_new_block(chain_id)
            } else {
                w.object.for_chain(chain_id)
            };
            proof {
                lemma_filter_take_step(self@, i as int, p);
                assert(keep == p(self@[i as int]));
            }
            if keep {
                r.push(w.clone());
                assert(r@.map_values(|w: Worker| w@) =~= before.push(self@[i as int]));
            }
            i += 1;
        }
        assert(self@.take(i as int) =~= self@);
        r
    }

    /// The workers whose object has `chain_id` as its source or destination.
    pub fn workers_for_chain(&self, chain_id: &ChainId) -> (r: Vec<Worker>)
        ensures
            r@.map_values(|w: Worker| w@) == self@.filter(for_chain(chain_id@)),
    {
        self.select(chain_id, false)
    }

    /// The workers that a new block on `src_chain_id` concerns: those whose
    /// object has it as its source.
    pub fn to_notify(&self, src_chain_id: &ChainId) -> (r: Vec<Worker>)
        ensures
            r@.map_values(|w: Worker| w@) == self@.filter(notified_by(src_chain_id@)),
    {
        self.select(src_chain_id, true)
    }
}

/// Every object in the map is served by exactly one worker.
pub proof fn one_worker_per_object(map: WorkerMap, object: ObjectView)
    requires
        map.wf(),
        has_object(map@, object),
    ensures
        exists|i: int|
            0 <= i < map@.len() && (#[trigger] map@[i]).object == object && forall|j: int|
                0 <= j < map@.len() && (#[trigger] map@[j]).object == object ==> j == i,
{
    let i = choose|i: int| 0 <= i < map@.len() && (#[trigger] map@[i]).object == object;
    assert forall|j: int| 0 <= j < map@.len() && (#[trigger] map@[j]).object == object implies j
        == i by {
        if j < i {
            assert(object_of()(map@[j]) != object_of()(map@[i]));
        } else if i < j {
            assert(object_of()(map@[i]) != object_of()(map@[j]));
        }
    }
}

/// Taking note of a stopped worker removes the mapping of its object exactly
/// when the worker that the map holds for the object has the reported
/// identifier; the mapping of every other object stays as it is.
pub proof fn stopped_worker_leaves_alone(
    workers: Seq<WorkerView>,
    id: u64,
    object: ObjectView,
    other: WorkerView,
)
    requires
        distinct_by(workers, object_of()),
    ensures
        has_object(workers.filter(other_than(id, object)), object) <==> (has_object(workers, object)
            && !workers.contains(WorkerView { id, object })),
        other.object != object ==> (workers.filter(other_than(id, object)).contains(other)
            <==> workers.contains(other)),
{
    let keep = other_than(id, object);
    let after = workers.filter(keep);
    let gone = WorkerView { id, object };
    if has_object(after, object) {
        let i = choose|i: int| 0 <= i < after.len() && (#[trigger] after[i]).object == object;
        lemma_filter_member(workers, keep, i);
        let j = choose|j: int| 0 <= j < workers.len() && workers[j] == after[i];
        assert(workers[j].object == object);
        if workers.contains(gone) {
            let k = choose|k: int| 0 <= k < workers.len() && workers[k] == gone;
            if k < j {
                assert(object_of()(workers[k]) != object_of()(workers[j]));
            } else if j < k {
                assert(object_of()(workers[j]) != object_of()(workers[k]));
            }
        }
    }
    if has_object(workers, object) && !workers.contains(gone) {
        let j = choose|j: int| 0 <= j < workers.len() && (#[trigger] workers[j]).object == object;
        assert(workers[j] != gone);
        crate::seqs::lemma_filter_keeps(workers, keep, j);
        let i = choose|i: int| 0 <= i < after.len() && #[trigger] after[i] == workers[j];
        assert(after[i].object == object);
    }
    if other.object != object {
        if after.contains(other) {
            let i = choose|i: int| 0 <= i < after.len() && after[i] == other;
            lemma_filter_member(workers, keep, i);
        }
        if workers.contains(other) {
            let j = choose|j: int| 0 <= j < workers.len() && workers[j] == other;
            crate::seqs::lemma_filter_keeps(workers, keep, j);
        }
    }
}

} // verus!
