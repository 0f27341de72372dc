//! The registry of chain runtimes.
//!
//! The registry knows which chains have a runtime. The runtimes themselves
//! are the caller's: the registry says when one has to be started, is told
//! whether it did start, and says when one has to be shut down.

use vstd::prelude::*;
use crate::config::Config;
use crate::config::ConfigView;
use crate::error::Error;
use crate::ident::ChainId;
use crate::seqs::{distinct_by, lemma_filter_all, lemma_filter_distinct};

verus! {

/// What an attempt to start the runtime of a chain gave.
#[derive(Clone, Copy, Debug, PartialEq, Eq, Structural)]
pub enum RuntimeStart {
    Started,
    Failed,
}

/// The chain itself, as the key of a registry entry.
pub open spec fn itself() -> spec_fn(Seq<char>) -> Seq<char> {
    |c: Seq<char>| c
}

/// The chains other than `id`.
pub open spec fn other_than(id: Seq<char>) -> spec_fn(Seq<char>) -> bool {
    |c: Seq<char>| c != id
}

/// Whether a runtime has to be started before the chain `id` can be used:
/// none is registered, and the chain is configured.
pub open spec fn spec_must_start(chains: Seq<Seq<char>>, config: ConfigView, id: Seq<char>) -> bool {
    !chains.contains(id) && config.has_chain(id)
}

/// The registered chains and the outcome after the runtime of `id` was asked
/// for. A registered chain stays as it is. A chain without configuration is
/// refused, and so is one whose runtime did not start; neither is
/// registered. A chain whose runtime started is registered after the others.
pub open spec fn spec_spawn(
    chains: Seq<Seq<char>>,
    config: ConfigView,
    id: Seq<char>,
    start: RuntimeStart,
) -> (Seq<Seq<char>>, Result<bool, Error>) {
    if chains.contains(id) {
        (chains, Ok(false))
    } else if !config.has_chain(id) {
        (chains, Err(Error::MissingChainConfig))
    } else if start == RuntimeStart::Failed {
        (chains, Err(Error::RuntimeSpawn))
    } else {
        (chains.push(id), Ok(true))
    }
}

/// The chains that have a runtime, in the order in which they got it.
#[derive(Debug)]
pub struct Registry {
    handles: Vec<ChainId>,
}

impl View for Registry {
    type V = Seq<Seq<char>>;

    closed spec fn view(&self) -> Seq<Seq<char>> {
        self.handles@.map_values(|c: ChainId| c@)
    }
}

impl Registry {
    /// No chain is registered twice.
    pub open spec fn wf(&self) -> bool {
        distinct_by(self@, itself())
    }

    /// A registry without chains.
    pub fn new() -> (r: Registry)
        ensures
            r.wf(),
            r@ == Seq::<Seq<char>>::empty(),
    {
        let r = Registry { handles: Vec::new() };
        assert(r@ =~= Seq::<Seq<char>>::empty());
        r
    }

    /// The number of chains that have a runtime.
    pub fn size(&self) -> (n: usize)
        ensures
            n == self@.len(),
    {
        self.handles.len()
    }

    fn position(&self, id: &ChainId) -> (r: Option<usize>)
        ensures
            match r {
                Some(i) => i < self@.len() && self@[i as int] == id@,
                None => !self@.contains(id@),
            },
    {
        let mut i: usize = 0;
        while i < self.handles.len()
            invariant
                i <= self.handles.len(),
                forall|j: int| 0 <= j < i ==> self@[j] != id@,
            decreases self.handles.len() - i,
        {
            if self.handles[i] == *id {
                return Some(i);
            }
            i += 1;
        }
        None
    }

    /// Whether the chain `id` has a runtime.
    pub fn contains(&self, id: &ChainId) -> (r: bool)
        ensures
            r == self@.contains(id@),
    {
        self.position(id).is_some()
    }

    /// The chains that have a runtime.
    pub fn chains(&self) -> (r: Vec<ChainId>)
        ensures
            r@.map_values(|c: ChainId| c@) == self@,
    {
        let mut r: Vec<ChainId> = Vec::new();
        let mut i: usize = 0;
        while i < self.handles.len()
            invariant
                i <= self.handles.len(),
                r@.len() == i,
                forall|j: int| 0 <= j < i ==> (#[trigger] r@[j])@ == self@[j],
            decreases self.handles.len() - i,
        {
            r.push(self.handles[i].clone());
            i += 1;
        }
        assert(r@.map_values(|c: ChainId| c@) =~= self@);
        r
    }

    /// Whether a runtime has to be started before [`Registry::spawn`] or
    /// [`Registry::get_or_spawn`] is called for `id`.
    pub fn must_start(&self, config: &Config, id: &ChainId) -> (r: bool)
        ensures
            r == spec_must_start(self@, config@, id@),
    {
        !self.contains(id) && config.has_chain(id)
    }

    /// Registers the chain `id`, unless it is registered. `start` says
    /// whether its runtime started; it is read only where
    /// [`Registry::must_start`] holds. Returns whether the chain was
    /// registered by this call.
    pub fn spawn(&mut self, config: &Config, id: &ChainId, start: RuntimeStart) -> (r: Result<
        bool,
        Error,
    >)
        requires
            old(self).wf(),
        ensures
            final(self).wf(),
            (final(self)@, r) == spec_spawn(old(self)@, config@, id@, start),
    {
        if self.contains(id) {
            return Ok(false);
        }
        if !config.has_chain(id) {
            return Err(Error::MissingChainConfig);
        }
        match start {
            RuntimeStart::Failed => Err(Error::RuntimeSpawn),
            RuntimeStart::Started => {
                let ghost before = self@;
                self.handles.push(id.clone());
                assert(self@ =~= before.push(id@));
                Ok(true)
            },
        }
    }

    /// Makes sure that the chain `id` is registered, as [`Registry::spawn`]
    /// does.
    pub fn get_or_spawn(&mut self, config: &Config, id: &ChainId, start: RuntimeStart) -> (r:
        Result<(), Error>)
        requires
            old(self).wf(),
        ensures
            final(self).wf(),
            final(self)@ == spec_spawn(old(self)@, config@, id@, start).0,
            match spec_spawn(old(self)@, config@, id@, start).1 {
                Ok(_) => r == Ok::<(), Error>(()),
                Err(e) => r == Err::<(), Error>(e),
            },
            r is Ok ==> final(self)@.contains(id@),
    {
        match self.spawn(config, id, start) {
            Ok(_) => {
                proof {
                    if !old(self)@.contains(id@) {
                        assert(self@[old(self)@.len() as int] == id@);
                    }
                }
                Ok(())
            },
            Err(e) => Err(e),
        }
    }

    /// Forgets the chain `id`. Returns whether it was registered, and its
    /// runtime has to be shut down.
    pub fn shutdown(&mut self, id: &ChainId) -> (r: bool)
        requires
            old(self).wf(),
        ensures
            final(self).wf(),
            final(self)@ == old(self)@.filter(other_than(id@)),
            r == old(self)@.contains(id@),
            !final(self)@.contains(id@),
    {
        let ghost before = self@;
        let ghost keep = other_than(id@);
        proof {
            lemma_filter_distinct(before, keep, itself());
            assert forall|k: int| 0 <= k < before.filter(keep).len() implies before.filter(keep)[k]
                != id@ by {
                crate::seqs::lemma_filter_member(before, keep, k);
            }
        }
        match self.position(id) {
            Some(i) => {
                self.handles.remove(i);
                proof {
                    assert(self@ =~= before.remove(i as int));
                    assert forall|j: int| 0 <= j < before.len() && j != i implies keep(
                        #[trigger] before[j],
                    ) by {
                        if j < i {
                            assert(itself()(before[j]) != itself()(before[i as int]));
                        } else {
                            assert(itself()(before[i as int]) != itself()(before[j]));
                        }
                    }
                    crate::seqs::lemma_remove_is_filter(before, i as int, keep);
                }
                true
            },
            None => {
                proof {
                    lemma_filter_all(before, keep);
                }
                false
            },
        }
    }
}

} // verus!
