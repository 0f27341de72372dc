//! The relayer's configuration, as far as the supervisor reads and edits it.

use vstd::prelude::*;
use crate::ident::{ChainId, ChannelId, PortId};
use crate::seqs::lemma_filter_take_step;

verus! {

/// The channels of a chain on which packets are relayed.
#[derive(Debug, PartialEq, Eq)]
pub enum PacketFilter {
    /// Packets are relayed on every channel.
    AllowAll,
    /// Packets are relayed on the listed channel ends only.
    Allow(Vec<(PortId, ChannelId)>),
}

/// The configuration of one chain.
#[derive(Debug, PartialEq, Eq)]
pub struct ChainConfig {
    pub id: ChainId,
    pub packet_filter: PacketFilter,
}

/// The settings that hold for all chains.
#[derive(Clone, Copy, Debug, PartialEq, Eq, Structural)]
pub struct GlobalConfig {
    /// Whether objects are filtered, by channel and by client state.
    pub filter: bool,
    /// Whether connection and channel handshakes are relayed.
    pub handshake_enabled: bool,
}

/// The configuration: the global settings and one entry per chain.
#[derive(Debug, PartialEq, Eq)]
pub struct Config {
    pub global: GlobalConfig,
    pub chains: Vec<ChainConfig>,
}

/// The mathematical value of a [`PacketFilter`]: `None` allows every
/// channel, `Some` lists the channel ends that are allowed.
pub type PacketFilterView = Option<Seq<(Seq<char>, Seq<char>)>>;

/// The mathematical value of a [`ChainConfig`].
pub struct ChainConfigView {
    pub id: Seq<char>,
    pub packet_filter: PacketFilterView,
}

/// The mathematical value of a [`Config`].
pub struct ConfigView {
    pub global: GlobalConfig,
    pub chains: Seq<ChainConfigView>,
}

impl View for PacketFilter {
    type V = PacketFilterView;

    open spec fn view(&self) -> PacketFilterView {
        match self {
            PacketFilter::AllowAll => None,
            PacketFilter::Allow(list) => Some(
                list@.map_values(|e: (PortId, ChannelId)| (e.0@, e.1@)),
            ),
        }
    }
}

impl View for ChainConfig {
    type V = ChainConfigView;

    open spec fn view(&self) -> ChainConfigView {
        ChainConfigView { id: self.id@, packet_filter: self.packet_filter@ }
    }
}

impl View for Config {
    type V = ConfigView;

    open spec fn view(&self) -> ConfigView {
        ConfigView { global: self.global, chains: self.chains@.map_values(|c: ChainConfig| c@) }
    }
}

/// Whether `filter` lets packets pass on the channel end `port_id`/`channel_id`.
pub open spec fn filter_allows(filter: PacketFilterView, port_id: Seq<char>, channel_id: Seq<char>) -> bool {
    match filter {
        None => true,
        Some(list) => list.contains((port_id, channel_id)),
    }
}

/// The chains other than `id`.
pub open spec fn other_chain(id: Seq<char>) -> spec_fn(ChainConfigView) -> bool {
    |c: ChainConfigView| c.id != id
}

impl ConfigView {
    /// Whether some entry is for the chain `id`.
    pub open spec fn has_chain(self, id: Seq<char>) -> bool {
        exists|i: int| 0 <= i < self.chains.len() && (#[trigger] self.chains[i]).id == id
    }

    /// The first entry for the chain `id`.
    pub open spec fn find_chain(self, id: Seq<char>) -> Option<ChainConfigView> {
        first_chain(self.chains, id)
    }

    /// Whether packets are relayed on the channel end `port_id`/`channel_id`
    /// of `chain_id`: on any when nothing is filtered, else on those that the
    /// chain's entry allows, and on none of a chain without an entry.
    pub open spec fn packets_on_channel_allowed(
        self,
        chain_id: Seq<char>,
        port_id: Seq<char>,
        channel_id: Seq<char>,
    ) -> bool {
        if !self.global.filter {
            true
        } else {
            match self.find_chain(chain_id) {
                None => false,
                Some(chain) => filter_allows(chain.packet_filter, port_id, channel_id),
            }
        }
    }

    /// The configuration with `chain` added after the other entries.
    pub open spec fn with_chain(self, chain: ChainConfigView) -> ConfigView {
        ConfigView { global: self.global, chains: self.chains.push(chain) }
    }

    /// The configuration without the entries for the chain `id`.
    pub open spec fn without_chain(self, id: Seq<char>) -> ConfigView {
        ConfigView { global: self.global, chains: self.chains.filter(other_chain(id)) }
    }
}

/// The first of `chains` that is for the chain `id`.
pub open spec fn first_chain(chains: Seq<ChainConfigView>, id: Seq<char>) -> Option<
    ChainConfigView,
>
    decreases chains.len(),
{
    if chains.len() == 0 {
        None
    } else if chains[0].id == id {
        Some(chains[0])
    } else {
        first_chain(chains.skip(1), id)
    }
}

impl PacketFilter {
    /// Whether packets pass on the channel end `port_id`/`channel_id`.
    pub fn allows(&self, port_id: &PortId, channel_id: &ChannelId) -> (r: bool)
        ensures
            r == filter_allows(self@, port_id@, channel_id@),
    {
        match self {
            PacketFilter::AllowAll => true,
            PacketFilter::Allow(list) => {
                let ghost view = list@.map_values(|e: (PortId, ChannelId)| (e.0@, e.1@));
                let mut i: usize = 0;
                while i < list.len()
                    invariant
                        i <= list.len(),
                        view == list@.map_values(|e: (PortId, ChannelId)| (e.0@, e.1@)),
                        self@ == Some(view),
                        forall|j: int| 0 <= j < i ==> view[j] != (port_id@, channel_id@),
                    decreases list.len() - i,
                {
                    if list[i].0 == *port_id && list[i].1 == *channel_id {
                        assert(view[i as int] == (port_id@, channel_id@));
                        assert(view.contains((port_id@, channel_id@)));
                        return true;
                    }
                    i += 1;
                }
                false
            },
        }
    }
}

impl Config {
    /// Whether handshakes are relayed.
    pub fn handshake_enabled(&self) -> (r: bool)
        ensures
            r == self@.global.handshake_enabled,
    {
        self.global.handshake_enabled
    }

    /// The first entry for the chain `id`.
    pub fn find_chain(&self, id: &ChainId) -> (r: Option<&ChainConfig>)
        ensures
            match r {
                Some(chain) => self@.find_chain(id@) == Some(chain@),
                None => self@.find_chain(id@) is None,
            },
            r is Some == self@.has_chain(id@),
    {
        let ghost chains = self@.chains;
        let mut i: usize = 0;
        assert(chains.skip(0) =~= chains);
        while i < self.chains.len()
            invariant
                i <= self.chains.len(),
                chains == self@.chains,
                first_chain(chains, id@) == first_chain(chains.skip(i as int), id@),
                forall|j: int| 0 <= j < i ==> (#[trigger] chains[j]).id != id@,
            decreases self.chains.len() - i,
        {
            assert(chains.skip(i as int)[0] == chains[i as int]);
            if self.chains[i].id == *id {
                return Some(&self.chains[i]);
            }
            assert(chains.skip(i as int).skip(1) =~= chains.skip(i as int + 1));
            i += 1;
        }
        None
    }

    /// Whether some entry is for the chain `id`.
    pub fn has_chain(&self, id: &ChainId) -> (r: bool)
        ensures
            r == self@.has_chain(id@),
    {
        self.find_chain(id).is_some()
    }

    /// Whether packets are relayed on the channel end `port_id`/`channel_id`
    /// of `chain_id`.
    pub fn packets_on_channel_allowed(
        &self,
        chain_id: &ChainId,
        port_id: &PortId,
        channel_id: &ChannelId,
    ) -> (r: bool)
        ensures
            r == self@.packets_on_channel_allowed(chain_id@, port_id@, channel_id@),
    {
        if !self.global.filter {
            return true;
        }
        match self.find_chain(chain_id) {
            None => false,
            Some(chain) => chain.packet_filter.allows(port_id, channel_id),
        }
    }

    /// Adds an entry after the others.
    pub fn add_chain(&mut self, chain: ChainConfig)
        ensures
            final(self)@ == old(self)@.with_chain(chain@),
    {
        let ghost before = self@.chains;
        self.chains.push(chain);
        assert(self@.chains =~= before.push(chain@));
    }

    /// Removes every entry for the chain `id`.
    pub fn remove_chain(&mut self, id: &ChainId)
        ensures
            final(self)@ == old(self)@.without_chain(id@),
    {
        let ghost before = self@.chains;
        let ghost keep = other_chain(id@);
        let ghost mut k: int = 0;
        let mut i: usize = 0;
        proof {
            reveal(Seq::filter);
            assert(before.take(0) =~= Seq::<ChainConfigView>::empty());
            assert(self@.chains.take(0) =~= before.take(0).filter(keep));
            assert(self@.chains.skip(0) =~= before.skip(0));
        }
        while i < self.chains.len()
            invariant
                self.global == old(self).global,
                keep == other_chain(id@),
                i <= self.chains.len(),
                0 <= k <= before.len(),
                self.chains.len() - i == before.len() - k,
                self@.chains.take(i as int) == before.take(k).filter(keep),
                self@.chains.skip(i as int) == before.skip(k),
            decreases self.chains.len() - i,
        {
            let ghost now = self@.chains;
            proof {
                assert(now[i as int] == now.skip(i as int)[0]);
                assert(before[k] == before.skip(k)[0]);
                lemma_filter_take_step(before, k, keep);
            }
            if self.chains[i].id == *id {
                self.chains.remove(i);
                proof {
                    assert(self@.chains =~= now.remove(i as int));
                    assert(self@.chains.take(i as int) =~= now.take(i as int));
                    assert(self@.chains.skip(i as int) =~= now.skip(i as int).skip(1));
                    assert(before.skip(k).skip(1) =~= before.skip(k + 1));
                    k = k + 1;
                }
            } else {
                proof {
                    assert(now.take(i as int + 1) =~= now.take(i as int).push(now[i as int]));
                    assert(now.skip(i as int + 1) =~= now.skip(i as int).skip(1));
                    assert(before.skip(k).skip(1) =~= before.skip(k + 1));
                    k = k + 1;
                }
                i += 1;
            }
        }
        proof {
            assert(self@.chains.take(i as int) =~= self@.chains);
            assert(before.take(k) =~= before);
        }
    }
}

/// After the entries for a chain were removed, the configuration has none
/// for it, and has an entry for another chain exactly when it had one.
pub proof fn without_chain_has_chain(config: ConfigView, id: Seq<char>, other: Seq<char>)
    ensures
        !config.without_chain(id).has_chain(id),
        other != id ==> config.without_chain(id).has_chain(other) == config.has_chain(other),
{
    let keep = other_chain(id);
    let after = config.without_chain(id);
    assert forall|i: int| 0 <= i < after.chains.len() implies (#[trigger] after.chains[i]).id
        != id by {
        crate::seqs::lemma_filter_member(config.chains, keep, i);
    }
    if other != id {
        if config.has_chain(other) {
            let j = choose|j: int| 0 <= j < config.chains.len() && (#[trigger] config.chains[j]).id
                == other;
            crate::seqs::lemma_filter_keeps(config.chains, keep, j);
            let i = choose|i: int|
                0 <= i < after.chains.len() && #[trigger] after.chains[i] == config.chains[j];
            assert(after.chains[i].id == other);
        }
        if after.has_chain(other) {
            let i = choose|i: int| 0 <= i < after.chains.len() && (#[trigger] after.chains[i]).id
                == other;
            crate::seqs::lemma_filter_member(config.chains, keep, i);
            let j = choose|j: int| 0 <= j < config.chains.len() && config.chains[j]
                == after.chains[i];
            assert(config.chains[j].id == other);
        }
    }
}

} // verus!
