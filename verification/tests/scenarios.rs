use supervisor::collected::Lookup;
use supervisor::config::{ChainConfig, Config, GlobalConfig, PacketFilter};
use supervisor::error::Error;
use supervisor::event::{ChannelAttributes, Event, EventBatch, PacketAttributes};
use supervisor::filter::{
    ChannelEvidence, ClientState, ConnectionEvidence, Evidence, QueryError, TrustThreshold,
};
use supervisor::ident::{ChainId, ChannelId, ClientId, ConnectionId, Height, PortId};
use supervisor::object::{Channel, Client, Object, Packet, Resolution};
use supervisor::reactor::{Chains, Delivery, MonitorError, Reactor, Received, WorkerCmd};
use supervisor::registry::RuntimeStart;
use supervisor::supervisor::{
    CmdEffect, ConfigUpdate, Discovered, SpawnMode, Supervisor, SupervisorCmd, WorkerMsg,
};
use supervisor::worker::{Worker, WorkerId};

fn chain(id: &str) -> ChainId {
    ChainId::new(id.to_string())
}

fn port(id: &str) -> PortId {
    PortId::new(id.to_string())
}

fn channel(id: &str) -> ChannelId {
    ChannelId::new(id.to_string())
}

fn client(id: &str) -> ClientId {
    ClientId::new(id.to_string())
}

fn packet_object(src: &str, dst: &str, p: &str, c: &str) -> Object {
    Object::Packet(Packet {
        dst_chain_id: chain(dst),
        src_chain_id: chain(src),
        src_channel_id: channel(c),
        src_port_id: port(p),
    })
}

fn channel_object(src: &str, dst: &str, p: &str, c: &str) -> Object {
    Object::Channel(Channel {
        dst_chain_id: chain(dst),
        src_chain_id: chain(src),
        src_channel_id: channel(c),
        src_port_id: port(p),
    })
}

fn client_object(src: &str, dst: &str, c: &str) -> Object {
    Object::Client(Client {
        dst_chain_id: chain(dst),
        dst_client_id: client(c),
        src_chain_id: chain(src),
    })
}

fn config(ids: &[&str], filter: bool, handshake_enabled: bool) -> Config {
    Config {
        global: GlobalConfig { filter, handshake_enabled },
        chains: ids
            .iter()
            .map(|id| ChainConfig { id: chain(id), packet_filter: PacketFilter::AllowAll })
            .collect(),
    }
}

fn good_state(of: &str) -> ClientState {
    ClientState {
        chain_id: chain(of),
        trust_threshold: Some(TrustThreshold { numerator: 1, denominator: 3 }),
        expired: false,
    }
}

fn good_channel_evidence(here: &str, there: &str) -> Evidence {
    Evidence::Channel(ChannelEvidence {
        connection_id: ConnectionId::new("connection-0".to_string()),
        connection: ConnectionEvidence {
            client_id: client("07-tendermint-0"),
            client_state: good_state(there),
            counterparty_client_id: client("07-tendermint-1"),
            counterparty_client_state: good_state(here),
        },
    })
}

/// Chains that answer every question the same way, and count the questions.
struct TwoChains {
    /// The chain at the far end of everything.
    counterparty: &'static str,
    /// Whether runtimes start.
    starts: bool,
    /// What a scan finds.
    found: fn() -> Vec<Discovered>,
    resolved: usize,
    evidence_asked: usize,
    started: Vec<String>,
    scanned: usize,
    shut_down: Vec<String>,
}

fn nothing_found() -> Vec<Discovered> {
    Vec::new()
}

fn two_chains(counterparty: &'static str) -> TwoChains {
    TwoChains {
        counterparty,
        starts: true,
        found: nothing_found,
        resolved: 0,
        evidence_asked: 0,
        started: Vec::new(),
        scanned: 0,
        shut_down: Vec::new(),
    }
}

impl Chains for TwoChains {
    fn resolve(&mut self, _chain_id: &ChainId, lookup: &Lookup) -> Resolution {
        self.resolved += 1;
        match lookup {
            Lookup::ChannelAndClient(_, _) => Resolution {
                counterparty: Some(chain(self.counterparty)),
                client: Some(client("07-tendermint-0")),
            },
            _ => Resolution { counterparty: Some(chain(self.counterparty)), client: None },
        }
    }

    fn evidence(&mut self, object: &Object) -> Result<Evidence, QueryError> {
        self.evidence_asked += 1;
        match object {
            Object::Client(c) => Ok(Evidence::Client(good_state(c.src_chain_id.as_str()))),
            o => Ok(good_channel_evidence(o.src_chain_id().as_str(), o.dst_chain_id().as_str())),
        }
    }

    fn start(&mut self, chain: &ChainConfig) -> RuntimeStart {
        self.started.push(chain.id.as_str().to_string());
        if self.starts {
            RuntimeStart::Started
        } else {
            RuntimeStart::Failed
        }
    }

    fn scan(&mut self, _only: Option<&ChainId>) -> Vec<Discovered> {
        self.scanned += 1;
        (self.found)()
    }

    fn shutdown(&mut self, chain_id: &ChainId) {
        self.shut_down.push(chain_id.as_str().to_string());
    }
}

fn send_packet(sequence: u64) -> Event {
    Event::SendPacket(PacketAttributes {
        sequence,
        source_port: port("transfer"),
        source_channel: channel("channel-0"),
        destination_port: port("transfer"),
        destination_channel: channel("channel-7"),
    })
}

fn open_ack() -> Event {
    Event::OpenAckChannel(ChannelAttributes {
        port_id: port("transfer"),
        channel_id: Some(channel("channel-0")),
        connection_id: ConnectionId::new("connection-0".to_string()),
    })
}

fn batch_from_a(events: Vec<Event>) -> EventBatch {
    EventBatch { chain_id: chain("A"), height: Height::new(1, 42), events }
}

fn events_delivery(id: u64, object: Object, created: bool, events: Vec<Event>) -> Delivery {
    Delivery {
        worker: Worker { id: WorkerId(id), object },
        created,
        cmd: WorkerCmd::IbcEvents { height: Height::new(1, 42), events, chain_id: chain("A") },
    }
}

#[test]
fn send_packet_spawns_packet_worker_and_delivers() {
    let mut reactor = Reactor::new(Supervisor::new(config(&["A", "B"], false, false)), two_chains("B"));
    let (deliveries, outcome) = reactor.process_batch(&batch_from_a(vec![send_packet(1)]));
    assert_eq!(outcome, Ok(()));
    let object = packet_object("A", "B", "transfer", "channel-0");
    assert_eq!(deliveries, vec![events_delivery(1, object.clone(), true, vec![send_packet(1)])]);
    let state = reactor.dump_state();
    assert_eq!(state.workers, vec![object]);
    assert_eq!(state.chains, vec![chain("A"), chain("B")]);
    assert_eq!(reactor.chains().evidence_asked, 0);
}

#[test]
fn second_batch_reuses_the_worker() {
    let mut reactor = Reactor::new(Supervisor::new(config(&["A", "B"], false, false)), two_chains("B"));
    reactor.process_batch(&batch_from_a(vec![send_packet(1)]));
    let (deliveries, outcome) = reactor.process_batch(&batch_from_a(vec![send_packet(2), send_packet(3)]));
    assert_eq!(outcome, Ok(()));
    let object = packet_object("A", "B", "transfer", "channel-0");
    assert_eq!(
        deliveries,
        vec![events_delivery(1, object, false, vec![send_packet(2), send_packet(3)])]
    );
    assert_eq!(reactor.supervisor().workers().len(), 1);
    assert_eq!(reactor.chains().started, vec!["A".to_string(), "B".to_string()]);
}

#[test]
fn channel_filter_denies_before_client_filter_is_asked() {
    let mut cfg = config(&["A", "B"], true, false);
    cfg.chains[0].packet_filter = PacketFilter::Allow(vec![(port("transfer"), channel("channel-9"))]);
    let mut reactor = Reactor::new(Supervisor::new(cfg), two_chains("B"));
    let (deliveries, outcome) = reactor.process_batch(&batch_from_a(vec![send_packet(1)]));
    assert_eq!(outcome, Ok(()));
    assert!(deliveries.is_empty());
    assert_eq!(reactor.supervisor().workers().len(), 0);
    assert_eq!(reactor.chains().evidence_asked, 0);
    assert!(reactor.chains().started.is_empty());
}

#[test]
fn allowed_channel_passes_both_filters() {
    let mut cfg = config(&["A", "B"], true, false);
    cfg.chains[0].packet_filter = PacketFilter::Allow(vec![(port("transfer"), channel("channel-0"))]);
    let mut reactor = Reactor::new(Supervisor::new(cfg), two_chains("B"));
    let (deliveries, outcome) = reactor.process_batch(&batch_from_a(vec![send_packet(1)]));
    assert_eq!(outcome, Ok(()));
    assert_eq!(deliveries.len(), 1);
    assert_eq!(reactor.chains().evidence_asked, 1);
    // The decision is remembered: the next batch asks for no evidence.
    let (deliveries, _) = reactor.process_batch(&batch_from_a(vec![send_packet(2)]));
    assert_eq!(deliveries.len(), 1);
    assert_eq!(reactor.chains().evidence_asked, 1);
}

#[test]
fn open_ack_with_handshake_spawns_three_workers() {
    let mut reactor = Reactor::new(Supervisor::new(config(&["A", "B"], false, true)), two_chains("B"));
    let (deliveries, outcome) = reactor.process_batch(&batch_from_a(vec![open_ack()]));
    assert_eq!(outcome, Ok(()));
    assert_eq!(
        deliveries,
        vec![
            events_delivery(1, client_object("B", "A", "07-tendermint-0"), true, vec![open_ack()]),
            events_delivery(2, packet_object("A", "B", "transfer", "channel-0"), true, vec![open_ack()]),
            events_delivery(3, channel_object("A", "B", "transfer", "channel-0"), true, vec![open_ack()]),
        ]
    );
}

#[test]
fn open_ack_without_handshake_spawns_client_and_packet_workers() {
    let mut reactor = Reactor::new(Supervisor::new(config(&["A", "B"], false, false)), two_chains("B"));
    let (deliveries, _) = reactor.process_batch(&batch_from_a(vec![open_ack()]));
    assert_eq!(
        deliveries,
        vec![
            events_delivery(1, client_object("B", "A", "07-tendermint-0"), true, vec![open_ack()]),
            events_delivery(2, packet_object("A", "B", "transfer", "channel-0"), true, vec![open_ack()]),
        ]
    );
}

#[test]
fn new_block_is_announced_to_workers_of_the_source_chain() {
    let mut reactor = Reactor::new(Supervisor::new(config(&["A", "B"], false, false)), two_chains("B"));
    reactor.process_batch(&batch_from_a(vec![open_ack()]));
    let block = Event::NewBlock(Height::new(1, 43));
    let batch = EventBatch { chain_id: chain("A"), height: Height::new(1, 43), events: vec![block.clone()] };
    let (deliveries, outcome) = reactor.process_batch(&batch);
    assert_eq!(outcome, Ok(()));
    // Of the two workers, only the packet worker has A as its source.
    assert_eq!(
        deliveries,
        vec![Delivery {
            worker: Worker { id: WorkerId(2), object: packet_object("A", "B", "transfer", "channel-0") },
            created: false,
            cmd: WorkerCmd::NewBlock { height: Height::new(1, 43), new_block: block },
        }]
    );
}

#[test]
fn dump_state_lists_chains_and_workers() {
    let mut reactor = Reactor::new(Supervisor::new(config(&["A", "B"], false, false)), two_chains("B"));
    reactor.process_batch(&batch_from_a(vec![open_ack()]));
    let outcome = reactor.handle_cmd(SupervisorCmd::DumpState);
    assert_eq!(outcome.effect, CmdEffect::Nothing);
    let state = outcome.state.unwrap();
    // The snapshot promises no order.
    assert_eq!(state.chains.len(), 2);
    assert!(state.chains.contains(&chain("A")));
    assert!(state.chains.contains(&chain("B")));
    assert_eq!(state.workers.len(), 2);
    assert!(state.workers.contains(&client_object("B", "A", "07-tendermint-0")));
    assert!(state.workers.contains(&packet_object("A", "B", "transfer", "channel-0")));
}

fn flows_of_c() -> Vec<Discovered> {
    vec![Discovered {
        object: packet_object("C", "B", "transfer", "channel-3"),
        evidence: Err(QueryError::NotFound),
    }]
}

#[test]
fn add_then_remove_then_dump() {
    let mut chains = two_chains("B");
    chains.found = flows_of_c;
    let mut reactor = Reactor::new(Supervisor::new(config(&["A", "B"], false, false)), chains);
    assert!(reactor.init_subscriptions().is_ok());
    reactor.process_batch(&batch_from_a(vec![open_ack()]));

    let added = reactor.handle_cmd(SupervisorCmd::UpdateConfig(ConfigUpdate::Add(ChainConfig {
        id: chain("C"),
        packet_filter: PacketFilter::AllowAll,
    })));
    assert_eq!(added.effect, CmdEffect::ConfigChanged);
    assert_eq!(
        added.changes.spawned,
        vec![Worker { id: WorkerId(3), object: packet_object("C", "B", "transfer", "channel-3") }]
    );

    let removed = reactor.handle_cmd(SupervisorCmd::UpdateConfig(ConfigUpdate::Remove(chain("A"))));
    assert_eq!(removed.effect, CmdEffect::ConfigChanged);
    assert_eq!(removed.changes.shutdown, Some(chain("A")));
    assert_eq!(removed.changes.stopped.len(), 2);

    let state = reactor.handle_cmd(SupervisorCmd::DumpState).state.unwrap();
    assert_eq!(state.chains, vec![chain("B"), chain("C")]);
    assert_eq!(state.workers, vec![packet_object("C", "B", "transfer", "channel-3")]);
    assert!(state.workers.iter().all(|o| !o.for_chain(&chain("A"))));
}

#[test]
fn cancelled_subscription_clears_pending_packets_once_per_worker() {
    let mut reactor = Reactor::new(Supervisor::new(config(&["A", "B"], false, false)), two_chains("B"));
    reactor.process_batch(&batch_from_a(vec![open_ack()]));
    let (deliveries, outcome) =
        reactor.handle_batch(&chain("A"), &Err(MonitorError::SubscriptionCancelled));
    assert_eq!(outcome, Ok(()));
    assert_eq!(
        deliveries,
        vec![
            Delivery {
                worker: Worker { id: WorkerId(1), object: client_object("B", "A", "07-tendermint-0") },
                created: false,
                cmd: WorkerCmd::ClearPendingPackets,
            },
            Delivery {
                worker: Worker { id: WorkerId(2), object: packet_object("A", "B", "transfer", "channel-0") },
                created: false,
                cmd: WorkerCmd::ClearPendingPackets,
            },
        ]
    );
    assert_eq!(reactor.supervisor().workers().len(), 2);
}

#[test]
fn failed_monitor_is_reported() {
    let mut reactor = Reactor::new(Supervisor::new(config(&["A", "B"], false, false)), two_chains("B"));
    let (deliveries, outcome) = reactor.handle_batch(&chain("A"), &Err(MonitorError::Failed));
    assert_eq!(outcome, Err(Error::EventMonitor));
    assert!(deliveries.is_empty());
}

#[test]
fn batch_for_unconfigured_destination_ends_with_error() {
    // The counterparty Z has no entry in the configuration.
    let mut reactor = Reactor::new(Supervisor::new(config(&["A", "B"], false, false)), two_chains("Z"));
    let (deliveries, outcome) = reactor.process_batch(&batch_from_a(vec![send_packet(1)]));
    assert_eq!(outcome, Err(Error::MissingChainConfig));
    assert!(deliveries.is_empty());
    assert_eq!(reactor.supervisor().workers().len(), 0);
    // The source chain did get its runtime before the destination failed.
    assert_eq!(reactor.dump_state().chains, vec![chain("A")]);
}

#[test]
fn batch_fails_when_runtime_does_not_start() {
    let mut chains = two_chains("B");
    chains.starts = false;
    let mut reactor = Reactor::new(Supervisor::new(config(&["A", "B"], false, false)), chains);
    let (deliveries, outcome) = reactor.process_batch(&batch_from_a(vec![send_packet(1)]));
    assert_eq!(outcome, Err(Error::RuntimeSpawn));
    assert!(deliveries.is_empty());
    // The destination is not started once the source has failed.
    assert_eq!(reactor.chains().started, vec!["A".to_string()]);
}

#[test]
fn no_chains_available_when_no_runtime_starts() {
    let mut chains = two_chains("B");
    chains.starts = false;
    let mut reactor = Reactor::new(Supervisor::new(config(&["A", "B"], false, false)), chains);
    assert_eq!(reactor.init_subscriptions(), Err(Error::NoChainsAvailable));
    assert_eq!(reactor.resubscribe(CmdEffect::ConfigChanged), None);
    assert_eq!(reactor.resubscribe(CmdEffect::Nothing), None);
}

#[test]
fn subscriptions_follow_the_configuration() {
    let mut reactor = Reactor::new(Supervisor::new(config(&["A", "B"], false, false)), two_chains("B"));
    assert_eq!(reactor.init_subscriptions(), Ok(vec![chain("A"), chain("B")]));
    // Runtimes are started once.
    assert_eq!(reactor.init_subscriptions(), Ok(vec![chain("A"), chain("B")]));
    assert_eq!(reactor.chains().started, vec!["A".to_string(), "B".to_string()]);
    reactor.remove_chain(&chain("A"));
    assert_eq!(reactor.resubscribe(CmdEffect::ConfigChanged), Some(vec![chain("B")]));
}

#[test]
fn adding_a_chain_twice_is_adding_it_once() {
    let mut reactor = Reactor::new(Supervisor::new(config(&["A", "B"], false, false)), two_chains("B"));
    let c = || ChainConfig { id: chain("C"), packet_filter: PacketFilter::AllowAll };
    assert_eq!(reactor.add_chain(c()).0, CmdEffect::ConfigChanged);
    let once = reactor.dump_state();
    let config_once = reactor.supervisor().config().chains.len();
    assert_eq!(reactor.add_chain(c()).0, CmdEffect::Nothing);
    assert_eq!(reactor.dump_state(), once);
    assert_eq!(reactor.supervisor().config().chains.len(), config_once);
    // The runtime of C was started once, and the chains scanned once.
    assert_eq!(reactor.chains().started, vec!["C".to_string()]);
    assert_eq!(reactor.chains().scanned, 1);
}

#[test]
fn failed_runtime_rolls_the_addition_back() {
    let mut chains = two_chains("B");
    chains.starts = false;
    let mut reactor = Reactor::new(Supervisor::new(config(&["A", "B"], false, false)), chains);
    let (effect, changes) = reactor.add_chain(ChainConfig { id: chain("C"), packet_filter: PacketFilter::AllowAll });
    assert_eq!(effect, CmdEffect::Nothing);
    assert!(changes.spawned.is_empty());
    assert!(!reactor.supervisor().config().has_chain(&chain("C")));
    assert_eq!(reactor.supervisor().config().chains.len(), 2);
    assert_eq!(reactor.chains().scanned, 0);
}

#[test]
fn removing_a_chain_twice_is_removing_it_once() {
    let mut reactor = Reactor::new(Supervisor::new(config(&["A", "B"], false, false)), two_chains("B"));
    reactor.process_batch(&batch_from_a(vec![open_ack()]));
    let (first, changes) = reactor.remove_chain(&chain("A"));
    assert_eq!(first, CmdEffect::ConfigChanged);
    assert_eq!(changes.stopped.len(), 2);
    let once = reactor.dump_state();
    assert_eq!(reactor.chains().shut_down, vec!["A".to_string()]);
    let (second, changes) = reactor.remove_chain(&chain("A"));
    assert_eq!(reactor.chains().shut_down, vec!["A".to_string()]);
    assert_eq!(second, CmdEffect::Nothing);
    assert!(changes.stopped.is_empty());
    assert_eq!(changes.shutdown, None);
    assert_eq!(reactor.dump_state(), once);
    assert_eq!(once.chains, vec![chain("B")]);
    assert!(once.workers.is_empty());
}

#[test]
fn update_is_remove_then_add() {
    let build = || {
        let mut chains = two_chains("B");
        chains.found = flows_of_c;
        let mut reactor =
            Reactor::new(Supervisor::new(config(&["A", "B", "C"], false, false)), chains);
        assert!(reactor.init_subscriptions().is_ok());
        reactor
    };
    let c = || ChainConfig {
        id: chain("C"),
        packet_filter: PacketFilter::Allow(vec![(port("transfer"), channel("channel-3"))]),
    };
    let mut updated = build();
    let (effect, changes) = updated.update_chain(c());
    assert_eq!(effect, CmdEffect::ConfigChanged);
    assert_eq!(changes.shutdown, Some(chain("C")));

    let mut stepwise = build();
    let (removed, _) = stepwise.remove_chain(&chain("C"));
    let (added, _) = stepwise.add_chain(c());
    assert_eq!(removed.or(added), effect);
    assert_eq!(updated.dump_state(), stepwise.dump_state());
    assert_eq!(updated.supervisor().config(), stepwise.supervisor().config());
    assert_eq!(updated.dump_state().chains, vec![chain("A"), chain("B"), chain("C")]);
}

#[test]
fn stale_stop_message_leaves_the_new_worker() {
    let mut reactor = Reactor::new(Supervisor::new(config(&["A", "B"], false, false)), two_chains("B"));
    reactor.process_batch(&batch_from_a(vec![send_packet(1)]));
    let object = packet_object("A", "B", "transfer", "channel-0");
    // A message of a worker that the map does not hold for the object.
    assert!(!reactor.handle_worker_msg(WorkerMsg::Stopped(WorkerId(7), object.clone())));
    assert_eq!(reactor.supervisor().workers().len(), 1);
    assert!(reactor.handle_worker_msg(WorkerMsg::Stopped(WorkerId(1), object.clone())));
    assert_eq!(reactor.supervisor().workers().len(), 0);
    // The next worker for the object gets a fresh identifier.
    let (deliveries, _) = reactor.process_batch(&batch_from_a(vec![send_packet(2)]));
    assert_eq!(deliveries[0].worker, Worker { id: WorkerId(2), object });
    assert!(deliveries[0].created);
}

#[test]
fn startup_spawns_workers_for_scanned_flows() {
    let mut chains = two_chains("B");
    chains.found = || {
        vec![
            Discovered { object: packet_object("A", "B", "transfer", "channel-0"), evidence: Err(QueryError::NotFound) },
            // Handshakes are not relayed: no worker.
            Discovered { object: channel_object("A", "B", "transfer", "channel-1"), evidence: Err(QueryError::NotFound) },
            // Z is not configured: no worker.
            Discovered { object: packet_object("A", "Z", "transfer", "channel-2"), evidence: Err(QueryError::NotFound) },
            // A flow from a chain to itself: no worker.
            Discovered { object: packet_object("A", "A", "transfer", "channel-3"), evidence: Err(QueryError::NotFound) },
            // Found twice: one worker.
            Discovered { object: packet_object("A", "B", "transfer", "channel-0"), evidence: Err(QueryError::NotFound) },
        ]
    };
    let mut reactor = Reactor::new(Supervisor::new(config(&["A", "B"], false, false)), chains);
    let spawned = reactor.spawn_workers(SpawnMode::Startup);
    assert_eq!(
        spawned,
        vec![Worker { id: WorkerId(1), object: packet_object("A", "B", "transfer", "channel-0") }]
    );
    assert_eq!(reactor.dump_state().chains, vec![chain("A"), chain("B")]);
}

#[test]
fn reload_decides_on_fresh_evidence() {
    let mut chains = two_chains("B");
    chains.found = || {
        vec![Discovered {
            object: packet_object("A", "B", "transfer", "channel-0"),
            evidence: Err(QueryError::Failed),
        }]
    };
    let mut reactor = Reactor::new(Supervisor::new(config(&["A", "B"], true, false)), chains);
    // The batch leaves an `Allow` for the channel in the filter's memory.
    let (deliveries, _) = reactor.process_batch(&batch_from_a(vec![send_packet(1)]));
    assert_eq!(deliveries.len(), 1);
    assert!(reactor.handle_worker_msg(WorkerMsg::Stopped(
        WorkerId(1),
        packet_object("A", "B", "transfer", "channel-0")
    )));
    // On reload the memory does not count, and the evidence cannot be had.
    assert!(reactor.spawn_workers(SpawnMode::Reload).is_empty());
    assert_eq!(reactor.supervisor().workers().len(), 0);
}

#[test]
fn reactor_asks_for_evidence_only_when_it_decides() {
    let mut reactor = Reactor::new(Supervisor::new(config(&["A", "B"], true, false)), two_chains("B"));
    let object = packet_object("A", "B", "transfer", "channel-0");
    assert!(reactor.relay_on_object(&chain("A"), &object));
    assert_eq!(reactor.chains().evidence_asked, 1);
    assert!(reactor.relay_on_object(&chain("A"), &object));
    assert_eq!(reactor.chains().evidence_asked, 1);

    let mut unfiltered = Reactor::new(Supervisor::new(config(&["A", "B"], false, false)), two_chains("B"));
    assert!(unfiltered.relay_on_object(&chain("A"), &object));
    assert_eq!(unfiltered.chains().evidence_asked, 0);
}

#[test]
fn reactor_resolves_only_events_that_need_it() {
    let mut reactor = Reactor::new(Supervisor::new(config(&["A", "B"], false, false)), two_chains("B"));
    let batch = batch_from_a(vec![
        Event::NewBlock(Height::new(1, 42)),
        Event::Other,
        // Handshakes are not relayed: nothing to resolve.
        Event::OpenInitChannel(ChannelAttributes {
            port_id: port("transfer"),
            channel_id: Some(channel("channel-0")),
            connection_id: ConnectionId::new("connection-0".to_string()),
        }),
        send_packet(1),
    ]);
    let collected = reactor.collect_events(&batch);
    assert_eq!(reactor.chains().resolved, 1);
    assert_eq!(collected.len(), 1);
    assert!(collected.has_new_block());
    assert_eq!(
        collected.events_for(&packet_object("A", "B", "transfer", "channel-0")),
        Some(&vec![send_packet(1)])
    );
}

#[test]
fn commands_through_the_reactor() {
    let mut reactor = Reactor::new(Supervisor::new(config(&["A", "B"], false, false)), two_chains("B"));
    let (effect, _) = reactor.update_config(ConfigUpdate::Remove(chain("B")));
    assert_eq!(effect, CmdEffect::ConfigChanged);
    let (effect, _) = reactor.update_config(ConfigUpdate::Remove(chain("B")));
    assert_eq!(effect, CmdEffect::Nothing);
    let (effect, _) = reactor.update_config(ConfigUpdate::Update(ChainConfig {
        id: chain("B"),
        packet_filter: PacketFilter::AllowAll,
    }));
    assert_eq!(effect, CmdEffect::ConfigChanged);
    assert!(reactor.supervisor().config().has_chain(&chain("B")));
    assert_eq!(reactor.dump_state().chains, vec![chain("B")]);
    assert!(reactor.clear_pending_packets(&chain("B")).is_empty());
    assert!(reactor.register_chains().contains(&chain("A")));
}

#[test]
fn one_turn_handles_batch_then_report_then_command() {
    let mut reactor = Reactor::new(Supervisor::new(config(&["A", "B"], false, false)), two_chains("B"));
    assert!(reactor.init_subscriptions().is_ok());
    let object = packet_object("A", "B", "transfer", "channel-0");
    let turn = reactor.turn(Received {
        batch: Some((chain("A"), Ok(batch_from_a(vec![send_packet(1)])))),
        // The worker that the batch of this very turn spawns reports in.
        worker_msg: Some(WorkerMsg::Stopped(WorkerId(1), object.clone())),
        cmd: Some(SupervisorCmd::DumpState),
    });
    assert_eq!(turn.batch_outcome, Ok(()));
    assert_eq!(turn.deliveries, vec![events_delivery(1, object, true, vec![send_packet(1)])]);
    assert_eq!(turn.command.effect, CmdEffect::Nothing);
    // The snapshot is taken after the report was noted.
    assert!(turn.command.state.unwrap().workers.is_empty());
    assert_eq!(turn.subscriptions, None);

    let turn = reactor.turn(Received {
        batch: None,
        worker_msg: None,
        cmd: Some(SupervisorCmd::UpdateConfig(ConfigUpdate::Remove(chain("A")))),
    });
    assert!(turn.deliveries.is_empty());
    assert_eq!(turn.command.effect, CmdEffect::ConfigChanged);
    assert_eq!(turn.command.changes.shutdown, Some(chain("A")));
    assert_eq!(turn.subscriptions, Some(vec![chain("B")]));

    let idle = reactor.turn(Received { batch: None, worker_msg: None, cmd: None });
    assert!(idle.deliveries.is_empty());
    assert_eq!(idle.batch_outcome, Ok(()));
    assert_eq!(idle.command.effect, CmdEffect::Nothing);
    assert_eq!(idle.command.state, None);
    assert_eq!(idle.subscriptions, None);
}

#[test]
fn last_chain_removed_keeps_the_subscriptions() {
    let mut reactor = Reactor::new(Supervisor::new(config(&["A"], false, false)), two_chains("B"));
    assert_eq!(reactor.init_subscriptions(), Ok(vec![chain("A")]));
    let turn = reactor.turn(Received {
        batch: None,
        worker_msg: None,
        cmd: Some(SupervisorCmd::UpdateConfig(ConfigUpdate::Remove(chain("A")))),
    });
    assert_eq!(turn.command.effect, CmdEffect::ConfigChanged);
    // No chain is left: the subscriptions stay, and the reactor goes on.
    assert_eq!(turn.subscriptions, None);
    let turn = reactor.turn(Received {
        batch: None,
        worker_msg: None,
        cmd: Some(SupervisorCmd::UpdateConfig(ConfigUpdate::Add(ChainConfig {
            id: chain("C"),
            packet_filter: PacketFilter::AllowAll,
        }))),
    });
    assert_eq!(turn.subscriptions, Some(vec![chain("C")]));
}
