//! The event-routing core of an inter-chain relayer's supervisor.
//!
//! A relayer watches a set of chains and acts on what they emit: it keeps
//! clients up to date, drives connection and channel handshakes, and relays
//! packets. The supervisor is the part that routes: it classifies the events
//! of a chain by the flow that they belong to, decides whether that flow is
//! relayed on, and hands the events to the one worker that serves the flow.
//!
//! - [`ident`], [`event`] and [`object`] hold the vocabulary: identifiers,
//!   events, and the routing keys that name a flow.
//! - [`config`], [`registry`], [`worker`] and [`filter`] hold the four parts
//!   of the supervisor's state, each with the operations that keep it sound.
//! - [`collected`] classifies the events of a batch.
//! - [`supervisor`] holds the state as a whole and the steps that change it;
//!   each step takes what the outside world answered as an argument.
//! - [`reactor`] carries the steps out against the chains, asking them as
//!   late as a step needs an answer.
//! - [`framework`] runs test cases against two full nodes; the test cases
//!   themselves are [`framework::binary::BinaryNodeTest`]s.
//!
//! Every function is verified against its contract. The library starts no
//! thread, opens no channel and reaches no chain: what it decides, it
//! returns for its caller to carry out.

pub mod collected;
pub mod config;
pub mod error;
pub mod event;
pub mod filter;
pub mod framework;
pub mod ident;
pub mod object;
pub mod reactor;
pub mod registry;
pub mod seqs;
pub mod supervisor;
pub mod worker;
