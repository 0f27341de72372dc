//! Test cases that run against two full nodes, with no relayer set up.
//!
//! A test case implements [`binary::BinaryNodeTest`] and is handed the two nodes once
//! they run. Starting the nodes is the runner's part; what the runner needs
//! from a test case before a node starts is [`NodeConfigOverride`].

use vstd::prelude::*;
use crate::ident::ChainId;

pub mod binary;

verus! {

/// Declares `toml::Value`, the dynamically typed value that the configuration
/// file of a node parses to. Nothing is claimed of it: to the verifier it is
/// a value that is handed on and never looked into.
#[verifier::external_type_specification]
#[verifier::external_body]
pub struct ExNodeConfig(toml::Value);

/// Why a test case failed.
#[derive(Debug, PartialEq, Eq)]
pub enum Error {
    /// A node could not be started or reached.
    Node(String),
    /// A node configuration could not be changed as asked.
    Config(String),
    /// The test case found what it did not expect.
    Assertion(String),
}

/// The settings that all test cases run under.
#[derive(Debug, PartialEq, Eq)]
pub struct TestConfig {
    /// The command that starts a node.
    pub chain_command_path: String,
    /// The directory under which each node keeps its data.
    pub chain_store_dir: String,
    /// Whether a failed test case leaves its nodes running for inspection.
    pub hang_on_fail: bool,
}

/// A running full node.
#[derive(Debug, PartialEq, Eq)]
pub struct FullNode {
    /// The chain that the node runs.
    pub chain_id: ChainId,
    /// The directory that holds the node's data.
    pub home_path: String,
    /// The port on which the node answers queries.
    pub rpc_port: u16,
    /// The port on which the node serves its gRPC interface.
    pub grpc_port: u16,
}

/// A change that a test case makes to the configuration of a full node
/// before the node starts.
pub trait NodeConfigOverride {
    /// Changes the node configuration in place.
    fn modify_node_config(&self, config: &mut toml::Value) -> Result<(), Error>;
}

/// A test case that carries the overrides it runs under.
pub trait HasOverrides {
    type Overrides;

    /// The overrides of this test case.
    fn get_overrides(&self) -> &Self::Overrides;
}

/// Lifts a [`binary::BinaryNodeTest`] to a test case that the basic runner can run:
/// the runner starts the two nodes, then hands them to the inner test.
pub struct RunBinaryNodeTest<'a, Test> {
    /// The inner test.
    pub test: &'a Test,
}

impl<'a, Test: HasOverrides> HasOverrides for RunBinaryNodeTest<'a, Test> {
    type Overrides = Test::Overrides;

    /// The overrides of the inner test.
    fn get_overrides(&self) -> (r: &Self::Overrides)
        ensures
            call_ensures(Test::get_overrides, (self.test,), r),
    {
        self.test.get_overrides()
    }
}

impl<'a, Test> NodeConfigOverride for RunBinaryNodeTest<'a, Test> where
    Test: HasOverrides,
    Test::Overrides: NodeConfigOverride,
 {
    /// Applies the overrides of the inner test: the overrides are those that
    /// the inner test hands out, and the configuration and the outcome are
    /// as they leave them.
    fn modify_node_config(&self, config: &mut toml::Value) -> (r: Result<(), Error>)
        ensures
            exists|overrides: &Test::Overrides, changed: &mut toml::Value|
                {
                    &&& call_ensures(Test::get_overrides, (self.test,), overrides)
                    &&& mut_ref_current(changed) == *old(config)
                    &&& mut_ref_future(changed) == *final(config)
                    &&& #[trigger] call_ensures(
                        <Test::Overrides as NodeConfigOverride>::modify_node_config,
                        (overrides, changed),
                        r,
                    )
                },
    {
        self.test.get_overrides().modify_node_config(config)
    }
}

/// What starts full nodes.
pub trait ChainBuilder {
    /// Starts a full node of a new chain whose identifier begins with
    /// `prefix`. `overrides` changes the configuration of the node before
    /// the node starts.
    fn bootstrap_single_node<O: NodeConfigOverride>(&self, prefix: &str, overrides: &O) -> Result<
        FullNode,
        Error,
    >;
}

/// A test case that needs nothing but the settings and something to start
/// nodes with.
pub trait BasicTest {
    /// Runs the test case.
    fn run<B: ChainBuilder>(&self, config: &TestConfig, builder: &B) -> Result<(), Error>;
}

/// What a lifted test case comes to: the node `alpha` is started, then the
/// node `beta`, each under the overrides of the inner test; the first node
/// that does not start ends the run with its error; else the outcome is one
/// that the inner test has on the two nodes.
pub open spec fn lifted_outcome<'a, Test, Overrides, B>(
    lifted: &RunBinaryNodeTest<'a, Test>,
    config: &TestConfig,
    builder: &B,
    node_a: Result<FullNode, Error>,
    node_b: Result<FullNode, Error>,
    r: Result<(), Error>,
) -> bool where
    Test: binary::BinaryNodeTest,
    Test: HasOverrides<Overrides = Overrides>,
    Overrides: NodeConfigOverride,
    B: ChainBuilder,
 {
    &&& call_ensures(
        B::bootstrap_single_node::<RunBinaryNodeTest<'a, Test>>,
        (builder, "alpha", lifted),
        node_a,
    )
    &&& match node_a {
        Err(e) => r == Err::<(), Error>(e),
        Ok(a) => {
            &&& call_ensures(
                B::bootstrap_single_node::<RunBinaryNodeTest<'a, Test>>,
                (builder, "beta", lifted),
                node_b,
            )
            &&& match node_b {
                Err(e) => r == Err::<(), Error>(e),
                Ok(b) => call_ensures(Test::run, (lifted.test, config, a, b), r),
            }
        },
    }
}

impl<'a, Test, Overrides> RunBinaryNodeTest<'a, Test> where
    Test: binary::BinaryNodeTest,
    Test: HasOverrides<Overrides = Overrides>,
    Overrides: NodeConfigOverride,
 {
    /// Starts the nodes `alpha` and `beta`, then runs the inner test against
    /// them.
    pub fn start_and_run<B: ChainBuilder>(&self, config: &TestConfig, builder: &B) -> (r: Result<
        (),
        Error,
    >)
        ensures
            exists|node_a: Result<FullNode, Error>, node_b: Result<FullNode, Error>| #[trigger]
                lifted_outcome(self, config, builder, node_a, node_b, r),
    {
        let node_a = builder.bootstrap_single_node("alpha", self);
        let a = match node_a {
            Ok(a) => a,
            Err(e) => {
                assert(lifted_outcome(self, config, builder, node_a, node_a, Err::<(), Error>(e)));
                return Err(e);
            },
        };
        let node_b = builder.bootstrap_single_node("beta", self);
        let b = match node_b {
            Ok(b) => b,
            Err(e) => {
                assert(lifted_outcome(self, config, builder, node_a, node_b, Err::<(), Error>(e)));
                return Err(e);
            },
        };
        let r = self.test.run(config, a, b);
        assert(lifted_outcome(self, config, builder, node_a, node_b, r));
        r
    }
}

impl<'a, Test, Overrides> BasicTest for RunBinaryNodeTest<'a, Test> where
    Test: binary::BinaryNodeTest,
    Test: HasOverrides<Overrides = Overrides>,
    Overrides: NodeConfigOverride,
 {
    /// Starts the nodes `alpha` and `beta`, then runs the inner test against
    /// them.
    fn run<B: ChainBuilder>(&self, config: &TestConfig, builder: &B) -> (r: Result<(), Error>)
        ensures
            exists|node_a: Result<FullNode, Error>, node_b: Result<FullNode, Error>| #[trigger]
                lifted_outcome(self, config, builder, node_a, node_b, r),
    {
        self.start_and_run(config, builder)
    }
}

/// Runs a test case that needs two full nodes: starts the nodes with
/// `builder`, then hands them to `test`.
pub fn run_binary_node_test<Test, Overrides, B>(test: &Test, config: &TestConfig, builder: &B) -> (r:
    Result<(), Error>) where
    Test: binary::BinaryNodeTest,
    Test: HasOverrides<Overrides = Overrides>,
    Overrides: NodeConfigOverride,
    B: ChainBuilder,

    ensures
        exists|node_a: Result<FullNode, Error>, node_b: Result<FullNode, Error>| #[trigger]
            lifted_outcome(&(RunBinaryNodeTest { test }), config, builder, node_a, node_b, r),
{
    (RunBinaryNodeTest { test }).start_and_run(config, builder)
}

} // verus!
