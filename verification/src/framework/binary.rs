//! Test cases on two full nodes.

use vstd::prelude::*;
use crate::framework::{Error, FullNode, RunBinaryNodeTest, TestConfig};

verus! {

/// A test case that needs two full nodes running and no relayer.
///
/// Such a test case sets the relayer up itself, and so can start and stop it
/// at the point of the test where that matters.
pub trait BinaryNodeTest {
    /// Runs the test case against the two nodes.
    fn run(&self, config: &TestConfig, node_a: FullNode, node_b: FullNode) -> Result<(), Error>;
}

impl<'a, Test: BinaryNodeTest> BinaryNodeTest for RunBinaryNodeTest<'a, Test> {
    /// Runs the inner test against the two nodes: the outcome is one that
    /// the inner test has on these nodes.
    fn run(&self, config: &TestConfig, node_a: FullNode, node_b: FullNode) -> (r: Result<(), Error>)
        ensures
            call_ensures(Test::run, (self.test, config, node_a, node_b), r),
    {
        self.test.run(config, node_a, node_b)
    }
}

} // verus!
