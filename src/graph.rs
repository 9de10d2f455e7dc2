//! The target graph: translated nodes in source order, and the names of the
//! declared inputs and outputs.
use vstd::prelude::*;

use crate::node::BurnNode;

verus! {

/// An ordered sequence of target nodes with the graph's call signature.
#[derive(Debug)]
pub struct BurnGraph {
    pub nodes: Vec<BurnNode>,
    pub input_names: Vec<String>,
    pub output_names: Vec<String>,
}

impl BurnGraph {
    /// An empty graph.
    pub fn new() -> (r: BurnGraph)
        ensures
            r.nodes@.len() == 0,
            r.input_names@.len() == 0,
            r.output_names@.len() == 0,
    {
        BurnGraph { nodes: Vec::new(), input_names: Vec::new(), output_names: Vec::new() }
    }

    /// Appends a node; earlier nodes are left as they are.
    pub fn register(&mut self, node: BurnNode)
        ensures
            final(self).nodes@ == old(self).nodes@.push(node),
            final(self).input_names@ == old(self).input_names@,
            final(self).output_names@ == old(self).output_names@,
    {
        self.nodes.push(node);
    }

    /// Records the names of the graph's inputs and outputs.
    pub fn register_input_output(&mut self, input_names: Vec<String>, output_names: Vec<String>)
        ensures
            final(self).nodes@ == old(self).nodes@,
            final(self).input_names@ == input_names@,
            final(self).output_names@ == output_names@,
    {
        self.input_names = input_names;
        self.output_names = output_names;
    }
}

} // verus!
