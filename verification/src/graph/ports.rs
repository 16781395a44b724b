//! Output port counts and port lists of the structural nodes.

use vstd::prelude::*;

use crate::graph::{
    control::{GammaIn, GammaOut, RegionIn, RegionOut, ThetaIn, ThetaOut},
    graph::DataFlowGraph,
    link::Link,
    node::Node,
};

verus! {

impl GammaIn {
    /// The number of output ports: one per argument.
    fn ports_output(&self) -> (count: usize)
        ensures
            count == self.arguments@.len(),
    {
        self.arguments.len()
    }
}

impl RegionIn {
    /// Whether the gamma input node this region reads from is in the graph.
    pub open spec fn ports_output_ready(self, graph: Seq<Node>) -> bool {
        &&& self.input < graph.len()
        &&& graph[self.input as int] is GammaIn
    }

    /// The number of output ports: one per argument of the enclosing gamma.
    pub open spec fn spec_ports_output(self, graph: Seq<Node>) -> nat {
        match graph[self.input as int] {
            Node::GammaIn(node) => node.arguments@.len(),
            _ => 0,
        }
    }

    fn ports_output(self, graph: &DataFlowGraph) -> (count: usize)
        requires
            self.ports_output_ready(graph@),
        ensures
            count == self.spec_ports_output(graph@),
    {
        match graph.get(self.input) {
            Node::GammaIn(node) => node.ports_output(),
            _ => 0,
        }
    }
}

impl RegionOut {
    /// The number of output ports: one per result.
    fn ports_output(&self) -> (count: usize)
        ensures
            count == self.results@.len(),
    {
        self.results.len()
    }
}

impl GammaOut {
    /// Whether the first region output of this gamma is in the graph.
    pub open spec fn ports_output_ready(&self, graph: Seq<Node>) -> bool {
        &&& self.regions@.len() > 0
        &&& self.regions@[0] < graph.len()
        &&& graph[self.regions@[0] as int] is RegionOut
    }

    /// The number of output ports: one per result of the first region.
    pub open spec fn spec_ports_output(&self, graph: Seq<Node>) -> nat {
        match graph[self.regions@[0] as int] {
            Node::RegionOut(node) => node.results@.len(),
            _ => 0,
        }
    }

    /// Returns the number of output ports, which is the number of results of
    /// its first region.
    pub fn ports_output(&self, graph: &DataFlowGraph) -> (count: usize)
        requires
            self.ports_output_ready(graph@),
        ensures
            count == self.spec_ports_output(graph@),
    {
        let first = self.regions[0];

        match graph.get(first) {
            Node::RegionOut(node) => node.ports_output(),
            _ => 0,
        }
    }
}

impl ThetaIn {
    /// The number of output ports: one per argument.
    fn ports_output(&self) -> (count: usize)
        ensures
            count == self.arguments@.len(),
    {
        self.arguments.len()
    }
}

impl ThetaOut {
    /// The number of output ports: one per result.
    fn ports_output(&self) -> (count: usize)
        ensures
            count == self.results@.len(),
    {
        self.results.len()
    }
}

impl Node {
    /// Whether the nodes this node takes its port count from are in the graph.
    pub open spec fn ports_output_ready(&self, graph: Seq<Node>) -> bool {
        match self {
            Node::RegionIn(node) => node.ports_output_ready(graph),
            Node::GammaOut(node) => node.ports_output_ready(graph),
            _ => true,
        }
    }

    /// The number of output ports of the nodes whose ports mirror another
    /// list, if this is such a node.
    pub open spec fn spec_ports_output(&self, graph: Seq<Node>) -> Option<nat> {
        match self {
            Node::RegionIn(node) => Some(node.spec_ports_output(graph)),
            Node::GammaOut(node) => Some(node.spec_ports_output(graph)),
            Node::ThetaIn(node) => Some(node.arguments@.len()),
            Node::ThetaOut(node) => Some(node.results@.len()),
            _ => None,
        }
    }

    /// Returns the number of output ports, if applicable.
    pub fn ports_output(&self, graph: &DataFlowGraph) -> (count: Option<usize>)
        requires
            self.ports_output_ready(graph@),
        ensures
            count matches Some(n) ==> self.spec_ports_output(graph@) == Some(n as nat),
            count is None ==> self.spec_ports_output(graph@) is None,
    {
        let result = match self {
            Node::RegionIn(node) => (*node).ports_output(graph),
            Node::GammaOut(node) => node.ports_output(graph),
            Node::ThetaIn(node) => node.ports_output(),
            Node::ThetaOut(node) => node.ports_output(),
            _ => return None,
        };

        Some(result)
    }

    /// The port list of this node, if it has one: the dependencies of a lambda
    /// input, the arguments of a gamma or theta input, or the results of a
    /// lambda, region or theta output.
    pub open spec fn spec_ports(&self) -> Option<Seq<Link>> {
        match self {
            Node::LambdaIn(node) => Some(node.dependencies@),
            Node::LambdaOut(node) => Some(node.results@),
            Node::RegionOut(node) => Some(node.results@),
            Node::GammaIn(node) => Some(node.arguments@),
            Node::ThetaIn(node) => Some(node.arguments@),
            Node::ThetaOut(node) => Some(node.results@),
            _ => None,
        }
    }

    /// This node with its port list replaced by `ports`, for the nodes that
    /// have a port list; any other node is returned as it is.
    pub open spec fn with_ports(self, ports: Vec<Link>) -> Node {
        match self {
            Node::LambdaIn(node) => Node::LambdaIn(
                crate::graph::control::LambdaIn {
                    output: node.output,
                    kind: node.kind,
                    dependencies: ports,
                    key: node.key,
                },
            ),
            Node::LambdaOut(node) => Node::LambdaOut(
                crate::graph::control::LambdaOut { input: node.input, results: ports },
            ),
            Node::RegionOut(node) => Node::RegionOut(
                RegionOut { input: node.input, output: node.output, results: ports },
            ),
            Node::GammaIn(node) => Node::GammaIn(
                GammaIn { output: node.output, arguments: ports, condition: node.condition },
            ),
            Node::ThetaIn(node) => Node::ThetaIn(ThetaIn { output: node.output, arguments: ports }),
            Node::ThetaOut(node) => Node::ThetaOut(
                ThetaOut { input: node.input, results: ports, condition: node.condition },
            ),
            _ => self,
        }
    }

    /// Returns a reference to this node's port list, if it has one.
    pub fn as_ports(&self) -> (ports: Option<&Vec<Link>>)
        ensures
            ports matches Some(list) ==> self.spec_ports() == Some(list@),
            ports is None ==> self.spec_ports() is None,
    {
        let ports = match self {
            Node::LambdaIn(node) => &node.dependencies,
            Node::LambdaOut(node) => &node.results,
            Node::RegionOut(node) => &node.results,
            Node::GammaIn(node) => &node.arguments,
            Node::ThetaIn(node) => &node.arguments,
            Node::ThetaOut(node) => &node.results,
            _ => return None,
        };

        Some(ports)
    }

    /// Returns mutable access to this node's port list, if it has one.
    pub fn as_mut_ports(&mut self) -> (ports: Option<&mut Vec<Link>>)
        ensures
            ports matches Some(list) ==> {
                &&& old(self).spec_ports() == Some(list@)
                &&& *final(self) == old(self).with_ports(*final(list))
            },
            ports is None ==> {
                &&& old(self).spec_ports() is None
                &&& *final(self) == *old(self)
            },
    {
        let ports = match self {
            Node::LambdaIn(node) => &mut node.dependencies,
            Node::LambdaOut(node) => &mut node.results,
            Node::RegionOut(node) => &mut node.results,
            Node::GammaIn(node) => &mut node.arguments,
            Node::ThetaIn(node) => &mut node.arguments,
            Node::ThetaOut(node) => &mut node.results,
            _ => return None,
        };

        Some(ports)
    }
}

} // verus!
