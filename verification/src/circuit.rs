//! The circuit graph: an arena of component nodes and tagged signal edges.
//!
//! Nodes are owned by the graph and addressed by dense integer handles.
//! Each directed edge records the producing node's output pin, the
//! consuming node's input pin, and the last value written onto it; edges
//! are the only channel for one component's output to reach another's
//! input. Reading a node's inputs scans its incoming edges: fixed-arity
//! components get a vector indexed by pin (unconnected pins read as
//! floating), while the variable-fan-in wire gathers every incoming value.

use vstd::prelude::*;

use crate::component::Component;
use crate::error::SimError;
use crate::gates::all_wf;
use crate::node::{Node, NodeId};
use crate::value::Value;

verus! {

/// A stable handle to a signal edge: its index in the edge list.
#[derive(Clone, Copy, Debug, PartialEq, Eq, Structural)]
pub struct SignalId(pub usize);

/// A directed signal edge carrying its last-written value.
#[derive(Clone, Copy, Debug, PartialEq, Eq, Structural)]
pub struct Edge {
    /// The producing node.
    pub src: NodeId,
    /// The consuming node.
    pub dst: NodeId,
    /// The producing node's output pin the edge is wired from.
    pub src_pin: usize,
    /// The consuming node's input pin the edge is wired to.
    pub dst_pin: usize,
    /// The most recent completed write from the source node.
    pub val: Value,
}

/// The mathematical state of one node: its identity, component and cached
/// outputs.
pub ghost struct NodeView {
    /// The node's handle.
    pub id: int,
    /// The component, including any internal state.
    pub logic: Component,
    /// The cached outputs of the latest evaluation.
    pub outputs: Seq<Value>,
    /// The evaluation counter.
    pub generation: u32,
}

impl NodeView {
    /// Well-formedness of the abstract node.
    pub open spec fn wf(self) -> bool {
        &&& self.logic.wf()
        &&& all_wf(self.outputs)
    }
}

impl View for Node {
    type V = NodeView;

    open spec fn view(&self) -> NodeView {
        NodeView {
            id: self.id as int,
            logic: self.logic,
            outputs: self.state.outputs@,
            generation: self.state.generation,
        }
    }
}

/// The mathematical state of the graph: node and edge sequences.
pub ghost struct CircuitView {
    /// The nodes, indexed by handle.
    pub nodes: Seq<NodeView>,
    /// The edges, indexed by handle, in insertion order.
    pub edges: Seq<Edge>,
}

impl CircuitView {
    /// Well-formedness: every node is well formed and sits at the index
    /// its handle names; every edge connects existing nodes, carries a
    /// well-formed value, and respects the declared arities where they are
    /// fixed.
    pub open spec fn wf(self) -> bool {
        &&& forall|i: int|
            0 <= i < self.nodes.len() ==> (#[trigger] self.nodes[i]).wf() && self.nodes[i].id == i
        &&& forall|i: int| 0 <= i < self.edges.len() ==> self.edge_wf(#[trigger] self.edges[i])
    }

    /// Well-formedness of one edge against the node arena.
    pub open spec fn edge_wf(self, e: Edge) -> bool {
        &&& e.src < self.nodes.len()
        &&& e.dst < self.nodes.len()
        &&& e.val.wf()
        &&& self.nodes[e.dst as int].logic.fixed_arity() ==> (e.dst_pin as int)
            < self.nodes[e.dst as int].logic.spec_num_inputs()
        &&& self.nodes[e.src as int].logic.fixed_arity() ==> (e.src_pin as int)
            < self.nodes[e.src as int].logic.spec_num_outputs()
    }
}

/// The directed graph of components: an arena of nodes and a flat list of
/// edges.
#[derive(Debug)]
pub struct Circuit {
    /// The owned nodes; a handle is an index into this arena.
    pub nodes: Vec<Node>,
    /// The edges, in insertion order.
    pub edges: Vec<Edge>,
}

impl View for Circuit {
    type V = CircuitView;

    open spec fn view(&self) -> CircuitView {
        CircuitView {
            nodes: Seq::new(self.nodes@.len(), |i: int| self.nodes@[i]@),
            edges: self.edges@,
        }
    }
}

/// All values an arbitrary edge subsequence drives into a node, in edge
/// order.
pub open spec fn gather_values(edges: Seq<Edge>, node: int) -> Seq<Value>
    decreases edges.len(),
{
    if edges.len() == 0 {
        Seq::empty()
    } else {
        gather_values(edges.drop_last(), node) + (if edges.last().dst == node {
            seq![edges.last().val]
        } else {
            Seq::empty()
        })
    }
}

/// A fixed-arity input vector after replaying the edge writes in order:
/// each incoming edge places its value at its recorded pin, later edges
/// winning; pins no edge reaches keep their default.
pub open spec fn fill_values(edges: Seq<Edge>, node: int, init: Seq<Value>) -> Seq<Value>
    decreases edges.len(),
{
    if edges.len() == 0 {
        init
    } else {
        let prev = fill_values(edges.drop_last(), node, init);
        let e = edges.last();
        if e.dst == node && (e.dst_pin as int) < prev.len() {
            prev.update(e.dst_pin as int, e.val)
        } else {
            prev
        }
    }
}

/// The default input vector of a component: each pin reads floating at its
/// expected width.
pub open spec fn default_inputs(c: Component) -> Seq<Value> {
    Seq::new(c.spec_num_inputs() as nat, |i: int| c.default_input(i))
}

/// The inputs a node reads: filled by pin for fixed-arity components,
/// gathered in edge order for the variable-fan-in wire.
pub open spec fn spec_collect_inputs(cv: CircuitView, node: int) -> Seq<Value> {
    let comp = cv.nodes[node].logic;
    if comp.fixed_arity() {
        fill_values(cv.edges, node, default_inputs(comp))
    } else {
        gather_values(cv.edges, node)
    }
}

/// Replaying edge writes never changes the vector's length.
proof fn lemma_fill_len(edges: Seq<Edge>, node: int, init: Seq<Value>)
    ensures
        fill_values(edges, node, init).len() == init.len(),
    decreases edges.len(),
{
    if edges.len() > 0 {
        lemma_fill_len(edges.drop_last(), node, init);
    }
}

/// Replaying edge writes of well-formed values onto a well-formed vector
/// keeps every entry well formed.
proof fn lemma_fill_wf(edges: Seq<Edge>, node: int, init: Seq<Value>)
    requires
        all_wf(init),
        forall|i: int| 0 <= i < edges.len() ==> (#[trigger] edges[i]).val.wf(),
    ensures
        all_wf(fill_values(edges, node, init)),
    decreases edges.len(),
{
    if edges.len() > 0 {
        assert forall|i: int|
            0 <= i < edges.drop_last().len() implies (#[trigger] edges.drop_last()[i]).val.wf() by {
            assert(edges.drop_last()[i] == edges[i]);
        }
        lemma_fill_wf(edges.drop_last(), node, init);
        assert(edges.last() == edges[edges.len() - 1]);
    }
}

impl Circuit {
    /// Well-formedness of the concrete graph, via its abstraction.
    pub open spec fn wf(self) -> bool {
        self@.wf()
    }

    /// An empty graph.
    pub fn new() -> (c: Circuit)
        ensures
            c@.nodes.len() == 0,
            c@.edges.len() == 0,
            c.wf(),
    {
        Circuit { nodes: Vec::new(), edges: Vec::new() }
    }

    /// Insert an owned component as a new node; its handle is the next
    /// index, and its initial outputs are cached at once.
    pub fn add_component(&mut self, c: Component) -> (id: NodeId)
        requires
            old(self).wf(),
            c.wf(),
        ensures
            final(self).wf(),
            id == old(self)@.nodes.len(),
            final(self)@.edges == old(self)@.edges,
            final(self)@.nodes == old(self)@.nodes.push(
                NodeView { id: id as int, logic: c, outputs: c.init_outs(), generation: 0 },
            ),
    {
        let id = self.nodes.len();
        let node = Node::new(id, c);
        self.nodes.push(node);
        proof {
            assert(final(self)@.nodes =~= old(self)@.nodes.push(
                NodeView { id: id as int, logic: c, outputs: c.init_outs(), generation: 0 },
            ));
            assert forall|i: int|
                0 <= i < final(self)@.nodes.len() implies (#[trigger] final(self)@.nodes[i]).wf()
                && final(self)@.nodes[i].id == i by {
                if i < old(self)@.nodes.len() {
                    assert(old(self)@.nodes[i].wf() && old(self)@.nodes[i].id == i);
                }
            }
            assert forall|i: int|
                0 <= i < final(self)@.edges.len() implies final(self)@.edge_wf(
                #[trigger] final(self)@.edges[i],
            ) by {
                assert(old(self)@.edge_wf(old(self)@.edges[i]));
            }
        }
        id
    }

    /// Whether a connection between these pins respects the declared
    /// arities, where they are fixed.
    pub open spec fn pins_ok(self, src: NodeId, dst: NodeId, src_pin: usize, dst_pin: usize) -> bool {
        &&& self@.nodes[src as int].logic.fixed_arity() ==> (src_pin as int)
            < self@.nodes[src as int].logic.spec_num_outputs()
        &&& self@.nodes[dst as int].logic.fixed_arity() ==> (dst_pin as int)
            < self@.nodes[dst as int].logic.spec_num_inputs()
    }

    /// Create a directed edge from an output pin to an input pin, carrying
    /// an initial value; fails if and only if a pin lies beyond a fixed
    /// declared arity.
    pub fn connect(
        &mut self,
        src: NodeId,
        dst: NodeId,
        src_pin: usize,
        dst_pin: usize,
        val: Value,
    ) -> (r: Result<SignalId, SimError>)
        requires
            old(self).wf(),
            src < old(self)@.nodes.len(),
            dst < old(self)@.nodes.len(),
            val.wf(),
        ensures
            final(self).wf(),
            final(self)@.nodes == old(self)@.nodes,
            old(self).pins_ok(src, dst, src_pin, dst_pin) ==> r == Ok::<SignalId, SimError>(
                SignalId(old(self)@.edges.len() as usize),
            ) && final(self)@.edges == old(self)@.edges.push(
                Edge { src, dst, src_pin, dst_pin, val },
            ),
            !old(self).pins_ok(src, dst, src_pin, dst_pin) ==> r == Err::<SignalId, SimError>(
                SimError::PinOutOfRange,
            ) && final(self)@.edges == old(self)@.edges,
    {
        let src_fixed = !matches!(self.nodes[src].logic, Component::Wire(_));
        let dst_fixed = !matches!(self.nodes[dst].logic, Component::Wire(_));
        if src_fixed && src_pin >= self.nodes[src].logic.num_outputs() {
            return Err(SimError::PinOutOfRange);
        }
        if dst_fixed && dst_pin >= self.nodes[dst].logic.num_inputs() {
            return Err(SimError::PinOutOfRange);
        }
        let id = self.edges.len();
        self.edges.push(Edge { src, dst, src_pin, dst_pin, val });
        proof {
            assert(final(self)@.nodes =~= old(self)@.nodes);
            assert forall|i: int|
                0 <= i < final(self)@.edges.len() implies final(self)@.edge_wf(
                #[trigger] final(self)@.edges[i],
            ) by {
                if i < old(self)@.edges.len() {
                    assert(old(self)@.edge_wf(old(self)@.edges[i]));
                }
            }
        }
        Ok(SignalId(id))
    }

    /// Read the inputs a node currently sees, per [`spec_collect_inputs`]:
    /// by pin for fixed-arity components (unconnected pins read floating),
    /// in edge order for the variable-fan-in wire.
    pub fn collect_inputs(&self, node: NodeId) -> (inputs: Vec<Value>)
        requires
            self.wf(),
            node < self@.nodes.len(),
        ensures
            inputs@ == spec_collect_inputs(self@, node as int),
            all_wf(inputs@),
            self@.nodes[node as int].logic.fixed_arity() ==> inputs@.len()
                == self@.nodes[node as int].logic.spec_num_inputs(),
    {
        let ghost cv = self@;
        let comp = self.nodes[node].logic;
        proof {
            assert(cv.nodes[node as int].wf());
        }
        if !matches!(comp, Component::Wire(_)) {
            let n_in = comp.num_inputs();
            let mut inputs: Vec<Value> = Vec::new();
            let mut pin: usize = 0;
            while pin < n_in
                invariant
                    pin <= n_in,
                    comp.wf(),
                    n_in as int == comp.spec_num_inputs(),
                    inputs@.len() == pin,
                    forall|j: int| 0 <= j < pin ==> inputs@[j] == comp.default_input(j),
                    all_wf(inputs@),
                decreases n_in - pin,
            {
                inputs.push(comp.default_for_pin(pin));
                pin = pin + 1;
            }
            proof {
                assert(inputs@ =~= default_inputs(comp));
            }
            let ghost defaults = default_inputs(comp);
            let mut i: usize = 0;
            while i < self.edges.len()
                invariant
                    self.wf(),
                    cv == self@,
                    i <= cv.edges.len(),
                    node < cv.nodes.len(),
                    comp == cv.nodes[node as int].logic,
                    comp.fixed_arity(),
                    defaults == default_inputs(comp),
                    all_wf(defaults),
                    inputs@ == fill_values(cv.edges.take(i as int), node as int, defaults),
                decreases cv.edges.len() - i,
            {
                let e = self.edges[i];
                proof {
                    assert(cv.edges.take(i + 1).drop_last() =~= cv.edges.take(i as int));
                    assert(cv.edges.take(i + 1).last() == cv.edges[i as int]);
                    lemma_fill_len(cv.edges.take(i as int), node as int, defaults);
                }
                if e.dst == node && e.dst_pin < inputs.len() {
                    inputs[e.dst_pin] = e.val;
                }
                i = i + 1;
            }
            proof {
                assert(cv.edges.take(cv.edges.len() as int) =~= cv.edges);
                assert forall|j: int|
                    0 <= j < cv.edges.len() implies (#[trigger] cv.edges[j]).val.wf() by {
                    assert(cv.edge_wf(cv.edges[j]));
                }
                lemma_fill_wf(cv.edges, node as int, defaults);
                lemma_fill_len(cv.edges, node as int, defaults);
            }
            inputs
        } else {
            let mut inputs: Vec<Value> = Vec::new();
            let mut i: usize = 0;
            while i < self.edges.len()
                invariant
                    self.wf(),
                    cv == self@,
                    i <= cv.edges.len(),
                    node < cv.nodes.len(),
                    inputs@ == gather_values(cv.edges.take(i as int), node as int),
                    all_wf(inputs@),
                decreases cv.edges.len() - i,
            {
                let e = self.edges[i];
                proof {
                    assert(cv.edges.take(i + 1).drop_last() =~= cv.edges.take(i as int));
                    assert(cv.edges.take(i + 1).last() == cv.edges[i as int]);
                    assert(cv.edge_wf(cv.edges[i as int]));
                }
                if e.dst == node {
                    inputs.push(e.val);
                }
                i = i + 1;
            }
            proof {
                assert(cv.edges.take(cv.edges.len() as int) =~= cv.edges);
            }
            inputs
        }
    }

    /// Write produced outputs onto every outgoing edge of a node; fails,
    /// changing nothing, if and only if some outgoing edge's declared
    /// source pin has no produced output. On success it returns the
    /// consumers whose incoming value changed, in edge order.
    pub fn write_outputs(&mut self, node: NodeId, outs: &Vec<Value>) -> (r: Result<
        Vec<NodeId>,
        SimError,
    >)
        requires
            old(self).wf(),
            node < old(self)@.nodes.len(),
            all_wf(outs@),
        ensures
            final(self).wf(),
            final(self)@.nodes == old(self)@.nodes,
            write_ok(old(self)@.edges, node as int, outs@) ==> (r matches Ok(changed)
                && final(self)@.edges == write_edges(old(self)@.edges, node as int, outs@)
                && changed@ == changed_dsts(old(self)@.edges, node as int, outs@)),
            !write_ok(old(self)@.edges, node as int, outs@) ==> r == Err::<Vec<NodeId>, SimError>(
                SimError::MissingOutputForPin,
            ) && final(self)@.edges == old(self)@.edges,
    {
        let ghost cv = self@;
        let mut i: usize = 0;
        while i < self.edges.len()
            invariant
                self.wf(),
                cv == self@,
                node < cv.nodes.len(),
                i <= cv.edges.len(),
                forall|j: int|
                    0 <= j < i ==> ((#[trigger] cv.edges[j]).src == node as int
                        ==> (cv.edges[j].src_pin as int) < outs@.len()),
            decreases cv.edges.len() - i,
        {
            let e = self.edges[i];
            if e.src == node && e.src_pin >= outs.len() {
                proof {
                    assert(!write_ok(cv.edges, node as int, outs@));
                }
                return Err(SimError::MissingOutputForPin);
            }
            i = i + 1;
        }
        assert(write_ok(cv.edges, node as int, outs@));
        let mut changed: Vec<NodeId> = Vec::new();
        let mut k: usize = 0;
        while k < self.edges.len()
            invariant
                node < cv.nodes.len(),
                cv.wf(),
                all_wf(outs@),
                write_ok(cv.edges, node as int, outs@),
                k <= cv.edges.len(),
                self@.nodes == cv.nodes,
                self@.edges.len() == cv.edges.len(),
                forall|j: int|
                    0 <= j < k ==> self@.edges[j] == write_edges(cv.edges, node as int, outs@)[j],
                forall|j: int| k <= j < cv.edges.len() ==> self@.edges[j] == cv.edges[j],
                changed@ == changed_dsts(cv.edges.take(k as int), node as int, outs@),
            decreases cv.edges.len() - k,
        {
            let e = self.edges[k];
            proof {
                assert(e == cv.edges[k as int]);
                assert(cv.edges.take(k + 1).drop_last() =~= cv.edges.take(k as int));
                assert(cv.edges.take(k + 1).last() == cv.edges[k as int]);
                assert(cv.edge_wf(cv.edges[k as int]));
            }
            if e.src == node {
                let nv = outs[e.src_pin];
                if !(nv == e.val) && e.dst != node {
                    changed.push(e.dst);
                }
                self.edges[k] = Edge {
                    src: e.src,
                    dst: e.dst,
                    src_pin: e.src_pin,
                    dst_pin: e.dst_pin,
                    val: nv,
                };
            }
            k = k + 1;
        }
        proof {
            assert(cv.edges.take(cv.edges.len() as int) =~= cv.edges);
            assert(self@.edges =~= write_edges(cv.edges, node as int, outs@));
            assert(self@.nodes =~= cv.nodes);
            assert forall|j: int|
                0 <= j < self@.edges.len() implies self@.edge_wf(#[trigger] self@.edges[j]) by {
                assert(cv.edge_wf(cv.edges[j]));
            }
        }
        Ok(changed)
    }
}

/// Whether every outgoing edge of the node has a produced output for its
/// declared source pin.
pub open spec fn write_ok(edges: Seq<Edge>, node: int, outs: Seq<Value>) -> bool {
    forall|i: int|
        0 <= i < edges.len() ==> ((#[trigger] edges[i]).src == node ==> (edges[i].src_pin as int)
            < outs.len())
}

/// The edge list after a node's outputs are written: every outgoing edge
/// takes the produced value of its source pin, all other edges are kept.
pub open spec fn write_edges(edges: Seq<Edge>, node: int, outs: Seq<Value>) -> Seq<Edge> {
    Seq::new(
        edges.len(),
        |i: int|
            if edges[i].src == node && (edges[i].src_pin as int) < outs.len() {
                Edge {
                    src: edges[i].src,
                    dst: edges[i].dst,
                    src_pin: edges[i].src_pin,
                    dst_pin: edges[i].dst_pin,
                    val: outs[edges[i].src_pin as int],
                }
            } else {
                edges[i]
            },
    )
}

/// The consumers whose incoming edge value a write changes, in edge order:
/// destinations of outgoing edges whose value differs from the produced
/// one. A node never wakes itself.
pub open spec fn changed_dsts(edges: Seq<Edge>, node: int, outs: Seq<Value>) -> Seq<NodeId>
    decreases edges.len(),
{
    if edges.len() == 0 {
        Seq::empty()
    } else {
        let e = edges.last();
        changed_dsts(edges.drop_last(), node, outs) + (if e.src == node && (e.src_pin as int)
            < outs.len() && outs[e.src_pin as int] != e.val && e.dst != node {
            seq![e.dst]
        } else {
            Seq::empty()
        })
    }
}

} // verus!
