//! The work-list evaluator over the circuit graph.
//!
//! The model owns one circuit and a FIFO queue of nodes awaiting
//! evaluation; a node sits in the queue at most once. Draining the queue
//! evaluates each node in enqueue order: its inputs are read off its
//! incoming edges, the component computes, the produced values are written
//! onto its outgoing edges, and every consumer whose incoming value changed
//! is enqueued in turn (a node never re-enqueues itself). Because the graph
//! may hold combinational cycles that oscillate, each drain carries an
//! evaluation budget; a drain that does not settle within it stops and
//! reports that it did not converge. Any fault aborts the drain, keeping
//! the writes already committed.

use vstd::prelude::*;

use crate::circuit::{
    changed_dsts, spec_collect_inputs, write_edges, write_ok, Circuit, CircuitView, Edge, NodeView,
    SignalId,
};
use crate::component::{Component, Phase};
use crate::error::SimError;
use crate::node::{next_generation, NodeId};
use crate::tagged_value::TaggedValue;
use crate::value::Value;
use std::collections::VecDeque;

verus! {

/// The mathematical state of the evaluator: the graph and the pending
/// queue.
pub ghost struct ModelView {
    /// The circuit graph.
    pub circuit: CircuitView,
    /// The pending nodes, in FIFO order.
    pub queue: Seq<NodeId>,
}

impl ModelView {
    /// Well-formedness: the graph is well formed and the queue holds valid
    /// node handles, each at most once.
    pub open spec fn wf(self) -> bool {
        &&& self.circuit.wf()
        &&& forall|i: int|
            0 <= i < self.queue.len() ==> (#[trigger] self.queue[i]) < self.circuit.nodes.len()
        &&& forall|i: int, j: int|
            0 <= i < j < self.queue.len() ==> self.queue[i] != self.queue[j]
    }
}

/// The queue after an idempotent enqueue: unchanged if the node is already
/// pending, appended otherwise.
pub open spec fn enqueue_v(q: Seq<NodeId>, node: NodeId) -> Seq<NodeId> {
    if q.contains(node) {
        q
    } else {
        q.push(node)
    }
}

/// The queue after enqueueing a list of nodes in order, each
/// idempotently.
pub open spec fn enqueue_all(q: Seq<NodeId>, list: Seq<NodeId>) -> Seq<NodeId>
    decreases list.len(),
{
    if list.len() == 0 {
        q
    } else {
        enqueue_all(enqueue_v(q, list[0]), list.drop_first())
    }
}

/// A model stays well formed when its graph has only grown and its queue
/// is unchanged or empty: the common case for the construction methods.
proof fn lemma_queue_wf(pre: ModelView, post: ModelView)
    requires
        pre.wf(),
        post.circuit.wf(),
        post.circuit.nodes.len() >= pre.circuit.nodes.len(),
        post.queue == pre.queue || post.queue.len() == 0,
    ensures
        post.wf(),
{
    if post.queue.len() != 0 {
        assert forall|i: int|
            0 <= i < post.queue.len() implies (#[trigger] post.queue[i])
            < post.circuit.nodes.len() by {
            assert(pre.queue[i] < pre.circuit.nodes.len());
        }
        assert forall|i: int, j: int|
            0 <= i < j < post.queue.len() implies post.queue[i] != post.queue[j] by {
            assert(pre.queue[i] != pre.queue[j]);
        }
    }
}

/// One evaluation step: pop the front node, read its inputs off the
/// edges, run its component, write the produced values onto its outgoing
/// edges, and enqueue every consumer whose incoming value changed. A
/// component fault pops the node and changes nothing else; a missing
/// output for a wired pin keeps the recomputed node state but writes no
/// edge.
pub open spec fn step_v(m: ModelView, phase: Phase) -> (ModelView, Result<(), SimError>)
    recommends
        m.queue.len() > 0,
{
    let node = m.queue[0];
    let rest = m.queue.drop_first();
    let inputs = spec_collect_inputs(m.circuit, node as int);
    let nv = m.circuit.nodes[node as int];
    if !nv.logic.update_ok(phase, inputs) {
        (ModelView { circuit: m.circuit, queue: rest }, Err(nv.logic.update_err()))
    } else {
        let outs = nv.logic.update_outs(phase, inputs);
        let nv2 = NodeView {
            id: nv.id,
            logic: nv.logic.update_next(phase, inputs),
            outputs: outs,
            generation: next_generation(nv.generation),
        };
        let c2 = CircuitView {
            nodes: m.circuit.nodes.update(node as int, nv2),
            edges: m.circuit.edges,
        };
        if !write_ok(m.circuit.edges, node as int, outs) {
            (ModelView { circuit: c2, queue: rest }, Err(SimError::MissingOutputForPin))
        } else {
            let c3 = CircuitView {
                nodes: c2.nodes,
                edges: write_edges(m.circuit.edges, node as int, outs),
            };
            let q2 = enqueue_all(rest, changed_dsts(m.circuit.edges, node as int, outs));
            (ModelView { circuit: c3, queue: q2 }, Ok(()))
        }
    }
}

/// A full drain with an evaluation budget: steps run until the queue is
/// empty, a fault aborts the drain, and an exhausted budget reports
/// non-convergence.
pub open spec fn drain_v(m: ModelView, phase: Phase, fuel: nat) -> (ModelView, Result<
    (),
    SimError,
>)
    decreases fuel,
{
    if m.queue.len() == 0 {
        (m, Ok(()))
    } else if fuel == 0 {
        (m, Err(SimError::NotConverged))
    } else {
        let sr = step_v(m, phase);
        if sr.1 is Err {
            sr
        } else {
            drain_v(sr.0, phase, (fuel - 1) as nat)
        }
    }
}

/// The per-drain evaluation budget: enough for every node to settle many
/// times over in an acyclic graph, and the bound that turns an oscillating
/// combinational cycle into a reported non-convergence.
pub open spec fn spec_budget(m: ModelView) -> nat {
    m.circuit.nodes.len() * 64 + 64
}

/// The nodes a write wakes inherit any bound on the edges' destinations.
proof fn lemma_changed_dsts_bound(edges: Seq<Edge>, node: int, outs: Seq<Value>, n: int)
    requires
        forall|i: int| 0 <= i < edges.len() ==> (#[trigger] edges[i]).dst < n,
    ensures
        forall|i: int|
            0 <= i < changed_dsts(edges, node, outs).len() ==> (#[trigger] changed_dsts(
                edges,
                node,
                outs,
            )[i]) < n,
    decreases edges.len(),
{
    if edges.len() > 0 {
        assert forall|i: int|
            0 <= i < edges.drop_last().len() implies (#[trigger] edges.drop_last()[i]).dst < n by {
            assert(edges.drop_last()[i] == edges[i]);
        }
        lemma_changed_dsts_bound(edges.drop_last(), node, outs, n);
        assert(edges.last() == edges[edges.len() - 1]);
        let pre = changed_dsts(edges.drop_last(), node, outs);
        let whole = changed_dsts(edges, node, outs);
        assert forall|i: int| 0 <= i < whole.len() implies (#[trigger] whole[i]) < n by {
            if i < pre.len() {
                assert(whole[i] == pre[i]);
            } else {
                assert(whole[i] == edges.last().dst);
            }
        }
    }
}

/// Copy a vector of values.
fn clone_values(src: &Vec<Value>) -> (r: Vec<Value>)
    ensures
        r@ == src@,
{
    let mut r: Vec<Value> = Vec::new();
    let mut i: usize = 0;
    while i < src.len()
        invariant
            i <= src@.len(),
            r@ == src@.take(i as int),
        decreases src@.len() - i,
    {
        r.push(src[i]);
        proof {
            assert(r@ =~= src@.take(i + 1));
        }
        i = i + 1;
    }
    proof {
        assert(src@.take(src@.len() as int) =~= src@);
    }
    r
}

/// The main circuit model: the graph plus the work queue.
#[derive(Debug)]
pub struct Model {
    /// The circuit graph the evaluator drives.
    pub circuit: Circuit,
    /// Nodes awaiting evaluation, in FIFO order, each at most once.
    pub queue: VecDeque<NodeId>,
}

impl View for Model {
    type V = ModelView;

    open spec fn view(&self) -> ModelView {
        ModelView { circuit: self.circuit@, queue: self.queue@ }
    }
}

impl Model {
    /// Well-formedness, via the abstraction.
    pub open spec fn wf(self) -> bool {
        self@.wf()
    }

    /// An empty model: no nodes, no edges, nothing pending.
    pub fn new() -> (m: Model)
        ensures
            m.wf(),
            m@.circuit.nodes.len() == 0,
            m@.circuit.edges.len() == 0,
            m@.queue.len() == 0,
    {
        Model { circuit: Circuit::new(), queue: VecDeque::new() }
    }

    /// Insert an owned component, returning its stable handle.
    pub fn add_component(&mut self, c: Component) -> (id: NodeId)
        requires
            old(self).wf(),
            c.wf(),
        ensures
            final(self).wf(),
            id == old(self)@.circuit.nodes.len(),
            final(self)@.circuit.edges == old(self)@.circuit.edges,
            final(self)@.queue == old(self)@.queue,
            final(self)@.circuit.nodes == old(self)@.circuit.nodes.push(
                NodeView { id: id as int, logic: c, outputs: c.init_outs(), generation: 0 },
            ),
    {
        let id = self.circuit.add_component(c);
        proof {
            lemma_queue_wf(old(self)@, final(self)@);
        }
        id
    }

    /// Connect an output pin to an input pin with a tagged edge carrying an
    /// initial value; fails if and only if a pin lies beyond a fixed
    /// declared arity.
    pub fn connect(
        &mut self,
        src: NodeId,
        dst: NodeId,
        src_pin: usize,
        dst_pin: usize,
        val: Value,
    ) -> (r: Result<SignalId, SimError>)
        requires
            old(self).wf(),
            src < old(self)@.circuit.nodes.len(),
            dst < old(self)@.circuit.nodes.len(),
            val.wf(),
        ensures
            final(self).wf(),
            final(self)@.circuit.nodes == old(self)@.circuit.nodes,
            final(self)@.queue == old(self)@.queue,
            old(self).circuit.pins_ok(src, dst, src_pin, dst_pin) ==> r == Ok::<
                SignalId,
                SimError,
            >(SignalId(old(self)@.circuit.edges.len() as usize)) && final(self)@.circuit.edges
                == old(self)@.circuit.edges.push(Edge { src, dst, src_pin, dst_pin, val }),
            !old(self).circuit.pins_ok(src, dst, src_pin, dst_pin) ==> r == Err::<
                SignalId,
                SimError,
            >(SimError::PinOutOfRange) && final(self)@.circuit.edges == old(self)@.circuit.edges,
    {
        let r = self.circuit.connect(src, dst, src_pin, dst_pin, val);
        proof {
            lemma_queue_wf(old(self)@, final(self)@);
        }
        r
    }

    /// Mark a node for evaluation in the next drain; idempotent, so a node
    /// is never pending twice.
    pub fn enqueue(&mut self, node: NodeId)
        requires
            old(self).wf(),
            node < old(self)@.circuit.nodes.len(),
        ensures
            final(self).wf(),
            final(self)@.circuit == old(self)@.circuit,
            final(self)@.queue == enqueue_v(old(self)@.queue, node),
    {
        let ghost q = self.queue@;
        let mut i: usize = 0;
        while i < self.queue.len()
            invariant
                old(self).wf(),
                self@ == old(self)@,
                q == self.queue@,
                i <= q.len(),
                forall|j: int| 0 <= j < i ==> q[j] != node,
            decreases q.len() - i,
        {
            if self.queue[i] == node {
                proof {
                    assert(q.contains(node));
                }
                return ;
            }
            i = i + 1;
        }
        proof {
            assert(!q.contains(node)) by {
                if q.contains(node) {
                    let j = choose|j: int| 0 <= j < q.len() && q[j] == node;
                    assert(q[j] != node);
                }
            }
        }
        self.queue.push_back(node);
        proof {
            let oldq = old(self)@.queue;
            let newq = final(self)@.queue;
            assert(newq == oldq.push(node));
            assert forall|i: int|
                0 <= i < newq.len() implies (#[trigger] newq[i])
                < final(self)@.circuit.nodes.len() by {
                if i < oldq.len() {
                    assert(oldq[i] < old(self)@.circuit.nodes.len());
                }
            }
            assert forall|i: int, j: int| 0 <= i < j < newq.len() implies newq[i] != newq[j] by {
                if j < oldq.len() {
                    assert(oldq[i] != oldq[j]);
                } else {
                    assert(newq[j] == node);
                    assert(oldq[i] != node);
                }
            }
        }
    }

    /// Drop all pending work without evaluating any of it.
    pub fn clear_queue(&mut self)
        requires
            old(self).wf(),
        ensures
            final(self).wf(),
            final(self)@.circuit == old(self)@.circuit,
            final(self)@.queue.len() == 0,
    {
        self.queue.clear();
        proof {
            lemma_queue_wf(old(self)@, final(self)@);
        }
    }

    /// Evaluate the front node of the queue once, per [`step_v`].
    fn step(&mut self, phase: Phase) -> (r: Result<(), SimError>)
        requires
            old(self).wf(),
            old(self)@.queue.len() > 0,
        ensures
            final(self).wf(),
            final(self)@ == step_v(old(self)@, phase).0,
            r == step_v(old(self)@, phase).1,
    {
        let ghost m0 = self@;
        let node = match self.queue.pop_front() {
            Some(n) => n,
            None => {
                proof {
                    assert(false);
                }
                0
            },
        };
        proof {
            assert(node == m0.queue[0]);
            assert(self.queue@ =~= m0.queue.drop_first());
            assert(m0.queue[0] < m0.circuit.nodes.len());
            assert forall|i: int|
                0 <= i < self.queue@.len() implies (#[trigger] self.queue@[i])
                < m0.circuit.nodes.len() by {
                assert(m0.queue[i + 1] < m0.circuit.nodes.len());
            }
            assert forall|i: int, j: int|
                0 <= i < j < self.queue@.len() implies self.queue@[i] != self.queue@[j] by {
                assert(m0.queue[i + 1] != m0.queue[j + 1]);
            }
        }
        let inputs = self.circuit.collect_inputs(node);
        let ghost iv = spec_collect_inputs(m0.circuit, node as int);
        proof {
            assert(self.circuit.nodes@[node as int]@.wf());
        }
        let res = self.circuit.nodes[node].update(phase, &inputs);
        let ghost nv = m0.circuit.nodes[node as int];
        match res {
            Err(e) => {
                proof {
                    assert(self.circuit@.nodes =~= m0.circuit.nodes);
                    assert(self.circuit@ == m0.circuit);
                    assert(final(self)@ == step_v(m0, phase).0);
                }
                return Err(e);
            },
            Ok(()) => {},
        }
        let ghost nv2 = NodeView {
            id: nv.id,
            logic: nv.logic.update_next(phase, iv),
            outputs: nv.logic.update_outs(phase, iv),
            generation: next_generation(nv.generation),
        };
        proof {
            assert(self.circuit@.nodes =~= m0.circuit.nodes.update(node as int, nv2));
            assert forall|i: int|
                0 <= i < self.circuit@.nodes.len() implies (#[trigger] self.circuit@.nodes[i]).wf()
                && self.circuit@.nodes[i].id == i by {
                if i != node as int {
                    assert(m0.circuit.nodes[i].wf() && m0.circuit.nodes[i].id == i);
                }
            }
            assert forall|i: int|
                0 <= i < self.circuit@.edges.len() implies self.circuit@.edge_wf(
                #[trigger] self.circuit@.edges[i],
            ) by {
                assert(m0.circuit.edge_wf(m0.circuit.edges[i]));
            }
        }
        let outs = clone_values(&self.circuit.nodes[node].state.outputs);
        let ghost c2 = CircuitView {
            nodes: m0.circuit.nodes.update(node as int, nv2),
            edges: m0.circuit.edges,
        };
        proof {
            assert(self.circuit@ == c2);
        }
        match self.circuit.write_outputs(node, &outs) {
            Err(e) => {
                proof {
                    assert(self.circuit@ == c2);
                    assert(final(self)@ == step_v(m0, phase).0);
                }
                Err(e)
            },
            Ok(changed) => {
                let ghost q0 = self.queue@;
                proof {
                    assert forall|i: int|
                        0 <= i < m0.circuit.edges.len() implies (#[trigger] m0.circuit.edges[i]).dst
                        < m0.circuit.nodes.len() by {
                        assert(m0.circuit.edge_wf(m0.circuit.edges[i]));
                    }
                    lemma_changed_dsts_bound(
                        m0.circuit.edges,
                        node as int,
                        outs@,
                        m0.circuit.nodes.len() as int,
                    );
                }
                let ghost target = step_v(m0, phase).0;
                proof {
                    assert(changed@.skip(0) =~= changed@);
                }
                let mut i: usize = 0;
                while i < changed.len()
                    invariant
                        self.wf(),
                        i <= changed@.len(),
                        self@.circuit == target.circuit,
                        forall|j: int|
                            0 <= j < changed@.len() ==> (#[trigger] changed@[j])
                                < self@.circuit.nodes.len(),
                        enqueue_all(q0, changed@) == enqueue_all(
                            self@.queue,
                            changed@.skip(i as int),
                        ),
                    decreases changed@.len() - i,
                {
                    let d = changed[i];
                    proof {
                        assert(changed@.skip(i as int)[0] == changed@[i as int]);
                        assert(changed@.skip(i as int).drop_first() =~= changed@.skip(i + 1));
                    }
                    self.enqueue(d);
                    i = i + 1;
                }
                proof {
                    assert(changed@.skip(changed@.len() as int) =~= Seq::<NodeId>::empty());
                    assert(enqueue_all(q0, changed@) == self@.queue);
                    assert(final(self)@ == step_v(m0, phase).0);
                }
                Ok(())
            },
        }
    }

    /// Drain the queue for one phase under the evaluation budget, per
    /// [`drain_v`].
    fn process_queue(&mut self, phase: Phase) -> (r: Result<(), SimError>)
        requires
            old(self).wf(),
        ensures
            final(self).wf(),
            final(self)@ == drain_v(old(self)@, phase, spec_budget(old(self)@)).0,
            r == drain_v(old(self)@, phase, spec_budget(old(self)@)).1,
    {
        let ghost m0 = self@;
        let n = self.circuit.nodes.len();
        let budget: u128 = (n as u128) * 64 + 64;
        proof {
            assert(budget as nat == spec_budget(m0));
        }
        let mut steps: u128 = 0;
        while self.queue.len() != 0 && steps < budget
            invariant
                self.wf(),
                m0 == old(self)@,
                steps <= budget,
                budget as nat == spec_budget(m0),
                drain_v(m0, phase, spec_budget(m0)) == drain_v(
                    self@,
                    phase,
                    (budget - steps) as nat,
                ),
            decreases budget - steps,
        {
            let ghost pre = self@;
            let ghost rem = (budget - steps) as nat;
            match self.step(phase) {
                Ok(()) => {
                    proof {
                        assert(drain_v(pre, phase, rem) == drain_v(
                            step_v(pre, phase).0,
                            phase,
                            (rem - 1) as nat,
                        ));
                    }
                    steps = steps + 1;
                },
                Err(e) => {
                    proof {
                        assert(drain_v(pre, phase, rem) == (step_v(pre, phase).0, Err::<
                            (),
                            SimError,
                        >(e)));
                    }
                    return Err(e);
                },
            }
        }
        if self.queue.len() == 0 {
            proof {
                assert(drain_v(self@, phase, (budget - steps) as nat) == (self@, Ok::<
                    (),
                    SimError,
                >(())));
            }
            Ok(())
        } else {
            proof {
                assert(steps == budget);
                assert(drain_v(self@, phase, 0nat) == (self@, Err::<(), SimError>(
                    SimError::NotConverged,
                )));
            }
            Err(SimError::NotConverged)
        }
    }

    /// Run the combinational phase: drain the queue in FIFO order, every
    /// dequeued node evaluated exactly once per visit, consumers of changed
    /// values enqueued in turn, all bounded by the evaluation budget.
    pub fn run_normal(&mut self) -> (r: Result<(), SimError>)
        requires
            old(self).wf(),
        ensures
            final(self).wf(),
            final(self)@ == drain_v(old(self)@, Phase::Normal, spec_budget(old(self)@)).0,
            r == drain_v(old(self)@, Phase::Normal, spec_budget(old(self)@)).1,
    {
        self.process_queue(Phase::Normal)
    }

    /// Run the rising-clock-edge phase; see [`Model::run_normal`].
    pub fn run_rising_edge(&mut self) -> (r: Result<(), SimError>)
        requires
            old(self).wf(),
        ensures
            final(self).wf(),
            final(self)@ == drain_v(old(self)@, Phase::RisingEdge, spec_budget(old(self)@)).0,
            r == drain_v(old(self)@, Phase::RisingEdge, spec_budget(old(self)@)).1,
    {
        self.process_queue(Phase::RisingEdge)
    }

    /// Run the falling-clock-edge phase; see [`Model::run_normal`].
    pub fn run_falling_edge(&mut self) -> (r: Result<(), SimError>)
        requires
            old(self).wf(),
        ensures
            final(self).wf(),
            final(self)@ == drain_v(old(self)@, Phase::FallingEdge, spec_budget(old(self)@)).0,
            r == drain_v(old(self)@, Phase::FallingEdge, spec_budget(old(self)@)).1,
    {
        self.process_queue(Phase::FallingEdge)
    }

    /// The number of nodes in the graph.
    pub fn num_nodes(&self) -> (n: usize)
        ensures
            n == self@.circuit.nodes.len(),
    {
        self.circuit.nodes.len()
    }

    /// The latest outputs of a node, each labelled with its tag, for
    /// display.
    pub fn read_node(&self, node: NodeId) -> (r: Vec<TaggedValue>)
        requires
            node < self@.circuit.nodes.len(),
        ensures
            r@.len() == self@.circuit.nodes[node as int].outputs.len(),
            forall|i: int|
                0 <= i < r@.len() ==> (#[trigger] r@[i].tag)@ == "out"@ && r@[i].value
                    == self@.circuit.nodes[node as int].outputs[i],
    {
        self.circuit.nodes[node].read_values()
    }

    /// A human-readable dump of a node's component state, for display.
    pub fn node_state_string(&self, node: NodeId) -> (s: String)
        requires
            self.wf(),
            node < self@.circuit.nodes.len(),
        ensures
            s@ == self@.circuit.nodes[node as int].logic.spec_state_string(),
    {
        proof {
            assert(self@.circuit.nodes[node as int].wf());
        }
        self.circuit.nodes[node].logic.state_string()
    }

    /// The value most recently written onto an edge.
    pub fn edge_value(&self, edge: SignalId) -> (v: Value)
        requires
            edge.0 < self@.circuit.edges.len(),
        ensures
            v == self@.circuit.edges[edge.0 as int].val,
    {
        self.circuit.edges[edge.0].val
    }
}

} // verus!
