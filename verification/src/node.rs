//! Graph nodes: a component plus its cached evaluation state.
//!
//! A node owns one component and remembers the outputs of its latest
//! evaluation, so that the editor can read them back for display without
//! re-running anything. A generation counter distinguishes state changes
//! across evaluations.

use vstd::prelude::*;
use vstd::string::StringExecFns;

use crate::component::{Component, Phase};
use crate::error::SimError;
use crate::gates::all_wf;
use crate::register::I_TOTAL;
use crate::tagged_value::TaggedValue;
use crate::value::{spec_unknown, Value};

verus! {

/// A stable handle to a node of the circuit graph: its index in the arena.
pub type NodeId = usize;

/// The cached evaluation state of a node.
#[derive(Clone, Debug)]
pub struct NodeState {
    /// The outputs of the latest evaluation (or of initialization).
    pub outputs: Vec<Value>,
    /// Bumped on every successful evaluation.
    pub generation: u32,
}

/// The generation counter after one more evaluation.
pub open spec fn next_generation(g: u32) -> u32 {
    if g == u32::MAX {
        0
    } else {
        (g + 1) as u32
    }
}

impl NodeState {
    /// Well-formedness: every cached output is well formed.
    pub open spec fn wf(self) -> bool {
        all_wf(self.outputs@)
    }

    /// A fresh state: one all-indeterminate single-bit placeholder per
    /// output, and generation zero. The input arity is part of the node's
    /// shape but needs no storage of its own.
    pub fn new(num_inputs: usize, num_outputs: usize) -> (st: NodeState)
        ensures
            st.outputs@.len() == num_outputs,
            forall|i: int| 0 <= i < num_outputs ==> st.outputs@[i] == spec_unknown(1),
            st.generation == 0,
            st.wf(),
    {
        let _ = num_inputs;
        let mut outputs: Vec<Value> = Vec::new();
        let mut i: usize = 0;
        while i < num_outputs
            invariant
                i <= num_outputs,
                outputs@.len() == i,
                forall|j: int| 0 <= j < i ==> outputs@[j] == spec_unknown(1),
                all_wf(outputs@),
            decreases num_outputs - i,
        {
            outputs.push(Value::unknown(1));
            i = i + 1;
        }
        NodeState { outputs, generation: 0 }
    }
}

/// A graph node: a component with its identity and cached state.
#[derive(Clone, Debug)]
pub struct Node {
    /// The node's handle, equal to its index in the graph arena.
    pub id: NodeId,
    /// The logic the node evaluates.
    pub logic: Component,
    /// The outputs of the latest evaluation, kept for read-back.
    pub state: NodeState,
}

impl Node {
    /// Well-formedness: the component and every cached output are well
    /// formed.
    pub open spec fn wf(self) -> bool {
        &&& self.logic.wf()
        &&& self.state.wf()
    }

    /// A node around a component, with the component's initial outputs
    /// cached.
    pub fn new(id: NodeId, logic: Component) -> (n: Node)
        requires
            logic.wf(),
        ensures
            n.id == id,
            n.logic == logic,
            n.state.outputs@ == logic.init_outs(),
            n.state.generation == 0,
            n.wf(),
    {
        let mut logic = logic;
        let num_in = logic.num_inputs();
        let mut state = NodeState::new(num_in, 1);
        state.outputs = logic.init();
        Node { id, logic, state }
    }

    /// The latest outputs, each labelled with the producing tag, for
    /// display.
    pub fn read_values(&self) -> (r: Vec<TaggedValue>)
        ensures
            r@.len() == self.state.outputs@.len(),
            forall|i: int|
                0 <= i < r@.len() ==> (#[trigger] r@[i].tag)@ == "out"@ && r@[i].value
                    == self.state.outputs@[i],
    {
        let mut r: Vec<TaggedValue> = Vec::new();
        let mut i: usize = 0;
        while i < self.state.outputs.len()
            invariant
                i <= self.state.outputs@.len(),
                r@.len() == i,
                forall|j: int|
                    0 <= j < i ==> (#[trigger] r@[j].tag)@ == "out"@ && r@[j].value
                        == self.state.outputs@[j],
            decreases self.state.outputs@.len() - i,
        {
            let tag = String::from_str("out");
            r.push(TaggedValue::new(tag, self.state.outputs[i]));
            i = i + 1;
        }
        r
    }

    /// Evaluate the component for one phase and cache the produced outputs.
    /// The state change mirrors [`Component::update`]; a fault leaves the
    /// node untouched.
    pub fn update(&mut self, phase: Phase, inputs: &Vec<Value>) -> (r: Result<(), SimError>)
        requires
            old(self).wf(),
            all_wf(inputs@),
            old(self).logic is Register ==> inputs@.len() == I_TOTAL as int,
        ensures
            final(self).wf(),
            final(self).id == old(self).id,
            final(self).logic.spec_num_inputs() == old(self).logic.spec_num_inputs(),
            final(self).logic.spec_num_outputs() == old(self).logic.spec_num_outputs(),
            final(self).logic.fixed_arity() == old(self).logic.fixed_arity(),
            old(self).logic.update_ok(phase, inputs@) ==> r == Ok::<(), SimError>(())
                && final(self).logic == old(self).logic.update_next(phase, inputs@)
                && final(self).state.outputs@ == old(self).logic.update_outs(phase, inputs@)
                && final(self).state.generation == next_generation(old(self).state.generation),
            !old(self).logic.update_ok(phase, inputs@) ==> r == Err::<(), SimError>(
                old(self).logic.update_err(),
            ) && *final(self) == *old(self),
    {
        match self.logic.update(phase, inputs) {
            Ok(outs) => {
                self.state.outputs = outs;
                self.state.generation = if self.state.generation == u32::MAX {
                    0
                } else {
                    self.state.generation + 1
                };
                Ok(())
            },
            Err(e) => Err(e),
        }
    }
}

} // verus!
