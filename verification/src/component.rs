//! The closed set of logic components and their common update contract.
//!
//! Components are a tagged sum dispatched by a single `match`: the six gate
//! kinds, the register and the wire. Gates and wires are pure functions of
//! their instantaneous inputs and behave the same in every phase; the
//! register applies its clocked rule only in the combinational phase and
//! merely re-emits its stored value in the edge phases.

use vstd::prelude::*;
use vstd::string::StringExecFns;

use crate::error::SimError;
use crate::gates::{
    all_wf, gate_inputs, gate_output, same_widths, AndGate, GateOp, NandGate,
    NorGate, OrGate, XNorGate, XorGate,
};
use crate::register::{reg_step_ok, reg_step_out, reg_step_state, Register, I_TOTAL, O_TOTAL};
use crate::value::{spec_floating, Value};
use crate::wire::{wire_out, Wire};

verus! {

/// The evaluation phase a drain runs: one of the three entry points of the
/// evaluator.
#[derive(Clone, Copy, Debug, PartialEq, Eq, Structural)]
pub enum Phase {
    /// Combinational pass: every component recomputes, the register applies
    /// its CLEAR / rising-edge rule.
    Normal,
    /// Rising-clock-edge pass: stateful components re-emit their stored
    /// state without changing it.
    RisingEdge,
    /// Falling-clock-edge pass: as the rising pass.
    FallingEdge,
}

/// A logic component: one of the closed set of node kinds the graph owns.
#[derive(Clone, Copy, Debug, PartialEq, Eq, Structural)]
pub enum Component {
    /// An AND gate.
    AndGate(AndGate),
    /// An OR gate.
    OrGate(OrGate),
    /// A XOR gate.
    XorGate(XorGate),
    /// A NAND gate.
    NandGate(NandGate),
    /// A NOR gate.
    NorGate(NorGate),
    /// An XNOR gate.
    XNorGate(XNorGate),
    /// A register.
    Register(Register),
    /// A wire.
    Wire(Wire),
}

impl Component {
    /// Well-formedness of the wrapped component.
    pub open spec fn wf(self) -> bool {
        match self {
            Component::AndGate(g) => g.wf(),
            Component::OrGate(g) => g.wf(),
            Component::XorGate(g) => g.wf(),
            Component::NandGate(g) => g.wf(),
            Component::NorGate(g) => g.wf(),
            Component::XNorGate(g) => g.wf(),
            Component::Register(r) => r.wf(),
            Component::Wire(w) => w.wf(),
        }
    }

    /// The declared input arity; zero means variable fan-in.
    pub open spec fn spec_num_inputs(self) -> int {
        match self {
            Component::AndGate(g) => g.num_inputs as int,
            Component::OrGate(g) => g.num_inputs as int,
            Component::XorGate(g) => g.num_inputs as int,
            Component::NandGate(g) => g.num_inputs as int,
            Component::NorGate(g) => g.num_inputs as int,
            Component::XNorGate(g) => g.num_inputs as int,
            Component::Register(_) => I_TOTAL as int,
            Component::Wire(_) => 0,
        }
    }

    /// The declared output arity; zero means no fixed pin contract.
    pub open spec fn spec_num_outputs(self) -> int {
        match self {
            Component::Register(_) => O_TOTAL as int,
            Component::Wire(_) => 0,
            _ => 1,
        }
    }

    /// Whether the component has a fixed pin contract. The wire is the one
    /// kind with variable fan-in: the evaluator gathers all its incoming
    /// edges instead of indexing by pin.
    pub open spec fn fixed_arity(self) -> bool {
        !(self is Wire)
    }

    /// What an unconnected input pin reads as: all-floating at the width
    /// the pin expects (the data width, or one bit for register controls).
    pub open spec fn default_input(self, pin: int) -> Value {
        match self {
            Component::AndGate(g) => spec_floating(g.bitsize),
            Component::OrGate(g) => spec_floating(g.bitsize),
            Component::XorGate(g) => spec_floating(g.bitsize),
            Component::NandGate(g) => spec_floating(g.bitsize),
            Component::NorGate(g) => spec_floating(g.bitsize),
            Component::XNorGate(g) => spec_floating(g.bitsize),
            Component::Register(r) => if pin == 0 {
                spec_floating(r.stored.width)
            } else {
                spec_floating(1)
            },
            Component::Wire(w) => spec_floating(w.width),
        }
    }

    /// The outputs the component drives before any evaluation.
    pub open spec fn init_outs(self) -> Seq<Value> {
        match self {
            Component::AndGate(g) => seq![spec_floating(g.bitsize)],
            Component::OrGate(g) => seq![spec_floating(g.bitsize)],
            Component::XorGate(g) => seq![spec_floating(g.bitsize)],
            Component::NandGate(g) => seq![spec_floating(g.bitsize)],
            Component::NorGate(g) => seq![spec_floating(g.bitsize)],
            Component::XNorGate(g) => seq![spec_floating(g.bitsize)],
            Component::Register(r) => seq![r.stored],
            Component::Wire(w) => seq![spec_floating(w.width)],
        }
    }

    /// Whether an update on these inputs succeeds: gates need their
    /// evaluated inputs to agree on a width, the register needs readable
    /// controls in the combinational phase, and wires never fail.
    pub open spec fn update_ok(self, phase: Phase, s: Seq<Value>) -> bool {
        match self {
            Component::AndGate(g) => gate_ok(g.num_inputs, s),
            Component::OrGate(g) => gate_ok(g.num_inputs, s),
            Component::XorGate(g) => gate_ok(g.num_inputs, s),
            Component::NandGate(g) => gate_ok(g.num_inputs, s),
            Component::NorGate(g) => gate_ok(g.num_inputs, s),
            Component::XNorGate(g) => gate_ok(g.num_inputs, s),
            Component::Register(_) => phase == Phase::Normal ==> reg_step_ok(s),
            Component::Wire(_) => true,
        }
    }

    /// The fault reported when an update fails.
    pub open spec fn update_err(self) -> SimError {
        if self is Register {
            SimError::UndefinedControl
        } else {
            SimError::WidthMismatch
        }
    }

    /// The component state after a successful update: only the register
    /// ever changes, and only in the combinational phase.
    pub open spec fn update_next(self, phase: Phase, s: Seq<Value>) -> Component {
        match self {
            Component::Register(r) => if phase == Phase::Normal {
                Component::Register(reg_step_state(r, s))
            } else {
                self
            },
            _ => self,
        }
    }

    /// The outputs of a successful update.
    pub open spec fn update_outs(self, phase: Phase, s: Seq<Value>) -> Seq<Value> {
        match self {
            Component::AndGate(g) => gate_outs(GateOp::And, false, g.bitsize, g.num_inputs, s),
            Component::OrGate(g) => gate_outs(GateOp::Or, false, g.bitsize, g.num_inputs, s),
            Component::XorGate(g) => gate_outs(GateOp::Xor, false, g.bitsize, g.num_inputs, s),
            Component::NandGate(g) => gate_outs(GateOp::And, true, g.bitsize, g.num_inputs, s),
            Component::NorGate(g) => gate_outs(GateOp::Or, true, g.bitsize, g.num_inputs, s),
            Component::XNorGate(g) => gate_outs(GateOp::Xor, true, g.bitsize, g.num_inputs, s),
            Component::Register(r) => if phase == Phase::Normal {
                seq![reg_step_out(r, s)]
            } else {
                seq![r.stored]
            },
            Component::Wire(w) => seq![wire_out(w.width, s)],
        }
    }
}

/// Whether a gate reduction over these inputs stays within one width.
pub open spec fn gate_ok(num_inputs: u8, s: Seq<Value>) -> bool {
    let t = gate_inputs(num_inputs, s);
    t.len() == 0 || same_widths(t)
}

/// The single output of a gate update: floating when nothing is evaluated,
/// the (possibly complemented) reduction otherwise.
pub open spec fn gate_outs(
    op: GateOp,
    invert: bool,
    bitsize: u8,
    num_inputs: u8,
    s: Seq<Value>,
) -> Seq<Value> {
    let t = gate_inputs(num_inputs, s);
    if t.len() == 0 {
        seq![spec_floating(bitsize)]
    } else {
        seq![gate_output(op, invert, t)]
    }
}

impl Component {
    /// The initial outputs: what the component drives before evaluation.
    pub fn init(&mut self) -> (outs: Vec<Value>)
        requires
            old(self).wf(),
        ensures
            *final(self) == *old(self),
            outs@ == old(self).init_outs(),
            all_wf(outs@),
    {
        match *self {
            Component::AndGate(mut g) => g.init(),
            Component::OrGate(mut g) => g.init(),
            Component::XorGate(mut g) => g.init(),
            Component::NandGate(mut g) => g.init(),
            Component::NorGate(mut g) => g.init(),
            Component::XNorGate(mut g) => g.init(),
            Component::Register(mut r) => r.init(),
            Component::Wire(mut w) => w.init(),
        }
    }

    /// Evaluate the component for one phase: the outputs, the state change
    /// and the possible fault follow [`Component::update_outs`],
    /// [`Component::update_next`] and [`Component::update_err`] exactly.
    pub fn update(&mut self, phase: Phase, inputs: &Vec<Value>) -> (r: Result<Vec<Value>, SimError>)
        requires
            old(self).wf(),
            all_wf(inputs@),
            *old(self) is Register ==> inputs@.len() == I_TOTAL as int,
        ensures
            final(self).wf(),
            final(self).spec_num_inputs() == old(self).spec_num_inputs(),
            final(self).spec_num_outputs() == old(self).spec_num_outputs(),
            final(self).fixed_arity() == old(self).fixed_arity(),
            old(self).update_ok(phase, inputs@) ==> (r matches Ok(outs) && outs@ == old(
                self,
            ).update_outs(phase, inputs@) && *final(self) == old(self).update_next(phase, inputs@)
                && all_wf(outs@)),
            !old(self).update_ok(phase, inputs@) ==> r == Err::<Vec<Value>, SimError>(
                old(self).update_err(),
            ) && *final(self) == *old(self),
    {
        match *self {
            Component::AndGate(mut g) => g.update(inputs),
            Component::OrGate(mut g) => g.update(inputs),
            Component::XorGate(mut g) => g.update(inputs),
            Component::NandGate(mut g) => g.update(inputs),
            Component::NorGate(mut g) => g.update(inputs),
            Component::XNorGate(mut g) => g.update(inputs),
            Component::Register(mut r) => {
                if matches!(phase, Phase::Normal) {
                    let res = r.update(inputs);
                    *self = Component::Register(r);
                    res
                } else {
                    let mut outs: Vec<Value> = Vec::new();
                    outs.push(r.stored);
                    proof {
                        assert(outs@ =~= seq![r.stored]);
                    }
                    Ok(outs)
                }
            },
            Component::Wire(mut w) => Ok(w.update(inputs)),
        }
    }

    /// What the given unconnected input pin reads as.
    pub fn default_for_pin(&self, pin: usize) -> (v: Value)
        requires
            self.wf(),
        ensures
            v == self.default_input(pin as int),
            v.wf(),
    {
        match *self {
            Component::AndGate(g) => Value::floating(g.bitsize),
            Component::OrGate(g) => Value::floating(g.bitsize),
            Component::XorGate(g) => Value::floating(g.bitsize),
            Component::NandGate(g) => Value::floating(g.bitsize),
            Component::NorGate(g) => Value::floating(g.bitsize),
            Component::XNorGate(g) => Value::floating(g.bitsize),
            Component::Register(r) => {
                if pin == 0 {
                    Value::floating(r.stored.width)
                } else {
                    Value::floating(1)
                }
            },
            Component::Wire(w) => Value::floating(w.width),
        }
    }

    /// The declared input arity; zero for the variable-fan-in wire.
    pub fn num_inputs(&self) -> (n: usize)
        ensures
            n as int == self.spec_num_inputs(),
    {
        match *self {
            Component::AndGate(g) => g.num_inputs(),
            Component::OrGate(g) => g.num_inputs(),
            Component::XorGate(g) => g.num_inputs(),
            Component::NandGate(g) => g.num_inputs(),
            Component::NorGate(g) => g.num_inputs(),
            Component::XNorGate(g) => g.num_inputs(),
            Component::Register(r) => r.num_inputs(),
            Component::Wire(w) => w.num_inputs(),
        }
    }

    /// A human-readable dump of the component's internal state, for the
    /// editor layer to display: the kind's name and, for the register, the
    /// stored value.
    pub fn state_string(&self) -> (s: String)
        requires
            self.wf(),
        ensures
            s@ == self.spec_state_string(),
    {
        match *self {
            Component::AndGate(_) => String::from_str("and gate"),
            Component::OrGate(_) => String::from_str("or gate"),
            Component::XorGate(_) => String::from_str("xor gate"),
            Component::NandGate(_) => String::from_str("nand gate"),
            Component::NorGate(_) => String::from_str("nor gate"),
            Component::XNorGate(_) => String::from_str("xnor gate"),
            Component::Register(r) => {
                let mut s = String::from_str("register ");
                let stored = r.stored.display_string();
                s.append(stored.as_str());
                s
            },
            Component::Wire(_) => String::from_str("wire"),
        }
    }

    /// What [`Component::state_string`] renders.
    pub open spec fn spec_state_string(self) -> Seq<char> {
        match self {
            Component::AndGate(_) => "and gate"@,
            Component::OrGate(_) => "or gate"@,
            Component::XorGate(_) => "xor gate"@,
            Component::NandGate(_) => "nand gate"@,
            Component::NorGate(_) => "nor gate"@,
            Component::XNorGate(_) => "xnor gate"@,
            Component::Register(r) => "register "@ + crate::value::spec_display(r.stored),
            Component::Wire(_) => "wire"@,
        }
    }

    /// The declared output arity; zero for the wire.
    pub fn num_outputs(&self) -> (n: usize)
        ensures
            n as int == self.spec_num_outputs(),
    {
        match *self {
            Component::AndGate(g) => g.num_outputs(),
            Component::OrGate(g) => g.num_outputs(),
            Component::XorGate(g) => g.num_outputs(),
            Component::NandGate(g) => g.num_outputs(),
            Component::NorGate(g) => g.num_outputs(),
            Component::XNorGate(g) => g.num_outputs(),
            Component::Register(r) => r.num_outputs(),
            Component::Wire(w) => w.num_outputs(),
        }
    }
}

} // verus!
