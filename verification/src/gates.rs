//! Combinational gate components.
//!
//! Each gate has a bit width and an input arity fixed at construction. An
//! update reduces its configured inputs left to right with a two-operand
//! four-state operator and, for the inverted variants, complements the
//! result. Reducing zero inputs yields the all-floating value of the
//! configured width: a defined fallback, not an error. Gates are stateless;
//! identical inputs always produce identical outputs.

use vstd::prelude::*;

use crate::error::SimError;
use crate::value::{
    spec_and, spec_floating, spec_mask, spec_not, spec_or, spec_xor, lemma_and_defined,
    lemma_and_wf, lemma_not_defined, lemma_not_wf, lemma_or_defined, lemma_or_wf,
    lemma_xor_defined, lemma_xor_wf, Value,
};

verus! {

/// The binary four-state operator a gate reduces with.
#[derive(Clone, Copy, Debug, PartialEq, Eq, Structural)]
pub enum GateOp {
    /// Reduce with four-state AND.
    And,
    /// Reduce with four-state OR.
    Or,
    /// Reduce with four-state XOR.
    Xor,
}

/// One application of a gate operator.
pub open spec fn apply_op(op: GateOp, a: Value, b: Value) -> Value {
    match op {
        GateOp::And => spec_and(a, b),
        GateOp::Or => spec_or(a, b),
        GateOp::Xor => spec_xor(a, b),
    }
}

/// Left-to-right reduction of a non-empty sequence of values.
pub open spec fn gate_fold(op: GateOp, s: Seq<Value>) -> Value
    recommends
        s.len() >= 1,
    decreases s.len(),
{
    if s.len() <= 1 {
        s[0]
    } else {
        apply_op(op, gate_fold(op, s.drop_last()), s.last())
    }
}

/// Whether every value in the sequence shares the width of the first.
pub open spec fn same_widths(s: Seq<Value>) -> bool {
    forall|i: int| 0 <= i < s.len() ==> #[trigger] s[i].width == s[0].width
}

/// Whether every value in the sequence is well formed.
pub open spec fn all_wf(s: Seq<Value>) -> bool {
    forall|i: int| 0 <= i < s.len() ==> #[trigger] s[i].wf()
}

/// The inputs a gate of the given arity evaluates: the first `num_inputs`
/// values handed to it, or all of them if fewer were handed over.
pub open spec fn gate_inputs(num_inputs: u8, inputs: Seq<Value>) -> Seq<Value> {
    if inputs.len() < num_inputs as int {
        inputs
    } else {
        inputs.take(num_inputs as int)
    }
}

/// The single output of a gate reduction over a non-empty input sequence.
pub open spec fn gate_output(op: GateOp, invert: bool, s: Seq<Value>) -> Value {
    if invert {
        spec_not(gate_fold(op, s))
    } else {
        gate_fold(op, s)
    }
}

/// The full contract of a gate update: zero evaluated inputs yield the
/// all-floating value of the configured width, equal-width inputs yield the
/// (possibly complemented) left-to-right reduction, and a width mismatch
/// among the evaluated inputs is reported as such.
pub open spec fn gate_update_result(
    op: GateOp,
    invert: bool,
    bitsize: u8,
    num_inputs: u8,
    inputs: Seq<Value>,
    r: Result<Vec<Value>, SimError>,
) -> bool {
    let s = gate_inputs(num_inputs, inputs);
    &&& (s.len() == 0 ==> (r matches Ok(outs) && outs@.len() == 1 && outs@[0] == spec_floating(
        bitsize,
    ) && outs@[0].wf()))
    &&& (s.len() > 0 && same_widths(s) ==> (r matches Ok(outs) && outs@.len() == 1 && outs@[0]
        == gate_output(op, invert, s) && outs@[0].wf()))
    &&& (s.len() > 0 && !same_widths(s) ==> r == Err::<Vec<Value>, SimError>(
        SimError::WidthMismatch,
    ))
}

/// Reduce the first `num_inputs` values with the operator, complementing the
/// result when `invert` is set. Shared by all six gate kinds.
fn reduce_gate(
    op: GateOp,
    invert: bool,
    bitsize: u8,
    num_inputs: u8,
    inputs: &Vec<Value>,
) -> (r: Result<Vec<Value>, SimError>)
    requires
        1 <= bitsize <= 32,
        all_wf(inputs@),
    ensures
        gate_update_result(op, invert, bitsize, num_inputs, inputs@, r),
{
    let n_cfg = num_inputs as usize;
    let n = if inputs.len() < n_cfg {
        inputs.len()
    } else {
        n_cfg
    };
    let ghost s = gate_inputs(num_inputs, inputs@);
    proof {
        assert(s =~= inputs@.take(n as int));
    }
    if n == 0 {
        let mut outs: Vec<Value> = Vec::new();
        outs.push(Value::floating(bitsize));
        return Ok(outs);
    }
    let mut acc = inputs[0];
    proof {
        assert(inputs@.take(1int) =~= seq![inputs@[0]]);
    }
    let mut i: usize = 1;
    while i < n
        invariant
            1 <= i <= n,
            n <= inputs@.len(),
            all_wf(inputs@),
            s == inputs@.take(n as int),
            s == gate_inputs(num_inputs, inputs@),
            acc == gate_fold(op, inputs@.take(i as int)),
            acc.wf(),
            acc.width == inputs@[0].width,
            same_widths(inputs@.take(i as int)),
        decreases n - i,
    {
        let v = inputs[i];
        let combined = match op {
            GateOp::And => acc.and(v),
            GateOp::Or => acc.or(v),
            GateOp::Xor => acc.xor(v),
        };
        match combined {
            Ok(next) => {
                proof {
                    assert(inputs@.take(i + 1).drop_last() =~= inputs@.take(i as int));
                    assert(inputs@.take(i + 1).last() == inputs@[i as int]);
                }
                acc = next;
            },
            Err(e) => {
                proof {
                    assert(s.len() == n as int);
                    assert(inputs@.take(n as int)[i as int] == inputs@[i as int]);
                    assert(inputs@.take(n as int)[0] == inputs@[0]);
                    assert(s[i as int].width != s[0].width);
                    assert(!same_widths(s));
                }
                return Err(e);
            },
        }
        i = i + 1;
    }
    proof {
        assert(inputs@.take(n as int) =~= s);
    }
    let out = if invert {
        acc.not()
    } else {
        acc
    };
    let mut outs: Vec<Value> = Vec::new();
    outs.push(out);
    Ok(outs)
}

/// The integer reduction seen on fully-defined inputs: a plain
/// left fold of the operand bits with the integer operator.
pub open spec fn bits_fold(op: GateOp, s: Seq<Value>) -> u32
    recommends
        s.len() >= 1,
    decreases s.len(),
{
    if s.len() <= 1 {
        s[0].bits
    } else {
        match op {
            GateOp::And => bits_fold(op, s.drop_last()) & s.last().bits,
            GateOp::Or => bits_fold(op, s.drop_last()) | s.last().bits,
            GateOp::Xor => bits_fold(op, s.drop_last()) ^ s.last().bits,
        }
    }
}

/// Whether every value in the sequence is fully defined and unburned.
pub open spec fn all_defined(s: Seq<Value>) -> bool {
    forall|i: int| 0 <= i < s.len() ==> #[trigger] s[i].is_fully_defined() && !s[i].burned
}

/// On fully-defined, unburned, same-width inputs, the four-state gate
/// reduction is itself fully defined and equals the running integer
/// AND / OR / XOR of all inputs.
pub proof fn lemma_gate_fold_defined(op: GateOp, s: Seq<Value>)
    requires
        s.len() >= 1,
        all_wf(s),
        same_widths(s),
        all_defined(s),
    ensures
        gate_fold(op, s).wf(),
        gate_fold(op, s).width == s[0].width,
        gate_fold(op, s).is_fully_defined(),
        !gate_fold(op, s).burned,
        gate_fold(op, s).bits == bits_fold(op, s),
    decreases s.len(),
{
    if s.len() > 1 {
        let pre = s.drop_last();
        assert forall|i: int| 0 <= i < pre.len() implies #[trigger] pre[i] == s[i] by {}
        assert(all_wf(pre));
        assert(same_widths(pre));
        assert(all_defined(pre));
        lemma_gate_fold_defined(op, pre);
        let x = gate_fold(op, pre);
        let y = s.last();
        assert(y == s[s.len() - 1]);
        assert(s[s.len() - 1].wf() && s[s.len() - 1].is_fully_defined());
        assert(y.wf() && y.is_fully_defined() && !y.burned);
        assert(y.width == s[0].width);
        match op {
            GateOp::And => {
                lemma_and_wf(x, y);
                lemma_and_defined(x, y);
            },
            GateOp::Or => {
                lemma_or_wf(x, y);
                lemma_or_defined(x, y);
            },
            GateOp::Xor => {
                lemma_xor_wf(x, y);
                lemma_xor_defined(x, y);
                let xb = x.bits;
                let yb = y.bits;
                let w = x.width;
                assert((xb ^ yb) & spec_mask(w) == xb ^ yb) by (bit_vector)
                    requires
                        xb & spec_mask(w) == xb,
                        yb & spec_mask(w) == yb,
                ;
            },
        }
    }
}

/// The inverted counterpart of [`lemma_gate_fold_defined`]: a NAND / NOR /
/// XNOR gate's output on fully-defined inputs is the bitwise complement of
/// the corresponding AND / OR / XOR reduction, truncated to the width.
pub proof fn lemma_gate_fold_inverted(op: GateOp, s: Seq<Value>)
    requires
        s.len() >= 1,
        all_wf(s),
        same_widths(s),
        all_defined(s),
    ensures
        gate_output(op, true, s).wf(),
        gate_output(op, true, s).width == s[0].width,
        gate_output(op, true, s).is_fully_defined(),
        !gate_output(op, true, s).burned,
        gate_output(op, true, s).bits == !bits_fold(op, s) & spec_mask(s[0].width),
{
    lemma_gate_fold_defined(op, s);
    lemma_not_wf(gate_fold(op, s));
    lemma_not_defined(gate_fold(op, s));
}

/// An AND gate: reduces its inputs with four-state AND.
#[derive(Clone, Copy, Debug, PartialEq, Eq, Structural)]
pub struct AndGate {
    /// Width of the values on the input pins.
    pub bitsize: u8,
    /// Number of input pins.
    pub num_inputs: u8,
}

/// An OR gate: reduces its inputs with four-state OR.
#[derive(Clone, Copy, Debug, PartialEq, Eq, Structural)]
pub struct OrGate {
    /// Width of the values on the input pins.
    pub bitsize: u8,
    /// Number of input pins.
    pub num_inputs: u8,
}

/// A XOR gate: reduces its inputs with four-state XOR.
#[derive(Clone, Copy, Debug, PartialEq, Eq, Structural)]
pub struct XorGate {
    /// Width of the values on the input pins.
    pub bitsize: u8,
    /// Number of input pins.
    pub num_inputs: u8,
}

/// A NAND gate: the complement of the AND reduction.
#[derive(Clone, Copy, Debug, PartialEq, Eq, Structural)]
pub struct NandGate {
    /// Width of the values on the input pins.
    pub bitsize: u8,
    /// Number of input pins.
    pub num_inputs: u8,
}

/// A NOR gate: the complement of the OR reduction.
#[derive(Clone, Copy, Debug, PartialEq, Eq, Structural)]
pub struct NorGate {
    /// Width of the values on the input pins.
    pub bitsize: u8,
    /// Number of input pins.
    pub num_inputs: u8,
}

/// An XNOR gate: the complement of the XOR reduction.
#[derive(Clone, Copy, Debug, PartialEq, Eq, Structural)]
pub struct XNorGate {
    /// Width of the values on the input pins.
    pub bitsize: u8,
    /// Number of input pins.
    pub num_inputs: u8,
}

impl AndGate {
    /// Whether the configured width is in range.
    pub open spec fn wf(self) -> bool {
        1 <= self.bitsize <= 32
    }

    /// A gate of the given width and input arity.
    pub fn new(bitsize: u8, num_inputs: u8) -> (g: AndGate)
        requires
            1 <= bitsize <= 32,
        ensures
            g == (AndGate { bitsize, num_inputs }),
    {
        AndGate { bitsize, num_inputs }
    }

    /// The initial output: one all-floating value of the configured width.
    pub fn init(&mut self) -> (outs: Vec<Value>)
        requires
            old(self).wf(),
        ensures
            *final(self) == *old(self),
            outs@ == seq![spec_floating(old(self).bitsize)],
            all_wf(outs@),
    {
        let mut outs: Vec<Value> = Vec::new();
        outs.push(Value::floating(self.bitsize));
        proof {
            assert(outs@ =~= seq![spec_floating(self.bitsize)]);
        }
        outs
    }

    /// Reduce the configured inputs left to right with four-state AND.
    pub fn update(&mut self, inputs: &Vec<Value>) -> (r: Result<Vec<Value>, SimError>)
        requires
            old(self).wf(),
            all_wf(inputs@),
        ensures
            *final(self) == *old(self),
            gate_update_result(
                GateOp::And,
                false,
                old(self).bitsize,
                old(self).num_inputs,
                inputs@,
                r,
            ),
    {
        reduce_gate(GateOp::And, false, self.bitsize, self.num_inputs, inputs)
    }

    /// The fixed input arity.
    pub fn num_inputs(&self) -> (n: usize)
        ensures
            n == self.num_inputs as usize,
    {
        self.num_inputs as usize
    }

    /// Gates drive exactly one output pin.
    pub fn num_outputs(&self) -> (n: usize)
        ensures
            n == 1usize,
    {
        1
    }
}

impl OrGate {
    /// Whether the configured width is in range.
    pub open spec fn wf(self) -> bool {
        1 <= self.bitsize <= 32
    }

    /// A gate of the given width and input arity.
    pub fn new(bitsize: u8, num_inputs: u8) -> (g: OrGate)
        requires
            1 <= bitsize <= 32,
        ensures
            g == (OrGate { bitsize, num_inputs }),
    {
        OrGate { bitsize, num_inputs }
    }

    /// The initial output: one all-floating value of the configured width.
    pub fn init(&mut self) -> (outs: Vec<Value>)
        requires
            old(self).wf(),
        ensures
            *final(self) == *old(self),
            outs@ == seq![spec_floating(old(self).bitsize)],
            all_wf(outs@),
    {
        let mut outs: Vec<Value> = Vec::new();
        outs.push(Value::floating(self.bitsize));
        proof {
            assert(outs@ =~= seq![spec_floating(self.bitsize)]);
        }
        outs
    }

    /// Reduce the configured inputs left to right with four-state OR.
    pub fn update(&mut self, inputs: &Vec<Value>) -> (r: Result<Vec<Value>, SimError>)
        requires
            old(self).wf(),
            all_wf(inputs@),
        ensures
            *final(self) == *old(self),
            gate_update_result(
                GateOp::Or,
                false,
                old(self).bitsize,
                old(self).num_inputs,
                inputs@,
                r,
            ),
    {
        reduce_gate(GateOp::Or, false, self.bitsize, self.num_inputs, inputs)
    }

    /// The fixed input arity.
    pub fn num_inputs(&self) -> (n: usize)
        ensures
            n == self.num_inputs as usize,
    {
        self.num_inputs as usize
    }

    /// Gates drive exactly one output pin.
    pub fn num_outputs(&self) -> (n: usize)
        ensures
            n == 1usize,
    {
        1
    }
}

impl XorGate {
    /// Whether the configured width is in range.
    pub open spec fn wf(self) -> bool {
        1 <= self.bitsize <= 32
    }

    /// A gate of the given width and input arity.
    pub fn new(bitsize: u8, num_inputs: u8) -> (g: XorGate)
        requires
            1 <= bitsize <= 32,
        ensures
            g == (XorGate { bitsize, num_inputs }),
    {
        XorGate { bitsize, num_inputs }
    }

    /// The initial output: one all-floating value of the configured width.
    pub fn init(&mut self) -> (outs: Vec<Value>)
        requires
            old(self).wf(),
        ensures
            *final(self) == *old(self),
            outs@ == seq![spec_floating(old(self).bitsize)],
            all_wf(outs@),
    {
        let mut outs: Vec<Value> = Vec::new();
        outs.push(Value::floating(self.bitsize));
        proof {
            assert(outs@ =~= seq![spec_floating(self.bitsize)]);
        }
        outs
    }

    /// Reduce the configured inputs left to right with four-state XOR.
    pub fn update(&mut self, inputs: &Vec<Value>) -> (r: Result<Vec<Value>, SimError>)
        requires
            old(self).wf(),
            all_wf(inputs@),
        ensures
            *final(self) == *old(self),
            gate_update_result(
                GateOp::Xor,
                false,
                old(self).bitsize,
                old(self).num_inputs,
                inputs@,
                r,
            ),
    {
        reduce_gate(GateOp::Xor, false, self.bitsize, self.num_inputs, inputs)
    }

    /// The fixed input arity.
    pub fn num_inputs(&self) -> (n: usize)
        ensures
            n == self.num_inputs as usize,
    {
        self.num_inputs as usize
    }

    /// Gates drive exactly one output pin.
    pub fn num_outputs(&self) -> (n: usize)
        ensures
            n == 1usize,
    {
        1
    }
}

impl NandGate {
    /// Whether the configured width is in range.
    pub open spec fn wf(self) -> bool {
        1 <= self.bitsize <= 32
    }

    /// A gate of the given width and input arity.
    pub fn new(bitsize: u8, num_inputs: u8) -> (g: NandGate)
        requires
            1 <= bitsize <= 32,
        ensures
            g == (NandGate { bitsize, num_inputs }),
    {
        NandGate { bitsize, num_inputs }
    }

    /// The initial output: one all-floating value of the configured width.
    pub fn init(&mut self) -> (outs: Vec<Value>)
        requires
            old(self).wf(),
        ensures
            *final(self) == *old(self),
            outs@ == seq![spec_floating(old(self).bitsize)],
            all_wf(outs@),
    {
        let mut outs: Vec<Value> = Vec::new();
        outs.push(Value::floating(self.bitsize));
        proof {
            assert(outs@ =~= seq![spec_floating(self.bitsize)]);
        }
        outs
    }

    /// Reduce the configured inputs with four-state AND and complement the result.
    pub fn update(&mut self, inputs: &Vec<Value>) -> (r: Result<Vec<Value>, SimError>)
        requires
            old(self).wf(),
            all_wf(inputs@),
        ensures
            *final(self) == *old(self),
            gate_update_result(
                GateOp::And,
                true,
                old(self).bitsize,
                old(self).num_inputs,
                inputs@,
                r,
            ),
    {
        reduce_gate(GateOp::And, true, self.bitsize, self.num_inputs, inputs)
    }

    /// The fixed input arity.
    pub fn num_inputs(&self) -> (n: usize)
        ensures
            n == self.num_inputs as usize,
    {
        self.num_inputs as usize
    }

    /// Gates drive exactly one output pin.
    pub fn num_outputs(&self) -> (n: usize)
        ensures
            n == 1usize,
    {
        1
    }
}

impl NorGate {
    /// Whether the configured width is in range.
    pub open spec fn wf(self) -> bool {
        1 <= self.bitsize <= 32
    }

    /// A gate of the given width and input arity.
    pub fn new(bitsize: u8, num_inputs: u8) -> (g: NorGate)
        requires
            1 <= bitsize <= 32,
        ensures
            g == (NorGate { bitsize, num_inputs }),
    {
        NorGate { bitsize, num_inputs }
    }

    /// The initial output: one all-floating value of the configured width.
    pub fn init(&mut self) -> (outs: Vec<Value>)
        requires
            old(self).wf(),
        ensures
            *final(self) == *old(self),
            outs@ == seq![spec_floating(old(self).bitsize)],
            all_wf(outs@),
    {
        let mut outs: Vec<Value> = Vec::new();
        outs.push(Value::floating(self.bitsize));
        proof {
            assert(outs@ =~= seq![spec_floating(self.bitsize)]);
        }
        outs
    }

    /// Reduce the configured inputs with four-state OR and complement the result.
    pub fn update(&mut self, inputs: &Vec<Value>) -> (r: Result<Vec<Value>, SimError>)
        requires
            old(self).wf(),
            all_wf(inputs@),
        ensures
            *final(self) == *old(self),
            gate_update_result(
                GateOp::Or,
                true,
                old(self).bitsize,
                old(self).num_inputs,
                inputs@,
                r,
            ),
    {
        reduce_gate(GateOp::Or, true, self.bitsize, self.num_inputs, inputs)
    }

    /// The fixed input arity.
    pub fn num_inputs(&self) -> (n: usize)
        ensures
            n == self.num_inputs as usize,
    {
        self.num_inputs as usize
    }

    /// Gates drive exactly one output pin.
    pub fn num_outputs(&self) -> (n: usize)
        ensures
            n == 1usize,
    {
        1
    }
}

impl XNorGate {
    /// Whether the configured width is in range.
    pub open spec fn wf(self) -> bool {
        1 <= self.bitsize <= 32
    }

    /// A gate of the given width and input arity.
    pub fn new(bitsize: u8, num_inputs: u8) -> (g: XNorGate)
        requires
            1 <= bitsize <= 32,
        ensures
            g == (XNorGate { bitsize, num_inputs }),
    {
        XNorGate { bitsize, num_inputs }
    }

    /// The initial output: one all-floating value of the configured width.
    pub fn init(&mut self) -> (outs: Vec<Value>)
        requires
            old(self).wf(),
        ensures
            *final(self) == *old(self),
            outs@ == seq![spec_floating(old(self).bitsize)],
            all_wf(outs@),
    {
        let mut outs: Vec<Value> = Vec::new();
        outs.push(Value::floating(self.bitsize));
        proof {
            assert(outs@ =~= seq![spec_floating(self.bitsize)]);
        }
        outs
    }

    /// Reduce the configured inputs with four-state XOR and complement the result.
    pub fn update(&mut self, inputs: &Vec<Value>) -> (r: Result<Vec<Value>, SimError>)
        requires
            old(self).wf(),
            all_wf(inputs@),
        ensures
            *final(self) == *old(self),
            gate_update_result(
                GateOp::Xor,
                true,
                old(self).bitsize,
                old(self).num_inputs,
                inputs@,
                r,
            ),
    {
        reduce_gate(GateOp::Xor, true, self.bitsize, self.num_inputs, inputs)
    }

    /// The fixed input arity.
    pub fn num_inputs(&self) -> (n: usize)
        ensures
            n == self.num_inputs as usize,
    {
        self.num_inputs as usize
    }

    /// Gates drive exactly one output pin.
    pub fn num_outputs(&self) -> (n: usize)
        ensures
            n == 1usize,
    {
        1
    }
}

} // verus!
