//! The register: the only stateful leaf component.
//!
//! A register holds one stored value across evaluation cycles. Its inputs
//! are DATA, ENABLE, CLOCK and CLEAR, addressed by pin index. CLEAR is
//! level-sensitive: when asserted, DATA is stored and emitted immediately.
//! Otherwise, with ENABLE asserted, DATA is latched on a rising clock edge,
//! detected through an internal "previous clock was low" flag; the latched
//! value appears on the output only from the next evaluation on. The flag is
//! what keeps a clock held high from re-latching on every evaluation.

use vstd::prelude::*;

use crate::error::SimError;
use crate::gates::all_wf;
use crate::value::{spec_floating, Value};

verus! {

/// Input pin of the DATA word.
pub const I_DATA: usize = 0;

/// Input pin of the ENABLE bit.
pub const I_EN: usize = 1;

/// Input pin of the CLOCK bit.
pub const I_CLK: usize = 2;

/// Input pin of the CLEAR bit.
pub const I_CLR: usize = 3;

/// Number of register input pins.
pub const I_TOTAL: usize = 4;

/// Output pin of the stored word.
pub const O_OUT: usize = 0;

/// Number of register output pins.
pub const O_TOTAL: usize = 1;

/// A clocked storage element with a level-sensitive clear.
#[derive(Clone, Copy, Debug, PartialEq, Eq, Structural)]
pub struct Register {
    /// The stored value.
    pub stored: Value,
    /// Whether the clock was observed de-asserted on the latest update that
    /// read it; a rising edge latches only when this is set.
    pub prev_lo: bool,
}

/// Whether a control input can be read as a level: one bit wide, fully
/// defined, not burned.
pub open spec fn control_readable(v: Value) -> bool {
    &&& v.width == 1
    &&& !v.burned
    &&& v.is_fully_defined()
}

/// The level of a readable control input.
pub open spec fn control_hi(v: Value) -> bool {
    v.bits != 0
}

/// Whether an update over these inputs reads only well-defined controls:
/// CLEAR is always read; ENABLE only when CLEAR is low; CLOCK only when
/// ENABLE is high.
pub open spec fn reg_step_ok(s: Seq<Value>) -> bool {
    &&& control_readable(s[I_CLR as int])
    &&& !control_hi(s[I_CLR as int]) ==> control_readable(s[I_EN as int]) && (control_hi(
        s[I_EN as int],
    ) ==> control_readable(s[I_CLK as int]))
}

/// The register state after one update on these inputs: CLEAR loads DATA at
/// once and forgets any observed clock level; otherwise, with ENABLE high,
/// a rising edge (clock high after a remembered low) latches DATA, and the
/// flag records whether the clock is now low; with ENABLE low nothing is
/// touched.
pub open spec fn reg_step_state(pre: Register, s: Seq<Value>) -> Register {
    if control_hi(s[I_CLR as int]) {
        Register { stored: s[I_DATA as int], prev_lo: false }
    } else if control_hi(s[I_EN as int]) {
        Register {
            stored: if pre.prev_lo && control_hi(s[I_CLK as int]) {
                s[I_DATA as int]
            } else {
                pre.stored
            },
            prev_lo: !control_hi(s[I_CLK as int]),
        }
    } else {
        pre
    }
}

/// The value the update emits: the newly cleared value when CLEAR fires,
/// the pre-update stored value otherwise.
pub open spec fn reg_step_out(pre: Register, s: Seq<Value>) -> Value {
    if control_hi(s[I_CLR as int]) {
        s[I_DATA as int]
    } else {
        pre.stored
    }
}

/// Read a control input as a level, or report why it cannot be read.
fn read_control(v: Value) -> (r: Result<bool, SimError>)
    requires
        v.wf(),
    ensures
        r == (if control_readable(v) {
            Ok::<bool, SimError>(control_hi(v))
        } else {
            Err::<bool, SimError>(SimError::UndefinedControl)
        }),
{
    if v.width == 1 && !v.burned && v.high_z_mask == 0 && v.unknown_mask == 0 {
        Ok(v.bits != 0)
    } else {
        Err(SimError::UndefinedControl)
    }
}

impl Register {
    /// Well-formedness: the stored value is well formed.
    pub open spec fn wf(self) -> bool {
        self.stored.wf()
    }

    /// A register of the given width, storing all-floating, with no clock
    /// level observed yet.
    pub fn new(width: u8) -> (r: Register)
        requires
            1 <= width <= 32,
        ensures
            r == (Register { stored: spec_floating(width), prev_lo: false }),
            r.wf(),
    {
        Register { stored: Value::floating(width), prev_lo: false }
    }

    /// The initial output: the stored value.
    pub fn init(&mut self) -> (outs: Vec<Value>)
        requires
            old(self).wf(),
        ensures
            *final(self) == *old(self),
            outs@ == seq![old(self).stored],
            all_wf(outs@),
    {
        let mut outs: Vec<Value> = Vec::new();
        outs.push(self.stored);
        proof {
            assert(outs@ =~= seq![self.stored]);
        }
        outs
    }

    /// One evaluation pass: apply the CLEAR / rising-edge rule and emit one
    /// output. The state changes and the emitted value follow
    /// [`reg_step_state`] and [`reg_step_out`] exactly; an unreadable
    /// control that the rule consults is reported, leaving the state
    /// untouched.
    pub fn update(&mut self, inputs: &Vec<Value>) -> (r: Result<Vec<Value>, SimError>)
        requires
            old(self).wf(),
            inputs@.len() == I_TOTAL as int,
            all_wf(inputs@),
        ensures
            final(self).wf(),
            reg_step_ok(inputs@) ==> (r matches Ok(outs) && outs@.len() == O_TOTAL as int
                && outs@[O_OUT as int] == reg_step_out(*old(self), inputs@) && *final(self)
                == reg_step_state(*old(self), inputs@)),
            !reg_step_ok(inputs@) ==> r == Err::<Vec<Value>, SimError>(SimError::UndefinedControl)
                && *final(self) == *old(self),
    {
        let clr = match read_control(inputs[I_CLR]) {
            Ok(level) => level,
            Err(e) => {
                return Err(e);
            },
        };
        let mut outs: Vec<Value> = Vec::new();
        if clr {
            self.stored = inputs[I_DATA];
            self.prev_lo = false;
            outs.push(self.stored);
            proof {
                assert(outs@ =~= seq![reg_step_out(*old(self), inputs@)]);
            }
            return Ok(outs);
        }
        let en = match read_control(inputs[I_EN]) {
            Ok(level) => level,
            Err(e) => {
                return Err(e);
            },
        };
        if en {
            let clk = match read_control(inputs[I_CLK]) {
                Ok(level) => level,
                Err(e) => {
                    return Err(e);
                },
            };
            outs.push(self.stored);
            if self.prev_lo && clk {
                self.stored = inputs[I_DATA];
            }
            self.prev_lo = !clk;
            proof {
                assert(outs@ =~= seq![reg_step_out(*old(self), inputs@)]);
            }
            return Ok(outs);
        }
        outs.push(self.stored);
        proof {
            assert(outs@ =~= seq![reg_step_out(*old(self), inputs@)]);
        }
        Ok(outs)
    }

    /// The fixed input arity: DATA, ENABLE, CLOCK, CLEAR.
    pub fn num_inputs(&self) -> (n: usize)
        ensures
            n == I_TOTAL,
    {
        I_TOTAL
    }

    /// Registers drive exactly one output pin.
    pub fn num_outputs(&self) -> (n: usize)
        ensures
            n == O_TOTAL,
    {
        O_TOTAL
    }
}

} // verus!
