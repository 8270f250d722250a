//! The wire: a pass-through with fan-in contention detection.
//!
//! A wire gathers every value driven onto it. With no driver it emits the
//! all-floating value of its width. When all drivers agree bit for bit, the
//! common value passes through unmodified. When they disagree, the wire is
//! shorted: it emits the first driven value marked burned, a signal for
//! downstream display rather than a hard failure. A wire reports zero input
//! and output pins to the evaluator, which then gathers all incoming edges
//! instead of indexing by pin.

use vstd::prelude::*;

use crate::error::SimError;
use crate::gates::all_wf;
use crate::value::{spec_floating, Value};

verus! {

/// A pass-through node with variable fan-in and short-circuit detection.
#[derive(Clone, Copy, Debug, PartialEq, Eq, Structural)]
pub struct Wire {
    /// Width of the values the wire carries.
    pub width: u8,
}

/// Whether every value in the sequence equals the first, bit for bit.
pub open spec fn all_same(s: Seq<Value>) -> bool {
    forall|i: int| 0 <= i < s.len() ==> #[trigger] s[i] == s[0]
}

/// What a wire of the given width emits for these driven values: floating
/// with no driver, the common value when all agree, the first value burned
/// when they disagree.
pub open spec fn wire_out(width: u8, s: Seq<Value>) -> Value {
    if s.len() == 0 {
        spec_floating(width)
    } else if all_same(s) {
        s[0]
    } else {
        Value {
            bits: s[0].bits,
            high_z_mask: s[0].high_z_mask,
            unknown_mask: s[0].unknown_mask,
            width: s[0].width,
            burned: true,
        }
    }
}

impl Wire {
    /// Whether the configured width is in range.
    pub open spec fn wf(self) -> bool {
        1 <= self.width <= 32
    }

    /// A wire of the given width.
    pub fn new(width: u8) -> (w: Wire)
        requires
            1 <= width <= 32,
        ensures
            w == (Wire { width }),
            w.wf(),
    {
        Wire { width }
    }

    /// The initial output: one all-floating value of the configured width.
    pub fn init(&mut self) -> (outs: Vec<Value>)
        requires
            old(self).wf(),
        ensures
            *final(self) == *old(self),
            outs@ == seq![spec_floating(old(self).width)],
            all_wf(outs@),
    {
        let mut outs: Vec<Value> = Vec::new();
        outs.push(Value::floating(self.width));
        proof {
            assert(outs@ =~= seq![spec_floating(self.width)]);
        }
        outs
    }

    /// Resolve the driven values into one output, per [`wire_out`].
    pub fn update(&mut self, inputs: &Vec<Value>) -> (outs: Vec<Value>)
        requires
            old(self).wf(),
            all_wf(inputs@),
        ensures
            *final(self) == *old(self),
            outs@ == seq![wire_out(old(self).width, inputs@)],
            outs@[0].wf(),
    {
        let ghost iv = inputs@;
        if inputs.len() == 0 {
            let mut outs: Vec<Value> = Vec::new();
            outs.push(Value::floating(self.width));
            proof {
                assert(outs@ =~= seq![wire_out(self.width, iv)]);
            }
            return outs;
        }
        let first = inputs[0];
        let mut same = true;
        let mut i: usize = 1;
        while i < inputs.len()
            invariant
                1 <= i <= iv.len(),
                iv == inputs@,
                first == iv[0],
                same ==> all_same(iv.take(i as int)),
                !same ==> exists|j: int| 0 <= j < i && #[trigger] iv[j] != iv[0],
            decreases iv.len() - i,
        {
            if !(inputs[i] == first) {
                proof {
                    assert(iv[i as int] != iv[0]);
                }
                same = false;
            }
            proof {
                if same {
                    assert(iv.take(i as int)[0] == iv[0]);
                    assert forall|j: int| 0 <= j < i + 1 implies #[trigger] iv.take(i + 1)[j]
                        == iv.take(i + 1)[0] by {
                        assert(iv.take(i + 1)[j] == iv[j]);
                        assert(iv.take(i + 1)[0] == iv[0]);
                        if j < i {
                            assert(iv.take(i as int)[j] == iv[j]);
                            assert(all_same(iv.take(i as int)));
                            assert(iv.take(i as int)[j] == iv.take(i as int)[0]);
                        }
                    }
                }
            }
            i = i + 1;
        }
        proof {
            assert(iv.take(iv.len() as int) =~= iv);
            if !same {
                let j = choose|j: int| 0 <= j < iv.len() && #[trigger] iv[j] != iv[0];
                assert(iv[j] != iv[0]);
                assert(!all_same(iv));
            }
        }
        let mut outs: Vec<Value> = Vec::new();
        if same {
            outs.push(first);
        } else {
            outs.push(first.burn());
        }
        proof {
            assert(iv[0].wf());
            assert(outs@ =~= seq![wire_out(self.width, iv)]);
        }
        outs
    }

    /// Zero: a wire has no fixed input pins; the evaluator gathers every
    /// incoming edge instead.
    pub fn num_inputs(&self) -> (n: usize)
        ensures
            n == 0usize,
    {
        0
    }

    /// Zero: the single resolved output is not addressed by a fixed pin
    /// contract.
    pub fn num_outputs(&self) -> (n: usize)
        ensures
            n == 0usize,
    {
        0
    }
}

} // verus!