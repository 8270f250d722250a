//! Fault taxonomy of the simulator.
//!
//! Every fault is local to one evaluation step: it aborts the current drain
//! and is reported to the caller as a typed value. Writes that were already
//! committed to edges before the fault are kept; nothing is rolled back.

use vstd::prelude::*;

verus! {

/// A fault raised while constructing or evaluating a circuit.
#[derive(Clone, Copy, Debug, PartialEq, Eq, Structural)]
pub enum SimError {
    /// Two values of different declared widths were combined.
    WidthMismatch,
    /// A bit index at or beyond the value's width was accessed.
    BitIndexOutOfRange,
    /// A control input (enable, clock, clear) was burned, not fully
    /// defined, or not one bit wide, so its level could not be read.
    UndefinedControl,
    /// A connection addressed a pin at or beyond a component's declared
    /// arity.
    PinOutOfRange,
    /// After a component update, an outgoing edge's declared source pin had
    /// no matching produced output: a wiring or arity bug in the graph.
    MissingOutputForPin,
    /// A drain did not settle within its evaluation budget; the graph
    /// contains a combinational cycle that oscillates.
    NotConverged,
}

} // verus!
