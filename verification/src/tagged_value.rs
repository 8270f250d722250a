//! A value labelled with the output tag it was produced under.
//!
//! Tag-based addressing is the display-side view of a component's outputs:
//! the evaluator itself matches outputs to edges by pin index, and the
//! editor reads tagged values back for presentation.

use vstd::prelude::*;

use crate::value::Value;

verus! {

/// A produced value together with its output tag.
#[derive(Clone, Debug)]
pub struct TaggedValue {
    /// The tag of the output slot the value was produced for.
    pub tag: String,
    /// The produced value.
    pub value: Value,
}

impl TaggedValue {
    /// Pair a value with its tag.
    pub fn new(tag: String, value: Value) -> (t: TaggedValue)
        ensures
            t.tag == tag,
            t.value == value,
    {
        TaggedValue { tag, value }
    }
}

} // verus!
