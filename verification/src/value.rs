//! Four-state bit-vector values.
//!
//! A [`Value`] is an immutable bit vector of 1 to 32 bits in which every bit
//! is in one of four states: logic 0, logic 1, floating (high impedance, `Z`)
//! or indeterminate (`X`). The states are encoded as three same-width masks
//! with the per-bit priority `unknown > high_z > logic`; a well-formed value
//! keeps the masks disjoint and truncated to its width. A companion `burned`
//! flag marks a short circuit: once set, the logic content is no longer
//! trustworthy, and the flag survives every bitwise combination.

use vstd::prelude::*;
use vstd::string::StringExecFns;

use crate::error::SimError;

verus! {

/// The state of a single bit of a [`Value`].
#[derive(Clone, Copy, Debug, PartialEq, Eq, Structural)]
pub enum BitState {
    /// Defined logic 0.
    Zero,
    /// Defined logic 1.
    One,
    /// Floating / high impedance (`Z`).
    HighZ,
    /// Indeterminate (`X`).
    Unknown,
}

/// An immutable four-state bit vector of fixed width 1 to 32.
#[derive(Clone, Copy, Debug, PartialEq, Eq, Structural)]
pub struct Value {
    /// The defined 0/1 content; only bits that are neither floating nor
    /// unknown may be set.
    pub bits: u32,
    /// 1 where the bit is floating / high impedance.
    pub high_z_mask: u32,
    /// 1 where the bit is indeterminate.
    pub unknown_mask: u32,
    /// Number of active bits, between 1 and 32; fixed at construction.
    pub width: u8,
    /// Short-circuit marker; once set it survives every combination.
    pub burned: bool,
}

/// The value that [`Value::new`] constructs: fully defined, truncated.
pub open spec fn spec_new(bits: u32, width: u8) -> Value {
    Value { bits: bits & spec_mask(width), high_z_mask: 0, unknown_mask: 0, width, burned: false }
}

/// The all-floating value that [`Value::floating`] constructs.
pub open spec fn spec_floating(width: u8) -> Value {
    Value { bits: 0, high_z_mask: spec_mask(width), unknown_mask: 0, width, burned: false }
}

/// The all-indeterminate value that [`Value::unknown`] constructs.
pub open spec fn spec_unknown(width: u8) -> Value {
    Value { bits: 0, high_z_mask: 0, unknown_mask: spec_mask(width), width, burned: false }
}

/// What [`Value::as_logic`] returns: the content if every bit is defined.
pub open spec fn spec_as_logic(v: Value) -> Option<u32> {
    if v.is_fully_defined() {
        Some(v.bits)
    } else {
        None
    }
}

/// The value that [`Value::from_masks`] constructs: the given masks,
/// truncated to the width and normalized by the state priority.
pub open spec fn spec_from_masks(bits: u32, high_z: u32, unknown: u32, width: u8) -> Value {
    let m = spec_mask(width);
    let x = unknown & m;
    let z = (high_z & m) & !x;
    let b = ((bits & m) & !x) & !z;
    Value { bits: b, high_z_mask: z, unknown_mask: x, width, burned: false }
}

/// The mask selecting the low `width` bits of a `u32`.
pub open spec fn spec_mask(width: u8) -> u32 {
    if width == 32 {
        0xffff_ffffu32
    } else {
        ((1u32 << (width as u32)) - 1) as u32
    }
}

/// Whether bit `i` of `x` is set.
pub open spec fn bit_set(x: u32, i: u32) -> bool {
    (x >> i) & 1u32 == 1u32
}

impl Value {
    /// Well-formedness: the width is in range, all three masks are truncated
    /// to it, and the masks respect the state priority (a bit is in at most
    /// one mask, and carries logic content only when in neither).
    pub open spec fn wf(self) -> bool {
        &&& 1 <= self.width <= 32
        &&& self.bits & spec_mask(self.width) == self.bits
        &&& self.high_z_mask & spec_mask(self.width) == self.high_z_mask
        &&& self.unknown_mask & spec_mask(self.width) == self.unknown_mask
        &&& self.bits & (self.high_z_mask | self.unknown_mask) == 0
        &&& self.high_z_mask & self.unknown_mask == 0
    }

    /// Whether every bit is a defined logic level.
    pub open spec fn is_fully_defined(self) -> bool {
        self.high_z_mask == 0 && self.unknown_mask == 0
    }

    /// The four-state interpretation of bit `i`, by mask priority.
    pub open spec fn bit_state_at(self, i: u32) -> BitState {
        if bit_set(self.unknown_mask, i) {
            BitState::Unknown
        } else if bit_set(self.high_z_mask, i) {
            BitState::HighZ
        } else if bit_set(self.bits, i) {
            BitState::One
        } else {
            BitState::Zero
        }
    }
}

/// Elementary mask identities used to establish well-formedness.
proof fn lemma_mask_identities(x: u32, m: u32)
    by (bit_vector)
    ensures
        (x & m) & m == x & m,
        x & 0 == 0,
        0 & x == 0,
        x & x == x,
        x | 0 == x,
        0 | x == x,
{
}

/// The low-`width` mask of the value's width.
pub fn mask(width: u8) -> (m: u32)
    requires
        1 <= width <= 32,
    ensures
        m == spec_mask(width),
{
    if width == 32 {
        0xffff_ffffu32
    } else {
        let w: u32 = width as u32;
        proof {
            assert(1u32 << w >= 1) by (bit_vector)
                requires
                    w < 32,
            ;
        }
        (1u32 << w) - 1
    }
}

impl Value {
    /// Create a fully-defined value: every bit of `bits` below `width` is a
    /// definite logic level, and the rest are truncated away.
    pub fn new(bits: u32, width: u8) -> (v: Value)
        requires
            1 <= width <= 32,
        ensures
            v == spec_new(bits, width),
            v.wf(),
            v.width == width,
            v.bits == bits & spec_mask(width),
            v.high_z_mask == 0,
            v.unknown_mask == 0,
            !v.burned,
            v.is_fully_defined(),
    {
        let m = mask(width);
        proof {
            lemma_mask_identities(bits, m);
            lemma_mask_identities(bits & m, 0);
            lemma_mask_identities(m, m);
            lemma_mask_identities(0, 0);
        }
        Value { bits: bits & m, high_z_mask: 0, unknown_mask: 0, width, burned: false }
    }

    /// Create a fully-defined 32-bit value from an integer.
    pub fn from(val: u32) -> (v: Value)
        ensures
            v.wf(),
            v.width == 32,
            v.bits == val,
            v.high_z_mask == 0,
            v.unknown_mask == 0,
            !v.burned,
            v.is_fully_defined(),
    {
        proof {
            assert(val & 0xffff_ffffu32 == val) by (bit_vector);
        }
        let v = Value::new(val, 32);
        v
    }

    /// Create an all-floating (high-impedance) value of the given width.
    pub fn floating(width: u8) -> (v: Value)
        requires
            1 <= width <= 32,
        ensures
            v == spec_floating(width),
            v.wf(),
            v.width == width,
            v.bits == 0,
            v.high_z_mask == spec_mask(width),
            v.unknown_mask == 0,
            !v.burned,
    {
        let m = mask(width);
        proof {
            lemma_mask_identities(m, m);
            lemma_mask_identities(0, m);
        }
        Value { bits: 0, high_z_mask: m, unknown_mask: 0, width, burned: false }
    }

    /// Create an all-indeterminate value of the given width.
    pub fn unknown(width: u8) -> (v: Value)
        requires
            1 <= width <= 32,
        ensures
            v == spec_unknown(width),
            v.wf(),
            v.width == width,
            v.bits == 0,
            v.high_z_mask == 0,
            v.unknown_mask == spec_mask(width),
            !v.burned,
    {
        let m = mask(width);
        proof {
            lemma_mask_identities(m, m);
            lemma_mask_identities(0, m);
        }
        Value { bits: 0, high_z_mask: 0, unknown_mask: m, width, burned: false }
    }

    /// Create a value from explicit per-bit masks, resolving overlaps by
    /// the state priority `unknown > high_z > logic` and truncating all
    /// three masks to the width.
    pub fn from_masks(bits: u32, high_z: u32, unknown: u32, width: u8) -> (v: Value)
        requires
            1 <= width <= 32,
        ensures
            v == spec_from_masks(bits, high_z, unknown, width),
            v.wf(),
            v.width == width,
            !v.burned,
    {
        let m = mask(width);
        let x = unknown & m;
        let z = (high_z & m) & !x;
        let b = ((bits & m) & !x) & !z;
        proof {
            lemma_from_masks_wf(bits, high_z, unknown, width);
        }
        Value { bits: b, high_z_mask: z, unknown_mask: x, width, burned: false }
    }

    /// Mark the value as burned (short-circuited). Content is kept, but is
    /// no longer trustworthy for display or use.
    pub fn burn(self) -> (v: Value)
        ensures
            v == (Value { burned: true, ..self }),
    {
        Value { burned: true, ..self }
    }

    /// All bits defined: the definite content, as an integer. `None` as soon
    /// as any bit is floating or indeterminate.
    pub fn as_logic(self) -> (r: Option<u32>)
        ensures
            r == spec_as_logic(self),
    {
        if self.high_z_mask == 0 && self.unknown_mask == 0 {
            Some(self.bits)
        } else {
            None
        }
    }

    /// Whether a single-bit, fully-defined, unburned value is logic 1.
    pub fn is_hi(self) -> (r: bool)
        requires
            self.wf(),
            !self.burned,
            self.width == 1,
            self.is_fully_defined(),
        ensures
            r == (self.bits != 0),
    {
        self.bits != 0
    }

    /// Whether any bit is floating or indeterminate.
    pub fn is_floating(self) -> (r: bool)
        requires
            !self.burned,
        ensures
            r == !self.is_fully_defined(),
    {
        self.high_z_mask != 0 || self.unknown_mask != 0
    }

    /// The mask of bits that are defined logic levels.
    pub open spec fn defined_mask(self) -> u32 {
        spec_mask(self.width) & !(self.high_z_mask | self.unknown_mask)
    }
}

/// The value [`Value::set_bit`] builds: bit `i` forced to `state`, all
/// other bits kept.
pub open spec fn spec_set_bit(v: Value, i: u32, state: BitState) -> Value {
    let b = 1u32 << i;
    match state {
        BitState::Zero => Value {
            bits: v.bits & !b,
            high_z_mask: v.high_z_mask & !b,
            unknown_mask: v.unknown_mask & !b,
            width: v.width,
            burned: v.burned,
        },
        BitState::One => Value {
            bits: v.bits | b,
            high_z_mask: v.high_z_mask & !b,
            unknown_mask: v.unknown_mask & !b,
            width: v.width,
            burned: v.burned,
        },
        BitState::HighZ => Value {
            bits: v.bits & !b,
            high_z_mask: v.high_z_mask | b,
            unknown_mask: v.unknown_mask & !b,
            width: v.width,
            burned: v.burned,
        },
        BitState::Unknown => Value {
            bits: v.bits & !b,
            high_z_mask: v.high_z_mask & !b,
            unknown_mask: v.unknown_mask | b,
            width: v.width,
            burned: v.burned,
        },
    }
}

/// The display character of one bit state.
pub open spec fn bit_char(s: BitState) -> char {
    match s {
        BitState::Zero => '0',
        BitState::One => '1',
        BitState::HighZ => 'Z',
        BitState::Unknown => 'X',
    }
}

/// The display rendering of a value: one character per bit, most
/// significant first.
pub open spec fn spec_display(v: Value) -> Seq<char> {
    Seq::new(v.width as nat, |k: int| bit_char(v.bit_state_at((v.width - 1 - k) as u32)))
}

impl Value {
    /// The four-state content of bit `i`; fails if and only if the index is
    /// at or beyond the width.
    pub fn get_bit(self, i: u32) -> (r: Result<BitState, SimError>)
        requires
            self.wf(),
        ensures
            r == (if i < self.width {
                Ok::<BitState, SimError>(self.bit_state_at(i))
            } else {
                Err::<BitState, SimError>(SimError::BitIndexOutOfRange)
            }),
    {
        if i >= self.width as u32 {
            return Err(SimError::BitIndexOutOfRange);
        }
        if (self.unknown_mask >> i) & 1u32 == 1u32 {
            Ok(BitState::Unknown)
        } else if (self.high_z_mask >> i) & 1u32 == 1u32 {
            Ok(BitState::HighZ)
        } else if (self.bits >> i) & 1u32 == 1u32 {
            Ok(BitState::One)
        } else {
            Ok(BitState::Zero)
        }
    }

    /// A copy of the value with bit `i` forced to the given state; fails if
    /// and only if the index is at or beyond the width.
    pub fn set_bit(self, i: u32, state: BitState) -> (r: Result<Value, SimError>)
        requires
            self.wf(),
        ensures
            r == (if i < self.width {
                Ok::<Value, SimError>(spec_set_bit(self, i, state))
            } else {
                Err::<Value, SimError>(SimError::BitIndexOutOfRange)
            }),
            i < self.width ==> spec_set_bit(self, i, state).wf(),
    {
        if i >= self.width as u32 {
            return Err(SimError::BitIndexOutOfRange);
        }
        proof {
            lemma_set_bit_wf(self.bits, self.high_z_mask, self.unknown_mask, self.width, i);
        }
        let b: u32 = 1u32 << i;
        let nb: u32 = !b;
        let v = match state {
            BitState::Zero => Value {
                bits: self.bits & nb,
                high_z_mask: self.high_z_mask & nb,
                unknown_mask: self.unknown_mask & nb,
                width: self.width,
                burned: self.burned,
            },
            BitState::One => Value {
                bits: self.bits | b,
                high_z_mask: self.high_z_mask & nb,
                unknown_mask: self.unknown_mask & nb,
                width: self.width,
                burned: self.burned,
            },
            BitState::HighZ => Value {
                bits: self.bits & nb,
                high_z_mask: self.high_z_mask | b,
                unknown_mask: self.unknown_mask & nb,
                width: self.width,
                burned: self.burned,
            },
            BitState::Unknown => Value {
                bits: self.bits & nb,
                high_z_mask: self.high_z_mask & nb,
                unknown_mask: self.unknown_mask | b,
                width: self.width,
                burned: self.burned,
            },
        };
        Ok(v)
    }
}

impl Value {
    /// Render the value for display: one character per bit out of
    /// `0`, `1`, `Z`, `X`, most significant bit first.
    pub fn display_string(&self) -> (s: String)
        requires
            self.wf(),
        ensures
            s@ == spec_display(*self),
    {
        let mut s = String::new();
        let w: u32 = self.width as u32;
        proof {
            assert(s@ =~= spec_display(*self).subrange(0, 0));
        }
        let mut i: u32 = 0;
        while i < w
            invariant
                self.wf(),
                w == self.width,
                i <= w,
                s@ == spec_display(*self).subrange(0, i as int),
            decreases w - i,
        {
            let idx = w - 1 - i;
            let x_bit = (self.unknown_mask >> idx) & 1u32 == 1u32;
            let z_bit = (self.high_z_mask >> idx) & 1u32 == 1u32;
            let one_bit = (self.bits >> idx) & 1u32 == 1u32;
            if x_bit {
                s.append("X");
            } else if z_bit {
                s.append("Z");
            } else if one_bit {
                s.append("1");
            } else {
                s.append("0");
            }
            proof {
                reveal_strlit("X");
                reveal_strlit("Z");
                reveal_strlit("1");
                reveal_strlit("0");
                assert(s@ =~= spec_display(*self).subrange(0, i + 1));
            }
            i = i + 1;
        }
        proof {
            assert(spec_display(*self).subrange(0, w as int) =~= spec_display(*self));
        }
        s
    }
}

/// Well-formedness of a value built from explicit masks.
proof fn lemma_from_masks_wf(bits: u32, high_z: u32, unknown: u32, w: u8)
    by (bit_vector)
    requires
        1 <= w <= 32,
    ensures
        ({
            let m = spec_mask(w);
            let x = unknown & m;
            let z = (high_z & m) & !x;
            let b = ((bits & m) & !x) & !z;
            &&& b & m == b
            &&& z & m == z
            &&& x & m == x
            &&& b & (z | x) == 0
            &&& z & x == 0
        }),
{
}

/// Single-bit form of [`lemma_from_masks_reads`].
proof fn lemma_from_masks_bit(bits: u32, high_z: u32, unknown: u32, w: u8, i: u32)
    requires
        1 <= w <= 32,
        i < w,
    ensures
        spec_from_masks(bits, high_z, unknown, w).bit_state_at(i) == (if bit_set(unknown, i) {
            BitState::Unknown
        } else if bit_set(high_z, i) {
            BitState::HighZ
        } else if bit_set(bits, i) {
            BitState::One
        } else {
            BitState::Zero
        }),
{
    assert(({
        let m = spec_mask(w);
        let x = unknown & m;
        let z = (high_z & m) & !x;
        let b = ((bits & m) & !x) & !z;
        &&& bit_set(x, i) == bit_set(unknown, i)
        &&& bit_set(z, i) == (!bit_set(unknown, i) && bit_set(high_z, i))
        &&& bit_set(b, i) == (!bit_set(unknown, i) && !bit_set(high_z, i) && bit_set(bits, i))
    })) by (bit_vector)
        requires
            1 <= w <= 32,
            i < w,
    ;
}

/// Reading back a value built from explicit masks: below the width, each
/// bit carries the state the input masks name for it, by priority.
pub proof fn lemma_from_masks_reads(bits: u32, high_z: u32, unknown: u32, w: u8)
    requires
        1 <= w <= 32,
    ensures
        forall|i: u32|
            i < w ==> #[trigger] spec_from_masks(bits, high_z, unknown, w).bit_state_at(i) == (
            if bit_set(unknown, i) {
                BitState::Unknown
            } else if bit_set(high_z, i) {
                BitState::HighZ
            } else if bit_set(bits, i) {
                BitState::One
            } else {
                BitState::Zero
            }),
{
    assert forall|i: u32| i < w implies #[trigger] spec_from_masks(
        bits,
        high_z,
        unknown,
        w,
    ).bit_state_at(i) == (if bit_set(unknown, i) {
        BitState::Unknown
    } else if bit_set(high_z, i) {
        BitState::HighZ
    } else if bit_set(bits, i) {
        BitState::One
    } else {
        BitState::Zero
    }) by {
        lemma_from_masks_bit(bits, high_z, unknown, w, i);
    }
}

/// Well-formedness of every [`spec_set_bit`] variant.
proof fn lemma_set_bit_wf(ba: u32, za: u32, xa: u32, w: u8, i: u32)
    by (bit_vector)
    requires
        i < w,
        1 <= w <= 32,
        ba & spec_mask(w) == ba,
        za & spec_mask(w) == za,
        xa & spec_mask(w) == xa,
        ba & (za | xa) == 0,
        za & xa == 0,
    ensures
        ({
            let b = 1u32 << i;
            let nb = !b;
            let m = spec_mask(w);
            &&& (ba | b) & m == ba | b
            &&& (ba & nb) & m == ba & nb
            &&& (za | b) & m == za | b
            &&& (za & nb) & m == za & nb
            &&& (xa | b) & m == xa | b
            &&& (xa & nb) & m == xa & nb
            &&& (ba & nb) & ((za & nb) | (xa & nb)) == 0
            &&& (za & nb) & (xa & nb) == 0
            &&& (ba | b) & ((za & nb) | (xa & nb)) == 0
            &&& (ba & nb) & ((za | b) | (xa & nb)) == 0
            &&& (za | b) & (xa & nb) == 0
            &&& (ba & nb) & ((za & nb) | (xa | b)) == 0
            &&& (za & nb) & (xa | b) == 0
        }),
{
}

/// Single-bit form of [`lemma_set_bit_reads`].
proof fn lemma_set_bit_bit(v: Value, i: u32, state: BitState, j: u32)
    requires
        v.wf(),
        i < v.width,
        j < v.width,
    ensures
        spec_set_bit(v, i, state).bit_state_at(j) == (if j == i {
            state
        } else {
            v.bit_state_at(j)
        }),
{
    let ba = v.bits;
    let za = v.high_z_mask;
    let xa = v.unknown_mask;
    assert(({
        let b = 1u32 << i;
        &&& bit_set(ba | b, j) == (j == i || bit_set(ba, j))
        &&& bit_set(ba & !b, j) == (j != i && bit_set(ba, j))
        &&& bit_set(za | b, j) == (j == i || bit_set(za, j))
        &&& bit_set(za & !b, j) == (j != i && bit_set(za, j))
        &&& bit_set(xa | b, j) == (j == i || bit_set(xa, j))
        &&& bit_set(xa & !b, j) == (j != i && bit_set(xa, j))
    })) by (bit_vector)
        requires
            i < 32,
            j < 32,
    ;
}

/// Reading back after setting one bit: the selected bit carries the new
/// state, every other bit below the width is unchanged, and width and burn
/// flag are kept.
pub proof fn lemma_set_bit_reads(v: Value, i: u32, state: BitState)
    requires
        v.wf(),
        i < v.width,
    ensures
        spec_set_bit(v, i, state).width == v.width,
        spec_set_bit(v, i, state).burned == v.burned,
        forall|j: u32|
            j < v.width ==> #[trigger] spec_set_bit(v, i, state).bit_state_at(j) == (if j == i {
                state
            } else {
                v.bit_state_at(j)
            }),
{
    assert forall|j: u32| j < v.width implies #[trigger] spec_set_bit(v, i, state).bit_state_at(j)
        == (if j == i {
        state
    } else {
        v.bit_state_at(j)
    }) by {
        lemma_set_bit_bit(v, i, state, j);
    }
}

/// Four-state AND of two bits: 0 dominates, 1 AND 1 is 1, anything else is
/// indeterminate. A floating operand never passes through a gate; it reads
/// as indeterminate.
pub open spec fn and4(a: BitState, b: BitState) -> BitState {
    if a == BitState::Zero || b == BitState::Zero {
        BitState::Zero
    } else if a == BitState::One && b == BitState::One {
        BitState::One
    } else {
        BitState::Unknown
    }
}

/// Four-state OR of two bits: 1 dominates, 0 OR 0 is 0, anything else is
/// indeterminate.
pub open spec fn or4(a: BitState, b: BitState) -> BitState {
    if a == BitState::One || b == BitState::One {
        BitState::One
    } else if a == BitState::Zero && b == BitState::Zero {
        BitState::Zero
    } else {
        BitState::Unknown
    }
}

/// Four-state XOR of two bits: defined when both operands are defined,
/// indeterminate otherwise.
pub open spec fn xor4(a: BitState, b: BitState) -> BitState {
    if (a == BitState::Zero || a == BitState::One) && (b == BitState::Zero || b
        == BitState::One) {
        if (a == BitState::One) != (b == BitState::One) {
            BitState::One
        } else {
            BitState::Zero
        }
    } else {
        BitState::Unknown
    }
}

/// Four-state NOT of a bit: defined bits flip, floating and indeterminate
/// bits read as indeterminate.
pub open spec fn not4(a: BitState) -> BitState {
    if a == BitState::Zero {
        BitState::One
    } else if a == BitState::One {
        BitState::Zero
    } else {
        BitState::Unknown
    }
}

/// The four-state AND of two same-width values. If either operand is burned
/// the result keeps the left operand's content and is burned; otherwise each
/// bit follows [`and4`].
pub open spec fn spec_and(a: Value, b: Value) -> Value {
    if a.burned || b.burned {
        Value {
            bits: a.bits,
            high_z_mask: a.high_z_mask,
            unknown_mask: a.unknown_mask,
            width: a.width,
            burned: true,
        }
    } else {
        let ones = a.bits & b.bits;
        let zeros = (a.defined_mask() & !a.bits) | (b.defined_mask() & !b.bits);
        Value {
            bits: ones,
            high_z_mask: 0,
            unknown_mask: spec_mask(a.width) & !(ones | zeros),
            width: a.width,
            burned: false,
        }
    }
}

/// The four-state OR of two same-width values; see [`spec_and`] for the
/// burned case, and [`or4`] for the per-bit rule.
pub open spec fn spec_or(a: Value, b: Value) -> Value {
    if a.burned || b.burned {
        Value {
            bits: a.bits,
            high_z_mask: a.high_z_mask,
            unknown_mask: a.unknown_mask,
            width: a.width,
            burned: true,
        }
    } else {
        let ones = a.bits | b.bits;
        let zeros = (a.defined_mask() & !a.bits) & (b.defined_mask() & !b.bits);
        Value {
            bits: ones,
            high_z_mask: 0,
            unknown_mask: spec_mask(a.width) & !(ones | zeros),
            width: a.width,
            burned: false,
        }
    }
}

/// The four-state XOR of two same-width values; see [`spec_and`] for the
/// burned case, and [`xor4`] for the per-bit rule.
pub open spec fn spec_xor(a: Value, b: Value) -> Value {
    if a.burned || b.burned {
        Value {
            bits: a.bits,
            high_z_mask: a.high_z_mask,
            unknown_mask: a.unknown_mask,
            width: a.width,
            burned: true,
        }
    } else {
        let both = a.defined_mask() & b.defined_mask();
        Value {
            bits: (a.bits ^ b.bits) & both,
            high_z_mask: 0,
            unknown_mask: spec_mask(a.width) & !both,
            width: a.width,
            burned: false,
        }
    }
}

/// Mask algebra behind [`spec_and`]: the result masks are truncated to the
/// width and disjoint.
proof fn lemma_and_masks(ba: u32, za: u32, xa: u32, bb: u32, zb: u32, xb: u32, w: u8)
    by (bit_vector)
    requires
        ba & spec_mask(w) == ba,
        bb & spec_mask(w) == bb,
    ensures
        ({
            let m = spec_mask(w);
            let da = m & !(za | xa);
            let db = m & !(zb | xb);
            let ones = ba & bb;
            let zeros = (da & !ba) | (db & !bb);
            let unk = m & !(ones | zeros);
            &&& ones & m == ones
            &&& unk & m == unk
            &&& ones & (0u32 | unk) == 0
            &&& 0u32 & m == 0
            &&& 0u32 & unk == 0
        }),
{
}

/// Mask algebra behind [`spec_or`], as in [`lemma_and_masks`].
proof fn lemma_or_masks(ba: u32, za: u32, xa: u32, bb: u32, zb: u32, xb: u32, w: u8)
    by (bit_vector)
    requires
        ba & spec_mask(w) == ba,
        bb & spec_mask(w) == bb,
    ensures
        ({
            let m = spec_mask(w);
            let da = m & !(za | xa);
            let db = m & !(zb | xb);
            let ones = ba | bb;
            let zeros = (da & !ba) & (db & !bb);
            let unk = m & !(ones | zeros);
            &&& ones & m == ones
            &&& unk & m == unk
            &&& ones & (0u32 | unk) == 0
            &&& 0u32 & m == 0
            &&& 0u32 & unk == 0
        }),
{
}

/// Mask algebra behind [`spec_xor`], as in [`lemma_and_masks`].
proof fn lemma_xor_masks(ba: u32, za: u32, xa: u32, bb: u32, zb: u32, xb: u32, w: u8)
    by (bit_vector)
    ensures
        ({
            let m = spec_mask(w);
            let both = (m & !(za | xa)) & (m & !(zb | xb));
            let bits = (ba ^ bb) & both;
            let unk = m & !both;
            &&& bits & m == bits
            &&& unk & m == unk
            &&& bits & (0u32 | unk) == 0
            &&& 0u32 & m == 0
            &&& 0u32 & unk == 0
        }),
{
}

/// Mask algebra behind [`spec_not`], as in [`lemma_and_masks`].
proof fn lemma_not_masks(ba: u32, za: u32, xa: u32, w: u8)
    by (bit_vector)
    ensures
        ({
            let m = spec_mask(w);
            let d = m & !(za | xa);
            let bits = !ba & d;
            let unk = m & !d;
            &&& bits & m == bits
            &&& unk & m == unk
            &&& bits & (0u32 | unk) == 0
            &&& 0u32 & m == 0
            &&& 0u32 & unk == 0
        }),
{
}

impl Value {
    /// Four-state bitwise AND; fails if and only if the widths differ.
    pub fn and(self, rhs: Value) -> (r: Result<Value, SimError>)
        requires
            self.wf(),
            rhs.wf(),
        ensures
            r == (if self.width == rhs.width {
                Ok::<Value, SimError>(spec_and(self, rhs))
            } else {
                Err::<Value, SimError>(SimError::WidthMismatch)
            }),
            self.width == rhs.width ==> spec_and(self, rhs).wf() && spec_and(self, rhs).width
                == self.width && spec_and(self, rhs).burned == (self.burned || rhs.burned),
    {
        if self.width != rhs.width {
            return Err(SimError::WidthMismatch);
        }
        if self.burned || rhs.burned {
            return Ok(
                Value {
                    bits: self.bits,
                    high_z_mask: self.high_z_mask,
                    unknown_mask: self.unknown_mask,
                    width: self.width,
                    burned: true,
                },
            );
        }
        let m = mask(self.width);
        let da = m & !(self.high_z_mask | self.unknown_mask);
        let db = m & !(rhs.high_z_mask | rhs.unknown_mask);
        let ones = self.bits & rhs.bits;
        let zeros = (da & !self.bits) | (db & !rhs.bits);
        let unk = m & !(ones | zeros);
        proof {
            lemma_and_masks(
                self.bits,
                self.high_z_mask,
                self.unknown_mask,
                rhs.bits,
                rhs.high_z_mask,
                rhs.unknown_mask,
                self.width,
            );
        }
        Ok(Value { bits: ones, high_z_mask: 0, unknown_mask: unk, width: self.width, burned: false })
    }

    /// Four-state bitwise OR; fails if and only if the widths differ.
    pub fn or(self, rhs: Value) -> (r: Result<Value, SimError>)
        requires
            self.wf(),
            rhs.wf(),
        ensures
            r == (if self.width == rhs.width {
                Ok::<Value, SimError>(spec_or(self, rhs))
            } else {
                Err::<Value, SimError>(SimError::WidthMismatch)
            }),
            self.width == rhs.width ==> spec_or(self, rhs).wf() && spec_or(self, rhs).width
                == self.width && spec_or(self, rhs).burned == (self.burned || rhs.burned),
    {
        if self.width != rhs.width {
            return Err(SimError::WidthMismatch);
        }
        if self.burned || rhs.burned {
            return Ok(
                Value {
                    bits: self.bits,
                    high_z_mask: self.high_z_mask,
                    unknown_mask: self.unknown_mask,
                    width: self.width,
                    burned: true,
                },
            );
        }
        let m = mask(self.width);
        let da = m & !(self.high_z_mask | self.unknown_mask);
        let db = m & !(rhs.high_z_mask | rhs.unknown_mask);
        let ones = self.bits | rhs.bits;
        let zeros = (da & !self.bits) & (db & !rhs.bits);
        let unk = m & !(ones | zeros);
        proof {
            lemma_or_masks(
                self.bits,
                self.high_z_mask,
                self.unknown_mask,
                rhs.bits,
                rhs.high_z_mask,
                rhs.unknown_mask,
                self.width,
            );
        }
        Ok(Value { bits: ones, high_z_mask: 0, unknown_mask: unk, width: self.width, burned: false })
    }

    /// Four-state bitwise XOR; fails if and only if the widths differ.
    pub fn xor(self, rhs: Value) -> (r: Result<Value, SimError>)
        requires
            self.wf(),
            rhs.wf(),
        ensures
            r == (if self.width == rhs.width {
                Ok::<Value, SimError>(spec_xor(self, rhs))
            } else {
                Err::<Value, SimError>(SimError::WidthMismatch)
            }),
            self.width == rhs.width ==> spec_xor(self, rhs).wf() && spec_xor(self, rhs).width
                == self.width && spec_xor(self, rhs).burned == (self.burned || rhs.burned),
    {
        if self.width != rhs.width {
            return Err(SimError::WidthMismatch);
        }
        if self.burned || rhs.burned {
            return Ok(
                Value {
                    bits: self.bits,
                    high_z_mask: self.high_z_mask,
                    unknown_mask: self.unknown_mask,
                    width: self.width,
                    burned: true,
                },
            );
        }
        let m = mask(self.width);
        let da = m & !(self.high_z_mask | self.unknown_mask);
        let db = m & !(rhs.high_z_mask | rhs.unknown_mask);
        let both = da & db;
        let bits = (self.bits ^ rhs.bits) & both;
        let unk = m & !both;
        proof {
            lemma_xor_masks(
                self.bits,
                self.high_z_mask,
                self.unknown_mask,
                rhs.bits,
                rhs.high_z_mask,
                rhs.unknown_mask,
                self.width,
            );
        }
        Ok(Value { bits, high_z_mask: 0, unknown_mask: unk, width: self.width, burned: false })
    }

    /// Four-state bitwise NOT. Defined bits flip; floating and indeterminate
    /// bits come out indeterminate; a burned value is returned unchanged.
    pub fn not(self) -> (r: Value)
        requires
            self.wf(),
        ensures
            r == spec_not(self),
            r.wf(),
            r.width == self.width,
            r.burned == self.burned,
    {
        if self.burned {
            return self;
        }
        let m = mask(self.width);
        let d = m & !(self.high_z_mask | self.unknown_mask);
        let bits = !self.bits & d;
        let unk = m & !d;
        proof {
            lemma_not_masks(self.bits, self.high_z_mask, self.unknown_mask, self.width);
        }
        Value { bits, high_z_mask: 0, unknown_mask: unk, width: self.width, burned: false }
    }
}

/// The four-state NOT of a value. A burned value is returned unchanged;
/// otherwise each bit follows [`not4`].
pub open spec fn spec_not(a: Value) -> Value {
    if a.burned {
        a
    } else {
        let d = a.defined_mask();
        Value {
            bits: !a.bits & d,
            high_z_mask: 0,
            unknown_mask: spec_mask(a.width) & !d,
            width: a.width,
            burned: false,
        }
    }
}

/// Combining well-formed same-width values with AND yields a well-formed
/// value.
pub proof fn lemma_and_wf(a: Value, b: Value)
    requires
        a.wf(),
        b.wf(),
        a.width == b.width,
    ensures
        spec_and(a, b).wf(),
        spec_and(a, b).width == a.width,
        spec_and(a, b).burned == (a.burned || b.burned),
{
    lemma_and_masks(
        a.bits,
        a.high_z_mask,
        a.unknown_mask,
        b.bits,
        b.high_z_mask,
        b.unknown_mask,
        a.width,
    );
}

/// Combining well-formed same-width values with OR yields a well-formed
/// value.
pub proof fn lemma_or_wf(a: Value, b: Value)
    requires
        a.wf(),
        b.wf(),
        a.width == b.width,
    ensures
        spec_or(a, b).wf(),
        spec_or(a, b).width == a.width,
        spec_or(a, b).burned == (a.burned || b.burned),
{
    lemma_or_masks(
        a.bits,
        a.high_z_mask,
        a.unknown_mask,
        b.bits,
        b.high_z_mask,
        b.unknown_mask,
        a.width,
    );
}

/// Combining well-formed same-width values with XOR yields a well-formed
/// value.
pub proof fn lemma_xor_wf(a: Value, b: Value)
    requires
        a.wf(),
        b.wf(),
        a.width == b.width,
    ensures
        spec_xor(a, b).wf(),
        spec_xor(a, b).width == a.width,
        spec_xor(a, b).burned == (a.burned || b.burned),
{
    lemma_xor_masks(
        a.bits,
        a.high_z_mask,
        a.unknown_mask,
        b.bits,
        b.high_z_mask,
        b.unknown_mask,
        a.width,
    );
}

/// The NOT of a well-formed value is well formed.
pub proof fn lemma_not_wf(a: Value)
    requires
        a.wf(),
    ensures
        spec_not(a).wf(),
        spec_not(a).width == a.width,
        spec_not(a).burned == a.burned,
{
    lemma_not_masks(a.bits, a.high_z_mask, a.unknown_mask, a.width);
}

/// Single-bit form of [`lemma_and_four_state`].
proof fn lemma_and_bit(a: Value, b: Value, i: u32)
    requires
        a.wf(),
        b.wf(),
        a.width == b.width,
        !a.burned,
        !b.burned,
        i < a.width,
    ensures
        spec_and(a, b).bit_state_at(i) == and4(a.bit_state_at(i), b.bit_state_at(i)),
{
    let ba = a.bits;
    let za = a.high_z_mask;
    let xa = a.unknown_mask;
    let bb = b.bits;
    let zb = b.high_z_mask;
    let xb = b.unknown_mask;
    let w = a.width;
    assert(({
        let m = spec_mask(w);
        let da = m & !(za | xa);
        let db = m & !(zb | xb);
        let ones = ba & bb;
        let zeros = (da & !ba) | (db & !bb);
        let unk = m & !(ones | zeros);
        &&& bit_set(ones, i) == (bit_set(ba, i) && bit_set(bb, i))
        &&& bit_set(unk, i) == !((bit_set(ba, i) && bit_set(bb, i)) || (!bit_set(za, i)
            && !bit_set(xa, i) && !bit_set(ba, i)) || (!bit_set(zb, i) && !bit_set(xb, i)
            && !bit_set(bb, i)))
        &&& !bit_set(0u32, i)
        &&& !(bit_set(ba, i) && (bit_set(za, i) || bit_set(xa, i)))
        &&& !(bit_set(za, i) && bit_set(xa, i))
        &&& !(bit_set(bb, i) && (bit_set(zb, i) || bit_set(xb, i)))
        &&& !(bit_set(zb, i) && bit_set(xb, i))
    })) by (bit_vector)
        requires
            i < w,
            1 <= w <= 32,
            ba & (za | xa) == 0,
            za & xa == 0,
            bb & (zb | xb) == 0,
            zb & xb == 0,
    ;
}

/// Four-state semantics of AND: every bit of the combined value is the
/// [`and4`] truth-table composition of the operand bits.
pub proof fn lemma_and_four_state(a: Value, b: Value)
    requires
        a.wf(),
        b.wf(),
        a.width == b.width,
        !a.burned,
        !b.burned,
    ensures
        forall|i: u32|
            i < a.width ==> #[trigger] spec_and(a, b).bit_state_at(i) == and4(
                a.bit_state_at(i),
                b.bit_state_at(i),
            ),
{
    assert forall|i: u32| i < a.width implies #[trigger] spec_and(a, b).bit_state_at(i) == and4(
        a.bit_state_at(i),
        b.bit_state_at(i),
    ) by {
        lemma_and_bit(a, b, i);
    }
}

/// Single-bit form of [`lemma_or_four_state`].
proof fn lemma_or_bit(a: Value, b: Value, i: u32)
    requires
        a.wf(),
        b.wf(),
        a.width == b.width,
        !a.burned,
        !b.burned,
        i < a.width,
    ensures
        spec_or(a, b).bit_state_at(i) == or4(a.bit_state_at(i), b.bit_state_at(i)),
{
    let ba = a.bits;
    let za = a.high_z_mask;
    let xa = a.unknown_mask;
    let bb = b.bits;
    let zb = b.high_z_mask;
    let xb = b.unknown_mask;
    let w = a.width;
    assert(({
        let m = spec_mask(w);
        let da = m & !(za | xa);
        let db = m & !(zb | xb);
        let ones = ba | bb;
        let zeros = (da & !ba) & (db & !bb);
        let unk = m & !(ones | zeros);
        &&& bit_set(ones, i) == (bit_set(ba, i) || bit_set(bb, i))
        &&& bit_set(unk, i) == !((bit_set(ba, i) || bit_set(bb, i)) || ((!bit_set(za, i)
            && !bit_set(xa, i) && !bit_set(ba, i)) && (!bit_set(zb, i) && !bit_set(xb, i)
            && !bit_set(bb, i))))
        &&& !bit_set(0u32, i)
        &&& !(bit_set(ba, i) && (bit_set(za, i) || bit_set(xa, i)))
        &&& !(bit_set(za, i) && bit_set(xa, i))
        &&& !(bit_set(bb, i) && (bit_set(zb, i) || bit_set(xb, i)))
        &&& !(bit_set(zb, i) && bit_set(xb, i))
    })) by (bit_vector)
        requires
            i < w,
            1 <= w <= 32,
            ba & (za | xa) == 0,
            za & xa == 0,
            bb & (zb | xb) == 0,
            zb & xb == 0,
    ;
}

/// Four-state semantics of OR: every bit follows [`or4`].
pub proof fn lemma_or_four_state(a: Value, b: Value)
    requires
        a.wf(),
        b.wf(),
        a.width == b.width,
        !a.burned,
        !b.burned,
    ensures
        forall|i: u32|
            i < a.width ==> #[trigger] spec_or(a, b).bit_state_at(i) == or4(
                a.bit_state_at(i),
                b.bit_state_at(i),
            ),
{
    assert forall|i: u32| i < a.width implies #[trigger] spec_or(a, b).bit_state_at(i) == or4(
        a.bit_state_at(i),
        b.bit_state_at(i),
    ) by {
        lemma_or_bit(a, b, i);
    }
}

/// Single-bit form of [`lemma_xor_four_state`].
proof fn lemma_xor_bit(a: Value, b: Value, i: u32)
    requires
        a.wf(),
        b.wf(),
        a.width == b.width,
        !a.burned,
        !b.burned,
        i < a.width,
    ensures
        spec_xor(a, b).bit_state_at(i) == xor4(a.bit_state_at(i), b.bit_state_at(i)),
{
    let ba = a.bits;
    let za = a.high_z_mask;
    let xa = a.unknown_mask;
    let bb = b.bits;
    let zb = b.high_z_mask;
    let xb = b.unknown_mask;
    let w = a.width;
    assert(({
        let m = spec_mask(w);
        let both = (m & !(za | xa)) & (m & !(zb | xb));
        let bits = (ba ^ bb) & both;
        let unk = m & !both;
        &&& bit_set(bits, i) == ((bit_set(ba, i) != bit_set(bb, i)) && !bit_set(za, i)
            && !bit_set(xa, i) && !bit_set(zb, i) && !bit_set(xb, i))
        &&& bit_set(unk, i) == (bit_set(za, i) || bit_set(xa, i) || bit_set(zb, i) || bit_set(
            xb,
            i,
        ))
        &&& !bit_set(0u32, i)
        &&& !(bit_set(ba, i) && (bit_set(za, i) || bit_set(xa, i)))
        &&& !(bit_set(za, i) && bit_set(xa, i))
        &&& !(bit_set(bb, i) && (bit_set(zb, i) || bit_set(xb, i)))
        &&& !(bit_set(zb, i) && bit_set(xb, i))
    })) by (bit_vector)
        requires
            i < w,
            1 <= w <= 32,
            ba & (za | xa) == 0,
            za & xa == 0,
            bb & (zb | xb) == 0,
            zb & xb == 0,
    ;
}

/// Four-state semantics of XOR: every bit follows [`xor4`].
pub proof fn lemma_xor_four_state(a: Value, b: Value)
    requires
        a.wf(),
        b.wf(),
        a.width == b.width,
        !a.burned,
        !b.burned,
    ensures
        forall|i: u32|
            i < a.width ==> #[trigger] spec_xor(a, b).bit_state_at(i) == xor4(
                a.bit_state_at(i),
                b.bit_state_at(i),
            ),
{
    assert forall|i: u32| i < a.width implies #[trigger] spec_xor(a, b).bit_state_at(i) == xor4(
        a.bit_state_at(i),
        b.bit_state_at(i),
    ) by {
        lemma_xor_bit(a, b, i);
    }
}

/// Single-bit form of [`lemma_not_four_state`].
proof fn lemma_not_bit(a: Value, i: u32)
    requires
        a.wf(),
        !a.burned,
        i < a.width,
    ensures
        spec_not(a).bit_state_at(i) == not4(a.bit_state_at(i)),
{
    let ba = a.bits;
    let za = a.high_z_mask;
    let xa = a.unknown_mask;
    let w = a.width;
    assert(({
        let m = spec_mask(w);
        let d = m & !(za | xa);
        let bits = !ba & d;
        let unk = m & !d;
        &&& bit_set(bits, i) == (!bit_set(ba, i) && !bit_set(za, i) && !bit_set(xa, i))
        &&& bit_set(unk, i) == (bit_set(za, i) || bit_set(xa, i))
        &&& !bit_set(0u32, i)
        &&& !(bit_set(ba, i) && (bit_set(za, i) || bit_set(xa, i)))
        &&& !(bit_set(za, i) && bit_set(xa, i))
    })) by (bit_vector)
        requires
            i < w,
            1 <= w <= 32,
            ba & (za | xa) == 0,
            za & xa == 0,
    ;
}

/// Four-state semantics of NOT: every bit follows [`not4`].
pub proof fn lemma_not_four_state(a: Value)
    requires
        a.wf(),
        !a.burned,
    ensures
        forall|i: u32|
            i < a.width ==> #[trigger] spec_not(a).bit_state_at(i) == not4(a.bit_state_at(i)),
{
    assert forall|i: u32| i < a.width implies #[trigger] spec_not(a).bit_state_at(i) == not4(
        a.bit_state_at(i),
    ) by {
        lemma_not_bit(a, i);
    }
}

/// On fully-defined, unburned operands, four-state AND coincides with the
/// integer bitwise AND, and the result is fully defined.
pub proof fn lemma_and_defined(a: Value, b: Value)
    requires
        a.wf(),
        b.wf(),
        a.width == b.width,
        !a.burned,
        !b.burned,
        a.is_fully_defined(),
        b.is_fully_defined(),
    ensures
        spec_and(a, b).is_fully_defined(),
        !spec_and(a, b).burned,
        spec_and(a, b).width == a.width,
        spec_and(a, b).bits == a.bits & b.bits,
{
    let ba = a.bits;
    let bb = b.bits;
    let w = a.width;
    assert(({
        let m = spec_mask(w);
        let da = m & !(0u32 | 0u32);
        let ones = ba & bb;
        let zeros = (da & !ba) | (da & !bb);
        m & !(ones | zeros) == 0
    })) by (bit_vector)
        requires
            ba & spec_mask(w) == ba,
            bb & spec_mask(w) == bb,
    ;
}

/// On fully-defined, unburned operands, four-state OR coincides with the
/// integer bitwise OR, and the result is fully defined.
pub proof fn lemma_or_defined(a: Value, b: Value)
    requires
        a.wf(),
        b.wf(),
        a.width == b.width,
        !a.burned,
        !b.burned,
        a.is_fully_defined(),
        b.is_fully_defined(),
    ensures
        spec_or(a, b).is_fully_defined(),
        !spec_or(a, b).burned,
        spec_or(a, b).width == a.width,
        spec_or(a, b).bits == a.bits | b.bits,
{
    let ba = a.bits;
    let bb = b.bits;
    let w = a.width;
    assert(({
        let m = spec_mask(w);
        let da = m & !(0u32 | 0u32);
        let ones = ba | bb;
        let zeros = (da & !ba) & (da & !bb);
        m & !(ones | zeros) == 0
    })) by (bit_vector)
        requires
            ba & spec_mask(w) == ba,
            bb & spec_mask(w) == bb,
    ;
}

/// On fully-defined, unburned operands, four-state XOR coincides with the
/// integer bitwise XOR truncated to the width, and the result is fully
/// defined.
pub proof fn lemma_xor_defined(a: Value, b: Value)
    requires
        a.wf(),
        b.wf(),
        a.width == b.width,
        !a.burned,
        !b.burned,
        a.is_fully_defined(),
        b.is_fully_defined(),
    ensures
        spec_xor(a, b).is_fully_defined(),
        !spec_xor(a, b).burned,
        spec_xor(a, b).width == a.width,
        spec_xor(a, b).bits == (a.bits ^ b.bits) & spec_mask(a.width),
{
    let w = a.width;
    assert(({
        let m = spec_mask(w);
        let both = (m & !(0u32 | 0u32)) & (m & !(0u32 | 0u32));
        both == m && m & !both == 0
    })) by (bit_vector);
}

/// On a fully-defined, unburned operand, four-state NOT coincides with the
/// integer bitwise complement truncated to the width, and the result is
/// fully defined.
pub proof fn lemma_not_defined(a: Value)
    requires
        a.wf(),
        !a.burned,
        a.is_fully_defined(),
    ensures
        spec_not(a).is_fully_defined(),
        !spec_not(a).burned,
        spec_not(a).width == a.width,
        spec_not(a).bits == !a.bits & spec_mask(a.width),
{
    let w = a.width;
    assert(({
        let m = spec_mask(w);
        let d = m & !(0u32 | 0u32);
        d == m && m & !d == 0
    })) by (bit_vector);
}

/// Building a value from an integer and reading it back: for every width
/// and every bit pattern, the fully-defined value constructed from `bits`
/// reads back as `bits` truncated to the width.
pub proof fn lemma_new_as_logic(bits: u32, width: u8)
    requires
        1 <= width <= 32,
    ensures
        spec_as_logic(spec_new(bits, width)) == Some(bits & spec_mask(width)),
{
}

} // verus!
