use circuitsim::error::SimError;
use circuitsim::value::{BitState, Value};

#[test]
fn new_then_as_logic_roundtrips_truncated() {
    for w in 1..=32u8 {
        let mask: u32 = if w == 32 { u32::MAX } else { (1u32 << w) - 1 };
        for bits in [0u32, 1, 5, 0xdead_beef, u32::MAX] {
            let v = Value::new(bits, w);
            assert_eq!(v.as_logic(), Some(bits & mask));
        }
    }
}

#[test]
fn from_is_a_full_width_value() {
    let v = Value::from(0x1234_5678);
    assert_eq!(v.width, 32);
    assert_eq!(v.as_logic(), Some(0x1234_5678));
    assert!(!v.burned);
}

#[test]
fn defined_values_combine_as_integers() {
    let a = Value::new(0b1100, 4);
    let b = Value::new(0b1010, 4);
    assert_eq!(a.and(b).unwrap().as_logic(), Some(0b1000));
    assert_eq!(a.or(b).unwrap().as_logic(), Some(0b1110));
    assert_eq!(a.xor(b).unwrap().as_logic(), Some(0b0110));
    assert_eq!(a.not().as_logic(), Some(0b0011));
}

#[test]
fn width_mismatch_is_an_error() {
    let a = Value::new(1, 4);
    let b = Value::new(1, 5);
    assert_eq!(a.and(b), Err(SimError::WidthMismatch));
    assert_eq!(a.or(b), Err(SimError::WidthMismatch));
    assert_eq!(a.xor(b), Err(SimError::WidthMismatch));
}

#[test]
fn burn_is_monotone_through_every_operator() {
    let a = Value::new(0b1100, 4).burn();
    let b = Value::new(0b1010, 4);
    assert!(a.and(b).unwrap().burned);
    assert!(b.and(a).unwrap().burned);
    assert!(a.or(b).unwrap().burned);
    assert!(b.xor(a).unwrap().burned);
    assert!(a.not().burned);
    assert!(a.and(a).unwrap().burned);
}

#[test]
fn zero_dominates_and_even_against_unknown() {
    // One operand is defined 0 on every bit, the other all-indeterminate:
    // four-state AND must still give defined 0.
    let zero = Value::new(0, 4);
    let x = Value::unknown(4);
    let out = zero.and(x).unwrap();
    assert_eq!(out.as_logic(), Some(0));

    // OR with a defined 1 gives defined 1.
    let ones = Value::new(0b1111, 4);
    let out = ones.or(x).unwrap();
    assert_eq!(out.as_logic(), Some(0b1111));

    // XOR with anything undefined stays undefined.
    let out = ones.xor(x).unwrap();
    assert_eq!(out.as_logic(), None);
}

#[test]
fn from_masks_resolves_by_priority() {
    // Bit 0: all three masks claim it; unknown wins. Bit 1: high-Z beats
    // logic. Bit 2: plain logic 1. Bit 3: nothing set, logic 0.
    let v = Value::from_masks(0b0111, 0b0011, 0b0001, 4);
    assert_eq!(v.get_bit(0), Ok(BitState::Unknown));
    assert_eq!(v.get_bit(1), Ok(BitState::HighZ));
    assert_eq!(v.get_bit(2), Ok(BitState::One));
    assert_eq!(v.get_bit(3), Ok(BitState::Zero));
    assert_eq!(v.display_string(), "01ZX");
    // Mask bits beyond the width are truncated away.
    let v = Value::from_masks(0xffff_ffff, 0, 0, 4);
    assert_eq!(v.as_logic(), Some(0b1111));
}

#[test]
fn floating_reads_as_undefined() {
    let f = Value::floating(8);
    assert_eq!(f.as_logic(), None);
    assert!(f.is_floating());
    let d = Value::new(9, 8);
    assert!(!d.is_floating());
}

#[test]
fn is_hi_reads_single_bits() {
    assert!(Value::new(1, 1).is_hi());
    assert!(!Value::new(0, 1).is_hi());
}

#[test]
fn get_and_set_bits() {
    let v = Value::new(0b0101, 4);
    assert_eq!(v.get_bit(0), Ok(BitState::One));
    assert_eq!(v.get_bit(1), Ok(BitState::Zero));
    assert_eq!(v.get_bit(4), Err(SimError::BitIndexOutOfRange));

    let v2 = v.set_bit(1, BitState::One).unwrap();
    assert_eq!(v2.as_logic(), Some(0b0111));
    let v3 = v.set_bit(0, BitState::HighZ).unwrap();
    assert_eq!(v3.get_bit(0), Ok(BitState::HighZ));
    assert_eq!(v3.get_bit(2), Ok(BitState::One));
    assert_eq!(v3.as_logic(), None);
    let v4 = v.set_bit(3, BitState::Unknown).unwrap();
    assert_eq!(v4.get_bit(3), Ok(BitState::Unknown));
    assert_eq!(v.set_bit(9, BitState::Zero), Err(SimError::BitIndexOutOfRange));
}

#[test]
fn display_renders_msb_first() {
    let v = Value::new(0b0101, 4);
    assert_eq!(v.display_string(), "0101");
    let v = v.set_bit(3, BitState::Unknown).unwrap().set_bit(2, BitState::HighZ).unwrap();
    assert_eq!(v.display_string(), "XZ01");
    assert_eq!(Value::floating(3).display_string(), "ZZZ");
    assert_eq!(Value::unknown(2).display_string(), "XX");
}

#[test]
fn not_turns_floating_into_unknown() {
    let f = Value::floating(2);
    let n = f.not();
    assert_eq!(n.get_bit(0), Ok(BitState::Unknown));
    assert_eq!(n.get_bit(1), Ok(BitState::Unknown));
}
