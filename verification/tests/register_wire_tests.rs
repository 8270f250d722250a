use circuitsim::error::SimError;
use circuitsim::register::Register;
use circuitsim::value::Value;
use circuitsim::wire::Wire;

fn bit(b: u32) -> Value {
    Value::new(b, 1)
}

#[test]
fn register_clear_stores_and_outputs_immediately() {
    let mut reg = Register::new(8);
    let inputs = vec![Value::new(5, 8), bit(0), bit(0), bit(1)];
    let outs = reg.update(&inputs).unwrap();
    assert_eq!(outs[0].as_logic(), Some(5));
    assert_eq!(reg.stored.as_logic(), Some(5));
}

#[test]
fn register_latches_on_rising_edge_only() {
    let mut reg = Register::new(8);
    // Clear to 0 first so the stored value is defined.
    reg.update(&vec![Value::new(0, 8), bit(0), bit(0), bit(1)]).unwrap();

    // Clock low, enabled: nothing latches, but the low level is remembered.
    let outs = reg.update(&vec![Value::new(9, 8), bit(1), bit(0), bit(0)]).unwrap();
    assert_eq!(outs[0].as_logic(), Some(0));
    assert_eq!(reg.stored.as_logic(), Some(0));

    // Clock rises: 9 is stored, but the output still shows the old value.
    let outs = reg.update(&vec![Value::new(9, 8), bit(1), bit(1), bit(0)]).unwrap();
    assert_eq!(outs[0].as_logic(), Some(0));
    assert_eq!(reg.stored.as_logic(), Some(9));

    // From the next call on, the stored 9 is visible.
    let outs = reg.update(&vec![Value::new(7, 8), bit(1), bit(1), bit(0)]).unwrap();
    assert_eq!(outs[0].as_logic(), Some(9));
    // The clock never went low again: 7 must not have been latched.
    assert_eq!(reg.stored.as_logic(), Some(9));

    // Still held high: no re-latch, over and over.
    let outs = reg.update(&vec![Value::new(7, 8), bit(1), bit(1), bit(0)]).unwrap();
    assert_eq!(outs[0].as_logic(), Some(9));
    assert_eq!(reg.stored.as_logic(), Some(9));

    // Only after a low phase does the next rising edge latch again.
    reg.update(&vec![Value::new(7, 8), bit(1), bit(0), bit(0)]).unwrap();
    reg.update(&vec![Value::new(7, 8), bit(1), bit(1), bit(0)]).unwrap();
    assert_eq!(reg.stored.as_logic(), Some(7));
}

#[test]
fn register_disabled_ignores_the_clock() {
    let mut reg = Register::new(4);
    reg.update(&vec![Value::new(2, 4), bit(0), bit(0), bit(1)]).unwrap();
    reg.update(&vec![Value::new(9, 4), bit(0), bit(0), bit(0)]).unwrap();
    let outs = reg.update(&vec![Value::new(9, 4), bit(0), bit(1), bit(0)]).unwrap();
    assert_eq!(outs[0].as_logic(), Some(2));
    assert_eq!(reg.stored.as_logic(), Some(2));
}

#[test]
fn register_rejects_unreadable_controls() {
    let mut reg = Register::new(4);
    // A floating CLEAR cannot be read as a level.
    let inputs = vec![Value::new(1, 4), bit(0), bit(0), Value::floating(1)];
    assert_eq!(reg.update(&inputs), Err(SimError::UndefinedControl));
    // A two-bit ENABLE cannot either (CLEAR is low, so ENABLE is read).
    let inputs = vec![Value::new(1, 4), Value::new(1, 2), bit(0), bit(0)];
    assert_eq!(reg.update(&inputs), Err(SimError::UndefinedControl));
}

#[test]
fn wire_passes_agreeing_drivers_through() {
    let mut wire = Wire::new(4);
    let v = Value::new(0b1010, 4);
    let outs = wire.update(&vec![v, v]);
    assert_eq!(outs.len(), 1);
    assert_eq!(outs[0], v);
    assert!(!outs[0].burned);
}

#[test]
fn wire_burns_on_contention() {
    let mut wire = Wire::new(4);
    let outs = wire.update(&vec![Value::new(0b1010, 4), Value::new(0b0101, 4)]);
    assert!(outs[0].burned);
    assert_eq!(outs[0].bits, 0b1010);
}

#[test]
fn wire_with_no_driver_floats() {
    let mut wire = Wire::new(4);
    let outs = wire.update(&vec![]);
    assert_eq!(outs[0], Value::floating(4));
}
