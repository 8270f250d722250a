use circuitsim::gates::{AndGate, NandGate, NorGate, OrGate, XNorGate, XorGate};
use circuitsim::value::Value;

#[test]
fn test_and_gate() {
    let mut gate = AndGate::new(32, 100);
    let init = gate.init();
    assert_eq!(init.len(), 1);
    assert!(init[0].is_floating());

    let inputs: Vec<Value> = (0..100).map(|_| Value::from(rand::random::<u32>())).collect();
    let output = gate.update(&inputs).unwrap();
    assert_eq!(output[0].bits, inputs.iter().fold(u32::MAX, |a, b| { a & b.bits }));
}

#[test]
fn test_nand_gate() {
    let mut gate = NandGate::new(32, 100);
    let init = gate.init();
    assert_eq!(init.len(), 1);
    assert!(init[0].is_floating());

    let inputs: Vec<Value> = (0..100).map(|_| Value::from(rand::random::<u32>())).collect();
    let output = gate.update(&inputs).unwrap();
    assert_eq!(output[0].bits, !inputs.iter().fold(u32::MAX, |a, b| { a & b.bits }));
}

#[test]
fn test_or_gate() {
    let mut gate = OrGate::new(32, 100);
    let init = gate.init();
    assert_eq!(init.len(), 1);
    assert!(init[0].is_floating());

    let inputs: Vec<Value> = (0..100).map(|_| Value::from(rand::random::<u32>())).collect();
    let output = gate.update(&inputs).unwrap();
    assert_eq!(output[0].bits, inputs.iter().fold(0, |a, b| { a | b.bits }));
}

#[test]
fn test_nor_gate() {
    let mut gate = NorGate::new(32, 100);
    let init = gate.init();
    assert_eq!(init.len(), 1);
    assert!(init[0].is_floating());

    let inputs: Vec<Value> = (0..100).map(|_| Value::from(rand::random::<u32>())).collect();
    let output = gate.update(&inputs).unwrap();
    assert_eq!(output[0].bits, !inputs.iter().fold(0, |a, b| { a | b.bits }));
}

#[test]
fn test_xor_gate() {
    let mut gate = XorGate::new(32, 100);
    let init = gate.init();
    assert_eq!(init.len(), 1);
    assert!(init[0].is_floating());

    let inputs: Vec<Value> = (0..100).map(|_| Value::from(rand::random::<u32>())).collect();
    let output = gate.update(&inputs).unwrap();
    assert_eq!(output[0].bits, inputs.iter().fold(0, |a, b| { a ^ b.bits }));
}

#[test]
fn test_xnor_gate() {
    let mut gate = XNorGate::new(32, 100);
    let init = gate.init();
    assert_eq!(init.len(), 1);
    assert!(init[0].is_floating());

    let inputs: Vec<Value> = (0..100).map(|_| Value::from(rand::random::<u32>())).collect();
    let output = gate.update(&inputs).unwrap();
    assert_eq!(output[0].bits, !inputs.iter().fold(0, |a, b| { a ^ b.bits }));
}

#[test]
fn gate_with_zero_inputs_emits_floating() {
    let mut gate = AndGate::new(8, 0);
    let output = gate.update(&vec![]).unwrap();
    assert_eq!(output.len(), 1);
    assert_eq!(output[0], Value::floating(8));

    let mut gate = OrGate::new(8, 4);
    let output = gate.update(&vec![]).unwrap();
    assert_eq!(output[0], Value::floating(8));
}

#[test]
fn gate_width_mismatch_is_reported() {
    let mut gate = AndGate::new(8, 2);
    let inputs = vec![Value::new(3, 8), Value::new(3, 4)];
    assert_eq!(gate.update(&inputs), Err(circuitsim::error::SimError::WidthMismatch));
}

#[test]
fn gate_arity_caps_evaluated_inputs() {
    let mut gate = OrGate::new(4, 2);
    let inputs = vec![Value::new(0b0001, 4), Value::new(0b0100, 4), Value::new(0b1000, 4)];
    let output = gate.update(&inputs).unwrap();
    assert_eq!(output[0].as_logic(), Some(0b0101));
}

#[test]
fn gate_propagates_burn() {
    let mut gate = AndGate::new(4, 2);
    let inputs = vec![Value::new(0b1111, 4), Value::new(0b1111, 4).burn()];
    let output = gate.update(&inputs).unwrap();
    assert!(output[0].burned);
}
