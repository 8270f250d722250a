use circuitsim::component::Component;
use circuitsim::error::SimError;
use circuitsim::gates::AndGate;
use circuitsim::gates::NandGate;
use circuitsim::model::Model;
use circuitsim::value::Value;
use circuitsim::wire::Wire;

#[test]
fn evaluation_delivers_values_along_edges() {
    let mut m = Model::new();
    let w1 = m.add_component(Component::Wire(Wire::new(4)));
    let w2 = m.add_component(Component::Wire(Wire::new(4)));
    let a = m.add_component(Component::AndGate(AndGate::new(4, 2)));
    let b = m.add_component(Component::Wire(Wire::new(4)));

    // The initial edge values stand in for already-computed sources.
    m.connect(w1, a, 0, 0, Value::new(0b1010, 4)).unwrap();
    m.connect(w2, a, 0, 1, Value::new(0b0110, 4)).unwrap();
    let out_edge = m.connect(a, b, 0, 0, Value::floating(4)).unwrap();

    m.enqueue(a);
    m.run_normal().unwrap();

    // 1010 & 0110 was written onto the outgoing edge;
    // the consumer was woken by the changed value and resolved it.
    assert_eq!(m.edge_value(out_edge).as_logic(), Some(0b0010));
    let read = m.read_node(b);
    assert_eq!(read.len(), 1);
    assert_eq!(read[0].tag, "out");
    assert_eq!(read[0].value.as_logic(), Some(0b0010));
}

#[test]
fn missing_output_for_a_wired_pin_is_a_fault() {
    let mut m = Model::new();
    let a = m.add_component(Component::Wire(Wire::new(1)));
    let b = m.add_component(Component::Wire(Wire::new(1)));
    // A wire declares no fixed output arity, so the connect succeeds, but
    // pin 1 never gets a produced value.
    m.connect(a, b, 1, 0, Value::floating(1)).unwrap();
    m.enqueue(a);
    assert_eq!(m.run_normal(), Err(SimError::MissingOutputForPin));
}

#[test]
fn connect_rejects_pins_beyond_fixed_arity() {
    let mut m = Model::new();
    let a = m.add_component(Component::AndGate(AndGate::new(4, 2)));
    let b = m.add_component(Component::AndGate(AndGate::new(4, 2)));
    assert_eq!(m.connect(a, b, 0, 2, Value::floating(4)), Err(SimError::PinOutOfRange));
    assert_eq!(m.connect(a, b, 1, 0, Value::floating(4)), Err(SimError::PinOutOfRange));
    assert!(m.connect(a, b, 0, 1, Value::floating(4)).is_ok());
}

#[test]
fn an_oscillating_loop_does_not_converge() {
    let mut m = Model::new();
    // A single inverter fed back through a wire oscillates forever.
    let inv = m.add_component(Component::NandGate(NandGate::new(1, 1)));
    let w = m.add_component(Component::Wire(Wire::new(1)));
    m.connect(inv, w, 0, 0, Value::new(0, 1)).unwrap();
    m.connect(w, inv, 0, 0, Value::new(0, 1)).unwrap();
    m.enqueue(inv);
    assert_eq!(m.run_normal(), Err(SimError::NotConverged));
}

#[test]
fn evaluation_width_mismatch_aborts_the_drain() {
    let mut m = Model::new();
    let w1 = m.add_component(Component::Wire(Wire::new(4)));
    let w2 = m.add_component(Component::Wire(Wire::new(8)));
    let a = m.add_component(Component::AndGate(AndGate::new(4, 2)));
    m.connect(w1, a, 0, 0, Value::new(1, 4)).unwrap();
    m.connect(w2, a, 0, 1, Value::new(1, 8)).unwrap();
    m.enqueue(a);
    assert_eq!(m.run_normal(), Err(SimError::WidthMismatch));
}

#[test]
fn unconnected_register_controls_fault_the_drain() {
    let mut m = Model::new();
    let r = m.add_component(Component::Register(circuitsim::register::Register::new(8)));
    m.enqueue(r);
    // Every control pin reads floating, which is not a readable level.
    assert_eq!(m.run_normal(), Err(SimError::UndefinedControl));
}

#[test]
fn enqueue_is_idempotent_and_clear_drops_work() {
    let mut m = Model::new();
    let w = m.add_component(Component::Wire(Wire::new(1)));
    m.enqueue(w);
    m.enqueue(w);
    m.run_normal().unwrap();

    let r = m.add_component(Component::Register(circuitsim::register::Register::new(8)));
    m.enqueue(r);
    m.clear_queue();
    // The faulting register was dropped from the queue, so nothing runs.
    assert_eq!(m.run_normal(), Ok(()));
}

#[test]
fn edge_phases_do_not_disturb_register_state() {
    let mut m = Model::new();
    let r = m.add_component(Component::Register(circuitsim::register::Register::new(8)));
    m.enqueue(r);
    // In the rising-edge phase the register only re-emits its stored value,
    // so unreadable controls do not matter and nothing changes.
    assert_eq!(m.run_rising_edge(), Ok(()));
    m.enqueue(r);
    assert_eq!(m.run_falling_edge(), Ok(()));
    let read = m.read_node(r);
    assert_eq!(read[0].value, Value::floating(8));
}

#[test]
fn node_state_strings_describe_components() {
    let mut m = Model::new();
    let a = m.add_component(Component::AndGate(AndGate::new(4, 2)));
    let r = m.add_component(Component::Register(circuitsim::register::Register::new(4)));
    assert_eq!(m.node_state_string(a), "and gate");
    assert_eq!(m.node_state_string(r), "register ZZZZ");
}

#[test]
fn wire_fan_in_contention_burns_downstream() {
    let mut m = Model::new();
    let s1 = m.add_component(Component::Wire(Wire::new(4)));
    let s2 = m.add_component(Component::Wire(Wire::new(4)));
    let w = m.add_component(Component::Wire(Wire::new(4)));
    let sink = m.add_component(Component::Wire(Wire::new(4)));
    m.connect(s1, w, 0, 0, Value::new(0b1010, 4)).unwrap();
    m.connect(s2, w, 0, 0, Value::new(0b0101, 4)).unwrap();
    let out = m.connect(w, sink, 0, 0, Value::floating(4)).unwrap();
    m.enqueue(w);
    m.run_normal().unwrap();
    let v = m.edge_value(out);
    assert!(v.burned);
    assert_eq!(v.bits, 0b1010);
}
