use circuitsim::component::{Component, Phase};
use circuitsim::gates::OrGate;
use circuitsim::node::{Node, NodeState};
use circuitsim::register::Register;
use circuitsim::tagged_value::TaggedValue;
use circuitsim::value::Value;

#[test]
fn node_state_starts_with_placeholders() {
    let st = NodeState::new(2, 3);
    assert_eq!(st.outputs.len(), 3);
    assert_eq!(st.outputs[0], Value::unknown(1));
    assert_eq!(st.generation, 0);
}

#[test]
fn node_caches_initial_outputs() {
    let n = Node::new(7, Component::OrGate(OrGate::new(4, 2)));
    assert_eq!(n.id, 7);
    assert_eq!(n.state.outputs, vec![Value::floating(4)]);

    let n = Node::new(0, Component::Register(Register::new(8)));
    assert_eq!(n.state.outputs, vec![Value::floating(8)]);
}

#[test]
fn node_update_caches_and_counts() {
    let mut n = Node::new(0, Component::OrGate(OrGate::new(4, 2)));
    let inputs = vec![Value::new(0b0011, 4), Value::new(0b0110, 4)];
    n.update(Phase::Normal, &inputs).unwrap();
    assert_eq!(n.state.outputs[0].as_logic(), Some(0b0111));
    assert_eq!(n.state.generation, 1);

    let read = n.read_values();
    assert_eq!(read.len(), 1);
    assert_eq!(read[0].tag, "out");
    assert_eq!(read[0].value.as_logic(), Some(0b0111));
}

#[test]
fn tagged_value_pairs_tag_and_value() {
    let t = TaggedValue::new(String::from("out"), Value::new(3, 2));
    assert_eq!(t.tag, "out");
    assert_eq!(t.value.as_logic(), Some(3));
}
