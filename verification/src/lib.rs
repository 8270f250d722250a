//! Core of a digital-logic simulator: a four-state bit-vector value type,
//! combinational and clocked logic components, and a work-list evaluator
//! that propagates values through a directed component graph.

pub mod circuit;
pub mod component;
pub mod error;
pub mod gates;
pub mod model;
pub mod node;
pub mod register;
pub mod tagged_value;
pub mod value;
pub mod wire;
