//! A global object of the PipeWire registry, as plain values.
use std::collections::HashMap;
use vstd::prelude::*;

verus! {

/// The object types of the registry that the mixer reacts to.
#[derive(Debug, Clone, Copy, PartialEq, Eq, Structural)]
pub enum ObjectKind {
    Node,
    Port,
    Link,
    Other,
}

/// A registry global: its id, its type, and its properties if it has any.
#[derive(Debug, Clone)]
pub struct Global {
    pub id: u32,
    pub kind: ObjectKind,
    pub props: Option<HashMap<String, String>>,
}

} // verus!
