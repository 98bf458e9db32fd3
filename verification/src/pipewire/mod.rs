pub mod global;
pub mod pw_core;
pub mod pw_node;
pub mod pw_registry;
pub mod pw_sink;
