pub mod backend;
pub mod link;
pub mod node;
pub mod sink;
