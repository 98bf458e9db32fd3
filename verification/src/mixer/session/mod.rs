pub mod bus;
pub mod channels;
pub mod config;
pub mod engine;
pub mod state;
