pub mod audio_manager;
pub mod backend;
pub mod bus;
pub mod channel;
pub mod channel_manager;
pub mod channels;
pub mod client;
pub mod events;
pub mod manager;
pub mod nodes;
