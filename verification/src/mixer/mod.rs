pub mod audio;
pub mod backend;
pub mod channels;
pub mod session;
pub mod ids;
