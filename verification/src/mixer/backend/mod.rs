pub mod coreaudio;
pub mod pipewire;
