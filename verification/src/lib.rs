pub mod audio;
pub mod config;
pub mod pipewire;
pub mod seqs;
pub mod strings;
pub mod mixer;
pub mod names;
pub mod shell;
pub mod ui;
