pub mod app;
pub mod config;
pub mod icon;
pub mod modal;
