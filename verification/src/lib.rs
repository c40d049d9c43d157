//! Core logic of a tray utility that switches display HDR on while Netflix
//! is open: configuration rules, Netflix detection, display selection, the
//! HDR switching and start-up procedures, the watcher's decisions and the
//! tray menu's model.
pub mod text;
pub mod netflix;
pub mod config;
pub mod hdr;
pub mod switch;
pub mod state;
pub mod icon;
pub mod startup;
pub mod selection;
pub mod tray;
pub mod cli;
