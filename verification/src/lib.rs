//! Core logic of vrandr, a keyboard-driven front end for `xrandr`.

pub mod text;
pub mod num;
pub mod float_text;
pub mod model;
pub mod pending;
pub mod command;
pub mod xrandr;
pub mod edid;
pub mod config;
pub mod app;
pub mod keys;
pub mod ui;
pub mod restore;
pub mod laws;
