//! FlowDesk: configuration generation, log interpretation and process
//! supervision decisions for a Barrier-compatible keyboard/mouse sharing
//! server front-end.
#![allow(unused_imports)]

pub mod text;
pub mod config;
pub mod barrier_text;
pub mod logparse;
pub mod settings;
pub mod supervisor;
pub mod tray;
pub mod macos;
pub mod network;
