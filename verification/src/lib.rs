//! The logic of a terminal front end for the iwd wireless daemon.

pub mod address;
pub mod agent;
pub mod app;
pub mod bus;
pub mod ethernet;
pub mod format;
pub mod key_laws;
pub mod keys;
pub mod layout;
pub mod list_laws;
pub mod network;
pub mod refresh;
pub mod schedule;
pub mod screen_laws;
pub mod session_laws;
pub mod split;
pub mod station;
pub mod text;
pub mod text_laws;
pub mod ui;
pub mod value_laws;
pub mod view_laws;
