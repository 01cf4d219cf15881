//! A terminal dashboard library: a fixed-capacity log store, a prioritized
//! keyboard-input protocol, a pure frame renderer, and the parsing rules for
//! the mission codes that the surrounding tool publishes.

pub mod input;
pub mod keys;
pub mod log;
pub mod manager;
pub mod mission_codes;
pub mod numbers;
pub mod program_info;
pub mod remotes;
pub mod render;
pub mod ring_buffer;
pub mod server;
pub mod style;
pub mod text;
