//! Live markdown preview core: rendering, session state and event fan-out.

pub mod protocol;
pub mod text;
pub mod markdown;
pub mod lines;
pub mod heading;
pub mod render;
pub mod session;
pub mod plugin;
pub mod asset;
pub mod server;
pub mod editor;
