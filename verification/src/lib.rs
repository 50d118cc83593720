pub mod capabilities;
pub mod cloud_auth;
pub mod codec;
pub mod commands;
pub mod desktop;
pub mod detection;
pub mod config;
pub mod error;
pub mod events;
pub mod history;
pub mod laws;
pub mod hotkey;
pub mod ocr;
pub mod payload;
pub mod pipeline;
pub mod providers;
pub mod recognition;
pub mod screenshot;
pub mod state;
pub mod text;
pub mod translate;
pub mod urls;

pub use error::{Error, ErrorKind, Result};
