//! Analyser and editor for the binary save files of an open-world survival game.
//!
//! The save format has no schema: records are found by scanning for literal
//! markers and name tokens, and every edit is an in-place overwrite that keeps
//! the length of the buffer.

pub mod bytes;
pub mod chunks;
pub mod classifier;
pub mod codec;
pub mod error;
pub mod file_analyser;
pub mod formatting;
pub mod inventory;
pub mod logger;
pub mod markers;
pub mod mutation;
pub mod rows;
pub mod scanner;
pub mod skills;
pub mod struct_data;
pub mod text;
pub mod unlockables;
