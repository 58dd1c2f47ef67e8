//! Parser for USB2SNES autosplitter definition files.
//!
//! A splitter file is a JSON document describing an optional autostart
//! condition, an optional in-game-time configuration, a mapping of address
//! aliases, and an ordered tree of split definitions.  This crate maps such
//! documents onto plain value types, strictly and with located errors.

pub mod address;
pub mod error;
pub mod json;
pub mod laws;
pub mod model;
pub mod parse;

pub use address::string_to_u32;
pub use error::{ParseError, PathPart};
pub use json::JsonValue;
pub use model::{Autostart, ComparisonTypes, Config, InGameTime, SplitDefinition};
pub use parse::{comparison_of, config_from_json, parse};
