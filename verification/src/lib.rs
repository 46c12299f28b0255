//! Decoder and encoder for the binary property-tree container format and the
//! records built on it: the settings of mods and the header of a save file.
//!
//! Every function is verified against a grammar of the bytes, written as
//! functions on sequences:
//!
//! - [`grammar`] and [`layout`] say what the primitive reads take and what
//!   the primitive writes append; [`tree_format`] does so for trees.
//! - [`cursor`] and [`writer`] hold the cursor and the writer that follow
//!   them; [`tree_codec`], [`mod_settings`] and [`save_header`] the codecs of
//!   trees and records.
//! - [`round_trip`], [`extension`] and [`laws`] prove what holds across
//!   them: what was written reads back, bytes behind a value do not change
//!   it, and a buffer that was cut short is refused for being short.

pub mod cursor;
pub mod error;
pub mod extension;
pub mod grammar;
pub mod laws;
pub mod layout;
pub mod mod_settings;
pub mod round_trip;
pub mod save_header;
pub mod tree;
pub mod tree_codec;
pub mod tree_format;
pub mod version;
pub mod writer;

pub use crate::cursor::Deserialiser;
pub use crate::error::Error;
pub use crate::mod_settings::ModSettings;
pub use crate::save_header::{SaveHeader, SaveHeaderMod};
pub use crate::tree::{PropertyTree, PropertyTreeType};
pub use crate::version::{BuildNumber, Version, Version48};
pub use crate::writer::Serialiser;
