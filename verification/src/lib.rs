//! Decoder for the header region of a versioned game-engine package file.
//!
//! The header holds a table of contents that is scattered over the file by
//! absolute byte offsets: a name table, an import table and an export table,
//! preceded by a preamble whose fields come and go with the file version.
//! Every decoder here is stated against a layout function over the raw bytes:
//! `layout` holds the building blocks of those functions, and each record
//! type brings its own beside its decoder. `laws` holds what follows from
//! them for every file.

pub mod block;
pub mod error;
pub mod export;
pub mod generation;
pub mod import;
pub mod laws;
pub mod layout;
pub mod le;
pub mod name;
pub mod package;
pub mod reader;
pub mod text;
pub mod version;

pub use block::UnrealBlock;
pub use error::DecodeError;
pub use export::UnrealExport;
pub use generation::UnrealGeneration;
pub use import::UnrealImport;
pub use name::{get_name, UnrealName};
pub use package::UnrealPackage;
pub use reader::ByteReader;
pub use text::parse_string;
