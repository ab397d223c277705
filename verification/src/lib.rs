//! A durable mapping from application identifiers to local network ports.
//!
//! The library keeps the mapping in memory, decides what every operation does
//! to it, and turns it into and out of the YAML document that is kept on disk.
//! It touches no file itself: a caller reads and writes the document and hands
//! the library what it read.
//!
//! A document is handed out only after it has been read back, so what was
//! written loads as the mapping it was written for.

pub mod error;
pub mod laws;
pub mod location;
pub mod mapping;
pub mod model;
pub mod order;
mod ports;
pub mod yaml;

pub use error::{FileRead, PortMappingError};
pub use location::{app_ui_folder_path, DataPath};
pub use mapping::{PortMapping, LOWEST_PORT};
pub use yaml::{MAX_APPLICATIONS, MAX_IDENTIFIER_CHARS};
