//! The rules of the wire, of paths and of stored data.

pub mod advertisement;
pub mod destination;
pub mod digest;
pub mod encoding;
pub mod file_stream;
pub mod filesystem;
pub mod grants;
pub mod identifiers;
pub mod messages;
pub mod offer;
pub mod preparation;
pub mod preview;
pub mod router;
pub mod schedule;
pub mod status;
