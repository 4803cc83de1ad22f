//! A static-file HTTP server's serving pipeline, verified: parsing a
//! line-oriented request buffer into a structured request, resolving the
//! requested path against the approved root directories with a backup-file
//! fallback, deciding content type and compression from the negotiation
//! headers, and assembling the response bytes — including the uncompressed
//! fallback when the encoder fails.
//!
//! The process around the library supplies what it cannot do itself: the
//! listening socket, the argument vector, and a snapshot of what the
//! request's candidate paths hold on disk.

pub mod arguments;
pub mod connection;
pub mod default_file;
pub mod directory;
pub mod file_store;
pub mod filelike;
pub mod gzip;
pub mod headers;
pub mod hostname;
pub mod port;
pub mod request;
pub mod response;
pub mod static_directory_manager;
pub mod text;
