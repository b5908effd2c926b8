//! Point-to-point single-file transfer: header framing, chunked streaming
//! discipline, and collision-safe output path resolution.
//!
//! The wire format is a fixed 24-byte header (filename length, file size,
//! reserved, each an unsigned 64-bit big-endian integer) followed by the raw
//! filename bytes and then the file content, streamed until the peer closes
//! its half of the connection.

pub mod codec;
pub mod errors;
pub mod paths;
pub mod receiver;
pub mod sender;
