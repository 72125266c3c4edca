//! The strict request parser: it refuses malformed header lines, accepts
//! only HTTP/1.1, and reads a body only for `Content-Type: text/plain`.
pub mod header;
pub mod method;
pub mod reply;
pub mod request;
pub mod version;
