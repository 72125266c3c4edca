//! Body payloads for responses.
pub mod string;
