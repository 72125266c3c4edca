//! The callback-based server: its methods, statuses, responses and options,
//! and the reading of a connection's head.
pub mod head;
pub mod method;
pub mod options;
pub mod response;
pub mod status;
