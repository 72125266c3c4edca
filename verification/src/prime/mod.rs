//! The lenient request parser: it keeps the query string, skips malformed
//! header lines and accepts a body whose `Content-Type` is `text/plain` or
//! absent; and the response model that goes with it.
pub mod http_method;
pub mod reply;
pub mod request;
pub mod response;
pub mod status_code;
