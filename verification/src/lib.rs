//! HTTP/1.1 request parsing and response building, with verified contracts.
//!
//! - `text`: character-level string operations (trimming, splitting,
//!   decimal numbers), each stated by a spec function.
//! - `reader`: an in-memory byte reader with line and exact-length reads.
//! - `table`: string-keyed tables kept in insertion order.
//! - `prime`: the lenient request parser, responses and status codes.
//! - `middlewares`: body payloads.
//! - `rapid`: the strict request parser.
//! - `server`: the callback-based server's responses, methods and options.
pub mod middlewares;
pub mod prime;
pub mod rapid;
pub mod reader;
pub mod server;
pub mod table;
pub mod text;
