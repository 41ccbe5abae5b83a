//! A verified core for HTTP conditional GET handling.
//!
//! The crate models header maps as ordered byte-string multimaps, parses the
//! three legacy HTTP date formats, and decides when a `200` response may be
//! replaced by an empty `304 Not Modified`.

pub mod conditional;
pub mod dates;
pub mod formatting;
pub mod header;
pub mod headers;
pub mod laws;
pub mod message;
pub mod mock;
pub mod parsing;
pub mod runtime;
pub mod serve;

pub use conditional::ConditionalGet;
pub use dates::HttpDate;
pub use headers::HeaderMap;
pub use message::{Method, Response, Scheme};
pub use mock::{MockHeaders, MockRequest};
pub use runtime::StartInstant;
