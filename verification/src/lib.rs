//! A minimal client core for the Gemini protocol: request framing, response
//! decoding, status classification, the choice of the host and port to
//! connect to, and the fetch loop that follows redirects.
//!
//! The library does no I/O of its own. The caller supplies the transport as a
//! function value that carries one request to a server and hands back what
//! it read.

pub mod error;
pub mod fetch;
pub mod gemini;
pub mod laws;
pub mod target;
pub mod text;
