//! Parsing of HTTP/1.1 request lines into a verb, a path and a query string,
//! and the decisions of a one-connection-at-a-time accept loop.

pub mod method;
pub mod query_string;
pub mod request;
pub mod server;
pub mod text;
