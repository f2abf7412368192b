//! Connections: addresses, socket options, and the PROXY protocol.
pub mod address;
pub mod options;
pub mod prefixed_stream;
pub mod proxy_protocol;

pub use prefixed_stream::PrefixedRead;
pub use proxy_protocol::ProxyHeaderResult;
