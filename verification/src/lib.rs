//! Client side of the blackfast daemon protocol: locating the daemon's files,
//! supervising the connection, encoding the request and decoding the framed
//! response stream.

pub mod error;
pub mod frame;
pub mod decoder;
pub mod lines;
pub mod locator;
pub mod request;
pub mod supervisor;
