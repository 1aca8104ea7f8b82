//! A client for a remote file system reached over one stream connection.
//!
//! Each file system operation becomes one request line of space-separated
//! tokens, and the server's reply is decoded back into typed values or a POSIX
//! error number. The library holds the protocol: the request encoders, the
//! reply decoders, the directory listing decoder and the chunked write; the
//! caller owns the connection and moves the bytes.

pub mod attr;
pub mod errno;
pub mod fuse;
pub mod listing;
pub mod request;
pub mod response;
pub mod schema;
pub mod wire;
pub mod write;
