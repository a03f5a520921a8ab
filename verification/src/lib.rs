//! Client-side engine for a binary tabular-data-stream database protocol:
//! packet framing and reassembly, the login handshake, command execution
//! with token-stream decoding, and the connection lifecycle contract.

pub mod endian;
pub mod error;
pub mod packet;
pub mod transport;
pub mod stream;
pub mod token;
pub mod decode;
pub mod executor;
pub mod establish;
pub mod connection;

pub use connection::MssqlConnection;
