//! Error taxonomy of the protocol engine.

use vstd::prelude::*;

verus! {

/// Ghost mirror of `MssqlError`, used throughout the contracts.
pub enum ErrorModel {
    Transport,
    Protocol,
    Authentication(u32, Seq<u8>),
    Database(u32, Seq<u8>),
}

/// The four error classes of the engine. `Transport` (I/O failure,
/// unexpected end of stream) and `Protocol` (malformed packet header or
/// token stream) are fatal: the connection must be discarded.
/// `Authentication` means the handshake was rejected and the connection
/// never became usable. `Database` is a server-reported query-level
/// failure; the connection remains usable.
#[derive(Debug, Clone, PartialEq, Eq)]
pub enum MssqlError {
    Transport,
    Protocol,
    Authentication { number: u32, message: Vec<u8> },
    Database { number: u32, message: Vec<u8> },
}

impl View for MssqlError {
    type V = ErrorModel;

    open spec fn view(&self) -> ErrorModel {
        match self {
            MssqlError::Transport => ErrorModel::Transport,
            MssqlError::Protocol => ErrorModel::Protocol,
            MssqlError::Authentication { number, message } => ErrorModel::Authentication(
                *number,
                message@,
            ),
            MssqlError::Database { number, message } => ErrorModel::Database(*number, message@),
        }
    }
}

impl MssqlError {
    /// A fatal error leaves the connection untrustworthy; only a
    /// server-reported `Database` failure is survivable.
    pub fn is_fatal(&self) -> (r: bool)
        ensures
            r == !(self@ is Database),
    {
        !(matches!(self, MssqlError::Database { .. }))
    }
}

} // verus!
