//! Failure conditions surfaced by the command codec and the authority engine.

use vstd::prelude::*;

verus! {

/// Every way an invocation can fail.
///
/// The first three arise while decoding a command buffer; the rest arise
/// while the authority engine checks a command against a storage slot.
#[derive(Debug, Clone, Copy, PartialEq, Eq, Structural)]
pub enum TitleRegError {
    /// The command tag byte is none of the known commands.
    UnknownCommand,
    /// The buffer ended before a declared length prefix or payload.
    TruncatedInput,
    /// A string payload is not valid UTF-8.
    InvalidEncoding,
    /// The caller did not sign the transaction.
    MissingSignature,
    /// The storage slot's initialized flag is still zero.
    NotInitialized,
    /// The caller is not the stored owner of the record.
    Unauthorized,
    /// The encoded record does not fit in the storage slot.
    SlotTooSmall,
}

} // verus!
