//! The errors that end a batch.

use crate::text::{append_decimal, append_digits, append_str, decimal};
use vstd::prelude::*;

verus! {

/// What can go wrong while a batch is prepared or exchanged with the engine.
#[derive(Debug, Clone, PartialEq, Eq)]
pub enum BbaError {
    /// No engine instance could be created.
    EngineCreationFailed(String),
    /// The engine reported an error: its code and diagnostic.
    EngineError(i32, String),
    /// Invalid PBN text.
    InvalidPbn(String),
    /// Invalid convention file.
    InvalidConventionFile(String),
    /// A file could not be read or written; holds the system's message.
    IoError(String),
    /// A string could not be handed to the engine; holds the reason.
    StringError(String),
    /// A file path that is not valid text.
    InvalidPath,
    /// The auction did not end within this many bids.
    AuctionTooLong(usize),
    /// The auction is already complete.
    AuctionComplete,
    /// A buffer was too small for the engine's answer.
    BufferTooSmall,
    /// The engine could not be reached, or its answer could not be used.
    FfiError(String),
}

/// The result of an operation that can fail with a `BbaError`.
pub type BbaResult<T> = Result<T, BbaError>;

impl BbaError {
    /// The message that `message` returns.
    pub open spec fn spec_message(self) -> Seq<char> {
        match self {
            BbaError::EngineCreationFailed(s) => "Failed to create EPBot engine: "@ + s@,
            BbaError::EngineError(c, s) => "EPBot error (code "@ + decimal(c as int) + "): "@
                + s@,
            BbaError::InvalidPbn(s) => "Invalid PBN format: "@ + s@,
            BbaError::InvalidConventionFile(s) => "Invalid convention file: "@ + s@,
            BbaError::IoError(s) => "I/O error: "@ + s@,
            BbaError::StringError(s) => "String conversion error: "@ + s@,
            BbaError::InvalidPath => "Invalid file path"@,
            BbaError::AuctionTooLong(n) => "Auction too long (exceeded "@ + decimal(n as int)
                + " bids)"@,
            BbaError::AuctionComplete => "Auction is complete"@,
            BbaError::BufferTooSmall => "Buffer too small"@,
            BbaError::FfiError(s) => "FFI error: "@ + s@,
        }
    }

    /// The error as a line for the user.
    pub fn message(&self) -> (r: String)
        ensures
            r@ == self.spec_message(),
    {
        let mut r = String::new();
        match self {
            BbaError::EngineCreationFailed(s) => {
                append_str(&mut r, "Failed to create EPBot engine: ");
                append_str(&mut r, s.as_str());
            },
            BbaError::EngineError(c, s) => {
                append_str(&mut r, "EPBot error (code ");
                append_decimal(&mut r, *c as i64);
                append_str(&mut r, "): ");
                append_str(&mut r, s.as_str());
            },
            BbaError::InvalidPbn(s) => {
                append_str(&mut r, "Invalid PBN format: ");
                append_str(&mut r, s.as_str());
            },
            BbaError::InvalidConventionFile(s) => {
                append_str(&mut r, "Invalid convention file: ");
                append_str(&mut r, s.as_str());
            },
            BbaError::IoError(s) => {
                append_str(&mut r, "I/O error: ");
                append_str(&mut r, s.as_str());
            },
            BbaError::StringError(s) => {
                append_str(&mut r, "String conversion error: ");
                append_str(&mut r, s.as_str());
            },
            BbaError::InvalidPath => {
                append_str(&mut r, "Invalid file path");
            },
            BbaError::AuctionTooLong(n) => {
                append_str(&mut r, "Auction too long (exceeded ");
                append_digits(&mut r, *n as u128);
                append_str(&mut r, " bids)");
            },
            BbaError::AuctionComplete => {
                append_str(&mut r, "Auction is complete");
            },
            BbaError::BufferTooSmall => {
                append_str(&mut r, "Buffer too small");
            },
            BbaError::FfiError(s) => {
                append_str(&mut r, "FFI error: ");
                append_str(&mut r, s.as_str());
            },
        }
        proof {
            assert(r@ =~= self.spec_message());
        }
        r
    }
}

} // verus!
