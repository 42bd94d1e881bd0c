//! Errors of the multisig flows.
use vstd::prelude::*;

verus! {

/// Why bytes do not stand for a key.
#[derive(Debug)]
pub enum ByteArrayError {
    /// The bytes have the right length but no meaning.
    ConversionError {
        /// What is wrong with them.
        reason: String,
    },
    /// The bytes have the wrong length.
    IncorrectLength,
}

/// Errors of the output manager.
#[derive(Debug)]
pub enum OutputManagerError {
    /// The unspent outputs do not add up to the amount that is wanted.
    NotEnoughFunds,
    /// A request that cannot be served, in words.
    ServiceError(String),
}

/// What a multisig command fails with.
#[derive(Debug)]
pub enum CommandError {
    /// A failure in words.
    General(String),
    /// An argument that does not fit, in words.
    InvalidArgument(String),
    /// The wallet's spend key is not one of the session's parties.
    PartyMemberNotFound,
    /// The output manager failed.
    OutputManagerError(OutputManagerError),
    /// Bytes that do not stand for a key.
    ByteArrayError(ByteArrayError),
    /// A transaction component refused to be checked, in words.
    TransactionError(String),
}

impl ByteArrayError {
    /// The words of the error.
    pub open spec fn words(self) -> Seq<char> {
        match self {
            ByteArrayError::ConversionError { reason } => {
                "Could not create a ByteArray when converting from a different format: `"@ + reason@ + "'"@
            },
            ByteArrayError::IncorrectLength => {
                "The input data was the incorrect length to perform the desired conversion"@
            },
        }
    }

    /// Gives the words of the error.
    pub fn message(&self) -> (text: String)
        ensures
            text@ == self.words(),
    {
        match self {
            ByteArrayError::ConversionError { reason } => crate::text::enclosed(
                "Could not create a ByteArray when converting from a different format: `",
                reason.as_str(),
                "'",
            ),
            ByteArrayError::IncorrectLength => {
                "The input data was the incorrect length to perform the desired conversion".to_owned()
            },
        }
    }
}

} // verus!
