//! Errors of the token ledger.
use vstd::prelude::*;

verus! {

#[derive(Debug, Clone)]
pub enum ATokenError {
    /// A hex text did not decode; the text names the field.
    HexDecode(String),
    InvalidPrivateKeyLength(usize),
    InvalidPublicKeyLength(usize),
    InvalidSignatureLength(usize),
    InvalidSignature,
    Serialization(String),
    InvalidSender,
    InvalidBlockHeight { expected: u64, actual: u64 },
    PreviousHashMismatch,
    PreviousThreeMismatch,
    InvalidChainId { expected: String, actual: String },
    TokenNotIssued,
    AlreadyIssued,
    MintAmountMustBePositive,
    MintNotAllowed,
    NonceMismatch { expected: u64, actual: u64 },
    EmptyTransfer,
    DuplicateTokenId(u64),
    UnknownToken(u64),
    NotTokenOwner { token_id: u64 },
    BlockHashMismatch,
    TransactionIdMismatch,
    Storage(String),
}

} // verus!
