//! Errors of the sale program.
use vstd::prelude::*;

verus! {

/// Why an operation was refused. Every refusal leaves all records unchanged.
#[derive(Debug, Clone, Copy, PartialEq, Eq, Structural)]
pub enum ErrorCode {
    /// The caller is not the owner of the record it names.
    PermissionError,
    InvalidNonce,
    IDONotStarted,
    IDOEnded,
    IDOStarted,
    LowUsdc,
    /// The allow-list proof does not lead to the published root.
    InvalidProof,
    /// The allocation would exceed the proven cap.
    InvalidAmount,
    /// A deposit was attempted while the sale is frozen.
    SaleFrozen,
    /// A checked sum does not fit in 64 bits.
    ArithmeticOverflow,
    /// A required record, such as the allow-list root, does not exist.
    NotFound,
    /// A record was initialised a second time.
    AlreadyExists,
    /// An argument is out of range, such as a sale name over ten bytes.
    InvalidArgument,
}

impl ErrorCode {
    /// The human-readable message of the error.
    pub fn message(&self) -> (r: &'static str) {
        match self {
            ErrorCode::PermissionError => "Invalid action, E5000",
            ErrorCode::InvalidNonce => "Given nonce is invalid, E1000",
            ErrorCode::IDONotStarted => "IDO has not started, E1001",
            ErrorCode::IDOEnded => "IDO has ended, E1002",
            ErrorCode::IDOStarted => "IDO has not finished yet, E1003",
            ErrorCode::LowUsdc => "Insufficient USDC, E1004",
            ErrorCode::InvalidProof => "Invalid proof",
            ErrorCode::InvalidAmount => "Invalid amount",
            ErrorCode::SaleFrozen => "Sale is frozen",
            ErrorCode::ArithmeticOverflow => "Arithmetic overflow",
            ErrorCode::NotFound => "Record not found",
            ErrorCode::AlreadyExists => "Record already exists",
            ErrorCode::InvalidArgument => "Invalid argument",
        }
    }
}

} // verus!
