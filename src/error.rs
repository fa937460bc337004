use vstd::prelude::*;

verus! {

/// Why a request was refused. Every failure is terminal for the request.
#[derive(Clone, Copy, Debug, PartialEq, Eq, Structural)]
pub enum AmmError {
    /// A token account is not owned by the token ledger program.
    InvalidAccountOwner,
    /// An account that must approve the request did not sign it.
    MissingSignature,
    /// The ledger program account is not the token ledger program, or the
    /// pool account is not owned by this program.
    WrongProgramId,
    /// The pool account is not the address derived from its two assets.
    AddressMismatch,
    /// No nonce yields a valid derived address for the pool.
    AddressDerivationFailed,
    /// Unknown opcode, or a payload of the wrong length.
    MalformedPayload,
    /// The pool record has not been initialized.
    NotInitialized,
    /// The pool record was already initialized.
    AlreadyInitialized,
    /// A reserve account holds another asset than the pool expects.
    AssetMismatch,
    /// A reserve account's data is not a valid, initialized token account.
    InvalidTokenAccount,
    /// The stored pool record cannot be decoded.
    InvalidRecord,
    /// An amount is zero.
    InvalidAmount,
    /// An amount does not fit the ledger's 64-bit transfer width.
    AmountTooLarge,
    /// A checked operation overflowed, underflowed or divided by zero.
    ArithmeticOverflow,
    /// The quoted output is zero or exceeds the opposite reserve.
    InsufficientLiquidity,
}

} // verus!
