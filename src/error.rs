use vstd::prelude::*;

verus! {

/// The kinds of failure that validation and the exit pass report.
#[derive(Debug, Clone, Copy, PartialEq, Eq, Structural)]
pub enum ErrorCode {
    /// The cursor ran out before a field could take its handle.
    NotEnoughAccounts,
    /// A signer field's handle did not sign.
    AccountNotSigner,
    /// A system-account field's handle is not owned by the system program.
    AccountNotSystemOwned,
    /// Two mutable fields claim the same address.
    AccountDuplicateReuse,
    /// Persisting a mutable field on exit failed.
    ExitHookFailed,
}

} // verus!
