//! The error taxonomy of the wallet account. Every failure is a typed
//! variant carrying a human-readable cause string; none is silently swallowed.

use vstd::prelude::*;

verus! {

/// A typed failure of an account operation.
///
/// - `SignerError`: the key derivation / signing backend was unavailable or
///   rejected the request (surfaced here when a caller could not supply the
///   derived values or signatures an operation needs).
/// - `NetworkError`: connectivity or protocol failure talking to the ledger
///   network, including a network answer that would corrupt local state
///   (such as a message id that already exists in the ledger).
/// - `InsufficientBalance`: a transfer asks for more than the available
///   balance, or for a zero amount that no balance could satisfy.
/// - `InvalidDestination`: a transfer names a malformed destination.
/// - `ConfigError`: malformed client options or malformed seed state handed
///   to the account initialiser.
/// - `SyncInProgress`: a synchronization was already running. This library
///   serializes synchronization by requiring exclusive (`&mut`) access to the
///   account, so it never produces this variant itself; it is part of the
///   taxonomy for callers that multiplex one account behind a lock and choose
///   to reject rather than wait.
/// - `SyncError`: synchronization could not be applied.
#[derive(Debug)]
pub enum WalletError {
    SignerError(String),
    NetworkError(String),
    InsufficientBalance(String),
    InvalidDestination(String),
    ConfigError(String),
    SyncInProgress(String),
    SyncError(String),
}

impl WalletError {
    /// The human-readable cause carried by this failure.
    pub fn cause(&self) -> (r: &String)
        ensures
            r@ == self.cause_spec(),
    {
        match self {
            WalletError::SignerError(s) => s,
            WalletError::NetworkError(s) => s,
            WalletError::InsufficientBalance(s) => s,
            WalletError::InvalidDestination(s) => s,
            WalletError::ConfigError(s) => s,
            WalletError::SyncInProgress(s) => s,
            WalletError::SyncError(s) => s,
        }
    }

    /// The cause string of this failure, as a sequence of characters.
    pub open spec fn cause_spec(&self) -> Seq<char> {
        match self {
            WalletError::SignerError(s) => s@,
            WalletError::NetworkError(s) => s@,
            WalletError::InsufficientBalance(s) => s@,
            WalletError::InvalidDestination(s) => s@,
            WalletError::ConfigError(s) => s@,
            WalletError::SyncInProgress(s) => s@,
            WalletError::SyncError(s) => s@,
        }
    }
}

} // verus!
