//! What the encryption machine can answer, and why it can refuse.

use vstd::prelude::*;

verus! {

/// Why a call on the machine did not do what was asked.
#[derive(Clone, Debug, PartialEq, Eq)]
pub enum MachineError {
    /// No machine has been created.
    NotInitialised,
    /// A machine has been created already.
    AlreadyInitialised,
    /// A user, device or scope identifier could not be parsed.
    MalformedIdentifier { detail: String },
    /// The store refused. The detail is a fixed text, never what the store said.
    Store { detail: String },
    /// The store belongs to another account.
    MismatchedAccount,
    /// The device is not known.
    UnknownDevice,
    /// No verification flow goes by that identifier.
    UnknownFlow,
    /// The flow is not at a stage where this can be done.
    WrongStage,
    /// The material to compare is not there yet.
    MaterialNotReady,
    /// Nothing is known yet of what the homeserver holds for this account.
    AccountKeysNotFetched,
    /// The account has an identity already.
    IdentityAlreadyExists,
    /// No identity is known for this account.
    IdentityNotKnown,
    /// This device does not hold the private keys.
    PrivateKeysNotHeld,
    /// No recovery has been set up, or not one this can read its way into.
    RecoveryNotSetUp,
    /// The secret does not open the recovery.
    RecoveryKeyIncorrect,
    /// The recovery is there and cannot be read.
    RecoveryDataMalformed,
    /// A recovery is there already.
    RecoveryAlreadyExists,
    /// No identity is known for the other party.
    PeerIdentityNotKnown,
    /// No code was offered in this flow.
    CodeNotOffered,
    /// The scanned code was refused.
    ScannedCodeRefused,
    /// The scanned code is not one of these.
    ScannedCodeUnrecognised,
    /// The scanned code could not be parsed.
    ScannedCodeMalformed,
    /// The scanned code belongs to another flow.
    ScannedCodeForAnotherFlow,
    /// The other party cannot scan.
    PeerCannotScan,
}

/// What became of a trip to the machine.
pub enum Trip<T> {
    /// There is no machine to go to.
    NoMachine,
    /// The machine, or the store behind it, refused.
    Refused,
    /// The machine answered.
    Done(T),
}

} // verus!
