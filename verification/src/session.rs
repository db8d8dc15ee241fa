//! Encrypting, decrypting, syncing and sharing keys: what is asked of the
//! machine, and what its answers mean.
//!
//! Each call is in two halves. The first checks what the caller gave and says
//! what to ask of the machine; the second takes what the machine answered.

use vstd::prelude::*;
use vstd::std_specs::convert::FromSpecImpl;
use vstd::string::{StrSliceExecFns, StringExecFns};

use crate::identifiers::{all_users, fresh_transaction_id, is_scope, parse_scope, parse_users};
use crate::json::{raw_text, read_raw, read_string_field, read_string_in_field, string_field,
    string_in_field, write_number};
use crate::machine::{MachineError, Trip};
use crate::registry::{after_signing_keys, all_filed, waiting_claim, waiting_signing_keys, Registry,
    ToDeviceMessage};
use crate::requests::{names, KeysClaimParts, SigningKeysParts};
use crate::state::RequestState;
use crate::text::{debug_text, decimal, quoted};

verus! {

/// How much the sender's device must be trusted for an event to be decrypted.
#[derive(Clone, Copy, Debug, PartialEq, Eq, Structural)]
pub enum SenderTrustRequirement {
    /// Any device.
    Any,
    /// A device its owner's identity signed, or a session from before that was
    /// recorded.
    IdentitySignedOrLegacy,
    /// A device its owner's identity signed.
    IdentitySigned,
}

/// The same, in the machine's terms.
#[derive(Clone, Copy, Debug, PartialEq, Eq, Structural)]
pub enum TrustRequirement {
    Untrusted,
    CrossSignedOrLegacy,
    CrossSigned,
}

/// What the machine is asked to insist on.
pub open spec fn trust_of(requirement: SenderTrustRequirement) -> TrustRequirement {
    match requirement {
        SenderTrustRequirement::Any => TrustRequirement::Untrusted,
        SenderTrustRequirement::IdentitySignedOrLegacy => TrustRequirement::CrossSignedOrLegacy,
        SenderTrustRequirement::IdentitySigned => TrustRequirement::CrossSigned,
    }
}

/// What the machine insists on when it takes in a sync: nothing, so that a key
/// from a device nobody vouched for still arrives.
pub fn decryption_settings() -> (trust: TrustRequirement)
    ensures
        trust is Untrusted,
{
    TrustRequirement::Untrusted
}

/// Why a session call did not do what was asked.
///
/// No variant has a field, and every text is fixed: nothing of what the caller
/// gave or the machine said can find its way into one.
#[derive(Clone, Copy, Debug, PartialEq, Eq, Structural)]
pub enum SessionError {
    /// The payload could not be parsed, or is not what it has to be.
    MalformedPayload,
    /// A scope or user identifier could not be parsed.
    MalformedIdentifier,
    /// There is no machine.
    NotInitialised,
    /// The machine, or the store behind it, refused.
    Failed,
    /// Nothing is pending under the identifier.
    UnknownRequest,
    /// The status is not one that a refused request can carry.
    NotAFailureStatus,
    /// The key has not arrived. It may yet.
    MissingKey,
    /// The sender did not share the session, for a reason that may pass.
    UnsharedSession,
    /// The sender's policy refused this device the session.
    SessionRefused,
    /// The device that encrypted the event is not the one it says it is.
    UnknownDevice,
    /// The sender's device is not trusted as much as was asked.
    SenderNotTrusted,
    /// The event cannot be decrypted, now or later.
    Undecryptable,
}

/// The text of a session error.
pub open spec fn session_message(error: SessionError) -> Seq<char> {
    match error {
        SessionError::MalformedPayload => "the payload could not be parsed"@,
        SessionError::MalformedIdentifier => "an identifier could not be parsed"@,
        SessionError::NotInitialised => "no crypto machine has been created"@,
        SessionError::Failed => "the crypto operation failed"@,
        SessionError::UnknownRequest => "the request id does not match a pending request"@,
        SessionError::NotAFailureStatus => "the status is not one a refused request can carry"@,
        SessionError::MissingKey => "no key is available to decrypt this event"@,
        SessionError::UnsharedSession =>
            "the session that encrypted this event was not shared with this device"@,
        SessionError::SessionRefused =>
            "the session that encrypted this event was refused by its sender's policy"@,
        SessionError::UnknownDevice => "the device that encrypted this event is not trusted"@,
        SessionError::SenderNotTrusted =>
            "the sender's device does not meet the trust requirement for decryption"@,
        SessionError::Undecryptable => "this event could not be decrypted"@,
    }
}

impl SessionError {
    /// The text of the error.
    pub fn message(self) -> (message: &'static str)
        ensures
            message@ == session_message(self),
    {
        match self {
            SessionError::MalformedPayload => "the payload could not be parsed",
            SessionError::MalformedIdentifier => "an identifier could not be parsed",
            SessionError::NotInitialised => "no crypto machine has been created",
            SessionError::Failed => "the crypto operation failed",
            SessionError::UnknownRequest => "the request id does not match a pending request",
            SessionError::NotAFailureStatus => "the status is not one a refused request can carry",
            SessionError::MissingKey => "no key is available to decrypt this event",
            SessionError::UnsharedSession =>
                "the session that encrypted this event was not shared with this device",
            SessionError::SessionRefused =>
                "the session that encrypted this event was refused by its sender's policy",
            SessionError::UnknownDevice => "the device that encrypted this event is not trusted",
            SessionError::SenderNotTrusted =>
                "the sender's device does not meet the trust requirement for decryption",
            SessionError::Undecryptable => "this event could not be decrypted",
        }
    }
}

/// What a machine error is as a session error.
pub open spec fn session_error(error: MachineError) -> SessionError {
    match error {
        MachineError::NotInitialised => SessionError::NotInitialised,
        MachineError::MalformedIdentifier { .. } => SessionError::MalformedIdentifier,
        MachineError::UnknownDevice => SessionError::UnknownDevice,
        _ => SessionError::Failed,
    }
}

impl From<MachineError> for SessionError {
    fn from(error: MachineError) -> (converted: SessionError) {
        match error {
            MachineError::NotInitialised => SessionError::NotInitialised,
            MachineError::MalformedIdentifier { .. } => SessionError::MalformedIdentifier,
            MachineError::UnknownDevice => SessionError::UnknownDevice,
            MachineError::AlreadyInitialised
            | MachineError::Store { .. }
            | MachineError::MismatchedAccount
            | MachineError::UnknownFlow
            | MachineError::WrongStage
            | MachineError::MaterialNotReady
            | MachineError::AccountKeysNotFetched
            | MachineError::IdentityAlreadyExists
            | MachineError::IdentityNotKnown
            | MachineError::PrivateKeysNotHeld
            | MachineError::RecoveryNotSetUp
            | MachineError::RecoveryKeyIncorrect
            | MachineError::RecoveryDataMalformed
            | MachineError::RecoveryAlreadyExists
            | MachineError::PeerIdentityNotKnown
            | MachineError::CodeNotOffered
            | MachineError::ScannedCodeRefused
            | MachineError::ScannedCodeUnrecognised
            | MachineError::ScannedCodeMalformed
            | MachineError::ScannedCodeForAnotherFlow
            | MachineError::PeerCannotScan => SessionError::Failed,
        }
    }
}

impl FromSpecImpl<MachineError> for SessionError {
    open spec fn obeys_from_spec() -> bool {
        true
    }

    open spec fn from_spec(error: MachineError) -> SessionError {
        session_error(error)
    }
}

/// What a sync brought.
#[derive(Clone, Copy, Debug, PartialEq, Eq, Structural)]
pub struct SyncOutcome {
    /// How many to-device events were processed.
    pub to_device_event_count: u32,
    /// How many sessions are new.
    pub new_session_count: u32,
}

/// What became of a sync payload.
pub enum SyncAnswer {
    /// It could not be read.
    Unreadable,
    /// It was read and there is no machine.
    NoMachine,
    /// The machine refused it.
    Refused,
    /// The machine took it in, and came away with so many to-device events and
    /// so many room keys.
    Processed { to_device_events: usize, room_keys: usize },
}

/// What a sync brought, or why it brought nothing.
pub fn receive_sync_changes(answer: SyncAnswer) -> (result: Result<SyncOutcome, SessionError>)
    ensures
        match answer {
            SyncAnswer::Unreadable => result == Err::<SyncOutcome, SessionError>(
                SessionError::MalformedPayload,
            ),
            SyncAnswer::NoMachine => result == Err::<SyncOutcome, SessionError>(
                SessionError::NotInitialised,
            ),
            SyncAnswer::Refused => result == Err::<SyncOutcome, SessionError>(
                SessionError::Failed,
            ),
            SyncAnswer::Processed { to_device_events, room_keys } => result == Ok::<
                SyncOutcome,
                SessionError,
            >(
                SyncOutcome {
                    to_device_event_count: to_device_events as u32,
                    new_session_count: room_keys as u32,
                },
            ),
        },
{
    match answer {
        SyncAnswer::Unreadable => Err(SessionError::MalformedPayload),
        SyncAnswer::NoMachine => Err(SessionError::from(MachineError::NotInitialised)),
        SyncAnswer::Refused => Err(SessionError::Failed),
        SyncAnswer::Processed { to_device_events, room_keys } => Ok(
            SyncOutcome {
                to_device_event_count: #[verifier::truncate]
                (to_device_events as u32),
                new_session_count: #[verifier::truncate]
                (room_keys as u32),
            },
        ),
    }
}

/// What was found out about who sent a decrypted event.
#[derive(Clone, Copy, Debug, PartialEq, Eq, Structural)]
pub enum SenderVerification {
    /// A device its owner signed, and an owner this account has verified.
    Verified,
    /// A device its owner signed, and an owner nobody here has verified.
    UnverifiedIdentity,
    /// An owner who was verified and has another identity now.
    VerificationViolation,
    /// A device its owner has not signed.
    UnsignedDevice,
    /// No device is known for the session.
    NoDeviceMissing,
    /// The session came from a source that vouches for no device.
    NoDeviceInsecureSource,
    /// The event's sender is not the owner of the session.
    MismatchedSender,
}

/// What the machine knows of who sent an event.
#[derive(Clone, Copy, Debug, PartialEq, Eq, Structural)]
pub enum VerificationState {
    Verified,
    Unverified(VerificationLevel),
}

/// How far short of verified a sender is.
#[derive(Clone, Copy, Debug, PartialEq, Eq, Structural)]
pub enum VerificationLevel {
    UnverifiedIdentity,
    VerificationViolation,
    UnsignedDevice,
    NoDevice(DeviceLinkProblem),
    MismatchedSender,
}

/// Why a session is linked to no device.
#[derive(Clone, Copy, Debug, PartialEq, Eq, Structural)]
pub enum DeviceLinkProblem {
    MissingDevice,
    InsecureSource,
}

/// What the machine's knowledge of a sender is reported as.
pub open spec fn verification_of(state: VerificationState) -> SenderVerification {
    match state {
        VerificationState::Verified => SenderVerification::Verified,
        VerificationState::Unverified(level) => match level {
            VerificationLevel::UnverifiedIdentity => SenderVerification::UnverifiedIdentity,
            VerificationLevel::VerificationViolation => SenderVerification::VerificationViolation,
            VerificationLevel::UnsignedDevice => SenderVerification::UnsignedDevice,
            VerificationLevel::NoDevice(
                DeviceLinkProblem::MissingDevice,
            ) => SenderVerification::NoDeviceMissing,
            VerificationLevel::NoDevice(
                DeviceLinkProblem::InsecureSource,
            ) => SenderVerification::NoDeviceInsecureSource,
            VerificationLevel::MismatchedSender => SenderVerification::MismatchedSender,
        },
    }
}

/// Reports what the machine knows of a sender.
pub fn sender_verification(state: VerificationState) -> (verification: SenderVerification)
    ensures
        verification == verification_of(state),
{
    match state {
        VerificationState::Verified => SenderVerification::Verified,
        VerificationState::Unverified(level) => match level {
            VerificationLevel::UnverifiedIdentity => SenderVerification::UnverifiedIdentity,
            VerificationLevel::VerificationViolation => SenderVerification::VerificationViolation,
            VerificationLevel::UnsignedDevice => SenderVerification::UnsignedDevice,
            VerificationLevel::NoDevice(
                DeviceLinkProblem::MissingDevice,
            ) => SenderVerification::NoDeviceMissing,
            VerificationLevel::NoDevice(
                DeviceLinkProblem::InsecureSource,
            ) => SenderVerification::NoDeviceInsecureSource,
            VerificationLevel::MismatchedSender => SenderVerification::MismatchedSender,
        },
    }
}

/// A reported sender is verified only where the machine says verified, and no
/// two states of the machine are reported as the same.
pub proof fn law_verification_is_reported_faithfully(a: VerificationState, b: VerificationState)
    ensures
        verification_of(a) is Verified <==> a is Verified,
        verification_of(a) == verification_of(b) ==> a == b,
{
}

/// An event, encrypted or decrypted.
#[derive(Clone, PartialEq, Eq)]
pub struct Envelope {
    /// The scope the event belongs to.
    pub scope: String,
    /// The algorithm, or nothing where the event names none.
    pub algorithm: String,
    /// The type of the event inside.
    pub event_type: String,
    /// The content: encrypted where the event was encrypted here, in the clear
    /// where it was decrypted here.
    pub ciphertext: Vec<u8>,
    /// Who sent the event.
    pub sender: String,
    /// What was found out about the sender, where the event was decrypted here.
    pub sender_verification: Option<SenderVerification>,
}

/// The name of a verification.
pub open spec fn verification_name(verification: Option<SenderVerification>) -> Seq<char> {
    match verification {
        Some(SenderVerification::Verified) => "Some(Verified)"@,
        Some(SenderVerification::UnverifiedIdentity) => "Some(UnverifiedIdentity)"@,
        Some(SenderVerification::VerificationViolation) => "Some(VerificationViolation)"@,
        Some(SenderVerification::UnsignedDevice) => "Some(UnsignedDevice)"@,
        Some(SenderVerification::NoDeviceMissing) => "Some(NoDeviceMissing)"@,
        Some(SenderVerification::NoDeviceInsecureSource) => "Some(NoDeviceInsecureSource)"@,
        Some(SenderVerification::MismatchedSender) => "Some(MismatchedSender)"@,
        None => "None"@,
    }
}

fn name_verification(verification: Option<SenderVerification>) -> (name: &'static str)
    ensures
        name@ == verification_name(verification),
{
    match verification {
        Some(SenderVerification::Verified) => "Some(Verified)",
        Some(SenderVerification::UnverifiedIdentity) => "Some(UnverifiedIdentity)",
        Some(SenderVerification::VerificationViolation) => "Some(VerificationViolation)",
        Some(SenderVerification::UnsignedDevice) => "Some(UnsignedDevice)",
        Some(SenderVerification::NoDeviceMissing) => "Some(NoDeviceMissing)",
        Some(SenderVerification::NoDeviceInsecureSource) => "Some(NoDeviceInsecureSource)",
        Some(SenderVerification::MismatchedSender) => "Some(MismatchedSender)",
        None => "None",
    }
}

/// How an envelope is shown: of the content only the length, and of the sender
/// nothing.
pub open spec fn envelope_text(
    scope: Seq<char>,
    algorithm: Seq<char>,
    event_type: Seq<char>,
    ciphertext_len: nat,
    verification: Option<SenderVerification>,
) -> Seq<char> {
    "Envelope { scope: "@ + debug_text(scope) + ", algorithm: "@ + debug_text(algorithm)
        + ", event_type: "@ + debug_text(event_type) + ", ciphertext_len: "@ + decimal(
        ciphertext_len,
    ) + ", sender: \"[redacted]\", sender_verification: "@ + verification_name(verification)
        + " }"@
}

impl Envelope {
    /// Shows the envelope without its content and without its sender.
    pub fn debug_text(&self) -> (text: String)
        ensures
            text@ == envelope_text(
                self.scope@,
                self.algorithm@,
                self.event_type@,
                self.ciphertext@.len(),
                self.sender_verification,
            ),
    {
        let mut text: String = "Envelope { scope: ".to_owned();
        text.append(quoted(self.scope.as_str()).as_str());
        text.append(", algorithm: ");
        text.append(quoted(self.algorithm.as_str()).as_str());
        text.append(", event_type: ");
        text.append(quoted(self.event_type.as_str()).as_str());
        text.append(", ciphertext_len: ");
        text.append(write_number(self.ciphertext.len() as u64).as_str());
        text.append(", sender: \"[redacted]\", sender_verification: ");
        text.append(name_verification(self.sender_verification));
        text.append(" }");
        text
    }
}

/// How an envelope is shown.
pub open spec fn shown(envelope: Envelope) -> Seq<char> {
    envelope_text(
        envelope.scope@,
        envelope.algorithm@,
        envelope.event_type@,
        envelope.ciphertext@.len(),
        envelope.sender_verification,
    )
}

/// Two envelopes that differ only in their sender and in what their content
/// says, not in how long it is, are shown the same: neither can be read off.
pub proof fn law_envelope_shows_no_secret(a: Envelope, b: Envelope)
    requires
        a.scope@ == b.scope@,
        a.algorithm@ == b.algorithm@,
        a.event_type@ == b.event_type@,
        a.ciphertext@.len() == b.ciphertext@.len(),
        a.sender_verification == b.sender_verification,
    ensures
        shown(a) == shown(b),
{
}

/// What the machine is asked to encrypt.
pub struct EncryptCall {
    pub room_id: String,
    pub event_type: String,
    /// The content, as JSON with nothing around it.
    pub content: String,
}

/// What the machine encrypted.
pub struct EncryptedContent {
    /// The encrypted content, as JSON.
    pub content: String,
    /// Whom the machine belongs to.
    pub sender: String,
}

/// Checks an event that is to be encrypted, and says what to ask of the machine.
///
/// The scope is looked at first: a bad scope with a bad payload is a bad scope.
pub fn encrypt_event(scope: &str, event_type: &str, payload_json: &str) -> (result: Result<
    EncryptCall,
    SessionError,
>)
    ensures
        match result {
            Ok(call) => {
                &&& is_scope(scope@)
                &&& call.room_id@ == scope@
                &&& call.event_type@ == event_type@
                &&& raw_text(payload_json@) == Some(call.content@)
            },
            Err(error) => {
                ||| !is_scope(scope@) && error is MalformedIdentifier
                ||| is_scope(scope@) && raw_text(payload_json@) is None && error is MalformedPayload
            },
        },
{
    let room_id: String = match parse_scope(scope) {
        Ok(room_id) => room_id,
        Err(error) => {
            return Err(error);
        },
    };
    match read_raw(payload_json) {
        Some(content) => Ok(EncryptCall { room_id, event_type: event_type.to_owned(), content }),
        None => Err(SessionError::MalformedPayload),
    }
}

/// A text that may be missing, as a text.
pub open spec fn or_empty(text: Option<Seq<char>>) -> Seq<char> {
    match text {
        Some(text) => text,
        None => Seq::empty(),
    }
}

/// The algorithm that an encrypted content names.
pub open spec fn algorithm_of_content(content: Seq<char>) -> Option<Seq<char>> {
    string_field(content, "algorithm"@)
}

/// The envelope of what the machine encrypted.
pub fn encrypted_envelope(call: EncryptCall, answer: Trip<EncryptedContent>) -> (result: Result<
    Envelope,
    SessionError,
>)
    ensures
        match (answer, result) {
            (Trip::NoMachine, Err(error)) => error is NotInitialised,
            (Trip::Refused, Err(error)) => error is Failed,
            (Trip::Done(encrypted), Ok(envelope)) => {
                &&& envelope.scope@ == call.room_id@
                &&& envelope.algorithm@ == or_empty(algorithm_of_content(encrypted.content@))
                &&& envelope.event_type@ == call.event_type@
                &&& envelope.ciphertext@ == vstd::utf8::encode_utf8(encrypted.content@)
                &&& envelope.sender@ == encrypted.sender@
                &&& envelope.sender_verification is None
            },
            _ => false,
        },
{
    let encrypted: EncryptedContent = match answer {
        Trip::NoMachine => {
            return Err(SessionError::from(MachineError::NotInitialised));
        },
        Trip::Refused => {
            return Err(SessionError::Failed);
        },
        Trip::Done(encrypted) => encrypted,
    };
    let algorithm: String = match read_string_field(encrypted.content.as_str(), "algorithm") {
        Some(algorithm) => algorithm,
        None => String::new(),
    };
    Ok(
        Envelope {
            scope: call.room_id,
            algorithm,
            event_type: call.event_type,
            ciphertext: encrypted.content.as_str().as_bytes_vec(),
            sender: encrypted.sender,
            sender_verification: None,
        },
    )
}

/// Why the machine did not decrypt an event.
pub enum MegolmFault {
    /// The session is not known here. A sender who withheld it may have said why.
    MissingRoomKey(Option<WithheldCode>),
    /// The session is known from a later message on only.
    UnknownMessageIndex,
    /// The session is known and does not decrypt the message.
    Decryption,
    /// The keys of the device do not match those of the session.
    MismatchedIdentityKeys,
    /// The sender's device is not trusted as much as was asked.
    SenderIdentityNotTrusted,
    /// The event is not an encrypted event of a kind that is known.
    EventError,
    /// The plaintext is not JSON.
    JsonError,
    /// The ciphertext could not be decoded.
    Decode,
    /// The store refused.
    Store,
}

/// Why a sender withheld a session.
pub enum WithheldCode {
    Blacklisted,
    Unverified,
    Unauthorised,
    Unavailable,
    NoOlm,
    HistoryNotShared,
    /// A reason this library has no name for.
    Unrecognised,
}

/// What a machine's failure to decrypt is reported as.
///
/// Three of these may pass of themselves or by a retry; a sender's refusal by
/// policy does not, and is told apart for that reason.
pub open spec fn fault_of(fault: MegolmFault) -> SessionError {
    match fault {
        MegolmFault::MissingRoomKey(None) => SessionError::MissingKey,
        MegolmFault::MissingRoomKey(Some(WithheldCode::Blacklisted)) =>
            SessionError::SessionRefused,
        MegolmFault::MissingRoomKey(Some(WithheldCode::Unauthorised)) =>
            SessionError::SessionRefused,
        MegolmFault::MissingRoomKey(Some(_)) => SessionError::UnsharedSession,
        MegolmFault::UnknownMessageIndex => SessionError::MissingKey,
        MegolmFault::MismatchedIdentityKeys => SessionError::UnknownDevice,
        MegolmFault::SenderIdentityNotTrusted => SessionError::SenderNotTrusted,
        MegolmFault::Decryption => SessionError::Undecryptable,
        MegolmFault::EventError => SessionError::Undecryptable,
        MegolmFault::JsonError => SessionError::Undecryptable,
        MegolmFault::Decode => SessionError::Undecryptable,
        MegolmFault::Store => SessionError::Failed,
    }
}

/// Reports a machine's failure to decrypt.
pub fn classify_megolm_error(fault: MegolmFault) -> (error: SessionError)
    ensures
        error == fault_of(fault),
{
    match fault {
        MegolmFault::MissingRoomKey(None) => SessionError::MissingKey,
        MegolmFault::MissingRoomKey(
            Some(WithheldCode::Blacklisted | WithheldCode::Unauthorised),
        ) => SessionError::SessionRefused,
        MegolmFault::MissingRoomKey(Some(_)) => SessionError::UnsharedSession,
        MegolmFault::UnknownMessageIndex => SessionError::MissingKey,
        MegolmFault::MismatchedIdentityKeys => SessionError::UnknownDevice,
        MegolmFault::SenderIdentityNotTrusted => SessionError::SenderNotTrusted,
        MegolmFault::EventError
        | MegolmFault::JsonError
        | MegolmFault::Decode
        | MegolmFault::Decryption => SessionError::Undecryptable,
        MegolmFault::Store => SessionError::Failed,
    }
}

/// A session is reported as refused exactly where its sender's policy refused
/// it, and as unshared where it was withheld for any other reason.
pub proof fn law_only_policy_refuses(fault: MegolmFault)
    ensures
        fault_of(fault) is SessionRefused <==> (fault matches MegolmFault::MissingRoomKey(
            Some(code),
        ) && (code is Blacklisted || code is Unauthorised)),
        fault_of(fault) is UnsharedSession <==> (fault matches MegolmFault::MissingRoomKey(
            Some(code),
        ) && !(code is Blacklisted || code is Unauthorised)),
{
}

/// What the machine is asked to decrypt.
pub struct DecryptCall {
    pub room_id: String,
    /// The event, as JSON with nothing around it.
    pub event: String,
    /// The algorithm the event names, or nothing.
    pub algorithm: String,
    pub trust: TrustRequirement,
}

/// The algorithm that an encrypted event names in its content.
pub open spec fn algorithm_of_event(event: Seq<char>) -> Option<Seq<char>> {
    string_in_field(event, "content"@, "algorithm"@)
}

/// What the machine is asked to decrypt, as a model.
pub struct DecryptCallModel {
    pub room_id: Seq<char>,
    pub event: Seq<char>,
    pub algorithm: Seq<char>,
    pub trust: TrustRequirement,
}

impl View for DecryptCall {
    type V = DecryptCallModel;

    open spec fn view(&self) -> DecryptCallModel {
        DecryptCallModel {
            room_id: self.room_id@,
            event: self.event@,
            algorithm: self.algorithm@,
            trust: self.trust,
        }
    }
}

/// What the machine is asked to decrypt, or why it is asked nothing.
pub open spec fn decrypt_call(
    scope: Seq<char>,
    raw_json: Seq<char>,
    requirement: SenderTrustRequirement,
) -> Result<DecryptCallModel, SessionError> {
    if !is_scope(scope) {
        Err(SessionError::MalformedIdentifier)
    } else {
        match raw_text(raw_json) {
            None => Err(SessionError::MalformedPayload),
            Some(event) => Ok(
                DecryptCallModel {
                    room_id: scope,
                    event,
                    algorithm: or_empty(algorithm_of_event(event)),
                    trust: trust_of(requirement),
                },
            ),
        }
    }
}

/// Checks an event that is to be decrypted, and says what to ask of the machine.
///
/// The scope is looked at first: a bad scope with a bad payload is a bad scope.
pub fn decrypt_event(scope: &str, raw_json: &str, requirement: SenderTrustRequirement) -> (result:
    Result<DecryptCall, SessionError>)
    ensures
        match result {
            Ok(call) => decrypt_call(scope@, raw_json@, requirement) == Ok::<
                DecryptCallModel,
                SessionError,
            >(call@),
            Err(error) => decrypt_call(scope@, raw_json@, requirement) == Err::<
                DecryptCallModel,
                SessionError,
            >(error),
        },
{
    let room_id: String = match parse_scope(scope) {
        Ok(room_id) => room_id,
        Err(error) => {
            return Err(error);
        },
    };
    let event: String = match read_raw(raw_json) {
        Some(event) => event,
        None => {
            return Err(SessionError::MalformedPayload);
        },
    };
    let algorithm: String = match read_string_in_field(event.as_str(), "content", "algorithm") {
        Some(algorithm) => algorithm,
        None => String::new(),
    };
    let trust: TrustRequirement = match requirement {
        SenderTrustRequirement::Any => TrustRequirement::Untrusted,
        SenderTrustRequirement::IdentitySignedOrLegacy => TrustRequirement::CrossSignedOrLegacy,
        SenderTrustRequirement::IdentitySigned => TrustRequirement::CrossSigned,
    };
    Ok(DecryptCall { room_id, event, algorithm, trust })
}

/// What a decrypted event has to carry.
pub struct DecryptedEventFields {
    pub event_type: String,
    pub sender: String,
    /// The content, as JSON.
    pub content: String,
}

/// What became of an event that was to be decrypted.
pub enum DecryptAnswer {
    /// There is no machine.
    NoMachine,
    /// The machine did not decrypt it.
    Fault(MegolmFault),
    /// The machine decrypted it. The fields are missing where what came out does
    /// not carry them all.
    Decrypted { fields: Option<DecryptedEventFields>, state: VerificationState },
}

/// An envelope, as a model.
pub struct EnvelopeModel {
    pub scope: Seq<char>,
    pub algorithm: Seq<char>,
    pub event_type: Seq<char>,
    pub ciphertext: Seq<u8>,
    pub sender: Seq<char>,
    pub sender_verification: Option<SenderVerification>,
}

/// What an envelope is as a model.
pub open spec fn envelope_model(envelope: Envelope) -> EnvelopeModel {
    EnvelopeModel {
        scope: envelope.scope@,
        algorithm: envelope.algorithm@,
        event_type: envelope.event_type@,
        ciphertext: envelope.ciphertext@,
        sender: envelope.sender@,
        sender_verification: envelope.sender_verification,
    }
}

/// The envelope of what the machine decrypted, or why there is none.
pub open spec fn opened_envelope(call: DecryptCallModel, answer: DecryptAnswer) -> Result<
    EnvelopeModel,
    SessionError,
> {
    match answer {
        DecryptAnswer::NoMachine => Err(SessionError::NotInitialised),
        DecryptAnswer::Fault(fault) => Err(fault_of(fault)),
        DecryptAnswer::Decrypted { fields: None, .. } => Err(SessionError::Undecryptable),
        DecryptAnswer::Decrypted { fields: Some(fields), state } => Ok(
            EnvelopeModel {
                scope: call.room_id,
                algorithm: call.algorithm,
                event_type: fields.event_type@,
                ciphertext: vstd::utf8::encode_utf8(fields.content@),
                sender: fields.sender@,
                sender_verification: Some(verification_of(state)),
            },
        ),
    }
}

/// The envelope of what the machine decrypted.
pub fn decrypted_envelope(call: DecryptCall, answer: DecryptAnswer) -> (result: Result<
    Envelope,
    SessionError,
>)
    ensures
        match result {
            Ok(envelope) => opened_envelope(call@, answer) == Ok::<EnvelopeModel, SessionError>(
                envelope_model(envelope),
            ),
            Err(error) => opened_envelope(call@, answer) == Err::<EnvelopeModel, SessionError>(
                error,
            ),
        },
{
    match answer {
        DecryptAnswer::NoMachine => Err(SessionError::from(MachineError::NotInitialised)),
        DecryptAnswer::Fault(fault) => Err(classify_megolm_error(fault)),
        DecryptAnswer::Decrypted { fields: None, .. } => Err(SessionError::Undecryptable),
        DecryptAnswer::Decrypted { fields: Some(fields), state } => Ok(
            Envelope {
                scope: call.room_id,
                algorithm: call.algorithm,
                event_type: fields.event_type,
                ciphertext: fields.content.as_str().as_bytes_vec(),
                sender: fields.sender,
                sender_verification: Some(sender_verification(state)),
            },
        ),
    }
}

/// What decrypting an event comes to, with a machine that answers each call as it
/// does.
pub open spec fn decrypted_event(
    scope: Seq<char>,
    raw_json: Seq<char>,
    requirement: SenderTrustRequirement,
    machine: spec_fn(DecryptCallModel) -> DecryptAnswer,
) -> Result<EnvelopeModel, SessionError> {
    match decrypt_call(scope, raw_json, requirement) {
        Ok(call) => opened_envelope(call, machine(call)),
        Err(error) => Err(error),
    }
}

/// Whether what meets one requirement meets another.
pub open spec fn is_no_stronger(weak: TrustRequirement, strong: TrustRequirement) -> bool {
    match strong {
        TrustRequirement::Untrusted => weak is Untrusted,
        TrustRequirement::CrossSignedOrLegacy => !(weak is CrossSigned),
        TrustRequirement::CrossSigned => true,
    }
}

/// Whether a machine goes by the trust it is asked for: what it decrypts, it
/// decrypts alike where less is asked, and where nothing is asked it finds no fault
/// with the sender's identity.
pub open spec fn goes_by_trust(machine: spec_fn(DecryptCallModel) -> DecryptAnswer) -> bool {
    &&& forall|call: DecryptCallModel, weak: TrustRequirement|
        #![trigger machine(DecryptCallModel { trust: weak, ..call })]
        is_no_stronger(weak, call.trust) && machine(call) is Decrypted ==> machine(
            DecryptCallModel { trust: weak, ..call },
        ) == machine(call)
    &&& forall|call: DecryptCallModel|
        call.trust is Untrusted ==> !(#[trigger] machine(call) matches DecryptAnswer::Fault(fault)
            && fault is SenderIdentityNotTrusted)
}

/// With a machine that goes by the trust it is asked for, what decrypts under one
/// requirement decrypts to the same envelope under every weaker one, and where
/// anything will do the sender is never found wanting.
pub proof fn law_a_weaker_requirement_decrypts_alike(
    scope: Seq<char>,
    raw_json: Seq<char>,
    weak: SenderTrustRequirement,
    strong: SenderTrustRequirement,
    machine: spec_fn(DecryptCallModel) -> DecryptAnswer,
)
    requires
        goes_by_trust(machine),
        is_no_stronger(trust_of(weak), trust_of(strong)),
    ensures
        decrypted_event(scope, raw_json, strong, machine) is Ok ==> decrypted_event(
            scope,
            raw_json,
            weak,
            machine,
        ) == decrypted_event(scope, raw_json, strong, machine),
        decrypted_event(scope, raw_json, SenderTrustRequirement::Any, machine) != Err::<
            EnvelopeModel,
            SessionError,
        >(SessionError::SenderNotTrusted),
{
    if let Ok(call) = decrypt_call(scope, raw_json, strong) {
        let weaker = DecryptCallModel { trust: trust_of(weak), ..call };
        assert(decrypt_call(scope, raw_json, weak) == Ok::<DecryptCallModel, SessionError>(weaker));
        let answer = machine(weaker);
        if machine(call) is Decrypted {
            assert(answer == machine(call));
        }
    }
}

/// With whom a session key is shared.
#[derive(Clone, Copy, Debug, PartialEq, Eq, Structural)]
pub enum CollectStrategy {
    /// With every device.
    AllDevices,
    /// With the devices that their owners signed.
    IdentityBasedStrategy,
}

/// What the machine holds as this account's identity.
#[derive(Clone, Copy, Debug, PartialEq, Eq, Structural)]
pub enum OwnIdentity {
    /// The store would not say.
    Unreadable,
    /// None, or one that is not this account's own.
    Missing,
    /// One, and this device has verified it or has not.
    Known { verified: bool },
}

/// Whom to share with: an account whose own identity is verified here shares by
/// identity, and every other shares with every device.
pub fn collect_strategy(identity: OwnIdentity) -> (strategy: CollectStrategy)
    ensures
        strategy is IdentityBasedStrategy <==> identity == (OwnIdentity::Known { verified: true }),
{
    match identity {
        OwnIdentity::Known { verified: true } => CollectStrategy::IdentityBasedStrategy,
        _ => CollectStrategy::AllDevices,
    }
}

/// Whom the machine is asked to share a scope's key with.
pub struct ShareCall {
    pub room_id: String,
    pub users: Vec<String>,
}

/// Checks whom a scope's key is to be shared with.
pub fn share_scope_key(scope: &str, users: &[String]) -> (result: Result<ShareCall, SessionError>)
    ensures
        match result {
            Ok(call) => {
                &&& is_scope(scope@)
                &&& all_users(names(users@))
                &&& call.room_id@ == scope@
                &&& names(call.users@) == names(users@)
            },
            Err(error) => {
                &&& !is_scope(scope@) || !all_users(names(users@))
                &&& error is MalformedIdentifier
            },
        },
{
    let room_id: String = match parse_scope(scope) {
        Ok(room_id) => room_id,
        Err(error) => {
            return Err(error);
        },
    };
    match parse_users(users) {
        Ok(users) => Ok(ShareCall { room_id, users }),
        Err(error) => Err(error),
    }
}

/// A claim of one-time keys, under its transaction identifier.
pub struct Claim {
    pub id: String,
    pub request: KeysClaimParts,
}

/// What sharing a scope's key came to.
pub struct ShareOutcome {
    /// The claim for the sessions that are missing, if any is. Nothing where the
    /// machine refused to say.
    pub missing: Trip<Option<Claim>>,
    /// The messages that carry the key, or say why it is not carried.
    pub shared: Trip<Vec<ToDeviceMessage>>,
    /// Whether the users are tracked from now on.
    pub tracking: Trip<()>,
}

/// The registry once a claim has been queued, if there is one.
pub open spec fn with_claim(r: Registry, claim: Option<Claim>) -> Registry {
    match claim {
        Some(claim) => Registry { claim: Some(waiting_claim(claim.id@, claim.request)), ..r },
        None => r,
    }
}

/// The error a trip ends in, if it ends in one.
pub open spec fn trip_error<T>(trip: Trip<T>) -> Option<SessionError> {
    match trip {
        Trip::NoMachine => Some(SessionError::NotInitialised),
        Trip::Refused => Some(SessionError::Failed),
        Trip::Done(_) => None,
    }
}

/// The registry once the outcome of sharing has been recorded: up to the first
/// of the three that failed.
pub open spec fn after_share(r: Registry, outcome: ShareOutcome) -> Registry {
    match outcome.missing {
        Trip::Done(claim) => {
            let claimed = with_claim(r, claim);
            match outcome.shared {
                Trip::Done(messages) => Registry {
                    to_device: all_filed(claimed.to_device, messages@),
                    ..claimed
                },
                _ => claimed,
            }
        },
        _ => r,
    }
}

/// The first of the three errors of sharing.
pub open spec fn share_error(outcome: ShareOutcome) -> Option<SessionError> {
    if trip_error(outcome.missing) is Some {
        trip_error(outcome.missing)
    } else if trip_error(outcome.shared) is Some {
        trip_error(outcome.shared)
    } else {
        trip_error(outcome.tracking)
    }
}

impl RequestState {
    /// Records what sharing a scope's key came to.
    ///
    /// The messages are queued whether or not the users could be tracked: they
    /// are there to be sent either way.
    pub fn record_share(&mut self, outcome: ShareOutcome) -> (result: Result<(), SessionError>)
        requires
            old(self).wf(),
        ensures
            final(self).wf(),
            final(self)@ == after_share(old(self)@, outcome),
            match result {
                Ok(()) => share_error(outcome) is None,
                Err(error) => share_error(outcome) == Some(error),
            },
    {
        match outcome.missing {
            Trip::NoMachine => {
                return Err(SessionError::from(MachineError::NotInitialised));
            },
            Trip::Refused => {
                return Err(SessionError::Failed);
            },
            Trip::Done(None) => {},
            Trip::Done(Some(claim)) => {
                self.queue_claim(claim.id, claim.request);
            },
        }
        match outcome.shared {
            Trip::NoMachine => {
                return Err(SessionError::from(MachineError::NotInitialised));
            },
            Trip::Refused => {
                return Err(SessionError::Failed);
            },
            Trip::Done(messages) => {
                self.queue_to_device_requests(messages);
            },
        }
        match outcome.tracking {
            Trip::NoMachine => Err(SessionError::from(MachineError::NotInitialised)),
            Trip::Refused => Err(SessionError::Failed),
            Trip::Done(()) => Ok(()),
        }
    }

    /// Queues an upload of the public signing keys under a new identifier, which
    /// is handed back.
    pub fn queue_signing_keys_request(&mut self, request: SigningKeysParts) -> (id: String)
        requires
            old(self).wf(),
            old(self)@.next_sequence < u64::MAX,
        ensures
            final(self).wf(),
            final(self)@ == after_signing_keys(old(self)@, waiting_signing_keys(id@, request)),
    {
        let id: String = fresh_transaction_id();
        self.queue_signing_keys_under(id.clone(), request);
        id
    }
}

} // verus!
