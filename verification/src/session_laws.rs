//! What holds of encrypting, decrypting, syncing and sharing keys.

use vstd::prelude::*;
use vstd::std_specs::convert::FromSpec;

use crate::identifiers::{all_users, is_scope, is_user};
use crate::json::{raw_text, string_field, string_in_field};
use crate::machine::{MachineError, Trip};
use crate::requests::names;
use crate::response_laws::same_texts;
use crate::session::{classify_megolm_error, collect_strategy, decrypt_event, decrypted_envelope,
    decryption_settings, encrypt_event, encrypted_envelope, receive_sync_changes,
    sender_verification, share_scope_key, CollectStrategy, DecryptAnswer, DecryptCall,
    DecryptedEventFields, DeviceLinkProblem, EncryptCall, EncryptedContent, Envelope, MegolmFault,
    OwnIdentity, SenderTrustRequirement, SenderVerification, SessionError, ShareCall, SyncAnswer,
    SyncOutcome, TrustRequirement, VerificationLevel, VerificationState, WithheldCode};
use crate::text::{debug_text, decimal};

verus! {

/// Whether a text is a scope's identifier: it begins with `!` and holds no NUL.
pub open spec fn names_a_scope(text: Seq<char>) -> bool {
    &&& text.len() > 0
    &&& text[0] == '!'
    &&& forall|i: int| 0 <= i < text.len() ==> #[trigger] text[i] != '\0'
}

pub(crate) proof fn lemma_names_a_scope(text: Seq<char>)
    ensures
        names_a_scope(text) == is_scope(text),
{
    if is_scope(text) {
        assert forall|i: int| 0 <= i < text.len() implies #[trigger] text[i] != '\0' by {
            assert(text.contains(text[i]));
        }
    }
    if names_a_scope(text) && text.contains('\0') {
        let i = choose|i: int| 0 <= i < text.len() && text[i] == '\0';
        assert(text[i] != '\0');
    }
}

/// Whatever the machine decrypted and whose fields are there comes out as an
/// envelope, whoever sent it and whatever is known of them: with the scope and the
/// algorithm of the call, the type, the sender and the content of the event, and
/// what the machine knows of the sender.
pub proof fn law_what_was_decrypted_is_handed_on(
    call: DecryptCall,
    fields: DecryptedEventFields,
    state: VerificationState,
    result: Result<Envelope, SessionError>,
    known: SenderVerification,
)
    requires
        call_ensures(
            decrypted_envelope,
            (call, DecryptAnswer::Decrypted { fields: Some(fields), state }),
            result,
        ),
        call_ensures(sender_verification, (state,), known),
    ensures
        result matches Ok(envelope) && {
            &&& envelope.scope@ == call.room_id@
            &&& envelope.algorithm@ == call.algorithm@
            &&& envelope.event_type@ == fields.event_type@
            &&& envelope.sender@ == fields.sender@
            &&& envelope.ciphertext@ == vstd::utf8::encode_utf8(fields.content@)
            &&& envelope.sender_verification == Some(known)
        },
{
}

/// What was not decrypted is not handed on. A missing machine is told apart from
/// what the machine says is wrong, and an event that lacks a field cannot be
/// decrypted.
pub proof fn law_what_was_not_decrypted_is_an_error(
    call: DecryptCall,
    answer: DecryptAnswer,
    result: Result<Envelope, SessionError>,
    classified: SessionError,
)
    requires
        call_ensures(decrypted_envelope, (call, answer), result),
        answer matches DecryptAnswer::Fault(fault) ==> call_ensures(
            classify_megolm_error,
            (fault,),
            classified,
        ),
    ensures
        answer is NoMachine ==> result == Err::<Envelope, SessionError>(
            SessionError::NotInitialised,
        ),
        answer is Fault ==> result == Err::<Envelope, SessionError>(classified),
        answer is Decrypted && answer->fields is None ==> result == Err::<Envelope, SessionError>(
            SessionError::Undecryptable,
        ),
{
}

/// A sender is reported as what the machine knows of them, each of the seven by its
/// own name, and as verified only where the machine says so.
pub proof fn law_a_sender_is_reported_as_known(
    state: VerificationState,
    known: SenderVerification,
)
    requires
        call_ensures(sender_verification, (state,), known),
    ensures
        known == SenderVerification::Verified <==> state == VerificationState::Verified,
        known == SenderVerification::UnverifiedIdentity <==> state == VerificationState::Unverified(
            VerificationLevel::UnverifiedIdentity,
        ),
        known == SenderVerification::VerificationViolation <==> state
            == VerificationState::Unverified(VerificationLevel::VerificationViolation),
        known == SenderVerification::UnsignedDevice <==> state == VerificationState::Unverified(
            VerificationLevel::UnsignedDevice,
        ),
        known == SenderVerification::NoDeviceMissing <==> state == VerificationState::Unverified(
            VerificationLevel::NoDevice(DeviceLinkProblem::MissingDevice),
        ),
        known == SenderVerification::NoDeviceInsecureSource <==> state
            == VerificationState::Unverified(
            VerificationLevel::NoDevice(DeviceLinkProblem::InsecureSource),
        ),
        known == SenderVerification::MismatchedSender <==> state == VerificationState::Unverified(
            VerificationLevel::MismatchedSender,
        ),
{
}

/// What keeps an event from being decrypted is told apart by what can be done about
/// it: a key that may still arrive, a session that was withheld for a reason that
/// may pass, one that its sender's policy refuses, a device that is not the one it
/// says it is, a sender who is not trusted enough, a store that refused, and an
/// event that cannot be decrypted at all.
pub proof fn law_faults_are_told_apart(fault: MegolmFault, error: SessionError)
    requires
        call_ensures(classify_megolm_error, (fault,), error),
    ensures
        error == SessionError::MissingKey <==> fault == MegolmFault::MissingRoomKey(None) || fault
            is UnknownMessageIndex,
        error == SessionError::SessionRefused <==> fault == MegolmFault::MissingRoomKey(
            Some(WithheldCode::Blacklisted),
        ) || fault == MegolmFault::MissingRoomKey(Some(WithheldCode::Unauthorised)),
        error == SessionError::UnsharedSession <==> {
            ||| fault == MegolmFault::MissingRoomKey(Some(WithheldCode::Unverified))
            ||| fault == MegolmFault::MissingRoomKey(Some(WithheldCode::Unavailable))
            ||| fault == MegolmFault::MissingRoomKey(Some(WithheldCode::NoOlm))
            ||| fault == MegolmFault::MissingRoomKey(Some(WithheldCode::HistoryNotShared))
            ||| fault == MegolmFault::MissingRoomKey(Some(WithheldCode::Unrecognised))
        },
        error == SessionError::UnknownDevice <==> fault is MismatchedIdentityKeys,
        error == SessionError::SenderNotTrusted <==> fault is SenderIdentityNotTrusted,
        error == SessionError::Failed <==> fault is Store,
        error == SessionError::Undecryptable <==> fault is Decryption || fault is EventError
            || fault is JsonError || fault is Decode,
{
    if let MegolmFault::MissingRoomKey(Some(code)) = fault {
        assert(code is Blacklisted || code is Unverified || code is Unauthorised || code
            is Unavailable || code is NoOlm || code is HistoryNotShared || code is Unrecognised);
    }
}

/// A scope and an event that are ones are handed to the machine as they are, with
/// the algorithm that the event's content names and with the trust that was asked
/// for. A scope that is none is found before an event that is none.
pub proof fn law_what_is_asked_to_be_decrypted(
    scope: &str,
    raw_json: &str,
    requirement: SenderTrustRequirement,
    result: Result<DecryptCall, SessionError>,
)
    requires
        call_ensures(decrypt_event, (scope, raw_json, requirement), result),
    ensures
        !names_a_scope(scope@) ==> result is Err && result->Err_0
            == SessionError::MalformedIdentifier,
        names_a_scope(scope@) && raw_text(raw_json@) is None ==> result is Err && result->Err_0
            == SessionError::MalformedPayload,
        names_a_scope(scope@) && raw_text(raw_json@) is Some ==> (result matches Ok(call) && {
            &&& call.room_id@ == scope@
            &&& raw_text(raw_json@) == Some(call.event@)
            &&& match string_in_field(call.event@, "content"@, "algorithm"@) {
                Some(algorithm) => call.algorithm@ == algorithm,
                None => call.algorithm@.len() == 0,
            }
            &&& requirement is Any <==> call.trust == TrustRequirement::Untrusted
            &&& requirement is IdentitySignedOrLegacy <==> call.trust
                == TrustRequirement::CrossSignedOrLegacy
            &&& requirement is IdentitySigned <==> call.trust == TrustRequirement::CrossSigned
        }),
{
    lemma_names_a_scope(scope@);
}

/// A scope and a payload that are ones are handed to the machine as they are. A scope
/// that is none is found before a payload that is none.
pub proof fn law_what_is_asked_to_be_encrypted(
    scope: &str,
    event_type: &str,
    payload_json: &str,
    result: Result<EncryptCall, SessionError>,
)
    requires
        call_ensures(encrypt_event, (scope, event_type, payload_json), result),
    ensures
        !names_a_scope(scope@) ==> result is Err && result->Err_0
            == SessionError::MalformedIdentifier,
        names_a_scope(scope@) && raw_text(payload_json@) is None ==> result is Err && result->Err_0
            == SessionError::MalformedPayload,
        names_a_scope(scope@) && raw_text(payload_json@) is Some ==> (result matches Ok(call) && {
            &&& call.room_id@ == scope@
            &&& call.event_type@ == event_type@
            &&& raw_text(payload_json@) == Some(call.content@)
        }),
{
    lemma_names_a_scope(scope@);
}

/// Whatever the machine encrypted comes out as an envelope: with the scope and the
/// type of the call, the content that was encrypted byte for byte, the algorithm
/// that it names, and the machine's own user as the sender, of whom nothing is said.
pub proof fn law_what_was_encrypted_is_handed_on(
    call: EncryptCall,
    answer: Trip<EncryptedContent>,
    result: Result<Envelope, SessionError>,
)
    requires
        call_ensures(encrypted_envelope, (call, answer), result),
    ensures
        answer is NoMachine ==> result == Err::<Envelope, SessionError>(
            SessionError::NotInitialised,
        ),
        answer is Refused ==> result == Err::<Envelope, SessionError>(SessionError::Failed),
        answer matches Trip::Done(encrypted) ==> (result matches Ok(envelope) && {
            &&& envelope.scope@ == call.room_id@
            &&& envelope.event_type@ == call.event_type@
            &&& envelope.ciphertext@ == vstd::utf8::encode_utf8(encrypted.content@)
            &&& match string_field(encrypted.content@, "algorithm"@) {
                Some(algorithm) => envelope.algorithm@ == algorithm,
                None => envelope.algorithm@.len() == 0,
            }
            &&& envelope.sender@ == encrypted.sender@
            &&& envelope.sender_verification is None
        }),
{
}

/// A sync reports how many events and how many keys it brought, as far as 32 bits
/// can count; what it did not bring is told apart by what stood in the way.
pub proof fn law_what_a_sync_reports(answer: SyncAnswer, result: Result<SyncOutcome, SessionError>)
    requires
        call_ensures(receive_sync_changes, (answer,), result),
    ensures
        answer is Unreadable <==> result == Err::<SyncOutcome, SessionError>(
            SessionError::MalformedPayload,
        ),
        answer is NoMachine <==> result == Err::<SyncOutcome, SessionError>(
            SessionError::NotInitialised,
        ),
        answer is Refused <==> result == Err::<SyncOutcome, SessionError>(SessionError::Failed),
        answer is Processed ==> (result matches Ok(outcome) && {
            &&& answer->to_device_events <= u32::MAX ==> outcome.to_device_event_count
                == answer->to_device_events
            &&& answer->room_keys <= u32::MAX ==> outcome.new_session_count == answer->room_keys
            &&& (outcome.to_device_event_count - answer->to_device_events) % 0x1_0000_0000 == 0
            &&& (outcome.new_session_count - answer->room_keys) % 0x1_0000_0000 == 0
        }),
{
    if let SyncAnswer::Processed { to_device_events, room_keys } = answer {
        lemma_low_bits(to_device_events);
        lemma_low_bits(room_keys);
    }
}

/// Thirty-two bits hold what is left of a number after division by their range.
pub(crate) proof fn lemma_low_bits(n: usize)
    ensures
        ((n as u32) - n) % 0x1_0000_0000 == 0,
        n <= u32::MAX ==> (n as u32) == n,
{
    let m = n as u64;
    assert((m as u32) as u64 == m % 0x1_0000_0000u64) by (bit_vector);
    assert((n as u32) == (m as u32));
    assert(((m % 0x1_0000_0000u64) - m) % 0x1_0000_0000 == 0) by (nonlinear_arith);
}

/// A sync is taken in whatever the sender's device is worth.
pub proof fn law_a_sync_insists_on_nothing(trust: TrustRequirement)
    requires
        call_ensures(decryption_settings, (), trust),
    ensures
        trust == TrustRequirement::Untrusted,
{
}

/// A key is shared by identity exactly where this account's own identity is known
/// and verified here, and otherwise with every device.
pub proof fn law_with_whom_a_key_is_shared(identity: OwnIdentity, strategy: CollectStrategy)
    requires
        call_ensures(collect_strategy, (identity,), strategy),
    ensures
        identity == (OwnIdentity::Known { verified: true }) ==> strategy
            == CollectStrategy::IdentityBasedStrategy,
        identity != (OwnIdentity::Known { verified: true }) ==> strategy
            == CollectStrategy::AllDevices,
{
}

/// Whether every text of a list is a user's identifier.
pub open spec fn all_name_users(list: Seq<String>) -> bool {
    forall|i: int| 0 <= i < list.len() ==> is_user((#[trigger] list[i])@)
}

pub(crate) proof fn lemma_all_name_users(list: Seq<String>)
    ensures
        all_users(names(list)) == all_name_users(list),
{
    if all_users(names(list)) {
        assert forall|i: int| 0 <= i < list.len() implies is_user((#[trigger] list[i])@) by {
            assert(is_user(names(list)[i]));
        }
    }
    if all_name_users(list) {
        assert forall|i: int| 0 <= i < names(list).len() implies is_user(
            #[trigger] names(list)[i],
        ) by {
            assert(is_user(list[i]@));
        }
    }
}

/// A key is shared with exactly the users that were given, in the scope that was
/// given, and only where all of the identifiers are ones.
pub proof fn law_whom_the_machine_is_asked_to_share_with(
    scope: &str,
    users: &[String],
    result: Result<ShareCall, SessionError>,
)
    requires
        call_ensures(share_scope_key, (scope, users), result),
    ensures
        names_a_scope(scope@) && all_name_users(users@) ==> (result matches Ok(call) && call.room_id@
            == scope@ && same_texts(call.users@, users@)),
        !(names_a_scope(scope@) && all_name_users(users@)) ==> result is Err && result->Err_0
            == SessionError::MalformedIdentifier,
{
    lemma_names_a_scope(scope@);
    lemma_all_name_users(users@);
    if let Ok(call) = result {
        assert forall|i: int| 0 <= i < call.users@.len() implies (#[trigger] call.users@[i])@
            == users@[i]@ by {
            assert(names(call.users@)[i] == names(users@)[i]);
        }
        assert(names(call.users@).len() == names(users@).len());
    }
}

/// A machine error keeps its meaning as a session error where a session error has
/// one for it, and is a failure otherwise.
pub proof fn law_what_a_machine_error_becomes(error: MachineError)
    ensures
        SessionError::from_spec(error) == SessionError::NotInitialised <==> error is NotInitialised,
        SessionError::from_spec(error) == SessionError::MalformedIdentifier <==> error
            is MalformedIdentifier,
        SessionError::from_spec(error) == SessionError::UnknownDevice <==> error is UnknownDevice,
        !(error is NotInitialised || error is MalformedIdentifier || error is UnknownDevice)
            ==> SessionError::from_spec(error) == SessionError::Failed,
{
}

/// What each error says.
pub proof fn law_what_a_session_error_says(error: SessionError, text: &'static str)
    requires
        call_ensures(SessionError::message, (error,), text),
    ensures
        error is MalformedPayload ==> text@ == "the payload could not be parsed"@,
        error is MalformedIdentifier ==> text@ == "an identifier could not be parsed"@,
        error is NotInitialised ==> text@ == "no crypto machine has been created"@,
        error is Failed ==> text@ == "the crypto operation failed"@,
        error is UnknownRequest ==> text@ == "the request id does not match a pending request"@,
        error is NotAFailureStatus ==> text@
            == "the status is not one a refused request can carry"@,
        error is MissingKey ==> text@ == "no key is available to decrypt this event"@,
        error is UnsharedSession ==> text@
            == "the session that encrypted this event was not shared with this device"@,
        error is SessionRefused ==> text@
            == "the session that encrypted this event was refused by its sender's policy"@,
        error is UnknownDevice ==> text@ == "the device that encrypted this event is not trusted"@,
        error is SenderNotTrusted ==> text@
            == "the sender's device does not meet the trust requirement for decryption"@,
        error is Undecryptable ==> text@ == "this event could not be decrypted"@,
{
}

/// What an envelope shows of itself: its scope, algorithm and type, how long its
/// content is, and what is known of its sender; not the content, and not the sender.
pub proof fn law_what_an_envelope_shows(envelope: Envelope, text: String)
    requires
        call_ensures(Envelope::debug_text, (&envelope,), text),
    ensures
        text@ == "Envelope { scope: "@ + debug_text(envelope.scope@) + ", algorithm: "@ + debug_text(
            envelope.algorithm@,
        ) + ", event_type: "@ + debug_text(envelope.event_type@) + ", ciphertext_len: "@ + decimal(
            envelope.ciphertext@.len(),
        ) + ", sender: \"[redacted]\", sender_verification: "@ + (match envelope.sender_verification {
            Some(SenderVerification::Verified) => "Some(Verified)"@,
            Some(SenderVerification::UnverifiedIdentity) => "Some(UnverifiedIdentity)"@,
            Some(SenderVerification::VerificationViolation) => "Some(VerificationViolation)"@,
            Some(SenderVerification::UnsignedDevice) => "Some(UnsignedDevice)"@,
            Some(SenderVerification::NoDeviceMissing) => "Some(NoDeviceMissing)"@,
            Some(SenderVerification::NoDeviceInsecureSource) => "Some(NoDeviceInsecureSource)"@,
            Some(SenderVerification::MismatchedSender) => "Some(MismatchedSender)"@,
            None => "None"@,
        }) + " }"@,
{
}

} // verus!
