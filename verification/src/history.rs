//! History bundles: the keys of a scope's past, handed to someone who joins.

use matrix_sdk_common::ruma::events::room::EncryptedFile;
use matrix_sdk_crypto::types::room_history::RoomKeyBundle;
use vstd::prelude::*;
use vstd::std_specs::convert::FromSpecImpl;

use crate::identifiers::{is_scope, is_user, parse_scope, parse_user};
use crate::machine::{MachineError, Trip};
use crate::registry::{all_filed, Registry, ToDeviceMessage};
use crate::session::SessionError;
use crate::state::RequestState;

verus! {

/// Why a history call did not do what was asked.
#[derive(Clone, Copy, Debug, PartialEq, Eq, Structural)]
pub enum HistoryError {
    /// A scope or user identifier could not be parsed.
    MalformedIdentifier,
    /// A bundle, or the description of one, could not be parsed.
    MalformedPayload,
    /// There is no machine.
    NotInitialised,
    /// The machine, or the store behind it, refused.
    Failed,
    /// That sender has offered no bundle for that scope.
    NoOffer,
    /// The device that offered the bundle is not one its owner has signed.
    SenderNotTrusted,
}

/// The text of a history error.
pub open spec fn history_message(error: HistoryError) -> Seq<char> {
    match error {
        HistoryError::MalformedIdentifier => "an identifier could not be parsed"@,
        HistoryError::MalformedPayload => "the payload could not be parsed"@,
        HistoryError::NotInitialised => "no crypto machine has been created"@,
        HistoryError::Failed => "the crypto operation failed"@,
        HistoryError::NoOffer => "no bundle has been offered by that sender for that scope"@,
        HistoryError::SenderNotTrusted =>
            "the sender is not trusted enough for this bundle to be imported"@,
    }
}

impl HistoryError {
    /// The text of the error.
    pub fn message(self) -> (message: &'static str)
        ensures
            message@ == history_message(self),
    {
        match self {
            HistoryError::MalformedIdentifier => "an identifier could not be parsed",
            HistoryError::MalformedPayload => "the payload could not be parsed",
            HistoryError::NotInitialised => "no crypto machine has been created",
            HistoryError::Failed => "the crypto operation failed",
            HistoryError::NoOffer => "no bundle has been offered by that sender for that scope",
            HistoryError::SenderNotTrusted =>
                "the sender is not trusted enough for this bundle to be imported",
        }
    }
}

impl From<MachineError> for HistoryError {
    fn from(_error: MachineError) -> (converted: HistoryError) {
        HistoryError::NotInitialised
    }
}

impl FromSpecImpl<MachineError> for HistoryError {
    open spec fn obeys_from_spec() -> bool {
        true
    }

    open spec fn from_spec(_error: MachineError) -> HistoryError {
        HistoryError::NotInitialised
    }
}

/// What a session error is as a history error: an identifier that is none stays
/// one.
pub open spec fn history_error(error: SessionError) -> HistoryError {
    match error {
        SessionError::MalformedIdentifier => HistoryError::MalformedIdentifier,
        _ => HistoryError::Failed,
    }
}

impl From<SessionError> for HistoryError {
    fn from(error: SessionError) -> (converted: HistoryError) {
        match error {
            SessionError::MalformedIdentifier => HistoryError::MalformedIdentifier,
            _ => HistoryError::Failed,
        }
    }
}

impl FromSpecImpl<SessionError> for HistoryError {
    open spec fn obeys_from_spec() -> bool {
        true
    }

    open spec fn from_spec(error: SessionError) -> HistoryError {
        history_error(error)
    }
}

/// A bundle of a scope's past.
#[derive(Clone, Debug, PartialEq, Eq)]
pub struct HistoryBundle {
    /// The bundle, as JSON.
    pub json: String,
    /// How many keys it shares.
    pub shared: u32,
    /// How many it names and does not share.
    pub withheld: u32,
}

/// A bundle that was offered.
#[derive(Clone, Debug, PartialEq, Eq)]
pub struct HistoryOffer {
    /// Where the bundle is and what opens it, as JSON.
    pub file_json: String,
}

/// What taking in a bundle came to.
#[derive(Clone, Copy, Debug, PartialEq, Eq, Structural)]
pub struct HistoryImport {
    /// How many keys the bundle shared.
    pub offered: u32,
    /// How many of them were taken in.
    pub imported: u32,
}

/// A scope and a user, both parsed.
pub struct ScopeAndUser {
    pub room_id: String,
    pub user_id: String,
}

/// Whether both identifiers parse.
pub open spec fn both_parse(scope: Seq<char>, user: Seq<char>) -> bool {
    is_scope(scope) && is_user(user)
}

/// Parses a scope and a user.
fn parse_both(scope: &str, user: &str) -> (result: Result<ScopeAndUser, HistoryError>)
    ensures
        match result {
            Ok(ids) => both_parse(scope@, user@) && ids.room_id@ == scope@ && ids.user_id@ == user@,
            Err(error) => !both_parse(scope@, user@) && error is MalformedIdentifier,
        },
{
    match (parse_scope(scope), parse_user(user)) {
        (Ok(room_id), Ok(user_id)) => Ok(ScopeAndUser { room_id, user_id }),
        (Err(error), _) => Err(HistoryError::from(error)),
        (Ok(_), Err(error)) => Err(HistoryError::from(error)),
    }
}

/// Checks the scope of a bundle that is to be built.
pub fn build_history_bundle(scope: &str) -> (result: Result<String, HistoryError>)
    ensures
        match result {
            Ok(room_id) => is_scope(scope@) && room_id@ == scope@,
            Err(error) => !is_scope(scope@) && error is MalformedIdentifier,
        },
{
    match parse_scope(scope) {
        Ok(room_id) => Ok(room_id),
        Err(error) => Err(HistoryError::from(error)),
    }
}

/// A bundle the machine built.
pub struct BuiltBundle {
    pub room_keys: usize,
    pub withheld: usize,
    /// The bundle, as JSON, if it serialised.
    pub json: Option<String>,
}

/// The bundle the machine built.
pub fn built_bundle(built: Trip<BuiltBundle>) -> (result: Result<HistoryBundle, HistoryError>)
    ensures
        match (built, result) {
            (Trip::NoMachine, Err(error)) => error is NotInitialised,
            (Trip::Refused, Err(error)) => error is Failed,
            (Trip::Done(BuiltBundle { json: None, .. }), Err(error)) => error is Failed,
            (Trip::Done(BuiltBundle { room_keys, withheld, json: Some(json) }), Ok(bundle)) => {
                &&& bundle.json == json
                &&& bundle.shared == room_keys as u32
                &&& bundle.withheld == withheld as u32
            },
            _ => false,
        },
{
    match built {
        Trip::NoMachine => Err(HistoryError::from(MachineError::NotInitialised)),
        Trip::Refused => Err(HistoryError::Failed),
        Trip::Done(built) => match built.json {
            None => Err(HistoryError::Failed),
            Some(json) => Ok(
                HistoryBundle {
                    json,
                    shared: #[verifier::truncate]
                    (built.room_keys as u32),
                    withheld: #[verifier::truncate]
                    (built.withheld as u32),
                },
            ),
        },
    }
}

/// Whether a text describes an encrypted file.
pub uninterp spec fn is_encrypted_file(text: Seq<char>) -> bool;

/// How many keys a text shares, if it is a bundle.
pub uninterp spec fn keys_in_bundle(text: Seq<char>) -> Option<nat>;

/// Reads the description of an encrypted file with `serde_json`, as `ruma`'s
/// `EncryptedFile`.
///
/// Trusted: whether it is accepted is a function of the text alone, named
/// [`is_encrypted_file`].
#[verifier::external_body]
fn reads_as_encrypted_file(text: &str) -> (answer: bool)
    ensures
        answer == is_encrypted_file(text@),
{
    serde_json::from_str::<EncryptedFile>(text).is_ok()
}

/// Reads a bundle with `serde_json`, as `matrix_sdk_crypto`'s `RoomKeyBundle`, and
/// counts the keys it shares.
///
/// Trusted: the number is a function of the text alone, named
/// [`keys_in_bundle`].
#[verifier::external_body]
fn count_bundle(text: &str) -> (count: Option<usize>)
    ensures
        match count {
            Some(count) => keys_in_bundle(text@) == Some(count as nat),
            None => keys_in_bundle(text@) is None,
        },
{
    Some(serde_json::from_str::<RoomKeyBundle>(text).ok()?.room_keys.len())
}

/// What the machine is asked to tell someone about a bundle.
pub struct ShareBundleCall {
    pub room_id: String,
    pub user_id: String,
    /// Where the bundle is and what opens it, as JSON.
    pub file_json: String,
}

/// Checks whom a bundle is to be shared with, and what is to be said of it. The
/// identifiers are looked at first.
pub fn share_history_bundle(scope: &str, user: &str, file_json: &str) -> (result: Result<
    ShareBundleCall,
    HistoryError,
>)
    ensures
        match result {
            Ok(call) => {
                &&& both_parse(scope@, user@)
                &&& is_encrypted_file(file_json@)
                &&& call.room_id@ == scope@
                &&& call.user_id@ == user@
                &&& call.file_json@ == file_json@
            },
            Err(error) => {
                ||| !both_parse(scope@, user@) && error is MalformedIdentifier
                ||| both_parse(scope@, user@) && !is_encrypted_file(file_json@)
                    && error is MalformedPayload
            },
        },
{
    let ids: ScopeAndUser = match parse_both(scope, user) {
        Ok(ids) => ids,
        Err(error) => {
            return Err(error);
        },
    };
    if !reads_as_encrypted_file(file_json) {
        return Err(HistoryError::MalformedPayload);
    }
    Ok(
        ShareBundleCall {
            room_id: ids.room_id,
            user_id: ids.user_id,
            file_json: file_json.to_owned(),
        },
    )
}

impl RequestState {
    /// Queues the messages that tell someone about a bundle.
    pub fn record_bundle_share(&mut self, messages: Trip<Vec<ToDeviceMessage>>) -> (result: Result<
        (),
        HistoryError,
    >)
        requires
            old(self).wf(),
        ensures
            final(self).wf(),
            match messages {
                Trip::NoMachine => *final(self) == *old(self) && result == Err::<(), HistoryError>(
                    HistoryError::NotInitialised,
                ),
                Trip::Refused => *final(self) == *old(self) && result == Err::<(), HistoryError>(
                    HistoryError::Failed,
                ),
                Trip::Done(messages) => final(self)@ == (Registry {
                    to_device: all_filed(old(self)@.to_device, messages@),
                    ..old(self)@
                }) && result == Ok::<(), HistoryError>(()),
            },
    {
        match messages {
            Trip::NoMachine => Err(HistoryError::from(MachineError::NotInitialised)),
            Trip::Refused => Err(HistoryError::Failed),
            Trip::Done(messages) => {
                self.queue_to_device_requests(messages);
                Ok(())
            },
        }
    }
}

/// Checks whose offer for which scope is to be looked up.
pub fn offered_history_bundle(scope: &str, sender: &str) -> (result: Result<
    ScopeAndUser,
    HistoryError,
>)
    ensures
        match result {
            Ok(ids) => both_parse(scope@, sender@) && ids.room_id@ == scope@ && ids.user_id@
                == sender@,
            Err(error) => !both_parse(scope@, sender@) && error is MalformedIdentifier,
        },
{
    parse_both(scope, sender)
}

/// The offer that was looked up. What is stored of it is the description of the
/// file, as JSON if it serialised.
pub fn found_offer(stored: Trip<Option<Option<String>>>) -> (result: Result<
    Option<HistoryOffer>,
    HistoryError,
>)
    ensures
        match (stored, result) {
            (Trip::NoMachine, Err(error)) => error is NotInitialised,
            (Trip::Refused, Err(error)) => error is Failed,
            (Trip::Done(None), Ok(offer)) => offer is None,
            (Trip::Done(Some(None)), Err(error)) => error is Failed,
            (Trip::Done(Some(Some(file_json))), Ok(offer)) => offer == Some(
                HistoryOffer { file_json },
            ),
            _ => false,
        },
{
    match stored {
        Trip::NoMachine => Err(HistoryError::from(MachineError::NotInitialised)),
        Trip::Refused => Err(HistoryError::Failed),
        Trip::Done(None) => Ok(None),
        Trip::Done(Some(None)) => Err(HistoryError::Failed),
        Trip::Done(Some(Some(file_json))) => Ok(Some(HistoryOffer { file_json })),
    }
}

/// What the machine is asked to take in.
pub struct ReceiveCall {
    pub room_id: String,
    pub user_id: String,
    /// The bundle, as JSON.
    pub bundle_json: String,
    /// How many keys the bundle shares.
    pub offered: usize,
}

/// Checks whose bundle for which scope is to be taken in, and reads it. The
/// identifiers are looked at first.
pub fn receive_history_bundle(scope: &str, sender: &str, bundle_json: &str) -> (result: Result<
    ReceiveCall,
    HistoryError,
>)
    ensures
        match result {
            Ok(call) => {
                &&& both_parse(scope@, sender@)
                &&& call.room_id@ == scope@
                &&& call.user_id@ == sender@
                &&& call.bundle_json@ == bundle_json@
                &&& keys_in_bundle(bundle_json@) == Some(call.offered as nat)
            },
            Err(error) => {
                ||| !both_parse(scope@, sender@) && error is MalformedIdentifier
                ||| both_parse(scope@, sender@) && keys_in_bundle(bundle_json@) is None
                    && error is MalformedPayload
            },
        },
{
    let ids: ScopeAndUser = match parse_both(scope, sender) {
        Ok(ids) => ids,
        Err(error) => {
            return Err(error);
        },
    };
    match count_bundle(bundle_json) {
        Some(offered) => Ok(
            ReceiveCall {
                room_id: ids.room_id,
                user_id: ids.user_id,
                bundle_json: bundle_json.to_owned(),
                offered,
            },
        ),
        None => Err(HistoryError::MalformedPayload),
    }
}

/// What the machine knows of the device that offered a bundle.
#[derive(Clone, Copy, Debug, PartialEq, Eq, Structural)]
pub enum SenderData {
    /// Nothing.
    UnknownDevice,
    /// The device, and nobody has signed it.
    DeviceInfo,
    /// Its owner had been verified, and has another identity now.
    VerificationViolation,
    /// Its owner signed it, and nobody here has verified the owner.
    SenderUnverified,
    /// Its owner signed it and has been verified here.
    SenderVerified,
}

/// Whether a bundle from such a device is taken in: its owner has to have signed
/// it.
pub open spec fn is_trusted(sender: SenderData) -> bool {
    sender is SenderUnverified || sender is SenderVerified
}

/// Whether the bundle may be taken in: there has to be an offer, from a device
/// its owner has signed.
pub fn check_offer(stored: Trip<Option<SenderData>>) -> (result: Result<(), HistoryError>)
    ensures
        match stored {
            Trip::NoMachine => result == Err::<(), HistoryError>(HistoryError::NotInitialised),
            Trip::Refused => result == Err::<(), HistoryError>(HistoryError::Failed),
            Trip::Done(None) => result == Err::<(), HistoryError>(HistoryError::NoOffer),
            Trip::Done(Some(sender)) => result == (if is_trusted(sender) {
                Ok::<(), HistoryError>(())
            } else {
                Err::<(), HistoryError>(HistoryError::SenderNotTrusted)
            }),
        },
{
    match stored {
        Trip::NoMachine => Err(HistoryError::from(MachineError::NotInitialised)),
        Trip::Refused => Err(HistoryError::Failed),
        Trip::Done(None) => Err(HistoryError::NoOffer),
        Trip::Done(Some(sender)) => match sender {
            SenderData::SenderUnverified | SenderData::SenderVerified => Ok(()),
            _ => Err(HistoryError::SenderNotTrusted),
        },
    }
}

/// What taking in the bundle came to: the number it shared, and the number the
/// machine took in.
pub fn report_bundle_import(call: &ReceiveCall, imported: Trip<u32>) -> (result: Result<
    HistoryImport,
    HistoryError,
>)
    ensures
        match imported {
            Trip::NoMachine => result == Err::<HistoryImport, HistoryError>(
                HistoryError::NotInitialised,
            ),
            Trip::Refused => result == Err::<HistoryImport, HistoryError>(HistoryError::Failed),
            Trip::Done(imported) => result == Ok::<HistoryImport, HistoryError>(
                HistoryImport { offered: call.offered as u32, imported },
            ),
        },
{
    match imported {
        Trip::NoMachine => Err(HistoryError::from(MachineError::NotInitialised)),
        Trip::Refused => Err(HistoryError::Failed),
        Trip::Done(imported) => Ok(
            HistoryImport {
                offered: #[verifier::truncate]
                (call.offered as u32),
                imported,
            },
        ),
    }
}

} // verus!
