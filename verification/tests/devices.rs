//! The library at work between a machine and a homeserver.
//!
//! Each test drives a machine that keeps its store in memory, does with it what
//! the library says, and plays the homeserver.

use std::cell::{Cell, RefCell};
use std::collections::BTreeMap;
use std::future::Future;
use std::task::{Context, Poll, Waker};

use matrix_crypto_core::machine::{MachineError, Trip};
use matrix_crypto_core::recovery::{check_create_recovery, check_recover_identity,
    classify_decode_error, complete_export, entry, existing_ciphertexts, finish_recovery,
    must_fetch_account_keys, pointed_key_id, recovery_events, store_failed, IdentityStatus,
    KeyExport, KeyImport, Secret, Seeds, StatusAnswer, UnlockFault};
use matrix_crypto_core::registry::{OfferedRequest, ToDeviceMessage};
use matrix_crypto_core::requests::{describe_outgoing, KeysClaimParts, KeysQueryParts,
    KeysUploadParts, MapPart, OutgoingParts, Part, RoomMessageParts, SigningKeysParts};
use matrix_crypto_core::responses::{is_about_this_account, mark_sent, read_response, MasterKey,
    ReadResponse, StoredIdentity, Taken};
use matrix_crypto_core::session::{classify_megolm_error, collect_strategy, decrypted_envelope,
    decryption_settings, encrypted_envelope, sender_verification, Claim, CollectStrategy,
    DecryptAnswer, DecryptedEventFields, DeviceLinkProblem, EncryptedContent, MegolmFault,
    OwnIdentity, ShareOutcome, SyncAnswer, TrustRequirement, VerificationLevel, VerificationState,
    WithheldCode};
use matrix_crypto_core::{create_recovery, recover_identity, AccountDataEntry, Envelope,
    OutgoingRequest, RecoverySetup, RequestState, SenderTrustRequirement, SenderVerification,
    SessionError, SyncOutcome};
use matrix_sdk_common::deserialized_responses as upstream;
use matrix_sdk_common::ruma::api::client::keys::claim_keys::v3::{
    Request as KeysClaimRequest, Response as KeysClaimResponse};
use matrix_sdk_common::ruma::api::client::keys::get_keys::v3::Response as KeysQueryResponse;
use matrix_sdk_common::ruma::api::client::keys::upload_keys::v3::Response as KeysUploadResponse;
use matrix_sdk_common::ruma::api::client::sync::sync_events::DeviceLists;
use matrix_sdk_common::ruma::api::IncomingResponse;
use matrix_sdk_common::ruma::events::room::message::RoomMessageEventContent;
use matrix_sdk_common::ruma::events::secret::request::SecretName;
use matrix_sdk_common::ruma::events::secret_storage::key::{PassPhrase,
    SecretStorageEncryptionAlgorithm, SecretStorageKeyEventContent,
    SecretStorageV1AesHmacSha2Properties};
use matrix_sdk_common::ruma::events::{AnyMessageLikeEventContent, AnyToDeviceEvent,
    MessageLikeEventContent};
use matrix_sdk_common::ruma::exports::http;
use matrix_sdk_common::ruma::serde::Raw;
use matrix_sdk_common::ruma::to_device::DeviceIdOrAllDevices;
use matrix_sdk_common::ruma::{OwnedDeviceId, OwnedRoomId, OwnedTransactionId, OwnedUserId,
    TransactionId};
use matrix_sdk_crypto::secret_storage::SecretStorageKey;
use matrix_sdk_crypto::store::types::CrossSigningKeyExport;
use matrix_sdk_crypto::store::SecretImportError;
use matrix_sdk_crypto::types::events::room::encrypted::EncryptedEvent;
use matrix_sdk_crypto::types::requests::{AnyIncomingResponse, AnyOutgoingRequest,
    KeysQueryRequest, OutgoingRequest as UpstreamOutgoingRequest, OutgoingVerificationRequest,
    RoomMessageRequest, ToDeviceRequest, UploadSigningKeysRequest};
use matrix_sdk_crypto::types::{DeviceKeys, MasterPubkey};
use matrix_sdk_crypto::vodozemac::megolm::DecryptionError;
use matrix_sdk_crypto::{CrossSigningBootstrapRequests, DecryptionSettings, EncryptionSettings,
    EncryptionSyncChanges, MegolmError, OlmMachine, UserIdentity};
use serde_json::Value;

const ALICE: &str = "@alice:example.org";
const BOB: &str = "@bob:example.org";
const BOB_DEVICE: &str = "BOBDEVICE";
const SCOPE: &str = "!s:example.org";

/// A master key as plain values.
fn master_key(key: &MasterPubkey) -> MasterKey {
    MasterKey {
        user: key.user_id().to_string(),
        usage: key.usage().iter().map(|usage| usage.to_string()).collect(),
        key_ids: key.keys().iter().map(|(id, _)| id.to_string()).collect(),
        keys: key.keys().iter().map(|(_, key)| key.to_base64()).collect(),
    }
}

/// Runs a future to its end, with a runtime for what the machine spawns.
fn run<F: Future>(future: F) -> F::Output {
    tokio::runtime::Builder::new_current_thread()
        .enable_all()
        .build()
        .unwrap()
        .block_on(future)
}

fn object<const N: usize>(members: [(&str, Value); N]) -> Value {
    Value::Object(
        members
            .into_iter()
            .map(|(name, value)| (name.to_string(), value))
            .collect(),
    )
}

fn text(text: &str) -> Value {
    Value::String(text.to_string())
}

fn parsed(json: &str) -> Value {
    serde_json::from_str(json).unwrap()
}

fn part<T: serde::Serialize>(value: &T) -> Part {
    Part::Json(serde_json::to_value(value).unwrap().to_string())
}

fn whole<T: serde::Serialize>(value: &T) -> Part {
    Part::Json(serde_json::to_string(value).unwrap())
}

fn trip<T, E>(answer: Result<T, E>) -> Trip<T> {
    match answer {
        Ok(value) => Trip::Done(value),
        Err(_) => Trip::Refused,
    }
}

fn keys_query_parts(request: &KeysQueryRequest) -> KeysQueryParts {
    KeysQueryParts {
        users: request.device_keys.keys().map(|user| user.to_string()).collect(),
        device_keys: part(&request.device_keys),
        timeout_millis: request.timeout.map(|timeout| timeout.as_millis()),
    }
}

fn keys_claim_parts(request: &KeysClaimRequest) -> KeysClaimParts {
    KeysClaimParts {
        one_time_keys: part(&request.one_time_keys),
        timeout_millis: request.timeout.map(|timeout| timeout.as_millis()),
    }
}

fn signing_keys_parts(request: &UploadSigningKeysRequest) -> SigningKeysParts {
    SigningKeysParts {
        master_key: request.master_key.as_ref().map(part),
        self_signing_key: request.self_signing_key.as_ref().map(part),
        user_signing_key: request.user_signing_key.as_ref().map(part),
    }
}

fn outgoing_parts(request: &AnyOutgoingRequest) -> OutgoingParts {
    match request {
        AnyOutgoingRequest::KeysUpload(r) => OutgoingParts::KeysUpload(KeysUploadParts {
            device_keys: r.device_keys.as_ref().map(part),
            one_time_keys: MapPart {
                entries: r.one_time_keys.len(),
                json: part(&r.one_time_keys),
            },
            fallback_keys: MapPart {
                entries: r.fallback_keys.len(),
                json: part(&r.fallback_keys),
            },
        }),
        AnyOutgoingRequest::KeysQuery(r) => OutgoingParts::KeysQuery(keys_query_parts(r)),
        AnyOutgoingRequest::KeysClaim(r) => OutgoingParts::KeysClaim(keys_claim_parts(r)),
        AnyOutgoingRequest::ToDeviceRequest(r) => OutgoingParts::ToDevice(whole(r)),
        AnyOutgoingRequest::SignatureUpload(r) => {
            OutgoingParts::SignatureUpload(part(&r.signed_keys))
        }
        AnyOutgoingRequest::RoomMessage(r) => OutgoingParts::RoomMessage(RoomMessageParts {
            room_id: part(&r.room_id),
            event_type: part(&r.content.event_type()),
            txn_id: part(&r.txn_id),
            content: part(&*r.content),
        }),
    }
}

fn settings_of(trust: TrustRequirement) -> DecryptionSettings {
    DecryptionSettings {
        sender_device_trust_requirement: match trust {
            TrustRequirement::Untrusted => matrix_sdk_crypto::TrustRequirement::Untrusted,
            TrustRequirement::CrossSignedOrLegacy => {
                matrix_sdk_crypto::TrustRequirement::CrossSignedOrLegacy
            }
            TrustRequirement::CrossSigned => matrix_sdk_crypto::TrustRequirement::CrossSigned,
        },
    }
}

fn withheld_code(code: upstream::WithheldCode) -> WithheldCode {
    match code {
        upstream::WithheldCode::Blacklisted => WithheldCode::Blacklisted,
        upstream::WithheldCode::Unverified => WithheldCode::Unverified,
        upstream::WithheldCode::Unauthorised => WithheldCode::Unauthorised,
        upstream::WithheldCode::Unavailable => WithheldCode::Unavailable,
        upstream::WithheldCode::NoOlm => WithheldCode::NoOlm,
        upstream::WithheldCode::HistoryNotShared => WithheldCode::HistoryNotShared,
        _ => WithheldCode::Unrecognised,
    }
}

fn megolm_fault(error: MegolmError) -> MegolmFault {
    match error {
        MegolmError::MissingRoomKey(code) => MegolmFault::MissingRoomKey(code.map(withheld_code)),
        MegolmError::Decryption(DecryptionError::UnknownMessageIndex(_, _)) => {
            MegolmFault::UnknownMessageIndex
        }
        MegolmError::Decryption(_) => MegolmFault::Decryption,
        MegolmError::MismatchedIdentityKeys(_) => MegolmFault::MismatchedIdentityKeys,
        MegolmError::SenderIdentityNotTrusted(_) => MegolmFault::SenderIdentityNotTrusted,
        MegolmError::EventError(_) => MegolmFault::EventError,
        MegolmError::JsonError(_) => MegolmFault::JsonError,
        MegolmError::Decode(_) => MegolmFault::Decode,
        MegolmError::Store(_) => MegolmFault::Store,
    }
}

fn state_of(state: &upstream::VerificationState) -> VerificationState {
    match state {
        upstream::VerificationState::Verified => VerificationState::Verified,
        upstream::VerificationState::Unverified(level) => {
            VerificationState::Unverified(match level {
                upstream::VerificationLevel::UnverifiedIdentity => {
                    VerificationLevel::UnverifiedIdentity
                }
                upstream::VerificationLevel::VerificationViolation => {
                    VerificationLevel::VerificationViolation
                }
                upstream::VerificationLevel::UnsignedDevice => VerificationLevel::UnsignedDevice,
                upstream::VerificationLevel::None(problem) => {
                    VerificationLevel::NoDevice(match problem {
                        upstream::DeviceLinkProblem::MissingDevice => {
                            DeviceLinkProblem::MissingDevice
                        }
                        upstream::DeviceLinkProblem::InsecureSource => {
                            DeviceLinkProblem::InsecureSource
                        }
                    })
                }
                upstream::VerificationLevel::MismatchedSender => {
                    VerificationLevel::MismatchedSender
                }
            })
        }
    }
}

/// A machine, if one has been created, and the registry beside it.
struct Device {
    machine: Option<OlmMachine>,
    state: RefCell<RequestState>,
    unpublished: Cell<bool>,
}

impl Device {
    fn without_a_machine() -> Device {
        Device {
            machine: None,
            state: RefCell::new(RequestState::new()),
            unpublished: Cell::new(false),
        }
    }

    async fn of(user: &str, device: &str) -> Device {
        let user: OwnedUserId = user.parse().unwrap();
        let device: OwnedDeviceId = device.into();
        Device {
            machine: Some(OlmMachine::new(&user, &device).await),
            ..Device::without_a_machine()
        }
    }

    async fn alice() -> Device {
        Device::of(ALICE, "DEVICE1").await
    }

    fn machine(&self) -> &OlmMachine {
        self.machine.as_ref().unwrap()
    }

    async fn receive_sync_changes(&self, json: &str) -> Result<SyncOutcome, SessionError> {
        matrix_crypto_core::receive_sync_changes(self.sync(json).await)
    }

    /// Reads the two fields of a sync that these tests use.
    async fn sync(&self, json: &str) -> SyncAnswer {
        let Ok(Value::Object(mut fields)) = serde_json::from_str(json) else {
            return SyncAnswer::Unreadable;
        };
        if fields.get("one_time_keys_counts").is_some_and(|counts| !counts.is_object()) {
            return SyncAnswer::Unreadable;
        }
        let events = fields.remove("to_device_events").unwrap_or(Value::Array(Vec::new()));
        let Ok(events) = serde_json::from_value::<Vec<Raw<AnyToDeviceEvent>>>(events) else {
            return SyncAnswer::Unreadable;
        };
        let changed = fields.remove("changed_devices").unwrap_or(object([]));
        let Ok(changed) = serde_json::from_value::<DeviceLists>(changed) else {
            return SyncAnswer::Unreadable;
        };
        let Some(machine) = &self.machine else {
            return SyncAnswer::NoMachine;
        };
        let changes = EncryptionSyncChanges {
            to_device_events: events,
            changed_devices: &changed,
            one_time_keys_counts: &BTreeMap::new(),
            unused_fallback_keys: None,
            next_batch_token: None,
        };
        match machine
            .receive_sync_changes(changes, &settings_of(decryption_settings()))
            .await
        {
            Ok((events, keys)) => SyncAnswer::Processed {
                to_device_events: events.len(),
                room_keys: keys.len(),
            },
            Err(_) => SyncAnswer::Refused,
        }
    }

    async fn encrypt_event(
        &self,
        scope: &str,
        event_type: &str,
        payload: &str,
    ) -> Result<Envelope, SessionError> {
        let call = matrix_crypto_core::encrypt_event(scope, event_type, payload)?;
        let answer = match &self.machine {
            None => Trip::NoMachine,
            Some(machine) => {
                let room: OwnedRoomId = call.room_id.parse().unwrap();
                let content =
                    Raw::<AnyMessageLikeEventContent>::from_json_string(call.content.clone())
                        .unwrap();
                trip(
                    machine
                        .encrypt_room_event_raw(&room, &call.event_type, &content)
                        .await
                        .map(|encrypted| EncryptedContent {
                            content: encrypted.content.json().get().to_string(),
                            sender: machine.user_id().to_string(),
                        }),
                )
            }
        };
        encrypted_envelope(call, answer)
    }

    async fn decrypt_event(
        &self,
        scope: &str,
        raw: &str,
        requirement: SenderTrustRequirement,
    ) -> Result<Envelope, SessionError> {
        let call = matrix_crypto_core::decrypt_event(scope, raw, requirement)?;
        let answer = match &self.machine {
            None => DecryptAnswer::NoMachine,
            Some(machine) => {
                let room: OwnedRoomId = call.room_id.parse().unwrap();
                let event = Raw::<EncryptedEvent>::from_json_string(call.event.clone()).unwrap();
                match machine
                    .decrypt_room_event(&event, &room, &settings_of(call.trust))
                    .await
                {
                    Err(error) => DecryptAnswer::Fault(megolm_fault(error)),
                    Ok(decrypted) => {
                        let event = parsed(decrypted.event.json().get());
                        DecryptAnswer::Decrypted {
                            fields: Some(DecryptedEventFields {
                                event_type: event["type"].as_str().unwrap().to_string(),
                                sender: event["sender"].as_str().unwrap().to_string(),
                                content: event["content"].to_string(),
                            }),
                            state: state_of(&decrypted.encryption_info.verification_state),
                        }
                    }
                }
            }
        };
        decrypted_envelope(call, answer)
    }

    async fn share_scope_key(&self, scope: &str, users: &[String]) -> Result<(), SessionError> {
        let call = matrix_crypto_core::share_scope_key(scope, users)?;
        let room: OwnedRoomId = call.room_id.parse().unwrap();
        let users: Vec<OwnedUserId> = call.users.iter().map(|user| user.parse().unwrap()).collect();
        let machine = self.machine();
        let missing = machine
            .get_missing_sessions(users.iter().map(|user| user.as_ref()))
            .await;
        let identity = match machine.get_identity(machine.user_id(), None).await {
            Err(_) => OwnIdentity::Unreadable,
            Ok(Some(UserIdentity::Own(identity))) => {
                OwnIdentity::Known { verified: identity.is_verified() }
            }
            Ok(_) => OwnIdentity::Missing,
        };
        let settings = EncryptionSettings {
            sharing_strategy: match collect_strategy(identity) {
                CollectStrategy::AllDevices => matrix_sdk_crypto::CollectStrategy::AllDevices,
                CollectStrategy::IdentityBasedStrategy => {
                    matrix_sdk_crypto::CollectStrategy::IdentityBasedStrategy
                }
            },
            ..Default::default()
        };
        let shared = machine
            .share_room_key(&room, users.iter().map(|user| user.as_ref()), settings)
            .await;
        let tracking = machine
            .update_tracked_users(users.iter().map(|user| user.as_ref()))
            .await;
        self.state.borrow_mut().record_share(ShareOutcome {
            missing: trip(missing.map(|claim| {
                claim.map(|(id, request)| Claim {
                    id: id.to_string(),
                    request: keys_claim_parts(&request),
                })
            })),
            shared: trip(shared.map(|requests| {
                requests
                    .iter()
                    .map(|request| ToDeviceMessage {
                        id: request.txn_id.to_string(),
                        request: whole(request.as_ref()),
                    })
                    .collect()
            })),
            tracking: trip(tracking),
        })
    }

    async fn take_outgoing_requests(&self) -> Vec<OutgoingRequest> {
        let upstream = self.machine().outgoing_requests().await.unwrap();
        let offered: Vec<OfferedRequest> = upstream
            .iter()
            .map(|request| OfferedRequest {
                id: request.request_id().to_string(),
                request: outgoing_parts(request.request()),
            })
            .collect();
        let mut state = self.state.borrow_mut();
        assert!(state.has_places_for(offered.len()));
        state
            .take_outgoing_requests(self.machine().user_id().as_str(), &offered)
            .unwrap()
    }

    async fn mark_request_sent(&self, id: &str, body: &str) -> Result<(), SessionError> {
        let kind = self.state.borrow().mark_request_sent(id, body)?;
        let read = read_response(kind, body)?;
        let machine = self.machine();
        let transaction: OwnedTransactionId = <&TransactionId>::from(id).to_owned();
        let given = match &read {
            ReadResponse::KeysUpload(r) => machine.mark_request_as_sent(&transaction, r).await,
            ReadResponse::KeysQuery { response, .. } => {
                machine.mark_request_as_sent(&transaction, response).await
            }
            ReadResponse::KeysClaim(r) => machine.mark_request_as_sent(&transaction, r).await,
            ReadResponse::ToDevice(r) => machine.mark_request_as_sent(&transaction, r).await,
            ReadResponse::SignatureUpload(r) => machine.mark_request_as_sent(&transaction, r).await,
            ReadResponse::RoomMessage(r) => machine.mark_request_as_sent(&transaction, r).await,
            ReadResponse::SigningKeysUpload(r) => {
                machine
                    .mark_request_as_sent(&transaction, AnyIncomingResponse::SigningKeysUpload(r))
                    .await
            }
        };
        let taken = match given {
            Err(_) => Trip::Refused,
            Ok(_) => Trip::Done(Taken {
                account: machine.user_id().to_string(),
                stored: match &read {
                    ReadResponse::KeysQuery { .. } if is_about_this_account(kind) => {
                        self.stored_identity().await
                    }
                    _ => StoredIdentity::Missing,
                },
            }),
        };
        let marked = mark_sent(kind, &read, taken);
        if let Ok(reading) = &marked {
            if reading.published {
                self.unpublished.set(false);
            }
        }
        self.state.borrow_mut().finish_mark(id, marked)
    }

    async fn stored_identity(&self) -> StoredIdentity {
        match self.machine().get_identity(self.machine().user_id(), None).await {
            Err(_) => StoredIdentity::Unreadable,
            Ok(None) => StoredIdentity::Missing,
            Ok(Some(identity)) => StoredIdentity::Stored {
                own: identity.own().map(|own| master_key(own.master_key())),
                unpublished: self.unpublished.get(),
            },
        }
    }

    fn queue_action_request(&self, request: UpstreamOutgoingRequest) {
        self.state.borrow_mut().queue_action_request(
            request.request_id().to_string(),
            outgoing_parts(request.request()),
        );
    }

    async fn drain_for(&self, kind: &str) -> OutgoingRequest {
        self.take_outgoing_requests()
            .await
            .into_iter()
            .find(|request| request.kind == kind)
            .unwrap()
    }

    async fn drain_for_query_about(&self, user: &str) -> OutgoingRequest {
        self.take_outgoing_requests()
            .await
            .into_iter()
            .find(|request| {
                request.kind == "keys_query"
                    && queried_users(&request.body).iter().any(|queried| queried == user)
            })
            .unwrap()
    }

    async fn identity_status(&self) -> StatusAnswer {
        let machine = self.machine();
        StatusAnswer::Known(IdentityStatus {
            account_keys_fetched: self.state.borrow().account_keys_answered(),
            identity_publication_pending: self.unpublished.get(),
            identity_known: machine
                .get_identity(machine.user_id(), None)
                .await
                .unwrap()
                .is_some(),
        })
    }

    async fn seeds(&self) -> Result<Seeds, MachineError> {
        let export = self.machine().export_cross_signing_keys().await;
        complete_export(trip(export.map(|export| {
            export.map(|export| KeyExport {
                master_key: export.master_key.clone(),
                self_signing_key: export.self_signing_key.clone(),
                user_signing_key: export.user_signing_key.clone(),
            })
        })))
    }

    /// Sets a recovery up, its passphrase stretched once.
    async fn create_recovery(
        &self,
        passphrase: &str,
        data: &[AccountDataEntry],
    ) -> Result<RecoverySetup, MachineError> {
        check_create_recovery(data, self.identity_status().await)?;
        Ok(stretched_once(passphrase, data, &self.seeds().await?))
    }

    async fn recover_identity(
        &self,
        secret: &str,
        data: &[AccountDataEntry],
    ) -> Result<(), MachineError> {
        let seeds = recover_identity(secret, data, self.identity_status().await)?;
        let export = CrossSigningKeyExport {
            master_key: Some(seeds.master),
            self_signing_key: Some(seeds.self_signing),
            user_signing_key: Some(seeds.user_signing),
        };
        finish_recovery(match self.machine().import_cross_signing_keys(export).await {
            Err(SecretImportError::Store(_)) => KeyImport::StoreRefused,
            Err(_) => KeyImport::KeysRefused,
            Ok(status) => KeyImport::Imported { complete: status.is_complete() },
        })
    }

    async fn private_keys_held(&self) -> bool {
        self.machine().cross_signing_status().await.is_complete()
    }
}

fn queried_users(body: &str) -> Vec<String> {
    parsed(body)["device_keys"].as_object().unwrap().keys().cloned().collect()
}

fn decoded_event_type(body: &str) -> String {
    parsed(body)["event_type"].as_str().unwrap().to_string()
}

fn to_device(txn_id: &str) -> UpstreamOutgoingRequest {
    let recipient: OwnedUserId = "@other:example.org".parse().unwrap();
    let mut request = ToDeviceRequest::new(
        &recipient,
        DeviceIdOrAllDevices::AllDevices,
        "m.dummy",
        Raw::from_json_string("{}".to_string()).unwrap(),
    );
    request.txn_id = <&TransactionId>::from(txn_id).to_owned();
    OutgoingVerificationRequest::ToDevice(request).into()
}

fn scoped_event(sender: &str, event_id: &str, content: Value) -> String {
    object([
        ("sender", text(sender)),
        ("event_id", text(event_id)),
        ("origin_server_ts", Value::from(1_700_000_000_000u64)),
        ("content", content),
    ])
    .to_string()
}

/// Another machine's device keys and one of its one-time keys.
async fn bob_upload() -> (Value, (String, Value)) {
    let user: OwnedUserId = BOB.parse().unwrap();
    let device: OwnedDeviceId = BOB_DEVICE.into();
    let bob = OlmMachine::new(&user, &device).await;
    let upload = bob.outgoing_requests().await.unwrap();
    upload
        .iter()
        .find_map(|request| match request.request() {
            AnyOutgoingRequest::KeysUpload(keys) => {
                let (id, key) = keys.one_time_keys.iter().next().unwrap();
                Some((
                    serde_json::to_value(keys.device_keys.as_ref().unwrap()).unwrap(),
                    (id.to_string(), serde_json::to_value(key).unwrap()),
                ))
            }
            _ => None,
        })
        .unwrap()
}

/// Has a device hear of the other machine's device, by way of the pump.
async fn hear_of_bob(device: &Device, device_keys: Value) {
    device
        .receive_sync_changes(&format!(
            r#"{{"changed_devices":{{"changed":["{BOB}"],"left":[]}}}}"#
        ))
        .await
        .unwrap();
    let query = device.drain_for("keys_query").await;
    let response = object([(
        "device_keys",
        object([(BOB, object([(BOB_DEVICE, device_keys)]))]),
    )]);
    device.mark_request_sent(&query.id, &response.to_string()).await.unwrap();
}

#[test]
fn an_empty_sync_is_accepted_and_reports_no_new_sessions() {
    let outcome = run(async {
        Device::alice()
            .await
            .receive_sync_changes(r#"{"to_device_events":[],"changed_devices":{"changed":[],"left":[]},"one_time_keys_counts":{}}"#)
            .await
    })
    .unwrap();

    assert_eq!(outcome.to_device_event_count, 0);
    assert_eq!(outcome.new_session_count, 0);
}

#[test]
fn a_sync_with_every_field_omitted_is_also_accepted() {
    let outcome =
        run(async { Device::alice().await.receive_sync_changes("{}").await }).unwrap();

    assert_eq!(outcome.to_device_event_count, 0);
    assert_eq!(outcome.new_session_count, 0);
}

#[test]
fn malformed_json_is_reported_as_malformed_not_as_a_store_failure() {
    let device = Device::without_a_machine();
    let err = run(device.receive_sync_changes("{oops")).unwrap_err();
    assert_eq!(err, SessionError::MalformedPayload);
}

#[test]
fn well_formed_json_of_the_wrong_shape_is_also_reported_as_malformed() {
    let device = Device::without_a_machine();
    let err =
        run(device.receive_sync_changes(r#"{"one_time_keys_counts":"not-a-map"}"#)).unwrap_err();
    assert_eq!(err, SessionError::MalformedPayload);
}

#[test]
fn calls_before_creation_report_not_initialised() {
    let device = Device::without_a_machine();
    let err = run(device.receive_sync_changes(
        r#"{"to_device_events":[],"changed_devices":{"changed":[],"left":[]},"one_time_keys_counts":{}}"#,
    ))
    .unwrap_err();

    assert_eq!(err, SessionError::NotInitialised);
}

#[test]
fn every_call_without_a_machine_says_so() {
    let device = Device::without_a_machine();
    assert_eq!(
        run(device.encrypt_event(SCOPE, "m.room.message", "{}")).err(),
        Some(SessionError::NotInitialised)
    );
    assert_eq!(
        run(device.decrypt_event(SCOPE, "{}", SenderTrustRequirement::Any)).err(),
        Some(SessionError::NotInitialised)
    );
}

#[test]
fn a_refused_sync_and_a_long_one_are_reported() {
    assert_eq!(
        matrix_crypto_core::receive_sync_changes(SyncAnswer::Refused),
        Err(SessionError::Failed)
    );
    assert_eq!(
        matrix_crypto_core::receive_sync_changes(SyncAnswer::Processed {
            to_device_events: 1 << 33 | 7,
            room_keys: 5,
        }),
        Ok(SyncOutcome { to_device_event_count: 7, new_session_count: 5 })
    );
}

#[test]
fn to_device_event_count_reflects_what_the_machine_actually_processed() {
    let outcome = run(async {
        Device::alice()
            .await
            .receive_sync_changes(
                r#"{"to_device_events":[{"sender":"@bob:example.org","type":"m.dummy","content":{}}],"changed_devices":{"changed":[],"left":[]},"one_time_keys_counts":{}}"#,
            )
            .await
    })
    .unwrap();

    assert_eq!(outcome.to_device_event_count, 1);
    assert_eq!(outcome.new_session_count, 0);
}

#[test]
fn encrypting_produces_ciphertext_that_is_not_the_plaintext() {
    let envelope = run(async {
        let device = Device::alice().await;
        device.share_scope_key(SCOPE, &[ALICE.to_string()]).await.unwrap();
        device
            .encrypt_event(SCOPE, "m.room.message", r#"{"body":"hello","msgtype":"m.text"}"#)
            .await
    })
    .ok()
    .unwrap();

    assert!(!envelope.ciphertext.is_empty());
    assert!(
        !String::from_utf8_lossy(&envelope.ciphertext).contains("hello"),
        "the plaintext must not survive in the ciphertext"
    );
    assert_eq!(envelope.sender, "@alice:example.org");
    assert_eq!(envelope.scope, "!s:example.org");
    assert_eq!(envelope.event_type, "m.room.message");
    assert!(
        !envelope.algorithm.is_empty(),
        "the algorithm tag must be populated"
    );
    assert_eq!(envelope.algorithm, "m.megolm.v1.aes-sha2");
    assert_eq!(envelope.sender_verification, None);
}

#[test]
fn a_malformed_scope_is_rejected() {
    let device = Device::without_a_machine();
    let err = run(device.encrypt_event("nonsense", "m.room.message", "{}")).err().unwrap();
    assert_eq!(err, SessionError::MalformedIdentifier);
}

#[test]
fn an_error_never_echoes_the_input_that_caused_it() {
    let secret_like_payload = "super-secret-plaintext-marker";
    let device = Device::without_a_machine();
    let err = run(device.encrypt_event(
        "not-a-valid-scope",
        "m.room.message",
        secret_like_payload,
    ))
    .err()
    .unwrap();

    let rendered = err.message();
    assert!(
        !rendered.contains(secret_like_payload),
        "rendered error must not contain the input: {rendered}"
    );
    assert!(
        !rendered.contains("not-a-valid-scope"),
        "rendered error must not contain the input: {rendered}"
    );
}

#[test]
fn a_fresh_machine_has_keys_waiting_to_be_uploaded() {
    let requests = run(async { Device::alice().await.take_outgoing_requests().await });

    assert!(
        !requests.is_empty(),
        "a new device must have keys to publish"
    );
    assert!(requests.iter().any(|r| r.kind == "keys_upload"));
    assert!(requests.iter().all(|r| !r.id.is_empty()));
}

#[test]
fn sharing_a_scope_key_delivers_the_key_only_after_a_keys_claim_round_trip() {
    let (before_claim, after_claim) = run(async {
        let device = Device::alice().await;
        let (device_keys, (otk_id, otk_key)) = bob_upload().await;
        hear_of_bob(&device, device_keys).await;

        device.share_scope_key(SCOPE, &[BOB.to_string()]).await.unwrap();
        let taken = device.take_outgoing_requests().await;
        let before_claim: Vec<String> = taken
            .iter()
            .filter(|r| r.kind == "to_device")
            .map(|r| decoded_event_type(&r.body))
            .collect();

        let claim_id = taken
            .into_iter()
            .find(|r| r.kind == "keys_claim")
            .expect("sharing to a device with no session queues a keys claim")
            .id;
        let claim_response = object([(
            "one_time_keys",
            object([(BOB, object([(BOB_DEVICE, object([(otk_id.as_str(), otk_key)]))]))]),
        )]);
        device
            .mark_request_sent(&claim_id, &claim_response.to_string())
            .await
            .unwrap();

        device.share_scope_key(SCOPE, &[BOB.to_string()]).await.unwrap();
        let after_claim: Vec<String> = device
            .take_outgoing_requests()
            .await
            .into_iter()
            .filter(|r| r.kind == "to_device")
            .map(|r| decoded_event_type(&r.body))
            .collect();
        (before_claim, after_claim)
    });

    assert_eq!(
        before_claim,
        vec!["m.room_key.withheld".to_string()],
        "sharing before a session exists must be a withheld notice, not silently nothing and not the key"
    );
    assert!(
        after_claim.contains(&"m.room.encrypted".to_string()),
        "sharing after a keys-claim round trip must deliver the session key: {after_claim:?}"
    );
}

#[test]
fn action_requests_leave_in_the_order_they_were_queued() {
    let handed_out = run(async {
        let device = Device::alice().await;
        device.queue_action_request(to_device("zzzz"));
        device.queue_action_request(to_device("aaaa"));
        device.take_outgoing_requests().await
    });

    let ours: Vec<String> = handed_out
        .into_iter()
        .map(|request| request.id)
        .filter(|id| id == "zzzz" || id == "aaaa")
        .collect();
    assert_eq!(
        ours,
        vec!["zzzz".to_string(), "aaaa".to_string()],
        "action requests must be handed out in the order they were queued, \
         not in the order their random identifiers happen to sort"
    );
}

#[test]
fn an_action_queued_first_is_handed_out_before_what_upstream_offers_later() {
    let handed_out = run(async {
        let device = Device::alice().await;
        device.queue_action_request(to_device("queued-first"));
        device.take_outgoing_requests().await
    });

    assert!(
        handed_out
            .iter()
            .any(|request| request.kind == "keys_upload"),
        "this test needs a request from upstream to order against"
    );
    assert_eq!(
        handed_out.first().map(|request| request.id.as_str()),
        Some("queued-first"),
        "a request queued before the pump ran must be handed out before the \
         ones the pump learned of while running"
    );
}

#[test]
fn queueing_the_same_action_twice_hands_it_out_once() {
    let handed_out = run(async {
        let device = Device::alice().await;
        for _ in 0..2 {
            device.queue_action_request(to_device("repeated"));
        }
        device.take_outgoing_requests().await
    });

    let repeats = handed_out
        .iter()
        .filter(|request| request.id == "repeated")
        .count();
    assert_eq!(
        repeats, 1,
        "the same action queued twice must be handed out once, not {repeats} times"
    );
}

#[test]
fn marking_an_unknown_request_as_sent_is_rejected() {
    let err = run(async {
        Device::alice()
            .await
            .mark_request_sent("not-a-request-this-machine-issued", "{}")
            .await
    })
    .unwrap_err();

    assert_eq!(err, SessionError::UnknownRequest);
}

/// Runs a future to its end with no runtime around it.
fn run_bare<F: Future>(future: F) -> F::Output {
    let mut future = Box::pin(future);
    let mut context = Context::from_waker(Waker::noop());
    loop {
        if let Poll::Ready(output) = future.as_mut().poll(&mut context) {
            return output;
        }
    }
}

#[test]
fn the_pump_runs_with_no_ambient_tokio_runtime() {
    run_bare(async {
        let device = Device::alice().await;
        device.share_scope_key(SCOPE, &[ALICE.to_string()]).await.unwrap();
        let envelope = device
            .encrypt_event(SCOPE, "m.dummy", r#"{"body":"hi"}"#)
            .await
            .ok()
            .unwrap();
        assert!(!envelope.ciphertext.is_empty());

        let upload = device
            .take_outgoing_requests()
            .await
            .into_iter()
            .find(|r| r.kind == "keys_upload")
            .expect("a fresh machine has a key upload to send");

        device
            .mark_request_sent(&upload.id, r#"{"one_time_key_counts":{}}"#)
            .await
            .unwrap();
    });
}

#[test]
fn describe_outgoing_produces_the_real_wire_body_for_every_kind() {
    let describe = |request: AnyOutgoingRequest| {
        let (kind, body) = describe_outgoing(&outgoing_parts(&request)).unwrap();
        (kind.tag(), body)
    };

    let upload = matrix_sdk_common::ruma::api::client::keys::upload_keys::v3::Request::new();
    let (kind, body) = describe(AnyOutgoingRequest::KeysUpload(upload));
    assert_eq!(kind, "keys_upload");
    let value = parsed(&body);
    assert!(
        value.get("device_keys").is_none(),
        "device_keys must be omitted when absent: {body}"
    );
    assert!(
        value.get("one_time_keys").is_none(),
        "one_time_keys must be omitted when empty: {body}"
    );
    assert!(
        value.get("fallback_keys").is_none(),
        "fallback_keys must be omitted when empty: {body}"
    );

    let query = KeysQueryRequest { timeout: None, device_keys: BTreeMap::new() };
    let (kind, body) = describe(AnyOutgoingRequest::KeysQuery(query));
    assert_eq!(kind, "keys_query");
    let value = parsed(&body);
    assert!(
        value.get("device_keys").is_some(),
        "device_keys must always be present, even empty: {body}"
    );
    assert!(
        value.get("timeout").is_none(),
        "timeout must be omitted when absent: {body}"
    );

    let claim = KeysClaimRequest::new(BTreeMap::new());
    let (kind, body) = describe(AnyOutgoingRequest::KeysClaim(claim));
    assert_eq!(kind, "keys_claim");
    let value = parsed(&body);
    assert!(value.get("one_time_keys").is_some());
    assert_eq!(value.get("timeout").and_then(Value::as_u64), Some(10_000));

    let signature = matrix_sdk_common::ruma::api::client::keys::upload_signatures::v3::Request::new(
        BTreeMap::new(),
    );
    let (kind, body) = describe(AnyOutgoingRequest::SignatureUpload(signature));
    assert_eq!(kind, "signature_upload");
    assert_eq!(
        body, "{}",
        "signed_keys is the whole body, not wrapped: {body}"
    );

    let content: AnyMessageLikeEventContent = RoomMessageEventContent::text_plain("hi").into();
    let room_message = RoomMessageRequest {
        room_id: "!s:example.org".parse().unwrap(),
        txn_id: TransactionId::new(),
        content: Box::new(content),
    };
    let (kind, body) = describe(AnyOutgoingRequest::RoomMessage(Box::new(room_message)));
    assert_eq!(kind, "room_message");
    let value = parsed(&body);
    assert_eq!(
        value.get("room_id").and_then(|v| v.as_str()),
        Some("!s:example.org")
    );
    assert_eq!(
        value.get("event_type").and_then(|v| v.as_str()),
        Some("m.room.message"),
        "event_type must be present -- the product has no other way to build this endpoint's URL: {body}"
    );
    assert!(value.get("txn_id").is_some());
    assert!(value.get("content").is_some());
}

#[test]
fn sharing_the_same_scope_key_twice_before_marking_does_not_duplicate_the_request() {
    let to_device: Vec<OutgoingRequest> = run(async {
        let device = Device::alice().await;
        let (device_keys, _) = bob_upload().await;
        hear_of_bob(&device, device_keys).await;

        device.share_scope_key(SCOPE, &[BOB.to_string()]).await.unwrap();
        device.share_scope_key(SCOPE, &[BOB.to_string()]).await.unwrap();
        device.take_outgoing_requests().await
    })
    .into_iter()
    .filter(|r| r.kind == "to_device")
    .collect();

    assert_eq!(
        to_device.len(),
        1,
        "two share_scope_key calls before marking must not duplicate the queued request"
    );
}

#[test]
fn a_request_upstream_re_offers_keeps_the_position_it_was_given() {
    let (first_id, second_batch): (String, Vec<OutgoingRequest>) = run(async {
        let device = Device::alice().await;
        let (device_keys, _) = bob_upload().await;
        hear_of_bob(&device, device_keys).await;

        device.share_scope_key(SCOPE, &[BOB.to_string()]).await.unwrap();
        let first_id = device.drain_for("to_device").await.id;

        device.share_scope_key(SCOPE, &[BOB.to_string()]).await.unwrap();
        (first_id, device.take_outgoing_requests().await)
    });

    assert!(
        second_batch
            .iter()
            .any(|request| request.kind != "to_device"),
        "the second batch must carry something newer for the re-offered request to be \
         ahead of, or this asserts nothing"
    );
    assert_eq!(
        second_batch.first().map(|request| request.id.as_str()),
        Some(first_id.as_str()),
        "a request handed out in an earlier batch and still unresolved must keep its \
         place ahead of everything stamped since"
    );
}

#[test]
fn a_stale_keys_upload_id_does_not_accumulate_across_repeated_calls() {
    let (after_one, after_three) = run(async {
        let device = Device::alice().await;
        device.take_outgoing_requests().await;
        let after_one = device.state.borrow().pending_count();

        device.take_outgoing_requests().await;
        device.take_outgoing_requests().await;
        let after_three = device.state.borrow().pending_count();
        (after_one, after_three)
    });

    assert_eq!(
        after_one, after_three,
        "repeated idle calls must not grow what is pending: {after_one} entries after one call, {after_three} after three"
    );
}

#[test]
fn a_key_query_owed_to_a_verified_person_survives_the_ordinary_ones() {
    run(async {
        let device = Device::alice().await;
        device.take_outgoing_requests().await;

        let peer: OwnedUserId = "@somebody:example.org".parse().unwrap();
        let id = TransactionId::new();
        device.state.borrow_mut().queue_peer_key_query(
            id.to_string(),
            keys_query_parts(&KeysQueryRequest {
                timeout: None,
                device_keys: BTreeMap::from([(peer, Vec::new())]),
            }),
        );

        let handed_out = device.take_outgoing_requests().await;
        assert!(
            handed_out.iter().any(|request| request.id == *id),
            "the queued query must be handed out at all, or the assertion below is \
             about an id that never existed"
        );
        assert!(
            handed_out
                .iter()
                .any(|request| request.id != *id && request.kind == "keys_query"),
            "and an ordinary key query must be handed out beside it, or nothing in \
             this batch could evict anything"
        );

        device.take_outgoing_requests().await;
        device.take_outgoing_requests().await;

        assert!(
            device.state.borrow().is_pending(id.as_str()),
            "the query owed to the person a verification just signed must still be \
             resolvable after ordinary key queries have come and gone"
        );
    });
}

#[test]
fn a_failed_mark_can_be_retried_with_the_same_id() {
    run(async {
        let device = Device::alice().await;
        let upload_id = device.drain_for("keys_upload").await.id;

        let first = device.mark_request_sent(&upload_id, "not valid json at all").await;
        assert_eq!(first, Err(SessionError::MalformedPayload));

        device
            .mark_request_sent(&upload_id, r#"{"one_time_key_counts":{}}"#)
            .await
            .unwrap();
    });
}

#[test]
fn decrypting_recovers_the_exact_payload_encrypt_event_started_from() {
    let payload = r#"{"body":"hello","msgtype":"m.text"}"#;

    let envelope = run(async {
        let device = Device::alice().await;
        device.share_scope_key(SCOPE, &[ALICE.to_string()]).await.unwrap();
        let encrypted = device
            .encrypt_event(SCOPE, "m.room.message", payload)
            .await
            .ok()
            .unwrap();

        let content: Value = serde_json::from_slice(&encrypted.ciphertext)
            .expect("encrypt_event's own ciphertext is well-formed JSON");
        let raw_event = scoped_event(&encrypted.sender, "$event1:example.org", content);

        device.decrypt_event(SCOPE, &raw_event, SenderTrustRequirement::Any).await
    })
    .ok()
    .unwrap();

    assert_eq!(
        envelope.ciphertext,
        payload.as_bytes(),
        "the recovered plaintext must round-trip byte for byte"
    );
    assert_eq!(envelope.event_type, "m.room.message");
    assert_eq!(envelope.sender, "@alice:example.org");
    assert_eq!(envelope.scope, "!s:example.org");
    assert!(
        !envelope.algorithm.is_empty(),
        "the algorithm tag must be populated"
    );
    assert_eq!(envelope.algorithm, "m.megolm.v1.aes-sha2");
    assert!(envelope.sender_verification.is_some());
}

/// Encrypts an event, alters its content, and decrypts it.
async fn decrypt_altered(
    device: &Device,
    event_id: &str,
    alter: impl Fn(&mut Value),
) -> (Value, Result<Envelope, SessionError>) {
    device.share_scope_key(SCOPE, &[ALICE.to_string()]).await.unwrap();
    let encrypted = device
        .encrypt_event(SCOPE, "m.room.message", r#"{"body":"hi"}"#)
        .await
        .ok()
        .unwrap();
    let mut content: Value = serde_json::from_slice(&encrypted.ciphertext)
        .expect("encrypt_event's own ciphertext is well-formed JSON");
    let original = content.clone();
    alter(&mut content);
    let raw_event = scoped_event(&encrypted.sender, event_id, content);
    let decrypted = device
        .decrypt_event(SCOPE, &raw_event, SenderTrustRequirement::Any)
        .await;
    (original, decrypted)
}

#[test]
fn corrupting_the_ciphertext_makes_decryption_fail_rather_than_succeed_silently() {
    let err = run(async {
        let device = Device::alice().await;
        let (_, decrypted) = decrypt_altered(&device, "$event2:example.org", |content| {
            let original = content["ciphertext"]
                .as_str()
                .expect("a Megolm content always carries a ciphertext string")
                .to_string();
            let mut bytes = original.into_bytes();
            let target = bytes.len() / 4;
            bytes[target] = if bytes[target] == b'A' { b'B' } else { b'A' };
            let flipped =
                String::from_utf8(bytes).expect("flipping one base64 byte stays valid UTF-8");
            content["ciphertext"] = Value::String(flipped);
        })
        .await;
        decrypted
    })
    .err()
    .unwrap();

    assert_eq!(err, SessionError::Undecryptable);
}

#[test]
fn decrypting_an_event_for_a_session_never_shared_reports_missing_key() {
    let err = run(async {
        let device = Device::alice().await;
        let (_, decrypted) = decrypt_altered(&device, "$event3:example.org", |content| {
            assert!(
                content["session_id"].is_string(),
                "a Megolm content always carries a session_id string"
            );
            content["session_id"] = text("AN_UNKNOWN_SESSION_NOBODY_SHARED");
        })
        .await;
        decrypted
    })
    .err()
    .unwrap();

    assert_eq!(err, SessionError::MissingKey);
}

/// Has a device told that a session was withheld, and decrypts an event of it.
async fn decrypt_withheld(
    session_id: &str,
    code: &str,
    reason: &str,
    event_id: &str,
) -> Result<Envelope, SessionError> {
    let device = Device::alice().await;
    let sender_key = device.machine().identity_keys().curve25519.to_base64();
    let withheld = object([
        ("sender", text(BOB)),
        ("type", text("m.room_key.withheld")),
        (
            "content",
            object([
                ("algorithm", text("m.megolm.v1.aes-sha2")),
                ("code", text(code)),
                ("reason", text(reason)),
                ("room_id", text(SCOPE)),
                ("session_id", text(session_id)),
                ("sender_key", text(&sender_key)),
            ]),
        ),
    ]);
    let sync = object([("to_device_events", Value::Array(vec![withheld]))]);
    device.receive_sync_changes(&sync.to_string()).await.unwrap();
    let (_, decrypted) = decrypt_altered(&device, event_id, |content| {
        content["session_id"] = text(session_id);
    })
    .await;
    decrypted
}

#[test]
fn decrypting_an_event_for_a_withheld_session_reports_unshared_session() {
    let err = run(decrypt_withheld(
        "WITHHELD_SESSION_NOBODY_GOT",
        "m.unavailable",
        "the requested key was not found",
        "$event5:example.org",
    ))
    .err()
    .unwrap();

    assert_eq!(err, SessionError::UnsharedSession);
}

#[test]
fn decrypting_an_event_for_a_policy_refused_session_reports_session_refused() {
    let err = run(decrypt_withheld(
        "REFUSED_SESSION_NOBODY_GOT",
        "m.blacklisted",
        "The sender has blocked you.",
        "$event6:example.org",
    ))
    .err()
    .unwrap();

    assert_eq!(err, SessionError::SessionRefused);
}

#[test]
fn a_policy_withheld_code_is_not_retriable_and_a_circumstantial_one_stays_unshared() {
    assert_eq!(
        classify_megolm_error(MegolmFault::MissingRoomKey(Some(WithheldCode::Blacklisted))),
        SessionError::SessionRefused,
    );
    assert_eq!(
        classify_megolm_error(MegolmFault::MissingRoomKey(Some(WithheldCode::Unauthorised))),
        SessionError::SessionRefused,
    );

    assert_eq!(
        classify_megolm_error(MegolmFault::MissingRoomKey(Some(WithheldCode::Unavailable))),
        SessionError::UnsharedSession,
    );
    assert_eq!(
        classify_megolm_error(MegolmFault::MissingRoomKey(Some(WithheldCode::NoOlm))),
        SessionError::UnsharedSession,
    );
}

#[test]
fn every_failure_to_decrypt_is_reported_as_what_it_is() {
    for (fault, error) in [
        (MegolmFault::MissingRoomKey(None), SessionError::MissingKey),
        (MegolmFault::UnknownMessageIndex, SessionError::MissingKey),
        (
            MegolmFault::MissingRoomKey(Some(WithheldCode::Unverified)),
            SessionError::UnsharedSession,
        ),
        (
            MegolmFault::MissingRoomKey(Some(WithheldCode::HistoryNotShared)),
            SessionError::UnsharedSession,
        ),
        (
            MegolmFault::MissingRoomKey(Some(WithheldCode::Unrecognised)),
            SessionError::UnsharedSession,
        ),
        (MegolmFault::MismatchedIdentityKeys, SessionError::UnknownDevice),
        (MegolmFault::SenderIdentityNotTrusted, SessionError::SenderNotTrusted),
        (MegolmFault::Decryption, SessionError::Undecryptable),
        (MegolmFault::EventError, SessionError::Undecryptable),
        (MegolmFault::JsonError, SessionError::Undecryptable),
        (MegolmFault::Decode, SessionError::Undecryptable),
        (MegolmFault::Store, SessionError::Failed),
    ] {
        assert_eq!(classify_megolm_error(fault), error);
    }
}

#[test]
fn a_decrypted_event_that_lacks_a_field_is_undecryptable() {
    let call = matrix_crypto_core::decrypt_event(SCOPE, "{}", SenderTrustRequirement::Any)
        .ok()
        .unwrap();
    assert_eq!(call.algorithm, "");
    let answer = DecryptAnswer::Decrypted { fields: None, state: VerificationState::Verified };
    assert_eq!(
        decrypted_envelope(call, answer).err(),
        Some(SessionError::Undecryptable)
    );
}

#[test]
fn a_requirement_is_passed_on_to_the_machine() {
    for (requirement, trust) in [
        (SenderTrustRequirement::Any, TrustRequirement::Untrusted),
        (
            SenderTrustRequirement::IdentitySignedOrLegacy,
            TrustRequirement::CrossSignedOrLegacy,
        ),
        (SenderTrustRequirement::IdentitySigned, TrustRequirement::CrossSigned),
    ] {
        let event = r#"  {"content":{"algorithm":"m.olm"}} "#;
        let call = matrix_crypto_core::decrypt_event(SCOPE, event, requirement).ok().unwrap();
        assert_eq!(call.trust, trust);
        assert_eq!(call.room_id, SCOPE);
        assert_eq!(call.event, r#"{"content":{"algorithm":"m.olm"}}"#);
        assert_eq!(call.algorithm, "m.olm");
    }
    assert_eq!(decryption_settings(), TrustRequirement::Untrusted);
}

#[test]
fn every_state_of_a_sender_is_reported() {
    let unverified = VerificationState::Unverified;
    for (state, reported) in [
        (VerificationState::Verified, SenderVerification::Verified),
        (
            unverified(VerificationLevel::UnverifiedIdentity),
            SenderVerification::UnverifiedIdentity,
        ),
        (
            unverified(VerificationLevel::VerificationViolation),
            SenderVerification::VerificationViolation,
        ),
        (
            unverified(VerificationLevel::UnsignedDevice),
            SenderVerification::UnsignedDevice,
        ),
        (
            unverified(VerificationLevel::NoDevice(DeviceLinkProblem::MissingDevice)),
            SenderVerification::NoDeviceMissing,
        ),
        (
            unverified(VerificationLevel::NoDevice(DeviceLinkProblem::InsecureSource)),
            SenderVerification::NoDeviceInsecureSource,
        ),
        (
            unverified(VerificationLevel::MismatchedSender),
            SenderVerification::MismatchedSender,
        ),
    ] {
        assert_eq!(sender_verification(state), reported);
    }
}

#[test]
fn an_encrypted_content_that_names_no_algorithm_has_none() {
    for content in ["{}", r#"{"algorithm":1}"#] {
        let call = matrix_crypto_core::encrypt_event(SCOPE, "m.x", "{}").ok().unwrap();
        let answer = Trip::Done(EncryptedContent {
            content: content.to_string(),
            sender: ALICE.to_string(),
        });
        let envelope = encrypted_envelope(call, answer).ok().unwrap();
        assert_eq!(envelope.algorithm, "");
        assert_eq!(envelope.ciphertext, content.as_bytes());
    }
    let call = matrix_crypto_core::encrypt_event(SCOPE, "m.x", "{}").ok().unwrap();
    assert_eq!(
        encrypted_envelope(call, Trip::Refused).err(),
        Some(SessionError::Failed)
    );
}

#[test]
fn no_decryption_error_carries_a_fragment_of_the_ciphertext() {
    let (err, ciphertext_fragment) = run(async {
        let device = Device::alice().await;
        let (original, decrypted) = decrypt_altered(&device, "$event4:example.org", |content| {
            content["session_id"] = text("AN_UNKNOWN_SESSION_NOBODY_SHARED");
        })
        .await;
        let fragment = original["ciphertext"]
            .as_str()
            .expect("a Megolm content always carries a ciphertext string")[..16]
            .to_string();
        (decrypted.err().unwrap(), fragment)
    });

    assert_eq!(err, SessionError::MissingKey);
    let rendered = err.message();
    assert!(
        !rendered.contains(&ciphertext_fragment),
        "rendered error must not contain a fragment of the ciphertext: {rendered}"
    );
    assert!(!rendered.contains("ciphertext"));
    assert!(!rendered.contains("!s:example.org"));
}

#[test]
fn malformed_raw_json_is_rejected_before_any_decryption_is_attempted() {
    let device = Device::without_a_machine();
    let err = run(device.decrypt_event("!s:example.org", "{oops", SenderTrustRequirement::Any))
        .err()
        .unwrap();
    assert_eq!(err, SessionError::MalformedPayload);
}

#[test]
fn a_malformed_scope_is_rejected_for_decryption_too() {
    let device = Device::without_a_machine();
    let err = run(device.decrypt_event("nonsense", "{}", SenderTrustRequirement::Any))
        .err()
        .unwrap();
    assert_eq!(err, SessionError::MalformedIdentifier);
}

#[test]
fn a_bad_scope_and_a_bad_payload_are_told_apart() {
    let device = Device::without_a_machine();
    let bad_scope = run(device.decrypt_event("nonsense", "{}", SenderTrustRequirement::Any))
        .err()
        .unwrap();
    let bad_payload =
        run(device.decrypt_event("!s:example.org", "{oops", SenderTrustRequirement::Any))
            .err()
            .unwrap();

    assert_eq!(bad_scope, SessionError::MalformedIdentifier);
    assert_eq!(bad_payload, SessionError::MalformedPayload);
    assert_ne!(bad_scope, bad_payload);
}

#[test]
fn sharing_a_scope_key_makes_the_pump_ask_about_the_users_it_was_given() {
    let queried: Vec<String> = run(async {
        let device = Device::alice().await;
        device.share_scope_key(SCOPE, &[BOB.to_string()]).await.unwrap();
        queried_users(&device.drain_for("keys_query").await.body)
    });

    assert!(
        queried.iter().any(|user| user == "@bob:example.org"),
        "share_scope_key must make the users it was given queryable"
    );
}

#[test]
fn sharing_with_what_is_no_user_is_refused() {
    let users = [ALICE.to_string(), "nobody".to_string()];
    assert_eq!(
        matrix_crypto_core::share_scope_key(SCOPE, &users).err(),
        Some(SessionError::MalformedIdentifier)
    );
    assert_eq!(
        matrix_crypto_core::share_scope_key("nonsense", &users[..1]).err(),
        Some(SessionError::MalformedIdentifier)
    );
}

const FIRST_DEVICE: &str = "DEVICEONE";
const SECOND_DEVICE: &str = "DEVICETWO";
const PEER: &str = "@peer:example.org";
const PEER_DEVICE: &str = "PEERDEVICE";
const RECOVERY_SCOPE: &str = "!recovery:example.org";
const PAYLOAD: &str = r#"{"body":"sent after the reinstall","msgtype":"m.text"}"#;

const PASSPHRASE: &str = "recovery-test-passphrase";
const WRONG_PASSPHRASE: &str = "not-the-recovery-test-passphrase";
const NEW_PASSPHRASE: &str = "the-second-recovery-test-passphrase";

const NO_IDENTITY: &str = r#"{"device_keys":{"@alice:example.org":{}}}"#;

const SECRETS: [SecretName; 3] = [
    SecretName::CrossSigningMasterKey,
    SecretName::CrossSigningSelfSigningKey,
    SecretName::CrossSigningUserSigningKey,
];

/// A recovery as `create_recovery` makes one, but for the passphrase, which is
/// stretched once and not half a million times.
fn stretched_once(passphrase: &str, data: &[AccountDataEntry], seeds: &Seeds) -> RecoverySetup {
    let key_id = SecretStorageKey::new().key_id().to_string();
    let unchecked = SecretStorageEncryptionAlgorithm::V1AesHmacSha2(
        SecretStorageV1AesHmacSha2Properties::new(None, None),
    );
    let mut content = SecretStorageKeyEventContent::new(key_id.clone(), unchecked);
    content.passphrase = Some(PassPhrase::new(key_id.clone(), 1u32.into()));
    let mut description = serde_json::to_value(&content).unwrap();
    let key = SecretStorageKey::from_account_data(passphrase, content).unwrap();
    let check = serde_json::to_value(key.encrypt(vec![0; 32], &SecretName::from(""))).unwrap();
    description["iv"] = check["iv"].clone();
    description["mac"] = check["mac"].clone();
    let sealed = |seed: &str, name: &SecretName| {
        serde_json::to_value(key.encrypt(seed.as_bytes().to_vec(), name)).unwrap().to_string()
    };
    RecoverySetup {
        recovery_key: key.to_base58(),
        account_data: recovery_events(
            data,
            &key_id,
            &description.to_string(),
            &sealed(&seeds.master, &SECRETS[0]),
            &sealed(&seeds.self_signing, &SECRETS[1]),
            &sealed(&seeds.user_signing, &SECRETS[2]),
        ),
    }
}

fn http_ok(body: &str) -> http::Response<Vec<u8>> {
    http::Response::new(body.as_bytes().to_vec())
}

async fn device_keys_of(
    machine: &OlmMachine,
    user: &OwnedUserId,
    device: &OwnedDeviceId,
) -> DeviceKeys {
    machine
        .get_device(user, device, None)
        .await
        .unwrap()
        .unwrap()
        .as_device_keys()
        .to_owned()
}

fn with_owner_signature(
    mut device_keys: DeviceKeys,
    bootstrap: &CrossSigningBootstrapRequests,
    user: &OwnedUserId,
    device: &OwnedDeviceId,
) -> DeviceKeys {
    let self_signing_key_id = bootstrap
        .upload_signing_keys_req
        .self_signing_key
        .as_ref()
        .unwrap()
        .get_first_key_and_id()
        .unwrap()
        .0
        .to_owned();
    let signed: DeviceKeys = bootstrap
        .upload_signatures_req
        .signed_keys
        .get(user)
        .unwrap()
        .iter()
        .find(|(id, _)| *id == device.as_str())
        .map(|(_, raw)| serde_json::from_str(raw.get()).unwrap())
        .unwrap();
    device_keys.signatures.add_signature(
        user.clone(),
        self_signing_key_id.clone(),
        signed
            .signatures
            .get_signature(user, &self_signing_key_id)
            .unwrap(),
    );
    device_keys
}

fn signature_count(key: &Value) -> usize {
    key["signatures"]
        .as_object()
        .unwrap()
        .values()
        .map(|keys| keys.as_object().unwrap().len())
        .sum()
}

fn with_our_signature(mut master_key: Value, signatures: &Value) -> Value {
    let before = signature_count(&master_key);
    let target = master_key["signatures"].as_object_mut().unwrap();
    for (user, keys) in signatures.as_object().unwrap() {
        let slot = target.entry(user.clone()).or_insert(object([]));
        for (key_id, signature) in keys.as_object().unwrap() {
            slot.as_object_mut().unwrap().insert(key_id.clone(), signature.clone());
        }
    }
    assert!(
        signature_count(&master_key) > before,
        "merging the uploaded signature must add one"
    );
    master_key
}

struct BeforeTheReinstall {
    device: Device,
    account_identity: Value,
    peer: OlmMachine,
    peer_device_keys: Value,
    peer_master_key: Value,
    peer_self_signing_key: Value,
    recovery: RecoverySetup,
}

/// A device that has made an identity, verified a peer and set up a recovery.
async fn before_the_reinstall() -> BeforeTheReinstall {
    let device = Device::of(ALICE, FIRST_DEVICE).await;
    let upload = device.drain_for("keys_upload").await;
    device
        .mark_request_sent(&upload.id, r#"{"one_time_key_counts":{}}"#)
        .await
        .unwrap();
    let account_query = device.drain_for_query_about(ALICE).await;
    device.mark_request_sent(&account_query.id, NO_IDENTITY).await.unwrap();

    let bootstrap = device.machine().bootstrap_cross_signing(false).await.unwrap();
    device.unpublished.set(true);
    device
        .state
        .borrow_mut()
        .queue_signing_keys_request(signing_keys_parts(&bootstrap.upload_signing_keys_req));
    device.state.borrow_mut().queue_action_request(
        "signatures".to_string(),
        OutgoingParts::SignatureUpload(part(&bootstrap.upload_signatures_req.signed_keys)),
    );
    let (id, query) = device
        .machine()
        .query_keys_for_users(std::iter::once(device.machine().user_id()));
    device
        .state
        .borrow_mut()
        .queue_account_key_query(id.to_string(), keys_query_parts(&query));
    assert_eq!(
        device.create_recovery(PASSPHRASE, &[]).await.err(),
        Some(MachineError::IdentityNotKnown),
        "an identity that has not been published is none to recover"
    );

    let published = device.take_outgoing_requests().await;
    let signing_keys = published
        .iter()
        .find(|request| request.kind == "signing_keys_upload")
        .unwrap();
    let signing_keys = parsed(&signing_keys.body);
    let account_identity = object([
        ("master_keys", object([(ALICE, signing_keys["master_key"].clone())])),
        ("self_signing_keys", object([(ALICE, signing_keys["self_signing_key"].clone())])),
        ("user_signing_keys", object([(ALICE, signing_keys["user_signing_key"].clone())])),
    ]);
    let mut confirming = account_identity.clone();
    confirming["device_keys"] = object([(ALICE, object([]))]);
    confirming["failures"] = object([]);
    for request in &published {
        let body = if request.kind == "keys_query" && request.body.contains(ALICE) {
            confirming.to_string()
        } else {
            "{}".to_string()
        };
        device.mark_request_sent(&request.id, &body).await.unwrap();
    }
    assert!(!device.unpublished.get());

    let peer_user: OwnedUserId = PEER.parse().unwrap();
    let peer_device: OwnedDeviceId = PEER_DEVICE.into();
    let peer = OlmMachine::new(&peer_user, &peer_device).await;
    let batch = peer.outgoing_requests().await.unwrap();
    let upload_id = batch
        .iter()
        .find(|request| matches!(request.request(), AnyOutgoingRequest::KeysUpload(_)))
        .unwrap()
        .request_id()
        .to_owned();
    let response =
        KeysUploadResponse::try_from_http_response(http_ok(r#"{"one_time_key_counts":{}}"#))
            .unwrap();
    peer.mark_request_as_sent(&upload_id, &response).await.unwrap();
    let bootstrap = peer.bootstrap_cross_signing(false).await.unwrap();
    let peer_device_keys = with_owner_signature(
        device_keys_of(&peer, &peer_user, &peer_device).await,
        &bootstrap,
        &peer_user,
        &peer_device,
    );
    let peer_device_keys = serde_json::to_value(&peer_device_keys).unwrap();
    let peer_master_key =
        serde_json::to_value(&bootstrap.upload_signing_keys_req.master_key).unwrap();
    let peer_self_signing_key =
        serde_json::to_value(&bootstrap.upload_signing_keys_req.self_signing_key).unwrap();
    assert_eq!(signature_count(&peer_device_keys), 2);

    device.share_scope_key(RECOVERY_SCOPE, &[PEER.to_string()]).await.unwrap();
    let query = device.drain_for_query_about(PEER).await;
    let response = object([
        (
            "device_keys",
            object([(PEER, object([(PEER_DEVICE, peer_device_keys.clone())]))]),
        ),
        ("master_keys", object([(PEER, peer_master_key.clone())])),
        ("self_signing_keys", object([(PEER, peer_self_signing_key.clone())])),
    ]);
    device.mark_request_sent(&query.id, &response.to_string()).await.unwrap();

    let signed_keys = device
        .machine()
        .get_identity(&peer_user, None)
        .await
        .unwrap()
        .unwrap()
        .other()
        .unwrap()
        .verify()
        .await
        .unwrap()
        .signed_keys;
    let signed_keys = serde_json::to_value(&signed_keys).unwrap();
    let uploaded = signed_keys[PEER].as_object().unwrap();
    assert_eq!(uploaded.len(), 1);
    let signatures = uploaded.values().next().unwrap()["signatures"].clone();
    let peer_master_key = with_our_signature(peer_master_key, &signatures);

    let recovery = device.create_recovery(PASSPHRASE, &[]).await.ok().unwrap();
    device.take_outgoing_requests().await;

    BeforeTheReinstall {
        device,
        account_identity,
        peer,
        peer_device_keys,
        peer_master_key,
        peer_self_signing_key,
        recovery,
    }
}

/// A new device of the account, that knows the account's identity.
async fn reinstalled(account_identity: &Value) -> (Device, Value) {
    let device = Device::of(ALICE, SECOND_DEVICE).await;
    let upload = device.drain_for("keys_upload").await;
    device
        .mark_request_sent(&upload.id, r#"{"one_time_key_counts":{}}"#)
        .await
        .unwrap();
    let account_query = device.drain_for_query_about(ALICE).await;
    device
        .mark_request_sent(&account_query.id, &account_identity.to_string())
        .await
        .unwrap();
    (device, parsed(&upload.body))
}

struct Outcome {
    verification: Option<SenderVerification>,
    recovered: Vec<u8>,
    private_keys_held: bool,
}

async fn after_the_reinstall(before: BeforeTheReinstall, recover: bool) -> Outcome {
    let (device, upload) = reinstalled(&before.account_identity).await;
    if recover {
        device
            .recover_identity(PASSPHRASE, &before.recovery.account_data)
            .await
            .expect("the passphrase that wrote this recovery must open it");
    }
    let private_keys_held = device.private_keys_held().await;

    device.share_scope_key(RECOVERY_SCOPE, &[PEER.to_string()]).await.unwrap();
    let query = device.drain_for_query_about(PEER).await;
    let response = object([
        ("device_keys", object([(PEER, object([(PEER_DEVICE, before.peer_device_keys)]))])),
        ("master_keys", object([(PEER, before.peer_master_key)])),
        ("self_signing_keys", object([(PEER, before.peer_self_signing_key)])),
    ]);
    device.mark_request_sent(&query.id, &response.to_string()).await.unwrap();

    let peer = before.peer;
    let alice: OwnedUserId = ALICE.parse().unwrap();
    let response = object([(
        "device_keys",
        object([(ALICE, object([(SECOND_DEVICE, upload["device_keys"].clone())]))]),
    )]);
    let response =
        KeysQueryResponse::try_from_http_response(http_ok(&response.to_string())).unwrap();
    peer.mark_request_as_sent(&TransactionId::new(), &response).await.unwrap();
    let (claim_id, _request) = peer
        .get_missing_sessions(std::iter::once(alice.as_ref()))
        .await
        .unwrap()
        .unwrap();
    let (one_time_key_id, one_time_key) =
        upload["one_time_keys"].as_object().unwrap().iter().next().unwrap();
    let response = object([(
        "one_time_keys",
        object([(
            ALICE,
            object([(SECOND_DEVICE, object([(one_time_key_id.as_str(), one_time_key.clone())]))]),
        )]),
    )]);
    let response =
        KeysClaimResponse::try_from_http_response(http_ok(&response.to_string())).unwrap();
    peer.mark_request_as_sent(&claim_id, &response).await.unwrap();

    let room: OwnedRoomId = RECOVERY_SCOPE.parse().unwrap();
    let shares = peer
        .share_room_key(&room, std::iter::once(alice.as_ref()), EncryptionSettings::default())
        .await
        .unwrap();
    let key_events: Vec<Value> = shares
        .iter()
        .map(|request| serde_json::to_value(request.as_ref()).unwrap())
        .filter(|body| body["event_type"] == "m.room.encrypted")
        .map(|body| {
            object([
                ("sender", text(PEER)),
                ("type", body["event_type"].clone()),
                ("content", body["messages"][ALICE][SECOND_DEVICE].clone()),
            ])
        })
        .collect();
    assert_eq!(key_events.len(), 1);
    let sync = object([("to_device_events", Value::Array(key_events))]);
    let outcome = device.receive_sync_changes(&sync.to_string()).await.unwrap();
    assert_eq!(
        outcome.new_session_count, 1,
        "the relayed to-device message must give the reinstalled device \
         exactly one new inbound session"
    );

    let content = Raw::<AnyMessageLikeEventContent>::from_json_string(PAYLOAD.to_owned()).unwrap();
    let encrypted = peer
        .encrypt_room_event_raw(&room, "m.room.message", &content)
        .await
        .unwrap();
    let event = scoped_event(
        PEER,
        "$after-the-reinstall:example.org",
        parsed(encrypted.content.json().get()),
    );
    let envelope = device
        .decrypt_event(RECOVERY_SCOPE, &event, SenderTrustRequirement::Any)
        .await
        .ok()
        .unwrap();
    Outcome {
        verification: envelope.sender_verification,
        recovered: envelope.ciphertext,
        private_keys_held,
    }
}

#[test]
fn a_recovered_identity_makes_a_decrypted_event_read_verified_again() {
    let outcome = run(async { after_the_reinstall(before_the_reinstall().await, true).await });

    assert!(
        outcome.private_keys_held,
        "recovering from the passphrase must leave the reinstalled device \
         holding the account's private signing keys"
    );
    assert_eq!(outcome.recovered, PAYLOAD.as_bytes());
    assert_eq!(
        outcome.verification,
        Some(SenderVerification::Verified),
        "after a recovery, an event from a peer this account had verified \
         before the reinstall reads `Verified` again"
    );
}

#[test]
fn a_reinstall_without_the_recovery_reads_below_verified() {
    let outcome = run(async { after_the_reinstall(before_the_reinstall().await, false).await });

    assert!(
        !outcome.private_keys_held,
        "a reinstall that does not recover holds no private signing keys"
    );
    assert_eq!(outcome.recovered, PAYLOAD.as_bytes());
    assert_eq!(
        outcome.verification,
        Some(SenderVerification::UnverifiedIdentity),
        "without the recovery the peer's identity is one this device has \
         never verified, so the event stops one rung short"
    );
}

#[test]
fn a_wrong_secret_is_told_apart_from_a_recovery_that_cannot_be_read() {
    run(async {
        let BeforeTheReinstall { account_identity, recovery, .. } = before_the_reinstall().await;
        let (device, _) = reinstalled(&account_identity).await;

        assert_eq!(
            device.recover_identity(WRONG_PASSPHRASE, &recovery.account_data).await,
            Err(MachineError::RecoveryKeyIncorrect),
            "a wrong passphrase must report exactly that, so a product can \
             ask its user to try again"
        );

        let damaged = with_a_damaged_secret(&recovery.account_data);
        assert_eq!(
            device.recover_identity(PASSPHRASE, &damaged).await,
            Err(MachineError::RecoveryDataMalformed),
            "a recovery whose stored secret has been altered must report \
             that no secret will open it, not that the secret was wrong"
        );

        let unparseable = with_replaced_content(
            &recovery.account_data,
            |event_type| event_type.starts_with("m.secret_storage.key."),
            "not json at all",
        );
        assert_eq!(
            device.recover_identity(PASSPHRASE, &unparseable).await,
            Err(MachineError::RecoveryDataMalformed),
            "a key description that is not JSON must report the same thing \
             as damaged ciphertext: nothing a user types will fix it"
        );

        let incomplete: Vec<AccountDataEntry> = recovery
            .account_data
            .iter()
            .filter(|entry| entry.event_type != SecretName::CrossSigningUserSigningKey.as_str())
            .cloned()
            .collect();
        assert_eq!(
            device.recover_identity(PASSPHRASE, &incomplete).await,
            Err(MachineError::RecoveryNotSetUp),
            "account data missing one of the three secrets is neither a \
             wrong passphrase nor damaged data"
        );

        let key_only = without_the_passphrase_block(&recovery.account_data);
        assert_eq!(
            device.recover_identity(&mistyped(&recovery.recovery_key), &key_only).await,
            Err(MachineError::RecoveryKeyIncorrect),
            "a recovery key with one character wrong is a wrong secret, \
             whatever the key description does or does not carry"
        );
        assert_eq!(
            device.recover_identity(PASSPHRASE, &key_only).await,
            Err(MachineError::RecoveryKeyIncorrect),
            "a passphrase typed at a recovery that has no passphrase block \
             is a wrong secret too"
        );

        device
            .recover_identity(&recovery.recovery_key, &key_only)
            .await
            .expect(
                "a recovery with no passphrase block must still open with \
                 the recovery key it was created with",
            );

        let unsupported = with_an_unsupported_algorithm(&recovery.account_data);
        assert_eq!(
            device.recover_identity(PASSPHRASE, &unsupported).await,
            Err(MachineError::RecoveryDataMalformed),
            "a key description naming an encryption algorithm this build \
             does not implement describes the stored data, not the secret"
        );

        device
            .recover_identity(PASSPHRASE, &recovery.account_data)
            .await
            .expect("the untouched fixture must open with the passphrase that wrote it");
        assert!(device.private_keys_held().await);

        device
            .recover_identity(&recovery.recovery_key, &recovery.account_data)
            .await
            .expect(
                "the recovery key this call returned must open the recovery \
                 it returned it for",
            );
    });
}

fn with_a_damaged_secret(account_data: &[AccountDataEntry]) -> Vec<AccountDataEntry> {
    let target = SecretName::CrossSigningMasterKey;
    let mut damaged = account_data.to_vec();
    let entry = damaged
        .iter_mut()
        .find(|entry| entry.event_type == target.as_str())
        .unwrap();
    let mut content = parsed(&entry.content);
    let data = content["encrypted"].as_object_mut().unwrap().values_mut().next().unwrap();
    let original = data["ciphertext"].as_str().unwrap().to_string();
    let first = original.chars().next().unwrap();
    let replacement = if first == 'A' { 'B' } else { 'A' };
    let altered: String = std::iter::once(replacement)
        .chain(original.chars().skip(1))
        .collect();
    assert_ne!(altered, original);
    data["ciphertext"] = Value::String(altered);
    entry.content = content.to_string();
    damaged
}

#[test]
fn every_decode_failure_is_classified_by_what_it_describes() {
    for failure in [
        UnlockFault::Prefix,
        UnlockFault::Parity,
        UnlockFault::KeyLength,
        UnlockFault::Mac,
        UnlockFault::Base58,
    ] {
        assert_eq!(
            classify_decode_error(failure),
            MachineError::RecoveryKeyIncorrect,
            "{failure:?} describes the string the user typed"
        );
    }

    for failure in [
        UnlockFault::IvLength,
        UnlockFault::MacLength,
        UnlockFault::UnsupportedAlgorithm,
        UnlockFault::KdfIterationCount,
        UnlockFault::Base64,
        UnlockFault::Description,
    ] {
        assert_eq!(
            classify_decode_error(failure),
            MachineError::RecoveryDataMalformed,
            "{failure:?} describes the account data, not the secret"
        );
    }
}

fn without_the_passphrase_block(account_data: &[AccountDataEntry]) -> Vec<AccountDataEntry> {
    let mut stripped = account_data.to_vec();
    let entry = stripped
        .iter_mut()
        .find(|entry| entry.event_type.starts_with("m.secret_storage.key."))
        .unwrap();
    let mut content = parsed(&entry.content);
    let removed = content.as_object_mut().unwrap().remove("passphrase");
    assert!(removed.is_some());
    entry.content = content.to_string();
    stripped
}

fn mistyped(recovery_key: &str) -> String {
    let mut wrong = String::with_capacity(recovery_key.len());
    let mut swapped = false;
    for character in recovery_key.chars() {
        if !swapped && character.is_ascii_alphanumeric() {
            wrong.push(if character == 'a' { 'b' } else { 'a' });
            swapped = true;
        } else {
            wrong.push(character);
        }
    }
    assert!(swapped);
    assert_ne!(wrong, recovery_key);
    wrong
}

fn with_an_unsupported_algorithm(account_data: &[AccountDataEntry]) -> Vec<AccountDataEntry> {
    let mut altered = account_data.to_vec();
    let entry = altered
        .iter_mut()
        .find(|entry| entry.event_type.starts_with("m.secret_storage.key."))
        .unwrap();
    let mut content = parsed(&entry.content);
    let described = content.as_object_mut().unwrap();
    assert!(described.contains_key("passphrase"));
    let replaced = described.insert(
        "algorithm".to_string(),
        text("m.secret_storage.v1.something-else"),
    );
    assert!(replaced.is_some());
    entry.content = content.to_string();
    altered
}

fn with_replaced_content(
    account_data: &[AccountDataEntry],
    wanted: impl Fn(&str) -> bool,
    content: &str,
) -> Vec<AccountDataEntry> {
    let mut replaced = account_data.to_vec();
    let entry = replaced
        .iter_mut()
        .find(|entry| wanted(&entry.event_type))
        .unwrap();
    entry.content = content.to_string();
    replaced
}

fn with_the_pointer_cleared(account_data: &[AccountDataEntry]) -> Vec<AccountDataEntry> {
    with_replaced_content(
        account_data,
        |event_type| event_type == "m.secret_storage.default_key",
        "{}",
    )
}

fn ciphertexts_of(
    account_data: &[AccountDataEntry],
    name: &SecretName,
) -> serde_json::Map<String, Value> {
    let content = entry(account_data, name.as_str()).unwrap();
    parsed(content)["encrypted"].as_object().unwrap().clone()
}

fn without_the_pointer(account_data: &[AccountDataEntry]) -> Vec<AccountDataEntry> {
    let kept: Vec<AccountDataEntry> = account_data
        .iter()
        .filter(|entry| entry.event_type != "m.secret_storage.default_key")
        .cloned()
        .collect();
    assert_eq!(kept.len(), account_data.len() - 1);
    kept
}

#[test]
fn a_cleared_pointer_is_not_a_destroyed_recovery() {
    run(async {
        let BeforeTheReinstall { account_identity, recovery, .. } = before_the_reinstall().await;
        let (device, _) = reinstalled(&account_identity).await;

        let cleared = with_the_pointer_cleared(&recovery.account_data);
        assert_eq!(
            device.recover_identity(PASSPHRASE, &cleared).await,
            Err(MachineError::RecoveryNotSetUp),
            "a cleared pointer means this account data carries no recovery \
             to follow"
        );

        let absent = without_the_pointer(&recovery.account_data);
        assert_eq!(
            device.recover_identity(PASSPHRASE, &absent).await,
            Err(MachineError::RecoveryNotSetUp),
            "absent and cleared are one state as far as any client can \
             tell, so they must be one answer"
        );

        device
            .recover_identity(PASSPHRASE, &recovery.account_data)
            .await
            .expect("restoring the pointer must restore the recovery");
        assert!(device.private_keys_held().await);
    });
}

#[test]
fn a_second_recovery_refuses_rather_than_taking_the_first_one_away() {
    run(async {
        let before = before_the_reinstall().await;
        let device = before.device;
        let first = before.recovery;

        assert_eq!(
            device.create_recovery(PASSPHRASE, &first.account_data).await.err(),
            Some(MachineError::RecoveryAlreadyExists),
            "a recovery this account already has must be protected by a \
             refusal of its own"
        );

        let without_pointer = without_the_pointer(&first.account_data);
        let second = device
            .create_recovery(PASSPHRASE, &without_pointer)
            .await
            .ok()
            .expect("omitting the pointer must be what lets the write through");

        let before_write = ciphertexts_of(&first.account_data, &SecretName::CrossSigningMasterKey);
        let after_write = ciphertexts_of(&second.account_data, &SecretName::CrossSigningMasterKey);
        assert_eq!(before_write.len(), 1);
        assert_eq!(
            after_write.len(),
            2,
            "the second write must add its ciphertext to the map rather than replace it"
        );
        let (old_key_id, old_ciphertext) = before_write.iter().next().unwrap();
        assert_eq!(
            after_write.get(old_key_id),
            Some(old_ciphertext),
            "the entry that was already there must survive byte for byte"
        );

        device
            .recover_identity(PASSPHRASE, &first.account_data)
            .await
            .expect("the recovery the account had must go on working");

        let from_nothing = device
            .create_recovery(PASSPHRASE, &[])
            .await
            .ok()
            .expect("an empty list lifts the refusal, by the same rule");
        assert_eq!(
            ciphertexts_of(&from_nothing.account_data, &SecretName::CrossSigningMasterKey).len(),
            1,
            "passing an empty list discards the merge along with the refusal"
        );

        let cleared = with_the_pointer_cleared(&first.account_data);
        let from_cleared = device
            .create_recovery(PASSPHRASE, &cleared)
            .await
            .ok()
            .expect("a cleared pointer lifts the refusal, by the same rule");
        assert_eq!(
            ciphertexts_of(&from_cleared.account_data, &SecretName::CrossSigningMasterKey).len(),
            2,
            "clearing the pointer keeps the rest of the account data, so the merge \
             survives this route too"
        );

        let stored = applied_over(&first.account_data, &second.account_data);
        device
            .recover_identity(&second.recovery_key, &stored)
            .await
            .expect("the second recovery must open with its own recovery key");
    });
}

fn applied_over(
    server: &[AccountDataEntry],
    written: &[AccountDataEntry],
) -> Vec<AccountDataEntry> {
    let mut stored = server.to_vec();
    for entry in written {
        match stored
            .iter_mut()
            .find(|existing| existing.event_type == entry.event_type)
        {
            Some(existing) => existing.content = entry.content.clone(),
            None => stored.push(entry.clone()),
        }
    }
    stored
}

fn pointed_at(account_data: &[AccountDataEntry], key_id: &str) -> Vec<AccountDataEntry> {
    with_replaced_content(
        account_data,
        |event_type| event_type == "m.secret_storage.default_key",
        &object([("key", text(key_id))]).to_string(),
    )
}

fn without_the_key(account_data: &[AccountDataEntry], key_id: &str) -> Vec<AccountDataEntry> {
    let mut stripped = account_data.to_vec();
    let mut removed = 0;
    for entry in stripped.iter_mut() {
        if !SECRETS.iter().any(|name| name.as_str() == entry.event_type) {
            continue;
        }
        let mut content = parsed(&entry.content);
        if content["encrypted"].as_object_mut().unwrap().remove(key_id).is_some() {
            removed += 1;
        }
        entry.content = content.to_string();
    }
    assert_eq!(removed, SECRETS.len());
    stripped
}

#[test]
fn replacing_a_recovery_re_points_it_and_revoking_it_is_a_further_act() {
    run(async {
        let before = before_the_reinstall().await;
        let device = before.device;
        let first = before.recovery;
        let old_key_id = pointed_key_id(&first.account_data).unwrap();

        let second = device
            .create_recovery(NEW_PASSPHRASE, &without_the_pointer(&first.account_data))
            .await
            .ok()
            .expect("the recommended route lifts the refusal");
        let server = applied_over(&first.account_data, &second.account_data);

        assert_eq!(
            device.recover_identity(PASSPHRASE, &server).await,
            Err(MachineError::RecoveryKeyIncorrect),
            "after the switchover the account resolves the new key, so \
             the old passphrase is a wrong secret for it"
        );

        device
            .recover_identity(PASSPHRASE, &pointed_at(&server, &old_key_id))
            .await
            .expect("the old key is still openable after the recommended route");

        let revoked = without_the_key(&second.account_data, &old_key_id);
        let server = applied_over(&server, &revoked);
        assert_eq!(
            device.recover_identity(PASSPHRASE, &pointed_at(&server, &old_key_id)).await,
            Err(MachineError::RecoveryNotSetUp),
            "dropping the old key id from the secrets is what actually \
             revokes it"
        );

        let server = with_replaced_content(
            &server,
            |event_type| event_type == format!("m.secret_storage.key.{old_key_id}"),
            "{}",
        );
        assert_eq!(
            device.recover_identity(PASSPHRASE, &pointed_at(&server, &old_key_id)).await,
            Err(MachineError::RecoveryDataMalformed),
            "with the description gone the key cannot be reconstructed at all"
        );
        assert_eq!(
            device.recover_identity(PASSPHRASE, &server).await,
            Err(MachineError::RecoveryKeyIncorrect),
            "and through the pointer it is still simply the wrong secret"
        );

        device
            .recover_identity(NEW_PASSPHRASE, &server)
            .await
            .expect("revoking the old key must not touch the new one");

        let too_early = with_replaced_content(
            &first.account_data,
            |event_type| event_type.starts_with("m.secret_storage.key."),
            "{}",
        );
        assert_eq!(
            device.recover_identity(PASSPHRASE, &too_early).await,
            Err(MachineError::RecoveryDataMalformed),
            "a cleared description is unreadable stored data, which is \
             the one thing no secret fixes"
        );
        assert_eq!(
            device.recover_identity(PASSPHRASE, &pointed_at(&too_early, &old_key_id)).await,
            Err(MachineError::RecoveryDataMalformed),
            "and unlike a cleared pointer, restoring what was cleared \
             does not bring it back"
        );
    });
}

#[test]
fn an_empty_passphrase_is_accepted_and_the_recovery_key_is_still_strong() {
    run(async {
        let before = before_the_reinstall().await;
        let device = before.device;
        let cleared = with_the_pointer_cleared(&before.recovery.account_data);
        let weak = device
            .create_recovery("", &cleared)
            .await
            .ok()
            .expect("this library imposes no passphrase policy, deliberately");
        let stored = applied_over(&cleared, &weak.account_data);

        device
            .recover_identity("", &stored)
            .await
            .expect("an empty passphrase opens what an empty passphrase wrote");
        device
            .recover_identity(&weak.recovery_key, &stored)
            .await
            .expect("the recovery key opens it whatever the passphrase is");
        assert!(
            weak.recovery_key.len() > 40,
            "the recovery key is thirty-two bytes of base58 however weak \
             the passphrase was: {}",
            weak.recovery_key.len()
        );
    });
}

/// What a machine says whose account has a published identity.
fn known() -> StatusAnswer {
    StatusAnswer::Known(IdentityStatus {
        account_keys_fetched: true,
        identity_publication_pending: false,
        identity_known: true,
    })
}

fn some_export() -> Trip<Option<KeyExport>> {
    let seeds = some_seeds();
    Trip::Done(Some(KeyExport {
        master_key: Some(seeds.master),
        self_signing_key: Some(seeds.self_signing),
        user_signing_key: Some(seeds.user_signing),
    }))
}

fn some_seeds() -> Seeds {
    Seeds {
        master: "the master seed".to_string(),
        self_signing: "the self-signing seed".to_string(),
        user_signing: "the user-signing seed".to_string(),
    }
}

#[test]
fn a_recovery_is_five_account_data_events_a_matrix_client_would_recognise() {
    let setup = create_recovery(PASSPHRASE, &[], known(), some_export()).ok().unwrap();

    let types: Vec<&str> = setup
        .account_data
        .iter()
        .map(|entry| entry.event_type.as_str())
        .collect();
    assert_eq!(types.len(), 5, "a recovery is five events: {types:?}");
    assert!(
        types[0].starts_with("m.secret_storage.key."),
        "the key description's type ends in the key's own id: {types:?}"
    );
    assert_eq!(
        types[4], "m.secret_storage.default_key",
        "the pointer is written last: {types:?}"
    );
    for name in SECRETS {
        assert!(
            types.contains(&name.as_str()),
            "a recovery carries {}: {types:?}",
            name.as_str()
        );
    }

    let pointer = parsed(&setup.account_data[4].content);
    assert_eq!(pointer.as_object().unwrap().len(), 1);
    assert_eq!(setup.recovery_key.len(), 59);
    let key_id = pointer["key"].as_str().expect("the pointer names a key");
    assert_eq!(types[0], format!("m.secret_storage.key.{key_id}"));

    assert!(
        setup.recovery_key.contains(' ') && setup.recovery_key.len() > 40,
        "the recovery key is a grouped base58 string: {}",
        setup.recovery_key.len()
    );

    let key_only = without_the_passphrase_block(&setup.account_data);
    let seeds = recover_identity(&setup.recovery_key, &key_only, known()).ok().unwrap();
    assert_eq!(seeds.master, "the master seed");
    assert_eq!(seeds.self_signing, "the self-signing seed");
    assert_eq!(seeds.user_signing, "the user-signing seed");
}

#[test]
fn what_was_set_up_is_recovered_beside_whatever_else_there_is() {
    let other = AccountDataEntry {
        event_type: "m.direct".to_string(),
        content: "{}".to_string(),
    };
    let setup = stretched_once(PASSPHRASE, &[other.clone()], &some_seeds());
    let mut data = vec![other];
    data.extend(setup.account_data.iter().cloned());
    for secret in [PASSPHRASE, setup.recovery_key.as_str()] {
        let seeds = recover_identity(secret, &data, known()).ok().unwrap();
        assert_eq!(seeds.master, "the master seed");
        assert_eq!(seeds.self_signing, "the self-signing seed");
        assert_eq!(seeds.user_signing, "the user-signing seed");
    }
}

#[test]
fn a_pointer_that_names_nothing_is_no_pointer() {
    for content in ["", "{}", "[]", r#"{"key":""}"#, r#"{"key":7}"#, r#"{"key":null}"#] {
        let data = [AccountDataEntry {
            event_type: "m.secret_storage.default_key".to_string(),
            content: content.to_string(),
        }];
        assert_eq!(pointed_key_id(&data), None, "{content}");
        assert_eq!(
            recover_identity(PASSPHRASE, &data, known()).err(),
            Some(MachineError::RecoveryNotSetUp)
        );
    }
    let data = [AccountDataEntry {
        event_type: "m.secret_storage.default_key".to_string(),
        content: r#"{"key":"abc"}"#.to_string(),
    }];
    assert_eq!(pointed_key_id(&data).as_deref(), Some("abc"));
}

#[test]
fn what_is_known_of_the_account_decides_what_can_be_done() {
    let status = |account_keys_fetched, identity_publication_pending, identity_known| {
        StatusAnswer::Known(IdentityStatus {
            account_keys_fetched,
            identity_publication_pending,
            identity_known,
        })
    };
    assert_eq!(check_create_recovery(&[], status(true, false, false)), Ok(()));
    assert_eq!(
        check_create_recovery(&[], status(false, true, true)),
        Err(MachineError::AccountKeysNotFetched)
    );
    assert_eq!(
        check_create_recovery(&[], status(true, true, true)),
        Err(MachineError::IdentityNotKnown)
    );
    assert_eq!(check_recover_identity(status(true, false, true)), Ok(()));
    assert_eq!(
        check_recover_identity(status(true, false, false)),
        Err(MachineError::IdentityNotKnown)
    );
    assert_eq!(
        check_recover_identity(status(true, true, true)),
        Err(MachineError::IdentityNotKnown)
    );
    assert_eq!(
        check_recover_identity(status(false, false, true)),
        Err(MachineError::AccountKeysNotFetched)
    );
}

#[test]
fn a_recovery_that_is_there_is_refused_before_the_store_is_heard() {
    let data = [AccountDataEntry {
        event_type: "m.secret_storage.default_key".to_string(),
        content: r#"{"key":"abc"}"#.to_string(),
    }];
    let unreadable = || StatusAnswer::Unreadable(store_failed());
    assert_eq!(
        create_recovery(PASSPHRASE, &data, unreadable(), Trip::Refused).err(),
        Some(MachineError::RecoveryAlreadyExists)
    );
    assert_eq!(
        create_recovery(PASSPHRASE, &data, StatusAnswer::NoMachine, Trip::NoMachine).err(),
        Some(MachineError::NotInitialised)
    );
    assert_eq!(
        create_recovery(PASSPHRASE, &[], unreadable(), Trip::Refused).err(),
        Some(store_failed())
    );
    assert_eq!(
        create_recovery(PASSPHRASE, &[], known(), Trip::Done(None)).err(),
        Some(MachineError::PrivateKeysNotHeld)
    );
    assert_eq!(
        recover_identity(PASSPHRASE, &data, StatusAnswer::NoMachine).err(),
        Some(MachineError::NotInitialised)
    );
    assert_eq!(
        recover_identity(PASSPHRASE, &data, unreadable()).err(),
        Some(store_failed())
    );
}

#[test]
fn a_query_that_has_to_be_answered_first_is_queued() {
    let mut state = RequestState::new();
    let error = state.fetch_account_keys_first(
        "asked".to_string(),
        KeysQueryParts {
            users: vec![ALICE.to_string()],
            device_keys: Part::Json(r#"{"@alice:example.org":[]}"#.to_string()),
            timeout_millis: None,
        },
    );
    assert_eq!(error, MachineError::AccountKeysNotFetched);
    let out = state.take_outgoing_requests(ALICE, &Vec::new()).unwrap();
    assert_eq!(out.len(), 1);
    assert_eq!(out[0].id, "asked");
    assert_eq!(out[0].kind, "keys_query");
    assert_eq!(out[0].body, r#"{"device_keys":{"@alice:example.org":[]}}"#);
}

#[test]
fn an_export_has_to_be_complete() {
    let key = || Some("seed".to_string());
    let export = |master_key, self_signing_key, user_signing_key| {
        Trip::Done(Some(KeyExport { master_key, self_signing_key, user_signing_key }))
    };
    assert!(complete_export(export(key(), key(), key())).is_ok());
    for incomplete in [
        export(None, key(), key()),
        export(key(), None, key()),
        export(key(), key(), None),
        Trip::Done(None),
    ] {
        assert_eq!(
            complete_export(incomplete).err(),
            Some(MachineError::PrivateKeysNotHeld)
        );
    }
    assert_eq!(
        complete_export(Trip::Refused).err(),
        Some(MachineError::Store {
            detail: "the crypto store could not be opened".to_string()
        })
    );
    assert_eq!(
        complete_export(Trip::NoMachine).err(),
        Some(MachineError::NotInitialised)
    );
}

#[test]
fn an_import_has_to_be_complete() {
    assert_eq!(finish_recovery(KeyImport::Imported { complete: true }), Ok(()));
    assert_eq!(
        finish_recovery(KeyImport::Imported { complete: false }),
        Err(MachineError::RecoveryDataMalformed)
    );
    assert_eq!(
        finish_recovery(KeyImport::KeysRefused),
        Err(MachineError::RecoveryDataMalformed)
    );
    assert_eq!(finish_recovery(KeyImport::NoMachine), Err(MachineError::NotInitialised));
    assert_eq!(
        finish_recovery(KeyImport::StoreRefused),
        Err(MachineError::Store {
            detail: "the crypto store could not be opened".to_string()
        })
    );
}

#[test]
fn a_machine_error_is_a_session_error() {
    for (error, converted) in [
        (MachineError::NotInitialised, SessionError::NotInitialised),
        (
            MachineError::MalformedIdentifier { detail: "x".to_string() },
            SessionError::MalformedIdentifier,
        ),
        (MachineError::UnknownDevice, SessionError::UnknownDevice),
        (MachineError::RecoveryNotSetUp, SessionError::Failed),
        (MachineError::PeerCannotScan, SessionError::Failed),
    ] {
        assert_eq!(SessionError::from(error), converted);
    }
}

#[test]
fn a_nested_object_is_read_once() {
    let event = r#"{"content":{"b":1,"$serde_json::private::RawValue":"x","algorithm":"m.olm"}}"#;
    let call = matrix_crypto_core::decrypt_event(SCOPE, event, SenderTrustRequirement::Any)
        .ok()
        .unwrap();
    assert_eq!(call.algorithm, "m.olm");

    let data = [AccountDataEntry {
        event_type: "m.cross_signing.master".to_string(),
        content: r#"{"encrypted":{"b":{"c":1},"$serde_json::private::RawValue":"x"}}"#.to_string(),
    }];
    let held: Vec<(String, String)> = existing_ciphertexts(&data, Secret::Master)
        .into_iter()
        .map(|member| (member.name, member.json))
        .collect();
    assert_eq!(
        held,
        [
            ("$serde_json::private::RawValue".to_string(), r#""x""#.to_string()),
            ("b".to_string(), r#"{"c":1}"#.to_string()),
        ]
    );
    assert!(existing_ciphertexts(&data, Secret::UserSigning).is_empty());

    let pointer = [AccountDataEntry {
        event_type: "m.secret_storage.default_key".to_string(),
        content: r#"{"other":{"a":1,"$serde_json::private::RawValue":"x"},"key":"k"}"#.to_string(),
    }];
    assert_eq!(pointed_key_id(&pointer), Some("k".to_string()));
}

#[test]
fn the_old_recovery_works_until_the_new_pointer_is_written() {
    let old = stretched_once(PASSPHRASE, &[], &some_seeds()).account_data;
    let given = without_the_pointer(&old);
    let new = stretched_once(WRONG_PASSPHRASE, &given, &some_seeds()).account_data;
    let mut account = old.clone();
    for event in &new[..4] {
        match account.iter_mut().find(|entry| entry.event_type == event.event_type) {
            Some(entry) => entry.content = event.content.clone(),
            None => account.push(event.clone()),
        }
        assert_eq!(pointed_key_id(&account), pointed_key_id(&old));
        let seeds = recover_identity(PASSPHRASE, &account, known()).ok().unwrap();
        assert_eq!(seeds.master, "the master seed");
        assert_eq!(seeds.self_signing, "the self-signing seed");
        assert_eq!(seeds.user_signing, "the user-signing seed");
        assert_eq!(
            recover_identity(WRONG_PASSPHRASE, &account, known()).err(),
            Some(MachineError::RecoveryKeyIncorrect)
        );
    }
    let pointer = account
        .iter_mut()
        .find(|entry| entry.event_type == "m.secret_storage.default_key")
        .unwrap();
    pointer.content = new[4].content.clone();
    assert_eq!(
        recover_identity(PASSPHRASE, &account, known()).err(),
        Some(MachineError::RecoveryKeyIncorrect)
    );
    assert!(recover_identity(WRONG_PASSPHRASE, &account, known()).is_ok());
}

#[test]
fn what_is_missing_of_a_recovery_is_not_set_up() {
    let whole = stretched_once(PASSPHRASE, &[], &some_seeds()).account_data;
    for missing in 0..whole.len() {
        let mut data = whole.clone();
        data.remove(missing);
        assert_eq!(
            recover_identity(PASSPHRASE, &data, known()).err(),
            Some(MachineError::RecoveryNotSetUp)
        );
    }
}

#[test]
fn only_keys_that_were_not_fetched_have_to_be_fetched() {
    assert!(must_fetch_account_keys(&MachineError::AccountKeysNotFetched));
    assert!(!must_fetch_account_keys(&MachineError::IdentityNotKnown));
    assert!(!must_fetch_account_keys(&MachineError::RecoveryAlreadyExists));
}
