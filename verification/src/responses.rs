//! The homeserver's answers: which are believed to be answers, what each is read
//! as, and what one about this account settles.

use matrix_sdk_common::ruma::api::client::keys::claim_keys::v3::Response as KeysClaimResponse;
use matrix_sdk_common::ruma::api::client::keys::get_keys::v3::Response as KeysQueryResponse;
use matrix_sdk_common::ruma::api::client::keys::upload_keys::v3::Response as KeysUploadResponse;
use matrix_sdk_common::ruma::api::client::keys::upload_signatures::v3::Response as SignatureUploadResponse;
use matrix_sdk_common::ruma::api::client::keys::upload_signing_keys::v3::Response as SigningKeysUploadResponse;
use matrix_sdk_common::ruma::api::client::message::send_message_event::v3::Response as RoomMessageResponse;
use matrix_sdk_common::ruma::api::client::to_device::send_event_to_device::v3::Response as ToDeviceResponse;
use matrix_sdk_common::ruma::api::IncomingResponse;
use matrix_sdk_common::ruma::exports::http;
use matrix_sdk_common::ruma::UserId;
use matrix_sdk_crypto::types::MasterPubkey;
use vstd::prelude::*;

use crate::json::{has_one_of, lemma_members_empty, members, object_of, read_object, Member};
use crate::machine::{MachineError, Trip};
use crate::registry::Registry;
use crate::requests::{lists, names, response_fields, texts, PendingKind};
use crate::session::SessionError;
use crate::state::RequestState;
use crate::text::same_text;

verus! {

/// The response to a key upload, as `ruma` has it.
#[verifier::external_type_specification]
#[verifier::external_body]
pub struct ExKeysUploadResponse(KeysUploadResponse);

/// The response to a key query, as `ruma` has it.
#[verifier::external_type_specification]
#[verifier::external_body]
pub struct ExKeysQueryResponse(KeysQueryResponse);

/// The response to a key claim, as `ruma` has it.
#[verifier::external_type_specification]
#[verifier::external_body]
pub struct ExKeysClaimResponse(KeysClaimResponse);

/// The response to a to-device message, as `ruma` has it.
#[verifier::external_type_specification]
#[verifier::external_body]
pub struct ExToDeviceResponse(ToDeviceResponse);

/// The response to a signature upload, as `ruma` has it.
#[verifier::external_type_specification]
#[verifier::external_body]
pub struct ExSignatureUploadResponse(SignatureUploadResponse);

/// The response to a room message, as `ruma` has it.
#[verifier::external_type_specification]
#[verifier::external_body]
pub struct ExRoomMessageResponse(RoomMessageResponse);

/// The response to a signing-keys upload, as `ruma` has it.
#[verifier::external_type_specification]
#[verifier::external_body]
pub struct ExSigningKeysUploadResponse(SigningKeysUploadResponse);

/// Whether an object's top-level members mark it as a refusal: `errcode` and
/// `flows` do by the protocol, `error` by the habit of gateways.
pub open spec fn marked_as_refusal(object: Map<Seq<char>, Seq<char>>) -> bool {
    object.contains_key("errcode"@) || object.contains_key("error"@) || object.contains_key(
        "flows"@,
    )
}

/// Whether an object has a member that a response to this kind can carry.
pub open spec fn carries_a_field_of(object: Map<Seq<char>, Seq<char>>, kind: PendingKind) -> bool {
    exists|i: int|
        0 <= i < response_fields(kind).len() && object.contains_key(
            #[trigger] response_fields(kind)[i],
        )
}

/// Whether a body can be a success response to a request of this kind: it is
/// empty, or it is a JSON object that is not marked as a refusal and that has no
/// members at all or one that such a response carries.
pub open spec fn can_be_a_response(kind: PendingKind, body: Seq<char>) -> bool {
    body.len() == 0 || match object_of(body) {
        Some(object) => !marked_as_refusal(object) && (object == Map::<
            Seq<char>,
            Seq<char>,
        >::empty() || carries_a_field_of(object, kind)),
        None => false,
    }
}

/// Refuses a body that cannot be a success response.
///
/// No status comes with the body, so a refusal can look like an answer. What can
/// be shown not to be one is refused here: an error the protocol or a gateway
/// marks, what is not an object, and an object that has members and none that
/// the endpoint answers with. What is left is a shape and not a list, and a
/// refusal with an empty body is inside it: only the status tells that apart,
/// and that is what [`RequestState::mark_request_failed`] is for.
pub fn refuse_a_non_response(kind: PendingKind, body: &str) -> (result: Result<(), SessionError>)
    ensures
        match result {
            Ok(()) => can_be_a_response(kind, body@),
            Err(error) => !can_be_a_response(kind, body@) && error is MalformedPayload,
        },
{
    if body.is_empty() {
        return Ok(());
    }
    let list: Vec<Member> = match read_object(body) {
        Some(list) => list,
        None => {
            return Err(SessionError::MalformedPayload);
        },
    };
    let marks: [&str; 3] = ["errcode", "error", "flows"];
    proof {
        lemma_members_empty(list@);
        let object = members(list@);
        assert(marks@[0]@ == "errcode"@);
        assert(marks@[1]@ == "error"@);
        assert(marks@[2]@ == "flows"@);
        assert(marked_as_refusal(object) == exists|i: int|
            0 <= i < marks@.len() && object.contains_key((#[trigger] marks@[i])@));
    }
    if has_one_of(&list, marks.as_slice()) {
        return Err(SessionError::MalformedPayload);
    }
    let fields: &[&str] = kind.declared_response_fields();
    proof {
        let object = members(list@);
        assert forall|i: int| 0 <= i < fields@.len() implies texts(fields@)[i]
            == (#[trigger] fields@[i])@ by {
        }
        assert(carries_a_field_of(object, kind) == exists|i: int|
            0 <= i < fields@.len() && object.contains_key((#[trigger] fields@[i])@)) by {
            if carries_a_field_of(object, kind) {
                let i = choose|i: int|
                    0 <= i < response_fields(kind).len() && object.contains_key(
                        #[trigger] response_fields(kind)[i],
                    );
                assert(object.contains_key(fields@[i]@));
            }
            if exists|i: int|
                0 <= i < fields@.len() && object.contains_key((#[trigger] fields@[i])@) {
                let i = choose|i: int|
                    0 <= i < fields@.len() && object.contains_key((#[trigger] fields@[i])@);
                assert(object.contains_key(response_fields(kind)[i]));
            }
        }
    }
    if list.len() > 0 && !has_one_of(&list, fields) {
        return Err(SessionError::MalformedPayload);
    }
    Ok(())
}

/// A marked refusal is never believed, whatever else it carries, and neither is
/// what is not an object.
pub proof fn law_a_refusal_is_not_believed(kind: PendingKind, body: Seq<char>)
    requires
        body.len() > 0,
        object_of(body) matches Some(object) ==> marked_as_refusal(object),
    ensures
        !can_be_a_response(kind, body),
{
}

/// For the two kinds that are answered with an empty object, nothing but an
/// empty body and an empty object is believed.
pub proof fn law_fieldless_kinds_take_no_fields(kind: PendingKind, body: Seq<char>)
    requires
        kind is ToDevice || kind is SigningKeysUpload,
        can_be_a_response(kind, body),
    ensures
        body.len() == 0 || object_of(body) == Some(Map::<Seq<char>, Seq<char>>::empty()),
{
}

/// Which users an answer to a key query speaks of.
pub struct KeysQueryAnswer {
    pub device_keys: Vec<String>,
    pub master_keys: Vec<String>,
    pub self_signing_keys: Vec<String>,
    pub user_signing_keys: Vec<String>,
}

/// The same, as a model.
pub struct UsersAnswered {
    pub device_keys: Seq<Seq<char>>,
    pub master_keys: Seq<Seq<char>>,
    pub self_signing_keys: Seq<Seq<char>>,
    pub user_signing_keys: Seq<Seq<char>>,
}

impl View for KeysQueryAnswer {
    type V = UsersAnswered;

    open spec fn view(&self) -> UsersAnswered {
        UsersAnswered {
            device_keys: names(self.device_keys@),
            master_keys: names(self.master_keys@),
            self_signing_keys: names(self.self_signing_keys@),
            user_signing_keys: names(self.user_signing_keys@),
        }
    }
}

/// What a body reads as, as the response to a key upload.
pub uninterp spec fn keys_upload_response(body: Seq<char>) -> Option<KeysUploadResponse>;

/// What a body reads as, as the response to a key query.
pub uninterp spec fn keys_query_response(body: Seq<char>) -> Option<KeysQueryResponse>;

/// What a body reads as, as the response to a key claim.
pub uninterp spec fn keys_claim_response(body: Seq<char>) -> Option<KeysClaimResponse>;

/// What a body reads as, as the response to a to-device message.
pub uninterp spec fn to_device_response(body: Seq<char>) -> Option<ToDeviceResponse>;

/// What a body reads as, as the response to a signature upload.
pub uninterp spec fn signature_upload_response(body: Seq<char>) -> Option<SignatureUploadResponse>;

/// What a body reads as, as the response to a room message.
pub uninterp spec fn room_message_response(body: Seq<char>) -> Option<RoomMessageResponse>;

/// What a body reads as, as the response to a signing-keys upload.
pub uninterp spec fn signing_keys_upload_response(body: Seq<char>) -> Option<SigningKeysUploadResponse>;

/// Whom a body speaks of, if it reads as the response to a key query.
pub uninterp spec fn users_answered(body: Seq<char>) -> Option<UsersAnswered>;

/// Reads the response to a key upload with `ruma`'s `try_from_http_response`.
///
/// Trusted: what the body is read as is a function of the body alone, named
/// [`keys_upload_response`].
#[verifier::external_body]
fn read_keys_upload(body: &str) -> (response: Option<KeysUploadResponse>)
    ensures
        response == keys_upload_response(body@),
{
    KeysUploadResponse::try_from_http_response(http::Response::new(body.as_bytes().to_vec())).ok()
}

/// Reads the response to a key query with `ruma`'s `try_from_http_response`, and
/// lists the users that its four maps have entries for.
///
/// Trusted: what the body is read as, and whom it speaks of, is a function of the
/// body alone, named [`keys_query_response`] and [`users_answered`].
#[verifier::external_body]
fn read_keys_query(body: &str) -> (read: Option<(KeysQueryResponse, KeysQueryAnswer)>)
    ensures
        match read {
            Some(read) => keys_query_response(body@) == Some(read.0) && users_answered(body@)
                == Some(read.1@),
            None => keys_query_response(body@) is None && users_answered(body@) is None,
        },
{
    let response = http::Response::new(body.as_bytes().to_vec());
    let r = KeysQueryResponse::try_from_http_response(response).ok()?;
    let answer = KeysQueryAnswer {
        device_keys: r.device_keys.keys().map(|user| user.to_string()).collect(),
        master_keys: r.master_keys.keys().map(|user| user.to_string()).collect(),
        self_signing_keys: r.self_signing_keys.keys().map(|user| user.to_string()).collect(),
        user_signing_keys: r.user_signing_keys.keys().map(|user| user.to_string()).collect(),
    };
    Some((r, answer))
}

/// Reads the response to a key claim with `ruma`'s `try_from_http_response`.
///
/// Trusted: what the body is read as is a function of the body alone, named
/// [`keys_claim_response`].
#[verifier::external_body]
fn read_keys_claim(body: &str) -> (response: Option<KeysClaimResponse>)
    ensures
        response == keys_claim_response(body@),
{
    KeysClaimResponse::try_from_http_response(http::Response::new(body.as_bytes().to_vec())).ok()
}

/// Reads the response to a to-device message with `ruma`'s `try_from_http_response`.
///
/// Trusted: what the body is read as is a function of the body alone, named
/// [`to_device_response`]. Every body is accepted, since this response has no fields
/// and its body is not looked at.
#[verifier::external_body]
fn read_to_device(body: &str) -> (response: Option<ToDeviceResponse>)
    ensures
        response == to_device_response(body@),
        response is Some,
{
    ToDeviceResponse::try_from_http_response(http::Response::new(body.as_bytes().to_vec())).ok()
}

/// Reads the response to a signature upload with `ruma`'s `try_from_http_response`.
///
/// Trusted: what the body is read as is a function of the body alone, named
/// [`signature_upload_response`].
#[verifier::external_body]
fn read_signature_upload(body: &str) -> (response: Option<SignatureUploadResponse>)
    ensures
        response == signature_upload_response(body@),
{
    let response = http::Response::new(body.as_bytes().to_vec());
    SignatureUploadResponse::try_from_http_response(response).ok()
}

/// Reads the response to a room message with `ruma`'s `try_from_http_response`.
///
/// Trusted: what the body is read as is a function of the body alone, named
/// [`room_message_response`].
#[verifier::external_body]
fn read_room_message(body: &str) -> (response: Option<RoomMessageResponse>)
    ensures
        response == room_message_response(body@),
{
    RoomMessageResponse::try_from_http_response(http::Response::new(body.as_bytes().to_vec())).ok()
}

/// Reads the response to a signing-keys upload with `ruma`'s `try_from_http_response`.
///
/// Trusted: what the body is read as is a function of the body alone, named
/// [`signing_keys_upload_response`]. Every body is accepted, since this response has no fields
/// and its body is not looked at.
#[verifier::external_body]
fn read_signing_keys_upload(body: &str) -> (response: Option<SigningKeysUploadResponse>)
    ensures
        response == signing_keys_upload_response(body@),
        response is Some,
{
    let response = http::Response::new(body.as_bytes().to_vec());
    SigningKeysUploadResponse::try_from_http_response(response).ok()
}

/// An answer, read as what the request it answers calls for. The machine is
/// given the response.
pub enum ReadResponse {
    KeysUpload(KeysUploadResponse),
    KeysQuery {
        response: KeysQueryResponse,
        answer: KeysQueryAnswer,
        /// The text it was read from.
        body: String,
    },
    KeysClaim(KeysClaimResponse),
    ToDevice(ToDeviceResponse),
    SignatureUpload(SignatureUploadResponse),
    RoomMessage(RoomMessageResponse),
    SigningKeysUpload(SigningKeysUploadResponse),
}

/// Whether a body reads as the response that a request of this kind calls for.
pub open spec fn reads_as(kind: PendingKind, body: Seq<char>) -> bool {
    match kind {
        PendingKind::KeysUpload => keys_upload_response(body) is Some,
        PendingKind::KeysClaim => keys_claim_response(body) is Some,
        PendingKind::SignatureUpload => signature_upload_response(body) is Some,
        PendingKind::RoomMessage => room_message_response(body) is Some,
        PendingKind::ToDevice => true,
        PendingKind::SigningKeysUpload => true,
        _ => keys_query_response(body) is Some,
    }
}

/// Whether the response is what the body reads as where a request of this kind is
/// answered, and speaks of whom the body speaks of.
pub open spec fn answers(kind: PendingKind, body: Seq<char>, read: ReadResponse) -> bool {
    match kind {
        PendingKind::KeysUpload => read matches ReadResponse::KeysUpload(response)
            && keys_upload_response(body) == Some(response),
        PendingKind::KeysClaim => read matches ReadResponse::KeysClaim(response)
            && keys_claim_response(body) == Some(response),
        PendingKind::SignatureUpload => read matches ReadResponse::SignatureUpload(response)
            && signature_upload_response(body) == Some(response),
        PendingKind::RoomMessage => read matches ReadResponse::RoomMessage(response)
            && room_message_response(body) == Some(response),
        PendingKind::ToDevice => read matches ReadResponse::ToDevice(response)
            && to_device_response(body) == Some(response),
        PendingKind::SigningKeysUpload => read matches ReadResponse::SigningKeysUpload(response)
            && signing_keys_upload_response(body) == Some(response),
        _ => read matches ReadResponse::KeysQuery { response, answer, body: text } && {
            &&& keys_query_response(body) == Some(response)
            &&& users_answered(body) == Some(answer@)
            &&& text@ == body
        },
    }
}

/// Reads an answer as the response that the request calls for.
pub fn read_response(kind: PendingKind, body: &str) -> (result: Result<ReadResponse, SessionError>)
    ensures
        match result {
            Ok(read) => reads_as(kind, body@) && answers(kind, body@, read),
            Err(error) => !reads_as(kind, body@) && error is MalformedPayload,
        },
{
    let read: Option<ReadResponse> = match kind {
        PendingKind::KeysUpload => match read_keys_upload(body) {
            Some(response) => Some(ReadResponse::KeysUpload(response)),
            None => None,
        },
        PendingKind::KeysQuery
        | PendingKind::AccountKeysQuery
        | PendingKind::AccountKeysQueryOutOfBand
        | PendingKind::PeerKeysQueryOutOfBand => match read_keys_query(body) {
            Some((response, answer)) => Some(
                ReadResponse::KeysQuery { response, answer, body: body.to_owned() },
            ),
            None => None,
        },
        PendingKind::KeysClaim => match read_keys_claim(body) {
            Some(response) => Some(ReadResponse::KeysClaim(response)),
            None => None,
        },
        PendingKind::ToDevice => match read_to_device(body) {
            Some(response) => Some(ReadResponse::ToDevice(response)),
            None => None,
        },
        PendingKind::SignatureUpload => match read_signature_upload(body) {
            Some(response) => Some(ReadResponse::SignatureUpload(response)),
            None => None,
        },
        PendingKind::RoomMessage => match read_room_message(body) {
            Some(response) => Some(ReadResponse::RoomMessage(response)),
            None => None,
        },
        PendingKind::SigningKeysUpload => match read_signing_keys_upload(body) {
            Some(response) => Some(ReadResponse::SigningKeysUpload(response)),
            None => None,
        },
    };
    match read {
        Some(read) => Ok(read),
        None => Err(SessionError::MalformedPayload),
    }
}

/// What an answer settles about this account.
#[derive(Clone, Copy, Debug, PartialEq, Eq, Structural)]
pub enum AnswerAboutAccount {
    /// The request did not ask about this account.
    NotAsked,
    /// It is known what the homeserver holds for this account.
    Settled,
    /// An answer came, and it is still not known.
    Unsettled,
}

/// A master key: whose it is, what it is for, and the public keys it consists of,
/// in the order of their identifiers. Who has signed it is of no account.
#[derive(Clone, Debug, PartialEq, Eq)]
pub struct MasterKey {
    pub user: String,
    pub usage: Vec<String>,
    pub key_ids: Vec<String>,
    /// The public keys, as base64.
    pub keys: Vec<String>,
}

/// The mathematical counterpart of [`MasterKey`].
pub struct MasterKeyModel {
    pub user: Seq<char>,
    pub usage: Seq<Seq<char>>,
    pub key_ids: Seq<Seq<char>>,
    pub keys: Seq<Seq<char>>,
}

impl View for MasterKey {
    type V = MasterKeyModel;

    open spec fn view(&self) -> MasterKeyModel {
        MasterKeyModel {
            user: self.user@,
            usage: names(self.usage@),
            key_ids: names(self.key_ids@),
            keys: names(self.keys@),
        }
    }
}

/// Whether two lists hold the same texts in the same order.
fn same_list(a: &Vec<String>, b: &Vec<String>) -> (same: bool)
    ensures
        same == (names(a@) == names(b@)),
{
    if a.len() != b.len() {
        assert(names(a@).len() != names(b@).len());
        return false;
    }
    let mut i: usize = 0;
    while i < a.len()
        invariant
            a@.len() == b@.len(),
            i <= a@.len(),
            forall|j: int| 0 <= j < i ==> names(a@)[j] == names(b@)[j],
        decreases a@.len() - i,
    {
        if !same_text(a[i].as_str(), b[i].as_str()) {
            assert(names(a@)[i as int] != names(b@)[i as int]);
            return false;
        }
        i = i + 1;
    }
    assert(names(a@) =~= names(b@));
    true
}

/// Whether two master keys are the same.
pub fn is_same_master(a: &MasterKey, b: &MasterKey) -> (same: bool)
    ensures
        same == (a@ == b@),
{
    same_text(a.user.as_str(), b.user.as_str()) && same_list(&a.usage, &b.usage) && same_list(
        &a.key_ids,
        &b.key_ids,
    ) && same_list(&a.keys, &b.keys)
}

/// The master key that a body asserts for an account, if it reads as the response
/// to a key query.
pub uninterp spec fn asserted_master(body: Seq<char>, account: Seq<char>) -> Option<MasterKeyModel>;

/// Reads the response to a key query with `ruma`'s `try_from_http_response`, and
/// the entry that its master keys have for an account as a `MasterPubkey`.
///
/// Trusted: what is read is a function of the body and of the account alone, named
/// [`asserted_master`]. There is none where the body or the account does not read
/// as one, where there is no entry, or where it is no master key.
#[verifier::external_body]
fn read_asserted_master(body: &str, account: &str) -> (master: Option<MasterKey>)
    ensures
        match master {
            Some(master) => asserted_master(body@, account@) == Some(master@),
            None => asserted_master(body@, account@) is None,
        },
{
    let response = http::Response::new(body.as_bytes().to_vec());
    let response = KeysQueryResponse::try_from_http_response(response).ok()?;
    let raw = response.master_keys.get(<&UserId>::try_from(account).ok()?)?;
    let key = raw.deserialize_as_unchecked::<MasterPubkey>().ok()?;
    Some(
        MasterKey {
            user: key.user_id().to_string(),
            usage: key.usage().iter().map(|usage| usage.to_string()).collect(),
            key_ids: key.keys().iter().map(|(id, _)| id.to_string()).collect(),
            keys: key.keys().iter().map(|(_, key)| key.to_base64()).collect(),
        },
    )
}

/// What the machine holds as this account's identity, once it has been given an
/// answer.
#[derive(Clone, Debug, PartialEq, Eq)]
pub enum StoredIdentity {
    /// The store would not say.
    Unreadable,
    /// None.
    Missing,
    /// One.
    Stored {
        /// Its master key, where it is this account's own.
        own: Option<MasterKey>,
        /// Whether it has been made here and never been seen on the homeserver.
        unpublished: bool,
    },
}

/// Whether what is held is this account's own identity, with the master key that
/// an answer asserts.
pub open spec fn holds_master(stored: StoredIdentity, asserted: Option<MasterKeyModel>) -> bool {
    stored matches StoredIdentity::Stored { own: Some(master), .. } && asserted == Some(master@)
}

/// Whether what is held is this account's own identity, with the master key that
/// an answer asserts.
fn is_held(stored: &StoredIdentity, asserted: &Option<MasterKey>) -> (held: bool)
    ensures
        held == holds_master(
            *stored,
            match *asserted {
                Some(asserted) => Some(asserted@),
                None => None,
            },
        ),
{
    match (stored, asserted) {
        (StoredIdentity::Stored { own: Some(master), .. }, Some(asserted)) => is_same_master(
            master,
            asserted,
        ),
        _ => false,
    }
}

/// Whether an answer asserts an identity for the account, in whole or in part.
pub open spec fn claims_identity(answer: UsersAnswered, account: Seq<char>) -> bool {
    answer.master_keys.contains(account) || answer.self_signing_keys.contains(account)
        || answer.user_signing_keys.contains(account)
}

/// What an answer to a query about this account settles.
///
/// An answer that asserts an identity settles the matter where the machine holds
/// that identity, and only there. One that asserts none settles it where it
/// names the account and nothing contradicts it: an identity held here that the
/// homeserver has had does.
pub open spec fn settles(
    answer: UsersAnswered,
    account: Seq<char>,
    asserted: Option<MasterKeyModel>,
    stored: StoredIdentity,
) -> bool {
    if claims_identity(answer, account) {
        holds_master(stored, asserted)
    } else {
        answer.device_keys.contains(account) && match stored {
            StoredIdentity::Unreadable => false,
            StoredIdentity::Missing => true,
            StoredIdentity::Stored { unpublished, .. } => unpublished,
        }
    }
}

/// Whether an answer shows the whole of the identity held here to be published.
pub open spec fn shows_published(
    answer: UsersAnswered,
    account: Seq<char>,
    asserted: Option<MasterKeyModel>,
    stored: StoredIdentity,
) -> bool {
    &&& holds_master(stored, asserted)
    &&& answer.self_signing_keys.contains(account)
    &&& answer.user_signing_keys.contains(account)
}

/// Whether an answer asserts an identity for the account.
pub fn claims_an_identity(answer: &KeysQueryAnswer, account: &str) -> (claims: bool)
    ensures
        claims == claims_identity(answer@, account@),
{
    lists(&answer.master_keys, account) || lists(&answer.self_signing_keys, account) || lists(
        &answer.user_signing_keys,
        account,
    )
}

/// What an answer about this account came to.
pub struct AccountReading {
    pub settled: AnswerAboutAccount,
    /// Whether the identity held here is to be noted as published.
    pub published: bool,
}

/// Reads what an answer about this account settles, given the master key that it
/// asserts and what the machine holds now that it has been given the answer.
pub fn answer_about_this_account(
    answer: &KeysQueryAnswer,
    account: &str,
    asserted: &Option<MasterKey>,
    stored: &StoredIdentity,
) -> (reading: AccountReading)
    ensures
        ({
            let asserted = match *asserted {
                Some(asserted) => Some(asserted@),
                None => None,
            };
            &&& reading.settled == (if settles(answer@, account@, asserted, *stored) {
                AnswerAboutAccount::Settled
            } else {
                AnswerAboutAccount::Unsettled
            })
            &&& reading.published == shows_published(answer@, account@, asserted, *stored)
        }),
{
    let unsettled = AccountReading { settled: AnswerAboutAccount::Unsettled, published: false };
    if !claims_an_identity(answer, account) {
        let agrees: bool = match stored {
            StoredIdentity::Unreadable => false,
            StoredIdentity::Missing => true,
            StoredIdentity::Stored { unpublished, .. } => *unpublished,
        };
        return if lists(&answer.device_keys, account) && agrees {
            AccountReading { settled: AnswerAboutAccount::Settled, published: false }
        } else {
            unsettled
        };
    }
    if !is_held(stored, asserted) {
        return unsettled;
    }
    let complete: bool = lists(&answer.self_signing_keys, account) && lists(
        &answer.user_signing_keys,
        account,
    );
    AccountReading { settled: AnswerAboutAccount::Settled, published: complete }
}

/// An answer that says nothing of this account settles nothing about it, and
/// neither does one that asserts an identity other than the one held here.
pub proof fn law_an_answer_about_others_settles_nothing(
    answer: UsersAnswered,
    account: Seq<char>,
    asserted: Option<MasterKeyModel>,
    stored: StoredIdentity,
)
    ensures
        !answer.device_keys.contains(account) && !claims_identity(answer, account) ==> !settles(
            answer,
            account,
            asserted,
            stored,
        ),
        claims_identity(answer, account) && !holds_master(stored, asserted) ==> !settles(
            answer,
            account,
            asserted,
            stored,
        ),
{
}

/// An identity is noted as published only by an answer that also settles.
pub proof fn law_published_is_settled(
    answer: UsersAnswered,
    account: Seq<char>,
    asserted: Option<MasterKeyModel>,
    stored: StoredIdentity,
)
    ensures
        shows_published(answer, account, asserted, stored) ==> settles(
            answer,
            account,
            asserted,
            stored,
        ),
{
}

/// Whether an answer to a request of this kind is one about this account.
pub open spec fn asks_about_account(kind: PendingKind) -> bool {
    kind is AccountKeysQuery || kind is AccountKeysQueryOutOfBand
}

/// Whether an answer to a request of this kind is one about this account.
pub fn is_about_this_account(kind: PendingKind) -> (answer: bool)
    ensures
        answer == asks_about_account(kind),
{
    match kind {
        PendingKind::AccountKeysQuery | PendingKind::AccountKeysQueryOutOfBand => true,
        _ => false,
    }
}

/// What the machine holds once it has taken an answer.
pub struct Taken {
    /// Whom the machine belongs to.
    pub account: String,
    pub stored: StoredIdentity,
}

/// What an answer settles: nothing, unless the request asked about this account.
pub open spec fn settlement(kind: PendingKind, read: ReadResponse, taken: Taken) -> AnswerAboutAccount {
    match read {
        ReadResponse::KeysQuery { answer, body, .. } => if !asks_about_account(kind) {
            AnswerAboutAccount::NotAsked
        } else if settles(
            answer@,
            taken.account@,
            asserted_master(body@, taken.account@),
            taken.stored,
        ) {
            AnswerAboutAccount::Settled
        } else {
            AnswerAboutAccount::Unsettled
        },
        _ => AnswerAboutAccount::NotAsked,
    }
}

/// Whether an answer shows the identity held here to be published.
pub open spec fn publication(kind: PendingKind, read: ReadResponse, taken: Taken) -> bool {
    match read {
        ReadResponse::KeysQuery { answer, body, .. } => asks_about_account(kind)
            && shows_published(
            answer@,
            taken.account@,
            asserted_master(body@, taken.account@),
            taken.stored,
        ),
        _ => false,
    }
}

/// Reads what an answer came to, once the machine has been given it.
///
/// What the machine made of it counts, not the bytes: it is asked only after it
/// has taken the answer, and only about an answer to a question about this
/// account.
pub fn mark_sent(kind: PendingKind, read: &ReadResponse, taken: Trip<Taken>) -> (result: Result<
    AccountReading,
    SessionError,
>)
    ensures
        match (taken, result) {
            (Trip::NoMachine, Err(error)) => error is NotInitialised,
            (Trip::Refused, Err(error)) => error is Failed,
            (Trip::Done(taken), Ok(reading)) => {
                &&& reading.settled == settlement(kind, *read, taken)
                &&& reading.published == publication(kind, *read, taken)
            },
            _ => false,
        },
{
    let taken: Taken = match taken {
        Trip::NoMachine => {
            return Err(SessionError::from(MachineError::NotInitialised));
        },
        Trip::Refused => {
            return Err(SessionError::Failed);
        },
        Trip::Done(taken) => taken,
    };
    match read {
        ReadResponse::KeysQuery { answer, body, .. } => if is_about_this_account(kind) {
            let account: &str = taken.account.as_str();
            let asserted: Option<MasterKey> = read_asserted_master(body.as_str(), account);
            Ok(answer_about_this_account(answer, account, &asserted, &taken.stored))
        } else {
            Ok(AccountReading { settled: AnswerAboutAccount::NotAsked, published: false })
        },
        _ => Ok(AccountReading { settled: AnswerAboutAccount::NotAsked, published: false }),
    }
}

/// Whether a status is one that a refused request can carry: none at all, given
/// as zero, or one from 300 to 599.
pub open spec fn failure_status(status: u16) -> bool {
    status == 0 || 300 <= status <= 599
}

/// Whether a status is one that a refused request can carry.
pub fn is_a_failure_status(status: u16) -> (answer: bool)
    ensures
        answer == failure_status(status),
{
    status == 0 || (300 <= status && status <= 599)
}

/// The registry once a request has been resolved.
pub open spec fn after_mark(r: Registry, id: Seq<char>, settled: AnswerAboutAccount) -> Registry {
    Registry {
        pending: r.pending.remove(id),
        answered: r.answered || settled is Settled,
        unsettled: match settled {
            AnswerAboutAccount::NotAsked => r.unsettled,
            AnswerAboutAccount::Settled => false,
            AnswerAboutAccount::Unsettled => !r.answered,
        },
        ..r
    }
}

impl RequestState {
    /// Checks a success that is reported for a request, and says what kind of
    /// request it was. Nothing is resolved yet: the machine has to take the
    /// answer first.
    pub fn mark_request_sent(&self, id: &str, response_json: &str) -> (result: Result<
        PendingKind,
        SessionError,
    >)
        requires
            self.wf(),
        ensures
            match result {
                Ok(kind) => {
                    &&& self@.pending.contains_key(id@)
                    &&& kind == self@.pending[id@].kind
                    &&& can_be_a_response(kind, response_json@)
                },
                Err(error) => {
                    ||| !self@.pending.contains_key(id@) && error is UnknownRequest
                    ||| self@.pending.contains_key(id@) && !can_be_a_response(
                        self@.pending[id@].kind,
                        response_json@,
                    ) && error is MalformedPayload
                },
            },
    {
        let kind: PendingKind = match self.pending.get(id) {
            Some(pending) => pending.kind,
            None => {
                return Err(SessionError::UnknownRequest);
            },
        };
        match refuse_a_non_response(kind, response_json) {
            Ok(()) => Ok(kind),
            Err(error) => Err(error),
        }
    }

    /// Resolves a request that the machine has taken the answer to, and records
    /// what the answer settles. An answer that settles nothing does not undo one
    /// that did.
    fn record_mark(&mut self, id: &str, settled: AnswerAboutAccount)
        requires
            old(self).wf(),
        ensures
            final(self).wf(),
            final(self)@ == after_mark(old(self)@, id@, settled),
    {
        self.pending.remove(id);
        match settled {
            AnswerAboutAccount::NotAsked => {},
            AnswerAboutAccount::Settled => {
                self.account_keys_answered = true;
                self.account_keys_answer_unsettled = false;
            },
            AnswerAboutAccount::Unsettled => {
                if !self.account_keys_answered {
                    self.account_keys_answer_unsettled = true;
                }
            },
        }
    }

    /// Ends the report of a success: a request whose answer was taken is resolved,
    /// and one whose answer was not is as pending as before, to be reported again.
    pub fn finish_mark(&mut self, id: &str, marked: Result<AccountReading, SessionError>) -> (result:
        Result<(), SessionError>)
        requires
            old(self).wf(),
        ensures
            final(self).wf(),
            match marked {
                Ok(reading) => final(self)@ == after_mark(old(self)@, id@, reading.settled)
                    && result is Ok,
                Err(error) => *final(self) == *old(self) && result == Err::<(), SessionError>(
                    error,
                ),
            },
    {
        match marked {
            Ok(reading) => {
                self.record_mark(id, reading.settled);
                Ok(())
            },
            Err(error) => Err(error),
        }
    }

    /// Takes note that a request was refused, which changes nothing: it is as
    /// pending as before, and can be sent again.
    ///
    /// The identifier is looked at before the status.
    pub fn mark_request_failed(&self, id: &str, status: u16) -> (result: Result<(), SessionError>)
        requires
            self.wf(),
        ensures
            match result {
                Ok(()) => self@.pending.contains_key(id@) && failure_status(status),
                Err(error) => {
                    ||| !self@.pending.contains_key(id@) && error is UnknownRequest
                    ||| self@.pending.contains_key(id@) && !failure_status(status)
                        && error is NotAFailureStatus
                },
            },
    {
        if !self.is_pending(id) {
            return Err(SessionError::UnknownRequest);
        }
        if !is_a_failure_status(status) {
            return Err(SessionError::NotAFailureStatus);
        }
        Ok(())
    }
}

/// Once an answer has settled what the homeserver holds for this account, no
/// later answer unsettles it; and only an answer that settles it does.
pub proof fn law_what_is_settled_stays_settled(
    r: Registry,
    id: Seq<char>,
    settled: AnswerAboutAccount,
)
    ensures
        r.answered ==> after_mark(r, id, settled).answered,
        after_mark(r, id, settled).answered ==> r.answered || settled is Settled,
        !(r.answered && r.unsettled) ==> !(after_mark(r, id, settled).answered && after_mark(
            r,
            id,
            settled,
        ).unsettled),
{
}

/// Resolving a request resolves that one and no other.
pub proof fn law_marking_resolves_one_request(
    r: Registry,
    id: Seq<char>,
    settled: AnswerAboutAccount,
    other: Seq<char>,
)
    requires
        other != id,
    ensures
        !after_mark(r, id, settled).pending.contains_key(id),
        after_mark(r, id, settled).pending.contains_key(other) == r.pending.contains_key(other),
        r.pending.contains_key(other) ==> after_mark(r, id, settled).pending[other]
            == r.pending[other],
{
}

} // verus!
