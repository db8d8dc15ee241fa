//! Recovery: an identity's private keys, kept in the account data under a key
//! that a passphrase opens.
//!
//! A recovery is five account-data events: the description of a storage key, the
//! three private keys encrypted under it, and a pointer that names the key. The
//! pointer comes last, so that a recovery half written is no recovery.

use matrix_sdk_common::ruma::events::secret::request::SecretName;
use matrix_sdk_common::ruma::events::secret_storage::default_key::SecretStorageDefaultKeyEventContent;
use matrix_sdk_common::ruma::events::secret_storage::key::{SecretStorageEncryptionAlgorithm,
    SecretStorageKeyEventContent, SecretStorageV1AesHmacSha2Properties};
use matrix_sdk_common::ruma::events::secret_storage::secret::{SecretEncryptedData,
    SecretEventContent};
use matrix_sdk_common::ruma::events::{EventContentFromType, GlobalAccountDataEventContent};
use matrix_sdk_common::ruma::serde::Raw;
use matrix_sdk_crypto::secret_storage::{AesHmacSha2EncryptedData, DecodeError, SecretStorageKey};
use serde_json::value::RawValue;
use vstd::prelude::*;
use vstd::string::StringExecFns;

use crate::json::{all_json, is_json, member, members, object_of, raw_text, read_string_member,
    string_member, Member};
use crate::machine::{MachineError, Trip};
use crate::registry::{after_account_query, waiting_query};
use crate::requests::{KeysQueryParts, PendingKind};
use crate::state::RequestState;
use crate::text::{is_written_key, same_text};

verus! {

/// One event of the account data.
#[derive(Clone, PartialEq, Eq)]
pub struct AccountDataEntry {
    pub event_type: String,
    /// The content, as JSON.
    pub content: String,
}

/// What setting up a recovery produces.
#[derive(Clone, PartialEq, Eq)]
pub struct RecoverySetup {
    /// What opens the recovery besides the passphrase.
    pub recovery_key: String,
    /// What to write to the account data, in this order.
    pub account_data: Vec<AccountDataEntry>,
}

/// One of the three private keys of an identity.
#[derive(Clone, Copy, Debug, PartialEq, Eq, Structural)]
pub enum Secret {
    Master,
    SelfSigning,
    UserSigning,
}

/// The event type a private key is kept under.
pub open spec fn secret_type(secret: Secret) -> Seq<char> {
    match secret {
        Secret::Master => "m.cross_signing.master"@,
        Secret::SelfSigning => "m.cross_signing.self_signing"@,
        Secret::UserSigning => "m.cross_signing.user_signing"@,
    }
}

/// The event type of the pointer.
pub open spec fn pointer_type() -> Seq<char> {
    "m.secret_storage.default_key"@
}

/// The event type of a key's description.
pub open spec fn key_type(key_id: Seq<char>) -> Seq<char> {
    "m.secret_storage.key."@ + key_id
}

/// The event types of a recovery are all different.
pub(crate) proof fn lemma_types_differ(key_id: Seq<char>, secret: Secret)
    ensures
        key_type(key_id) != pointer_type(),
        key_type(key_id) != secret_type(secret),
        secret_type(secret) != pointer_type(),
        secret_type(Secret::Master) != secret_type(Secret::SelfSigning),
        secret_type(Secret::Master) != secret_type(Secret::UserSigning),
        secret_type(Secret::SelfSigning) != secret_type(Secret::UserSigning),
{
    reveal_strlit("m.secret_storage.key.");
    reveal_strlit("m.secret_storage.default_key");
    reveal_strlit("m.cross_signing.master");
    reveal_strlit("m.cross_signing.self_signing");
    reveal_strlit("m.cross_signing.user_signing");
    assert(key_type(key_id)[2] == 's');
    assert(key_type(key_id)[17] == 'k');
    assert(pointer_type()[2] == 's');
    assert(pointer_type()[17] == 'd');
    assert(secret_type(secret)[2] == 'c');
    assert("m.cross_signing.self_signing"@[16] == 's');
    assert("m.cross_signing.user_signing"@[16] == 'u');
    assert("m.cross_signing.master"@[16] == 'm');
}

/// The text that a refusal of the store is reported with.
pub open spec fn is_store_failed(error: MachineError) -> bool {
    error matches MachineError::Store { detail } && detail@ == "the crypto store could not be opened"@
}

/// A refusal of the store, with a fixed text.
pub fn store_failed() -> (error: MachineError)
    ensures
        is_store_failed(error),
{
    MachineError::Store { detail: "the crypto store could not be opened".to_owned() }
}

/// Names the event type of a private key with `ruma`'s `SecretName::as_str`.
///
/// Trusted: the three names are the ones that [`secret_type`] lists.
#[verifier::external_body]
fn secret_name(secret: Secret) -> (name: String)
    ensures
        name@ == secret_type(secret),
{
    match secret {
        Secret::Master => SecretName::CrossSigningMasterKey.as_str().to_owned(),
        Secret::SelfSigning => SecretName::CrossSigningSelfSigningKey.as_str().to_owned(),
        Secret::UserSigning => SecretName::CrossSigningUserSigningKey.as_str().to_owned(),
    }
}

/// Names the event type of the pointer with the `event_type` of `ruma`'s
/// `SecretStorageDefaultKeyEventContent`.
///
/// Trusted: it is [`pointer_type`].
#[verifier::external_body]
fn default_key_event_type() -> (name: String)
    ensures
        name@ == pointer_type(),
{
    SecretStorageDefaultKeyEventContent::new(String::new()).event_type().to_string()
}

/// The content of the first event of a type.
pub open spec fn first_content(data: Seq<AccountDataEntry>, event_type: Seq<char>) -> Option<
    Seq<char>,
>
    decreases data.len(),
{
    if data.len() == 0 {
        None
    } else if data[0].event_type@ == event_type {
        Some(data[0].content@)
    } else {
        first_content(data.skip(1), event_type)
    }
}

/// Skipping events of other types does not change which is the first.
pub(crate) proof fn lemma_first_content_from(data: Seq<AccountDataEntry>, event_type: Seq<char>, n: int)
    requires
        0 <= n <= data.len(),
        forall|i: int| 0 <= i < n ==> (#[trigger] data[i]).event_type@ != event_type,
    ensures
        first_content(data, event_type) == first_content(data.skip(n), event_type),
    decreases n,
{
    if n == 0 {
        assert(data.skip(0) =~= data);
    } else {
        let rest = data.skip(1);
        assert forall|i: int| 0 <= i < n - 1 implies (#[trigger] rest[i]).event_type@
            != event_type by {
            assert(rest[i] == data[i + 1]);
        }
        lemma_first_content_from(rest, event_type, n - 1);
        assert(rest.skip(n - 1) =~= data.skip(n));
        assert(data[0].event_type@ != event_type);
    }
}

/// Finds the first event of a type.
fn first_of<'a>(account_data: &'a [AccountDataEntry], event_type: &str) -> (content: Option<
    &'a String,
>)
    ensures
        match content {
            Some(content) => first_content(account_data@, event_type@) == Some(content@),
            None => first_content(account_data@, event_type@) is None,
        },
{
    let mut i: usize = 0;
    while i < account_data.len()
        invariant
            i <= account_data@.len(),
            forall|j: int|
                0 <= j < i ==> (#[trigger] account_data@[j]).event_type@ != event_type@,
        decreases account_data@.len() - i,
    {
        if same_text(account_data[i].event_type.as_str(), event_type) {
            proof {
                lemma_first_content_from(account_data@, event_type@, i as int);
                assert(account_data@.skip(i as int)[0] == account_data@[i as int]);
            }
            return Some(&account_data[i].content);
        }
        i = i + 1;
    }
    proof {
        lemma_first_content_from(account_data@, event_type@, i as int);
    }
    None
}

/// The content of the first event of a type other than the pointer's.
///
/// The pointer is read through [`pointed_key_id`] alone, which is where it is
/// decided what an empty pointer means.
pub fn entry<'a>(account_data: &'a [AccountDataEntry], event_type: &str) -> (content: Option<
    &'a String,
>)
    requires
        event_type@ != pointer_type(),
    ensures
        match content {
            Some(content) => first_content(account_data@, event_type@) == Some(content@),
            None => first_content(account_data@, event_type@) is None,
        },
{
    first_of(account_data, event_type)
}

/// The key that the account data names, if it names one. A pointer that cannot
/// be read, or that names nothing, is no pointer.
pub open spec fn pointed(data: Seq<AccountDataEntry>) -> Option<Seq<char>> {
    match first_content(data, pointer_type()) {
        Some(content) => match string_member(content, "key"@) {
            Some(key_id) => if key_id.len() > 0 {
                Some(key_id)
            } else {
                None
            },
            None => None,
        },
        None => None,
    }
}

/// The key that the account data names.
pub fn pointed_key_id(account_data: &[AccountDataEntry]) -> (key_id: Option<String>)
    ensures
        match key_id {
            Some(key_id) => pointed(account_data@) == Some(key_id@),
            None => pointed(account_data@) is None,
        },
{
    let pointer: String = default_key_event_type();
    match first_of(account_data, pointer.as_str()) {
        Some(content) => match read_string_member(content.as_str(), "key") {
            Some(key_id) => if key_id.as_str().is_empty() {
                None
            } else {
                Some(key_id)
            },
            None => None,
        },
        None => None,
    }
}

/// The ciphertexts that the account data holds of a private key, by the key they
/// are under. An event that is not there or cannot be read holds none.
pub open spec fn held_ciphertexts(data: Seq<AccountDataEntry>, secret: Secret) -> Map<
    Seq<char>,
    Seq<char>,
> {
    match first_content(data, secret_type(secret)) {
        Some(content) => match object_member(content, "encrypted"@) {
            Some(ciphertexts) => ciphertexts,
            None => Map::empty(),
        },
        None => Map::empty(),
    }
}

/// Whether the ciphertexts that are carried over from the account data open to what
/// they opened to.
pub open spec fn keeps_what_is_held(data: Seq<AccountDataEntry>, secret: Secret) -> bool {
    first_content(data, secret_type(secret)) matches Some(content) ==> keeps_what_opens(
        content,
        held_ciphertexts(data, secret),
    )
}

/// The ciphertexts that the account data holds of a private key.
pub fn existing_ciphertexts(account_data: &[AccountDataEntry], secret: Secret) -> (list: Vec<
    Member,
>)
    ensures
        members(list@) == held_ciphertexts(account_data@, secret),
        all_json(list@),
        keeps_what_is_held(account_data@, secret),
{
    proof {
        lemma_types_differ(Seq::empty(), secret);
    }
    let name: String = secret_name(secret);
    let content: &String = match entry(account_data, name.as_str()) {
        Some(content) => content,
        None => {
            return Vec::new();
        },
    };
    match read_object_member(content.as_str(), "encrypted") {
        Some(ciphertexts) => ciphertexts,
        None => Vec::new(),
    }
}

/// What is known of this account's identity.
#[derive(Clone, Copy, Debug, PartialEq, Eq, Structural)]
pub struct IdentityStatus {
    /// Whether an answer has settled what the homeserver holds for the account.
    pub account_keys_fetched: bool,
    /// Whether an identity made here is still to be published.
    pub identity_publication_pending: bool,
    /// Whether an identity is known.
    pub identity_known: bool,
}

/// What the machine said of this account's identity.
#[derive(Clone)]
pub enum StatusAnswer {
    /// There is no machine.
    NoMachine,
    /// It would not say, for this reason.
    Unreadable(MachineError),
    /// It said this.
    Known(IdentityStatus),
}

/// Why no recovery can be set up now, if none can.
///
/// One that is there already is not written over, whatever the store says. After
/// that it has to be known what the homeserver holds: an identity that was never
/// published is none.
pub open spec fn create_refusal(data: Seq<AccountDataEntry>, status: StatusAnswer) -> Option<
    MachineError,
> {
    match status {
        StatusAnswer::NoMachine => Some(MachineError::NotInitialised),
        StatusAnswer::Unreadable(error) => if pointed(data) is Some {
            Some(MachineError::RecoveryAlreadyExists)
        } else {
            Some(error)
        },
        StatusAnswer::Known(status) => if pointed(data) is Some {
            Some(MachineError::RecoveryAlreadyExists)
        } else if !status.account_keys_fetched {
            Some(MachineError::AccountKeysNotFetched)
        } else if status.identity_publication_pending {
            Some(MachineError::IdentityNotKnown)
        } else {
            None
        },
    }
}

/// Whether a recovery can be set up now.
pub fn check_create_recovery(account_data: &[AccountDataEntry], status: StatusAnswer) -> (result:
    Result<(), MachineError>)
    ensures
        match create_refusal(account_data@, status) {
            Some(error) => result == Err::<(), MachineError>(error),
            None => result == Ok::<(), MachineError>(()),
        },
{
    let status: Result<IdentityStatus, MachineError> = match status {
        StatusAnswer::NoMachine => {
            return Err(MachineError::NotInitialised);
        },
        StatusAnswer::Unreadable(error) => Err(error),
        StatusAnswer::Known(status) => Ok(status),
    };
    if pointed_key_id(account_data).is_some() {
        return Err(MachineError::RecoveryAlreadyExists);
    }
    let status: IdentityStatus = match status {
        Ok(status) => status,
        Err(error) => {
            return Err(error);
        },
    };
    if status.account_keys_fetched && status.identity_publication_pending {
        return Err(MachineError::IdentityNotKnown);
    }
    if !status.account_keys_fetched {
        return Err(MachineError::AccountKeysNotFetched);
    }
    Ok(())
}

/// Why no identity can be recovered now, if none can: it has to be known what the
/// homeserver holds, and it has to hold an identity.
pub open spec fn recover_refusal(status: StatusAnswer) -> Option<MachineError> {
    match status {
        StatusAnswer::NoMachine => Some(MachineError::NotInitialised),
        StatusAnswer::Unreadable(error) => Some(error),
        StatusAnswer::Known(status) => if !status.account_keys_fetched {
            Some(MachineError::AccountKeysNotFetched)
        } else if status.identity_publication_pending || !status.identity_known {
            Some(MachineError::IdentityNotKnown)
        } else {
            None
        },
    }
}

/// Whether an identity can be recovered now.
pub fn check_recover_identity(status: StatusAnswer) -> (result: Result<(), MachineError>)
    ensures
        match recover_refusal(status) {
            Some(error) => result == Err::<(), MachineError>(error),
            None => result == Ok::<(), MachineError>(()),
        },
{
    let status: IdentityStatus = match status {
        StatusAnswer::NoMachine => {
            return Err(MachineError::NotInitialised);
        },
        StatusAnswer::Unreadable(error) => {
            return Err(error);
        },
        StatusAnswer::Known(status) => status,
    };
    if status.account_keys_fetched && status.identity_publication_pending {
        return Err(MachineError::IdentityNotKnown);
    }
    if !status.account_keys_fetched {
        return Err(MachineError::AccountKeysNotFetched);
    }
    if !status.identity_known {
        return Err(MachineError::IdentityNotKnown);
    }
    Ok(())
}

/// Whether a refusal is one that a query about this account's keys has to be
/// answered to lift.
pub fn must_fetch_account_keys(error: &MachineError) -> (answer: bool)
    ensures
        answer == (*error is AccountKeysNotFetched),
{
    match error {
        MachineError::AccountKeysNotFetched => true,
        _ => false,
    }
}

impl RequestState {
    /// Queues the query that has to be answered first, and says so.
    pub fn fetch_account_keys_first(&mut self, id: String, query: KeysQueryParts) -> (error:
        MachineError)
        requires
            old(self).wf(),
            old(self)@.next_sequence < u64::MAX,
        ensures
            final(self).wf(),
            final(self)@ == after_account_query(
                old(self)@,
                waiting_query(id@, PendingKind::AccountKeysQueryOutOfBand, query),
            ),
            error is AccountKeysNotFetched,
    {
        self.queue_account_key_query(id, query);
        MachineError::AccountKeysNotFetched
    }
}

/// A storage key, written down.
pub struct StorageKey {
    pub key_id: String,
    /// The description of the key, as JSON.
    pub description: String,
    /// The key itself, as a person can copy it.
    pub recovery_key: String,
}

/// Why a secret does not open a storage key.
#[derive(Clone, Copy, Debug, PartialEq, Eq, Structural)]
pub enum UnlockFault {
    /// The description is not one.
    Description,
    /// The written-down key does not begin as one does.
    Prefix,
    /// The check digit of the written-down key is wrong.
    Parity,
    /// The secret is no written-down key.
    Base58,
    /// The description holds what is not base64.
    Base64,
    /// The written-down key is too long or too short.
    KeyLength,
    /// The secret is wrong.
    Mac,
    /// The description's check is too long or too short.
    MacLength,
    /// The description's initialisation vector is too long or too short.
    IvLength,
    /// The description names an algorithm that is not known.
    UnsupportedAlgorithm,
    /// The description asks for more rounds than can be counted.
    KdfIterationCount,
}

/// The storage key, as it is written down, that a secret opens according to the
/// description of an event type.
pub uninterp spec fn unlocked(
    secret: Seq<char>,
    event_type: Seq<char>,
    description: Seq<char>,
) -> Result<Seq<char>, UnlockFault>;

/// Whether every secret that does not open the description is told by the
/// description's check.
pub open spec fn fails_by_check_alone(event_type: Seq<char>, description: Seq<char>) -> bool {
    forall|secret: Seq<char>|
        #![trigger unlocked(secret, event_type, description)]
        unlocked(secret, event_type, description) is Ok || unlocked(secret, event_type, description)
            == Err::<Seq<char>, UnlockFault>(UnlockFault::Mac)
}

/// Whether a text is a storage key, as it is written down.
pub uninterp spec fn is_storage_key(text: Seq<char>) -> bool;

/// The private key of a name that a ciphertext holds under a storage key.
pub uninterp spec fn unsealed(
    storage_key: Seq<char>,
    name: Seq<char>,
    ciphertext: Seq<char>,
) -> Option<Seq<char>>;

/// The ciphertexts that the content of a secret's event holds, by the key they
/// are under.
pub uninterp spec fn ciphertexts(content: Seq<char>) -> Option<Map<Seq<char>, Seq<char>>>;

/// The one algorithm of a storage key's description that is known.
pub open spec fn known_algorithm() -> Seq<char> {
    "m.secret_storage.v1.aes-hmac-sha2"@
}

/// Whether a description asks a passphrase for a key of an algorithm that is not
/// known.
pub open spec fn names_unknown_algorithm(description: Seq<char>) -> bool {
    &&& object_member(description, "passphrase"@) is Some
    &&& string_member(description, "algorithm"@) matches Some(algorithm)
    &&& algorithm != known_algorithm()
}

/// Makes a storage key with `SecretStorageKey::new_from_passphrase`, and writes
/// it down with its `key_id`, `event_content` and `to_base58`.
///
/// Trusted: the key is drawn at random. Writing its description does not fail: it
/// is an object of texts and of one number, and names the known algorithm. Its
/// identifier has 32 characters. The key is written down as base58 in groups of
/// four; the prefix that comes before the key makes it 48 characters, whatever the
/// key. Under the type its identifier makes, its description is opened by
/// the passphrase and by the key as it is written down, and what either opens is
/// that key. That the key as it is written down does is what `from_account_data`
/// documents; it holds short of a collision of a 256-bit authentication code. A
/// secret that does not open the description fails by its check, whatever it is:
/// the description holds a passphrase's salt and number of rounds, so a failure is
/// that of the secret as a passphrase.
#[verifier::external_body]
fn new_storage_key(passphrase: &str) -> (key: Option<StorageKey>)
    ensures
        key matches Some(key) && {
            &&& key.key_id@.len() == 32
            &&& is_storage_key(key.recovery_key@)
            &&& is_written_key(key.recovery_key@)
            &&& is_json(key.description@)
            &&& string_member(key.description@, "algorithm"@) == Some(known_algorithm())
            &&& fails_by_check_alone(key_type(key.key_id@), key.description@)
            &&& unlocked(passphrase@, key_type(key.key_id@), key.description@) == Ok::<
                Seq<char>,
                UnlockFault,
            >(key.recovery_key@)
            &&& unlocked(key.recovery_key@, key_type(key.key_id@), key.description@) == Ok::<
                Seq<char>,
                UnlockFault,
            >(key.recovery_key@)
        },
{
    let key = SecretStorageKey::new_from_passphrase(passphrase);
    Some(
        StorageKey {
            key_id: key.key_id().to_owned(),
            description: serde_json::to_string(key.event_content()).ok()?,
            recovery_key: key.to_base58(),
        },
    )
}

/// Opens a storage key with `SecretStorageKey::from_account_data`, its
/// description read with `RawValue::from_string` and `ruma`'s `from_parts`, and
/// writes it down with `to_base58`.
///
/// Trusted: what is opened, or why nothing is, is a function of the three texts
/// alone, named [`unlocked`]. What is opened is a storage key. Nothing is opened
/// where the description is not JSON, nor where it asks a passphrase for a key of
/// an algorithm that is not known: reading it fails, or its number of rounds does,
/// or its algorithm does.
#[verifier::external_body]
fn unlock(secret: &str, event_type: &str, description: &str) -> (key: Result<String, UnlockFault>)
    ensures
        match key {
            Ok(key) => {
                &&& unlocked(secret@, event_type@, description@) == Ok::<Seq<char>, UnlockFault>(
                    key@,
                )
                &&& is_storage_key(key@)
                &&& is_readable(description@)
            },
            Err(fault) => {
                &&& unlocked(secret@, event_type@, description@) == Err::<Seq<char>, UnlockFault>(
                    fault,
                )
                &&& raw_text(description@) is None ==> fault is Description
                &&& names_unknown_algorithm(description@) ==> fault is Description
                    || fault is KdfIterationCount || fault is UnsupportedAlgorithm
            },
        },
{
    let raw = RawValue::from_string(description.to_owned()).map_err(|_| UnlockFault::Description)?;
    let content = SecretStorageKeyEventContent::from_parts(event_type, &raw).map_err(|_| UnlockFault::Description)?;
    let key = SecretStorageKey::from_account_data(secret, content).map_err(|error| match error {
        DecodeError::Prefix(..) => UnlockFault::Prefix,
        DecodeError::Parity(..) => UnlockFault::Parity,
        DecodeError::Base58(..) => UnlockFault::Base58,
        DecodeError::Base64(..) => UnlockFault::Base64,
        DecodeError::KeyLength(..) => UnlockFault::KeyLength,
        DecodeError::Mac(..) => UnlockFault::Mac,
        DecodeError::MacLength(..) => UnlockFault::MacLength,
        DecodeError::IvLength(..) => UnlockFault::IvLength,
        DecodeError::UnsupportedAlgorithm(..) => UnlockFault::UnsupportedAlgorithm,
        DecodeError::KdfIterationCount(..) => UnlockFault::KdfIterationCount,
    })?;
    Ok(key.to_base58())
}

/// Encrypts a private key with `SecretStorageKey::encrypt`, under the storage key
/// that a text writes down.
///
/// Trusted: the ciphertext is drawn at random. It is JSON, and decrypting it under
/// the same storage key and name gives the private key back. There is one exactly
/// where the text is a storage key.
#[verifier::external_body]
fn seal(storage_key: &str, name: &str, secret: &str) -> (ciphertext: Option<String>)
    ensures
        ciphertext is Some == is_storage_key(storage_key@),
        ciphertext matches Some(ciphertext) ==> is_json(ciphertext@) && unsealed(
            storage_key@,
            name@,
            ciphertext@,
        ) == Some(secret@),
{
    let properties = SecretStorageV1AesHmacSha2Properties::new(None, None);
    let algorithm = SecretStorageEncryptionAlgorithm::V1AesHmacSha2(properties);
    let content = SecretStorageKeyEventContent::new(String::new(), algorithm);
    let key = SecretStorageKey::from_account_data(storage_key, content).ok()?;
    let sealed = key.encrypt(secret.as_bytes().to_vec(), &SecretName::from(name));
    Some(serde_json::to_value(sealed).ok()?.to_string())
}

/// Decrypts a private key with `SecretStorageKey::decrypt`, under the storage key
/// that a text writes down. The ciphertext is read with `serde_json`, and the
/// plaintext has to be UTF-8.
///
/// Trusted: what comes out, if anything does, is a function of the three texts
/// alone, named [`unsealed`].
#[verifier::external_body]
fn unseal(storage_key: &str, name: &str, ciphertext: &str) -> (secret: Option<String>)
    ensures
        match secret {
            Some(secret) => unsealed(storage_key@, name@, ciphertext@) == Some(secret@),
            None => unsealed(storage_key@, name@, ciphertext@) is None,
        },
{
    let properties = SecretStorageV1AesHmacSha2Properties::new(None, None);
    let algorithm = SecretStorageEncryptionAlgorithm::V1AesHmacSha2(properties);
    let content = SecretStorageKeyEventContent::new(String::new(), algorithm);
    let key = SecretStorageKey::from_account_data(storage_key, content).ok()?;
    let data = serde_json::from_str::<AesHmacSha2EncryptedData>(ciphertext).ok()?;
    String::from_utf8(key.decrypt(&data, &SecretName::from(name)).ok()?).ok()
}

/// Whether, of the ciphertexts that the content of a secret's event holds, those
/// that are held here open to what they opened to, under every storage key that
/// opened them.
pub open spec fn keeps_what_opens(content: Seq<char>, held: Map<Seq<char>, Seq<char>>) -> bool {
    ciphertexts(content) matches Some(read) ==> forall|
        key: Seq<char>,
        name: Seq<char>,
        id: Seq<char>,
    |
        #![trigger unsealed(key, name, held[id])]
        read.contains_key(id) && held.contains_key(id) && unsealed(key, name, read[id]) is Some
            ==> unsealed(key, name, held[id]) == unsealed(key, name, read[id])
}

/// The members of the object under a name of the object that `serde_json` reads
/// from a text, the values as the texts that it prints for them.
pub uninterp spec fn object_member(text: Seq<char>, name: Seq<char>) -> Option<
    Map<Seq<char>, Seq<char>>,
>;

/// Reads the object under a name of a JSON object, in one reading, with
/// `serde_json::from_str::<serde_json::Value>`, `Value::get` and
/// `Value::as_object`.
///
/// Trusted: what is read is a function of the text and of the name alone, named
/// [`object_member`]. There is none where the text is not JSON or no object, has
/// no such member, or has another value than an object there. The values of the
/// members are given as the texts that `serde_json::Value` prints for them, which
/// are JSON texts with nothing around them. A ciphertext is printed with the same
/// strings in it, so that what opens the one that stands in the content of a
/// secret's event opens the printed one too.
#[verifier::external_body]
fn read_object_member(text: &str, name: &str) -> (object: Option<Vec<Member>>)
    ensures
        match object {
            Some(list) => {
                &&& object_member(text@, name@) == Some(members(list@))
                &&& all_json(list@)
                &&& name@ == "encrypted"@ ==> keeps_what_opens(text@, members(list@))
            },
            None => object_member(text@, name@) is None,
        },
{
    let value = serde_json::from_str::<serde_json::Value>(text).ok()?;
    let map = value.get(name)?.as_object()?.iter();
    Some(map.map(|(name, value)| Member { name: name.clone(), json: value.to_string() }).collect())
}

/// Reads the content of a secret's event as `ruma`'s `SecretEventContent`, with
/// `serde_json`.
///
/// Trusted: what is read is a function of the text alone, named [`ciphertexts`],
/// and every ciphertext is JSON as it stands in the text.
#[verifier::external_body]
fn read_ciphertexts(content: &str) -> (list: Option<Vec<Member>>)
    ensures
        match list {
            Some(list) => ciphertexts(content@) == Some(members(list@)) && all_json(list@),
            None => ciphertexts(content@) is None,
        },
{
    let content = serde_json::from_str::<SecretEventContent>(content).ok()?;
    let list = content.encrypted.into_iter();
    Some(list.map(|(name, raw)| Member { name, json: raw.json().get().to_owned() }).collect())
}

/// Writes the content of a secret's event as `ruma`'s `SecretEventContent`, with
/// `serde_json`.
///
/// Trusted: where every ciphertext is JSON there is a text, and reading it gives
/// the ciphertexts back as they stand. Where it reads as an object, `encrypted` is
/// its only member; it does not where a ciphertext is JSON that `serde_json::Value`
/// refuses, such as a number that is out of range.
#[verifier::external_body]
fn write_ciphertexts(list: Vec<Member>) -> (content: Option<String>)
    requires
        all_json(list@),
    ensures
        content is Some,
        ciphertexts(content->0@) == Some(members(list@)),
        has_only_member(content->0@, "encrypted"@),
{
    let mut encrypted = std::collections::BTreeMap::new();
    for Member { name, json } in list {
        encrypted.insert(name, Raw::<SecretEncryptedData>::from_json_string(json).ok()?);
    }
    serde_json::to_string(&SecretEventContent::new(encrypted)).ok()
}

/// Whether an object that a text holds, if it holds one, has a single member of the
/// name.
pub open spec fn has_only_member(text: Seq<char>, name: Seq<char>) -> bool {
    object_of(text) matches Some(object) ==> object.dom() == set![name]
}

/// Whether a text is an object that names a key, and that has no other member.
pub open spec fn is_pointer_to(content: Seq<char>, key_id: Seq<char>) -> bool {
    &&& object_of(content) is Some
    &&& has_only_member(content, "key"@)
    &&& string_member(content, "key"@) == Some(key_id)
}

/// Writes the content of the pointer as `ruma`'s
/// `SecretStorageDefaultKeyEventContent`, with `serde_json`.
///
/// Trusted: there is a text, and it is an object whose `key` is the identifier and
/// which has no other member.
#[verifier::external_body]
fn write_pointer(key_id: &str) -> (content: Option<String>)
    ensures
        content is Some,
        is_pointer_to(content->0@, key_id@),
{
    serde_json::to_string(&SecretStorageDefaultKeyEventContent::new(key_id.to_owned())).ok()
}

/// The three private keys of an identity.
pub struct Seeds {
    pub master: String,
    pub self_signing: String,
    pub user_signing: String,
}

/// One of three private keys.
pub open spec fn seed(seeds: Seeds, secret: Secret) -> Seq<char> {
    match secret {
        Secret::Master => seeds.master@,
        Secret::SelfSigning => seeds.self_signing@,
        Secret::UserSigning => seeds.user_signing@,
    }
}

/// What the machine exports of an identity.
pub struct KeyExport {
    pub master_key: Option<String>,
    pub self_signing_key: Option<String>,
    pub user_signing_key: Option<String>,
}

/// Whether all three private keys were exported.
pub open spec fn is_complete_export(export: Trip<Option<KeyExport>>) -> bool {
    export matches Trip::Done(Some(keys)) && keys.master_key is Some && keys.self_signing_key is Some
        && keys.user_signing_key is Some
}

/// The three private keys of a complete export.
pub open spec fn exported_seeds(export: Trip<Option<KeyExport>>) -> Seeds {
    let keys = export->Done_0->0;
    Seeds {
        master: keys.master_key->0,
        self_signing: keys.self_signing_key->0,
        user_signing: keys.user_signing_key->0,
    }
}

/// Whether this is what an export that is not complete is reported as.
pub open spec fn is_export_refusal(export: Trip<Option<KeyExport>>, error: MachineError) -> bool {
    match export {
        Trip::NoMachine => error is NotInitialised,
        Trip::Refused => is_store_failed(error),
        Trip::Done(_) => !is_complete_export(export) && error is PrivateKeysNotHeld,
    }
}

/// The three private keys of an export, or why there are not three.
pub fn complete_export(export: Trip<Option<KeyExport>>) -> (result: Result<Seeds, MachineError>)
    ensures
        match result {
            Ok(seeds) => is_complete_export(export) && seeds == exported_seeds(export),
            Err(error) => is_export_refusal(export, error),
        },
{
    match export {
        Trip::NoMachine => Err(MachineError::NotInitialised),
        Trip::Refused => Err(store_failed()),
        Trip::Done(None) => Err(MachineError::PrivateKeysNotHeld),
        Trip::Done(Some(keys)) => match (
            keys.master_key,
            keys.self_signing_key,
            keys.user_signing_key,
        ) {
            (Some(master), Some(self_signing), Some(user_signing)) => Ok(
                Seeds { master, self_signing, user_signing },
            ),
            _ => Err(MachineError::PrivateKeysNotHeld),
        },
    }
}

/// Whether an event is what a recovery keeps of a private key: of its type, with
/// the ciphertexts that were held already and the new one under the new key.
pub open spec fn is_secret_event(
    event: AccountDataEntry,
    secret: Secret,
    data: Seq<AccountDataEntry>,
    key_id: Seq<char>,
    ciphertext: Seq<char>,
) -> bool {
    &&& event.event_type@ == secret_type(secret)
    &&& ciphertexts(event.content@) == Some(
        held_ciphertexts(data, secret).insert(key_id, ciphertext),
    )
    &&& has_only_member(event.content@, "encrypted"@)
}

/// The three ciphertexts of a recovery.
pub struct Sealed {
    pub master: Seq<char>,
    pub self_signing: Seq<char>,
    pub user_signing: Seq<char>,
}

/// Whether a list of events is a recovery: the key's description, the three
/// private keys and the pointer, in this order.
pub open spec fn is_recovery(
    events: Seq<AccountDataEntry>,
    data: Seq<AccountDataEntry>,
    key_id: Seq<char>,
    description: Seq<char>,
    sealed: Sealed,
) -> bool {
    &&& events.len() == 5
    &&& events[0].event_type@ == key_type(key_id)
    &&& events[0].content@ == description
    &&& is_secret_event(events[1], Secret::Master, data, key_id, sealed.master)
    &&& is_secret_event(events[2], Secret::SelfSigning, data, key_id, sealed.self_signing)
    &&& is_secret_event(events[3], Secret::UserSigning, data, key_id, sealed.user_signing)
    &&& events[4].event_type@ == pointer_type()
    &&& is_pointer_to(events[4].content@, key_id)
}

/// The event that keeps a private key, beside what is kept of it already.
fn secret_event(
    account_data: &[AccountDataEntry],
    secret: Secret,
    key_id: &str,
    ciphertext: &str,
) -> (event: Option<AccountDataEntry>)
    requires
        is_json(ciphertext@),
    ensures
        event matches Some(event) && is_secret_event(
            event,
            secret,
            account_data@,
            key_id@,
            ciphertext@,
        ),
        keeps_what_is_held(account_data@, secret),
{
    let mut list: Vec<Member> = existing_ciphertexts(account_data, secret);
    let ghost before = list@;
    list.push(Member { name: key_id.to_owned(), json: ciphertext.to_owned() });
    assert(list@.drop_last() =~= before);
    match write_ciphertexts(list) {
        Some(content) => Some(AccountDataEntry { event_type: secret_name(secret), content }),
        None => None,
    }
}

/// The events of a recovery, given its storage key and the three ciphertexts.
pub fn recovery_events(
    account_data: &[AccountDataEntry],
    key_id: &str,
    description: &str,
    master: &str,
    self_signing: &str,
    user_signing: &str,
) -> (events: Vec<AccountDataEntry>)
    requires
        is_json(master@),
        is_json(self_signing@),
        is_json(user_signing@),
    ensures
        is_recovery(
            events@,
            account_data@,
            key_id@,
            description@,
            (Sealed {
                master: master@,
                self_signing: self_signing@,
                user_signing: user_signing@,
            }),
        ),
        forall|secret: Secret| #[trigger] keeps_what_is_held(account_data@, secret),
{
    let mut key_event_type: String = "m.secret_storage.key.".to_owned();
    key_event_type.append(key_id);
    let mut events: Vec<AccountDataEntry> = Vec::new();
    events.push(
        AccountDataEntry { event_type: key_event_type, content: description.to_owned() },
    );
    if let Some(event) = secret_event(account_data, Secret::Master, key_id, master) {
        events.push(event);
    }
    if let Some(event) = secret_event(account_data, Secret::SelfSigning, key_id, self_signing) {
        events.push(event);
    }
    if let Some(event) = secret_event(account_data, Secret::UserSigning, key_id, user_signing) {
        events.push(event);
    }
    if let Some(content) = write_pointer(key_id) {
        events.push(AccountDataEntry { event_type: default_key_event_type(), content });
    }
    assert forall|secret: Secret| #[trigger] keeps_what_is_held(account_data@, secret) by {
        assert(secret is Master || secret is SelfSigning || secret is UserSigning);
    }
    events
}

/// Whether a setup is a recovery of these private keys that this passphrase and
/// its own recovery key open, given its storage key's identifier and description
/// and its three ciphertexts.
pub open spec fn recovers_with(
    setup: RecoverySetup,
    passphrase: Seq<char>,
    data: Seq<AccountDataEntry>,
    seeds: Seeds,
    key_id: Seq<char>,
    description: Seq<char>,
    sealed: Sealed,
) -> bool {
    let key = setup.recovery_key@;
    &&& is_recovery(setup.account_data@, data, key_id, description, sealed)
    &&& forall|secret: Secret| #[trigger] keeps_what_is_held(data, secret)
    &&& key_id.len() == 32
    &&& is_written_key(key)
    &&& is_readable(description)
    &&& fails_by_check_alone(key_type(key_id), description)
    &&& unlocked(passphrase, key_type(key_id), description) == Ok::<Seq<char>, UnlockFault>(key)
    &&& unlocked(key, key_type(key_id), description) == Ok::<Seq<char>, UnlockFault>(key)
    &&& unsealed(key, secret_type(Secret::Master), sealed.master) == Some(
        seed(seeds, Secret::Master),
    )
    &&& unsealed(key, secret_type(Secret::SelfSigning), sealed.self_signing) == Some(
        seed(seeds, Secret::SelfSigning),
    )
    &&& unsealed(key, secret_type(Secret::UserSigning), sealed.user_signing) == Some(
        seed(seeds, Secret::UserSigning),
    )
}

/// Whether a setup is a recovery of these private keys that this passphrase and
/// its own recovery key open, beside the account data there was.
pub open spec fn recovers(
    setup: RecoverySetup,
    passphrase: Seq<char>,
    data: Seq<AccountDataEntry>,
    seeds: Seeds,
) -> bool {
    exists|key_id: Seq<char>, description: Seq<char>, sealed: Sealed| #[trigger]
        recovers_with(setup, passphrase, data, seeds, key_id, description, sealed)
}

/// Sets up a recovery of an identity's private keys under a new storage key,
/// which is drawn at random.
fn seal_recovery(
    passphrase: &str,
    account_data: &[AccountDataEntry],
    seeds: &Seeds,
) -> (result: Result<RecoverySetup, MachineError>)
    ensures
        result matches Ok(setup) && recovers(setup, passphrase@, account_data@, *seeds),
{
    let key: StorageKey = match new_storage_key(passphrase) {
        Some(key) => key,
        None => {
            return Err(store_failed());
        },
    };
    let storage_key: &str = key.recovery_key.as_str();
    let master: Option<String> = seal(
        storage_key,
        secret_name(Secret::Master).as_str(),
        seeds.master.as_str(),
    );
    let self_signing: Option<String> = seal(
        storage_key,
        secret_name(Secret::SelfSigning).as_str(),
        seeds.self_signing.as_str(),
    );
    let user_signing: Option<String> = seal(
        storage_key,
        secret_name(Secret::UserSigning).as_str(),
        seeds.user_signing.as_str(),
    );
    match (master, self_signing, user_signing) {
        (Some(master), Some(self_signing), Some(user_signing)) => {
            let events: Vec<AccountDataEntry> = recovery_events(
                account_data,
                key.key_id.as_str(),
                key.description.as_str(),
                master.as_str(),
                self_signing.as_str(),
                user_signing.as_str(),
            );
            let setup = RecoverySetup { recovery_key: key.recovery_key, account_data: events };
            proof {
                let sealed = Sealed {
                    master: master@,
                    self_signing: self_signing@,
                    user_signing: user_signing@,
                };
                assert(recovers_with(
                    setup,
                    passphrase@,
                    account_data@,
                    *seeds,
                    key.key_id@,
                    key.description@,
                    sealed,
                ));
            }
            Ok(setup)
        },
        _ => Err(store_failed()),
    }
}

/// Sets up a recovery of this account's identity: where one can be set up now, and
/// the machine has exported all three private keys.
pub fn create_recovery(
    passphrase: &str,
    account_data: &[AccountDataEntry],
    status: StatusAnswer,
    export: Trip<Option<KeyExport>>,
) -> (result: Result<RecoverySetup, MachineError>)
    ensures
        match create_refusal(account_data@, status) {
            Some(error) => result == Err::<RecoverySetup, MachineError>(error),
            None => match result {
                Ok(setup) => is_complete_export(export) && recovers(
                    setup,
                    passphrase@,
                    account_data@,
                    exported_seeds(export),
                ),
                Err(error) => is_export_refusal(export, error),
            },
        },
{
    if let Err(error) = check_create_recovery(account_data, status) {
        return Err(error);
    }
    match complete_export(export) {
        Ok(seeds) => seal_recovery(passphrase, account_data, &seeds),
        Err(error) => Err(error),
    }
}

/// What a secret that does not open the storage key is reported as: what is
/// wrong with the secret is the secret's fault, what is wrong with the
/// description is the data's.
pub open spec fn unlock_error_of(fault: UnlockFault) -> MachineError {
    match fault {
        UnlockFault::Mac => MachineError::RecoveryKeyIncorrect,
        UnlockFault::Base58 => MachineError::RecoveryKeyIncorrect,
        UnlockFault::KeyLength => MachineError::RecoveryKeyIncorrect,
        UnlockFault::Prefix => MachineError::RecoveryKeyIncorrect,
        UnlockFault::Parity => MachineError::RecoveryKeyIncorrect,
        UnlockFault::Description => MachineError::RecoveryDataMalformed,
        UnlockFault::Base64 => MachineError::RecoveryDataMalformed,
        UnlockFault::IvLength => MachineError::RecoveryDataMalformed,
        UnlockFault::MacLength => MachineError::RecoveryDataMalformed,
        UnlockFault::UnsupportedAlgorithm => MachineError::RecoveryDataMalformed,
        UnlockFault::KdfIterationCount => MachineError::RecoveryDataMalformed,
    }
}

/// Reports a secret that does not open the storage key.
pub fn classify_decode_error(fault: UnlockFault) -> (error: MachineError)
    ensures
        error == unlock_error_of(fault),
{
    match fault {
        UnlockFault::Mac
        | UnlockFault::Base58
        | UnlockFault::KeyLength
        | UnlockFault::Prefix
        | UnlockFault::Parity => MachineError::RecoveryKeyIncorrect,
        UnlockFault::Description
        | UnlockFault::Base64
        | UnlockFault::IvLength
        | UnlockFault::MacLength
        | UnlockFault::UnsupportedAlgorithm
        | UnlockFault::KdfIterationCount => MachineError::RecoveryDataMalformed,
    }
}

/// Whether a storage key's description can be read: it is JSON, and does not ask
/// a passphrase for a key of an algorithm that is not known.
pub open spec fn is_readable(description: Seq<char>) -> bool {
    raw_text(description) is Some && !names_unknown_algorithm(description)
}

/// What opening the storage key came to.
pub open spec fn unlocked_key(
    secret: Seq<char>,
    event_type: Seq<char>,
    description: Seq<char>,
) -> Result<Seq<char>, MachineError> {
    if !is_readable(description) {
        Err(MachineError::RecoveryDataMalformed)
    } else {
        match unlocked(secret, event_type, description) {
            Ok(key) => Ok(key),
            Err(fault) => Err(unlock_error_of(fault)),
        }
    }
}

/// One private key, read back from the account data under an opened storage key.
pub open spec fn restored_seed(
    data: Seq<AccountDataEntry>,
    key_id: Seq<char>,
    key: Seq<char>,
    secret: Secret,
) -> Result<Seq<char>, MachineError> {
    match first_content(data, secret_type(secret)) {
        None => Err(MachineError::RecoveryNotSetUp),
        Some(content) => match ciphertexts(content) {
            None => Err(MachineError::RecoveryDataMalformed),
            Some(held) => if !held.contains_key(key_id) {
                Err(MachineError::RecoveryNotSetUp)
            } else {
                match unsealed(key, secret_type(secret), held[key_id]) {
                    None => Err(MachineError::RecoveryDataMalformed),
                    Some(seed) => Ok(seed),
                }
            },
        },
    }
}

/// The three private keys read back, as texts.
pub struct RestoredSeeds {
    pub master: Seq<char>,
    pub self_signing: Seq<char>,
    pub user_signing: Seq<char>,
}

/// The three private keys, read back one after the other.
pub open spec fn restored_seeds(data: Seq<AccountDataEntry>, key_id: Seq<char>, key: Seq<char>) -> Result<
    RestoredSeeds,
    MachineError,
> {
    match restored_seed(data, key_id, key, Secret::Master) {
        Err(error) => Err(error),
        Ok(master) => match restored_seed(data, key_id, key, Secret::SelfSigning) {
            Err(error) => Err(error),
            Ok(self_signing) => match restored_seed(data, key_id, key, Secret::UserSigning) {
                Err(error) => Err(error),
                Ok(user_signing) => Ok(RestoredSeeds { master, self_signing, user_signing }),
            },
        },
    }
}

/// What a secret recovers from the account data.
pub open spec fn recovered(secret: Seq<char>, data: Seq<AccountDataEntry>) -> Result<
    RestoredSeeds,
    MachineError,
> {
    match pointed(data) {
        None => Err(MachineError::RecoveryNotSetUp),
        Some(key_id) => match first_content(data, key_type(key_id)) {
            None => Err(MachineError::RecoveryNotSetUp),
            Some(description) => match unlocked_key(secret, key_type(key_id), description) {
                Err(error) => Err(error),
                Ok(key) => restored_seeds(data, key_id, key),
            },
        },
    }
}

/// Reads one private key back.
fn restore_seed(
    account_data: &[AccountDataEntry],
    key_id: &str,
    key: &str,
    secret: Secret,
) -> (result: Result<String, MachineError>)
    ensures
        match result {
            Ok(seed) => restored_seed(account_data@, key_id@, key@, secret) == Ok::<
                Seq<char>,
                MachineError,
            >(seed@),
            Err(error) => restored_seed(account_data@, key_id@, key@, secret) == Err::<
                Seq<char>,
                MachineError,
            >(error),
        },
{
    proof {
        lemma_types_differ(key_id@, secret);
    }
    let name: String = secret_name(secret);
    let content: &String = match entry(account_data, name.as_str()) {
        Some(content) => content,
        None => {
            return Err(MachineError::RecoveryNotSetUp);
        },
    };
    let held: Vec<Member> = match read_ciphertexts(content.as_str()) {
        Some(held) => held,
        None => {
            return Err(MachineError::RecoveryDataMalformed);
        },
    };
    let ciphertext: &String = match member(&held, key_id) {
        Some(ciphertext) => ciphertext,
        None => {
            return Err(MachineError::RecoveryNotSetUp);
        },
    };
    match unseal(key, name.as_str(), ciphertext.as_str()) {
        Some(seed) => Ok(seed),
        None => Err(MachineError::RecoveryDataMalformed),
    }
}

/// Reads an identity's private keys back from the account data.
fn open_recovery(secret: &str, account_data: &[AccountDataEntry]) -> (result: Result<
    Seeds,
    MachineError,
>)
    ensures
        match result {
            Ok(seeds) => recovered(secret@, account_data@) == Ok::<RestoredSeeds, MachineError>(
                RestoredSeeds {
                    master: seeds.master@,
                    self_signing: seeds.self_signing@,
                    user_signing: seeds.user_signing@,
                },
            ),
            Err(error) => recovered(secret@, account_data@) == Err::<RestoredSeeds, MachineError>(
                error,
            ),
        },
{
    let key_id: String = match pointed_key_id(account_data) {
        Some(key_id) => key_id,
        None => {
            return Err(MachineError::RecoveryNotSetUp);
        },
    };
    let mut description_type: String = "m.secret_storage.key.".to_owned();
    description_type.append(key_id.as_str());
    proof {
        lemma_types_differ(key_id@, Secret::Master);
    }
    let description: &String = match entry(account_data, description_type.as_str()) {
        Some(description) => description,
        None => {
            return Err(MachineError::RecoveryNotSetUp);
        },
    };
    let key: String = match unlock(secret, description_type.as_str(), description.as_str()) {
        Ok(key) => key,
        Err(fault) => {
            return Err(classify_decode_error(fault));
        },
    };
    let master: String = match restore_seed(
        account_data,
        key_id.as_str(),
        key.as_str(),
        Secret::Master,
    ) {
        Ok(seed) => seed,
        Err(error) => {
            return Err(error);
        },
    };
    let self_signing: String = match restore_seed(
        account_data,
        key_id.as_str(),
        key.as_str(),
        Secret::SelfSigning,
    ) {
        Ok(seed) => seed,
        Err(error) => {
            return Err(error);
        },
    };
    let user_signing: String = match restore_seed(
        account_data,
        key_id.as_str(),
        key.as_str(),
        Secret::UserSigning,
    ) {
        Ok(seed) => seed,
        Err(error) => {
            return Err(error);
        },
    };
    Ok(Seeds { master, self_signing, user_signing })
}

/// Recovers this account's identity from the account data: where one can be
/// recovered now. What is missing is told apart from what cannot be read, and both
/// from a secret that is wrong.
pub fn recover_identity(
    secret: &str,
    account_data: &[AccountDataEntry],
    status: StatusAnswer,
) -> (result: Result<Seeds, MachineError>)
    ensures
        match recover_refusal(status) {
            Some(error) => result == Err::<Seeds, MachineError>(error),
            None => match result {
                Ok(seeds) => recovered(secret@, account_data@) == Ok::<RestoredSeeds, MachineError>(
                    RestoredSeeds {
                        master: seeds.master@,
                        self_signing: seeds.self_signing@,
                        user_signing: seeds.user_signing@,
                    },
                ),
                Err(error) => recovered(secret@, account_data@) == Err::<
                    RestoredSeeds,
                    MachineError,
                >(error),
            },
        },
{
    match check_recover_identity(status) {
        Ok(()) => open_recovery(secret, account_data),
        Err(error) => Err(error),
    }
}

/// What importing the recovered keys came to.
#[derive(Clone, Copy, Debug, PartialEq, Eq, Structural)]
pub enum KeyImport {
    /// There is no machine.
    NoMachine,
    /// The store refused.
    StoreRefused,
    /// The keys were refused.
    KeysRefused,
    /// The keys were taken, and the identity is complete with them or is not.
    Imported { complete: bool },
}

/// Reports what importing the recovered keys came to.
pub fn finish_recovery(import: KeyImport) -> (result: Result<(), MachineError>)
    ensures
        match import {
            KeyImport::NoMachine => result matches Err(error) && error is NotInitialised,
            KeyImport::StoreRefused => result matches Err(error) && is_store_failed(error),
            KeyImport::KeysRefused => result matches Err(error) && error is RecoveryDataMalformed,
            KeyImport::Imported { complete: false } => result matches Err(error)
                && error is RecoveryDataMalformed,
            KeyImport::Imported { complete: true } => result is Ok,
        },
{
    match import {
        KeyImport::NoMachine => Err(MachineError::NotInitialised),
        KeyImport::StoreRefused => Err(store_failed()),
        KeyImport::KeysRefused => Err(MachineError::RecoveryDataMalformed),
        KeyImport::Imported { complete } => if complete {
            Ok(())
        } else {
            Err(MachineError::RecoveryDataMalformed)
        },
    }
}

/// Whether the account data holds every event of a list, each as the first of
/// its type.
pub open spec fn holds(data: Seq<AccountDataEntry>, events: Seq<AccountDataEntry>) -> bool {
    forall|i: int|
        0 <= i < events.len() ==> first_content(data, (#[trigger] events[i]).event_type@) == Some(
            events[i].content@,
        )
}

/// A recovery that was written is recovered: once the account data holds what
/// was set up, the passphrase gives the private keys back, and so does the
/// recovery key, whatever else the account data holds.
pub proof fn law_what_is_set_up_is_recovered(
    setup: RecoverySetup,
    passphrase: Seq<char>,
    before: Seq<AccountDataEntry>,
    seeds: Seeds,
    after: Seq<AccountDataEntry>,
)
    requires
        recovers(setup, passphrase, before, seeds),
        holds(after, setup.account_data@),
    ensures
        recovered(passphrase, after) == Ok::<RestoredSeeds, MachineError>(
            RestoredSeeds {
                master: seeds.master@,
                self_signing: seeds.self_signing@,
                user_signing: seeds.user_signing@,
            },
        ),
        recovered(setup.recovery_key@, after) == recovered(passphrase, after),
{
    let events = setup.account_data@;
    let (key_id, description, sealed) = choose|
        key_id: Seq<char>,
        description: Seq<char>,
        sealed: Sealed,
    | #[trigger]
        recovers_with(setup, passphrase, before, seeds, key_id, description, sealed);
    assert(first_content(after, events[0].event_type@) == Some(events[0].content@));
    assert(first_content(after, events[1].event_type@) == Some(events[1].content@));
    assert(first_content(after, events[2].event_type@) == Some(events[2].content@));
    assert(first_content(after, events[3].event_type@) == Some(events[3].content@));
    assert(first_content(after, events[4].event_type@) == Some(events[4].content@));
    assert(pointed(after) == Some(key_id));
}

/// Whether a secret opens the storage key that the account data names.
pub open spec fn opens(secret: Seq<char>, data: Seq<AccountDataEntry>) -> bool {
    &&& pointed(data) matches Some(key_id)
    &&& first_content(data, key_type(key_id)) matches Some(description)
    &&& unlocked(secret, key_type(key_id), description) is Ok
}

/// Once the account data holds what was set up, a secret is reported as incorrect
/// exactly where it does not open the storage key: neither the passphrase nor the
/// recovery key is, and any other secret that does not open it is.
pub proof fn law_another_secret_is_incorrect(
    setup: RecoverySetup,
    passphrase: Seq<char>,
    before: Seq<AccountDataEntry>,
    seeds: Seeds,
    after: Seq<AccountDataEntry>,
    secret: Seq<char>,
)
    requires
        recovers(setup, passphrase, before, seeds),
        holds(after, setup.account_data@),
    ensures
        opens(passphrase, after),
        opens(setup.recovery_key@, after),
        (recovered(secret, after) == Err::<RestoredSeeds, MachineError>(
            MachineError::RecoveryKeyIncorrect,
        )) == !opens(secret, after),
{
    let events = setup.account_data@;
    let (key_id, description, sealed) = choose|
        key_id: Seq<char>,
        description: Seq<char>,
        sealed: Sealed,
    | #[trigger]
        recovers_with(setup, passphrase, before, seeds, key_id, description, sealed);
    assert(first_content(after, events[0].event_type@) == Some(events[0].content@));
    assert(first_content(after, events[4].event_type@) == Some(events[4].content@));
    assert(pointed(after) == Some(key_id));
    assert(unlocked(secret, key_type(key_id), description) is Ok || unlocked(
        secret,
        key_type(key_id),
        description,
    ) == Err::<Seq<char>, UnlockFault>(UnlockFault::Mac));
}

/// A description that cannot be read is the data's fault, whatever the secret: one
/// that is not JSON, and one that asks a passphrase for a key of an algorithm that
/// is not known.
pub proof fn law_an_unreadable_description_is_malformed(
    secret: Seq<char>,
    data: Seq<AccountDataEntry>,
    key_id: Seq<char>,
    description: Seq<char>,
)
    requires
        pointed(data) == Some(key_id),
        first_content(data, key_type(key_id)) == Some(description),
        raw_text(description) is None || names_unknown_algorithm(description),
    ensures
        recovered(secret, data) == Err::<RestoredSeeds, MachineError>(
            MachineError::RecoveryDataMalformed,
        ),
{
}

/// Whether the account data holds something for a private key under the key: a
/// ciphertext, or an event that cannot be read.
pub open spec fn is_present(data: Seq<AccountDataEntry>, key_id: Seq<char>, secret: Secret) -> bool {
    &&& first_content(data, secret_type(secret)) matches Some(content)
    &&& ciphertexts(content) matches Some(held) ==> held.contains_key(key_id)
}

/// Whether what the account data holds for a private key cannot be read, or is not
/// opened by the storage key.
pub open spec fn is_damaged(
    data: Seq<AccountDataEntry>,
    key_id: Seq<char>,
    key: Seq<char>,
    secret: Secret,
) -> bool {
    &&& first_content(data, secret_type(secret)) matches Some(content)
    &&& ciphertexts(content) matches Some(held) ==> held.contains_key(key_id) && unsealed(
        key,
        secret_type(secret),
        held[key_id],
    ) is None
}

/// Where the secret is right and nothing is missing, a private key that is damaged
/// is the data's fault.
pub proof fn law_damaged_data_is_malformed(
    secret: Seq<char>,
    data: Seq<AccountDataEntry>,
    key_id: Seq<char>,
    description: Seq<char>,
    key: Seq<char>,
    damaged: Secret,
)
    requires
        pointed(data) == Some(key_id),
        first_content(data, key_type(key_id)) == Some(description),
        unlocked_key(secret, key_type(key_id), description) == Ok::<Seq<char>, MachineError>(key),
        is_present(data, key_id, Secret::Master),
        is_present(data, key_id, Secret::SelfSigning),
        is_present(data, key_id, Secret::UserSigning),
        is_damaged(data, key_id, key, damaged),
    ensures
        recovered(secret, data) == Err::<RestoredSeeds, MachineError>(
            MachineError::RecoveryDataMalformed,
        ),
{
}

/// Account data that names no key, or not the description of the key it names, has
/// no recovery set up.
pub proof fn law_no_pointer_is_not_set_up(secret: Seq<char>, data: Seq<AccountDataEntry>)
    requires
        pointed(data) matches Some(key_id) ==> first_content(data, key_type(key_id)) is None,
    ensures
        recovered(secret, data) == Err::<RestoredSeeds, MachineError>(
            MachineError::RecoveryNotSetUp,
        ),
{
}

/// Where the secret is right and nothing is damaged, a private key that is missing
/// means that no recovery is set up.
pub proof fn law_a_missing_private_key_is_not_set_up(
    secret: Seq<char>,
    data: Seq<AccountDataEntry>,
    key_id: Seq<char>,
    description: Seq<char>,
    key: Seq<char>,
    missing: Secret,
)
    requires
        pointed(data) == Some(key_id),
        first_content(data, key_type(key_id)) == Some(description),
        unlocked_key(secret, key_type(key_id), description) == Ok::<Seq<char>, MachineError>(key),
        !is_present(data, key_id, missing),
        !is_damaged(data, key_id, key, Secret::Master),
        !is_damaged(data, key_id, key, Secret::SelfSigning),
        !is_damaged(data, key_id, key, Secret::UserSigning),
    ensures
        recovered(secret, data) == Err::<RestoredSeeds, MachineError>(
            MachineError::RecoveryNotSetUp,
        ),
{
}

/// Whether account data is what other account data becomes once events have been
/// written to it.
pub open spec fn is_written_over(
    after: Seq<AccountDataEntry>,
    before: Seq<AccountDataEntry>,
    events: Seq<AccountDataEntry>,
) -> bool {
    &&& holds(after, events)
    &&& forall|event_type: Seq<char>|
        (forall|i: int| 0 <= i < events.len() ==> (#[trigger] events[i]).event_type@ != event_type)
            ==> #[trigger] first_content(after, event_type) == first_content(before, event_type)
}

/// Whether account data is other account data without its pointer.
pub open spec fn is_without_pointer(
    given: Seq<AccountDataEntry>,
    account: Seq<AccountDataEntry>,
) -> bool {
    forall|event_type: Seq<char>|
        event_type != pointer_type() ==> #[trigger] first_content(given, event_type)
            == first_content(account, event_type)
}

/// The recovery that an account has works until the pointer of the next is written.
///
/// The next one is set up from the account data without its pointer, and its events
/// are written in their order. However many of them have been written, as long as
/// the last has not, the account data names the key that it named, holds the
/// description that it held, and every secret recovers what it recovered. Left out
/// are identifiers that were drawn twice, and ciphertexts of the old key that are
/// not carried over because their event cannot be read.
pub proof fn law_the_old_recovery_works_until_the_pointer_is_written(
    setup: RecoverySetup,
    passphrase: Seq<char>,
    given: Seq<AccountDataEntry>,
    seeds: Seeds,
    account: Seq<AccountDataEntry>,
    written: int,
    partway: Seq<AccountDataEntry>,
    old: Seq<char>,
    secret: Seq<char>,
)
    requires
        recovers(setup, passphrase, given, seeds),
        is_without_pointer(given, account),
        pointed(account) == Some(old),
        key_type(old) != setup.account_data@[0].event_type@,
        held_ciphertexts(account, Secret::Master).contains_key(old),
        held_ciphertexts(account, Secret::SelfSigning).contains_key(old),
        held_ciphertexts(account, Secret::UserSigning).contains_key(old),
        0 <= written <= 4,
        is_written_over(partway, account, setup.account_data@.take(written)),
        recovered(secret, account) is Ok,
    ensures
        pointed(partway) == Some(old),
        first_content(partway, key_type(old)) == first_content(account, key_type(old)),
        recovered(secret, partway) == recovered(secret, account),
{
    let events = setup.account_data@;
    let (key_id, description, sealed) = choose|
        key_id: Seq<char>,
        description: Seq<char>,
        sealed: Sealed,
    | #[trigger]
        recovers_with(setup, passphrase, given, seeds, key_id, description, sealed);
    let firsts = events.take(written);
    lemma_types_differ(key_id, Secret::Master);
    lemma_types_differ(key_id, Secret::SelfSigning);
    lemma_types_differ(key_id, Secret::UserSigning);
    lemma_types_differ(old, Secret::Master);
    lemma_types_differ(old, Secret::SelfSigning);
    lemma_types_differ(old, Secret::UserSigning);
    assert forall|i: int| 0 <= i < firsts.len() implies (#[trigger] firsts[i]).event_type@
        != pointer_type() && firsts[i].event_type@ != key_type(old) by {
        assert(firsts[i] == events[i]);
        assert(i == 0 || i == 1 || i == 2 || i == 3);
    }
    assert(first_content(partway, pointer_type()) == first_content(account, pointer_type()));
    assert(first_content(partway, key_type(old)) == first_content(account, key_type(old)));
    assert(old != key_id);
    let old_description = first_content(account, key_type(old))->0;
    let key = unlocked_key(secret, key_type(old), old_description)->Ok_0;
    lemma_seed_carries_over(
        account,
        given,
        firsts,
        partway,
        Secret::Master,
        1,
        events[1],
        key_id,
        sealed.master,
        old,
        key,
    );
    lemma_seed_carries_over(
        account,
        given,
        firsts,
        partway,
        Secret::SelfSigning,
        2,
        events[2],
        key_id,
        sealed.self_signing,
        old,
        key,
    );
    lemma_seed_carries_over(
        account,
        given,
        firsts,
        partway,
        Secret::UserSigning,
        3,
        events[3],
        key_id,
        sealed.user_signing,
        old,
        key,
    );
}

/// What a storage key restores of one private key, it restores once the event of
/// another recovery has been written over it, and as long as it has not.
proof fn lemma_seed_carries_over(
    account: Seq<AccountDataEntry>,
    given: Seq<AccountDataEntry>,
    firsts: Seq<AccountDataEntry>,
    partway: Seq<AccountDataEntry>,
    secret: Secret,
    at: int,
    event: AccountDataEntry,
    key_id: Seq<char>,
    ciphertext: Seq<char>,
    old: Seq<char>,
    key: Seq<char>,
)
    requires
        is_without_pointer(given, account),
        is_written_over(partway, account, firsts),
        is_secret_event(event, secret, given, key_id, ciphertext),
        keeps_what_is_held(given, secret),
        held_ciphertexts(account, secret).contains_key(old),
        old != key_id,
        at >= 0,
        at < firsts.len() ==> firsts[at] == event,
        at >= firsts.len() ==> forall|i: int|
            0 <= i < firsts.len() ==> (#[trigger] firsts[i]).event_type@ != secret_type(secret),
        restored_seed(account, old, key, secret) is Ok,
    ensures
        restored_seed(partway, old, key, secret) == restored_seed(account, old, key, secret),
{
    lemma_types_differ(key_id, secret);
    assert(first_content(given, secret_type(secret)) == first_content(
        account,
        secret_type(secret),
    ));
    if at < firsts.len() {
        assert(first_content(partway, firsts[at].event_type@) == Some(firsts[at].content@));
        let content = first_content(account, secret_type(secret))->0;
        let read = ciphertexts(content)->0;
        let held = held_ciphertexts(account, secret);
        let name = secret_type(secret);
        assert(unsealed(key, name, held[old]) == unsealed(key, name, read[old]));
    }
}

/// The account data that is nothing but a recovery holds it.
pub proof fn law_a_recovery_holds_itself(
    setup: RecoverySetup,
    passphrase: Seq<char>,
    before: Seq<AccountDataEntry>,
    seeds: Seeds,
)
    requires
        recovers(setup, passphrase, before, seeds),
    ensures
        holds(setup.account_data@, setup.account_data@),
{
    let events = setup.account_data@;
    let (key_id, description, sealed) = choose|
        key_id: Seq<char>,
        description: Seq<char>,
        sealed: Sealed,
    | #[trigger]
        recovers_with(setup, passphrase, before, seeds, key_id, description, sealed);
    lemma_types_differ(key_id, Secret::Master);
    lemma_types_differ(key_id, Secret::SelfSigning);
    lemma_types_differ(key_id, Secret::UserSigning);
    assert forall|i: int| 0 <= i < events.len() implies first_content(
        events,
        (#[trigger] events[i]).event_type@,
    ) == Some(events[i].content@) by {
        assert forall|j: int| 0 <= j < i implies (#[trigger] events[j]).event_type@
            != events[i].event_type@ by {
            assert(i == 1 || i == 2 || i == 3 || i == 4);
            assert(j == 0 || j == 1 || j == 2 || j == 3);
        }
        lemma_first_content_from(events, events[i].event_type@, i);
        assert(events.skip(i)[0] == events[i]);
    }
}

/// A recovery takes nothing away: what the account data held of a private key
/// under another key, the recovery's event of it holds as it was.
pub proof fn law_other_ciphertexts_are_kept(
    event: AccountDataEntry,
    secret: Secret,
    data: Seq<AccountDataEntry>,
    key_id: Seq<char>,
    ciphertext: Seq<char>,
    other: Seq<char>,
)
    requires
        is_secret_event(event, secret, data, key_id, ciphertext),
        held_ciphertexts(data, secret).contains_key(other),
        other != key_id,
    ensures
        ciphertexts(event.content@) matches Some(held) && held.contains_key(other) && held[other]
            == held_ciphertexts(data, secret)[other],
{
}

/// The account data names a key for the one call exactly where it does for the
/// other: where a recovery may be set up there is none to recover from.
pub proof fn law_where_one_may_be_set_up_there_is_none(
    secret: Seq<char>,
    data: Seq<AccountDataEntry>,
    status: StatusAnswer,
)
    requires
        create_refusal(data, status) is None,
    ensures
        recovered(secret, data) == Err::<RestoredSeeds, MachineError>(
            MachineError::RecoveryNotSetUp,
        ),
{
}

/// A recovery that was set up stands in the way of setting up another, whatever
/// the machine says of the account.
pub proof fn law_a_recovery_is_not_written_over(
    setup: RecoverySetup,
    passphrase: Seq<char>,
    before: Seq<AccountDataEntry>,
    seeds: Seeds,
    after: Seq<AccountDataEntry>,
    status: StatusAnswer,
)
    requires
        recovers(setup, passphrase, before, seeds),
        holds(after, setup.account_data@),
        status !is NoMachine,
    ensures
        create_refusal(after, status) == Some(MachineError::RecoveryAlreadyExists),
{
    let events = setup.account_data@;
    let (key_id, description, sealed) = choose|
        key_id: Seq<char>,
        description: Seq<char>,
        sealed: Sealed,
    | #[trigger]
        recovers_with(setup, passphrase, before, seeds, key_id, description, sealed);
    assert(first_content(after, events[4].event_type@) == Some(events[4].content@));
}

} // verus!
