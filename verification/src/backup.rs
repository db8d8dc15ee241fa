//! Backups: the key that opens one, the version it belongs to, and what a
//! downloaded one holds.

use matrix_sdk_common::ruma::api::client::backup::get_backup_keys::v3::Response as BackupKeysResponse;
use matrix_sdk_common::ruma::api::client::backup::{EncryptedSessionDataInit, KeyBackupData};
use matrix_sdk_common::ruma::api::IncomingResponse;
use matrix_sdk_common::ruma::exports::http;
use matrix_sdk_common::ruma::serde::Base64;
use matrix_sdk_crypto::backups::MegolmV1BackupKey;
use matrix_sdk_crypto::olm::ExportedRoomKey;
use matrix_sdk_crypto::store::types::BackupDecryptionKey;
use matrix_sdk_crypto::types::RoomKeyBackupInfo;
use vstd::prelude::*;
use vstd::std_specs::convert::FromSpecImpl;

use crate::machine::{MachineError, Trip};
use crate::requests::names;
use crate::text::{is_written_key, lemma_unspaced_again, same_text, unspaced};

verus! {

/// Why a backup call did not do what was asked.
#[derive(Clone, Copy, Debug, PartialEq, Eq, Structural)]
pub enum BackupError {
    /// A key or a version could not be parsed.
    MalformedIdentifier,
    /// A version description or a download could not be parsed.
    MalformedPayload,
    /// There is no machine.
    NotInitialised,
    /// The machine, or the store behind it, refused.
    Failed,
    /// The key is a key, and opens nothing of this backup.
    WrongKey,
}

/// The text of a backup error.
pub open spec fn backup_message(error: BackupError) -> Seq<char> {
    match error {
        BackupError::MalformedIdentifier => "an identifier could not be parsed"@,
        BackupError::MalformedPayload => "the payload could not be parsed"@,
        BackupError::NotInitialised => "no crypto machine has been created"@,
        BackupError::Failed => "the crypto operation failed"@,
        BackupError::WrongKey => "that key does not open this backup"@,
    }
}

impl BackupError {
    /// The text of the error.
    pub fn message(self) -> (message: &'static str)
        ensures
            message@ == backup_message(self),
    {
        match self {
            BackupError::MalformedIdentifier => "an identifier could not be parsed",
            BackupError::MalformedPayload => "the payload could not be parsed",
            BackupError::NotInitialised => "no crypto machine has been created",
            BackupError::Failed => "the crypto operation failed",
            BackupError::WrongKey => "that key does not open this backup",
        }
    }
}

impl From<MachineError> for BackupError {
    fn from(_error: MachineError) -> (converted: BackupError) {
        BackupError::NotInitialised
    }
}

impl FromSpecImpl<MachineError> for BackupError {
    open spec fn obeys_from_spec() -> bool {
        true
    }

    open spec fn from_spec(_error: MachineError) -> BackupError {
        BackupError::NotInitialised
    }
}

/// A new backup: the key that opens it, the key that seals it, and what to tell
/// the homeserver about it.
#[derive(Clone, PartialEq, Eq)]
pub struct BackupSetup {
    /// What opens the backup. A person keeps it.
    pub restore_key: String,
    /// What seals keys into the backup. It opens nothing.
    pub sealing_key: String,
    /// The description of the backup's version, as JSON.
    pub version_request: String,
}

/// How far a backup has got.
#[derive(Clone, Debug, PartialEq, Eq)]
pub struct BackupState {
    pub enabled: bool,
    pub version: Option<String>,
    /// How many keys there are.
    pub total: u32,
    /// How many of them have been backed up.
    pub backed_up: u32,
}

/// What an import took in.
#[derive(Clone, Copy, Debug, PartialEq, Eq, Structural)]
pub struct BackupImport {
    /// How many keys were offered.
    pub offered: u32,
    /// How many of them were new.
    pub imported: u32,
}

/// The key that a text without white space writes down.
pub uninterp spec fn compact_key(text: Seq<char>) -> Option<Seq<u8>>;

/// The key that a text writes down. White space in it is of no account.
pub open spec fn backup_key(text: Seq<char>) -> Option<Seq<u8>> {
    compact_key(unspaced(text))
}

/// A key, written down.
pub uninterp spec fn backup_key_text(key: Seq<u8>) -> Seq<char>;

/// The public half of a key, which seals what the key opens.
pub uninterp spec fn public_key(key: Seq<u8>) -> Seq<char>;

/// Whether a text is a public key.
pub uninterp spec fn is_public_key(text: Seq<char>) -> bool;

/// What a version description says of the key it was made for.
pub enum VersionKey {
    /// The public half.
    Public(Seq<char>),
    /// Nothing, in an algorithm that is not known here.
    Unknown,
}

/// What a text says as a version description.
pub uninterp spec fn version_key(text: Seq<char>) -> Option<VersionKey>;

/// Draws a key with `BackupDecryptionKey::new`.
///
/// Trusted: nothing. The key is drawn at random.
#[verifier::external_body]
fn fresh_key() -> [u8; 32] {
    *BackupDecryptionKey::new().as_bytes()
}

/// Reads a written-down key with `BackupDecryptionKey::from_base58`.
///
/// Trusted: white space is taken out of the text, and what is read is a function of
/// what is left alone, named [`compact_key`].
#[verifier::external_body]
fn read_key(text: &str) -> (key: Option<[u8; 32]>)
    ensures
        match key {
            Some(key) => compact_key(unspaced(text@)) == Some(key@),
            None => compact_key(unspaced(text@)) is None,
        },
{
    Some(*BackupDecryptionKey::from_base58(text).ok()?.as_bytes())
}

/// Writes a key down with the `Display` of `BackupDecryptionKey`.
///
/// Trusted: the text is a function of the key alone, named [`backup_key_text`],
/// it is base58 in groups of four characters, and reading it gives the key back.
/// The prefix that comes before the key makes it 48 characters, whatever the key.
#[verifier::external_body]
fn write_key(key: &[u8; 32]) -> (text: String)
    ensures
        text@ == backup_key_text(key@),
        is_written_key(text@),
        compact_key(unspaced(text@)) == Some(key@),
{
    BackupDecryptionKey::from_bytes(key).to_string()
}

/// Writes the public half of a key with `megolm_v1_public_key` and `to_base64`.
///
/// Trusted: the text is a function of the key alone, named [`public_key`], and it
/// is a public key.
#[verifier::external_body]
fn write_public_key(key: &[u8; 32]) -> (text: String)
    ensures
        text@ == public_key(key@),
        is_public_key(text@),
{
    BackupDecryptionKey::from_bytes(key).megolm_v1_public_key().to_base64()
}

/// Reads a public key with `MegolmV1BackupKey::from_base64`.
///
/// Trusted: whether it is accepted is a function of the text alone, named
/// [`is_public_key`].
#[verifier::external_body]
fn reads_as_public_key(text: &str) -> (answer: bool)
    ensures
        answer == is_public_key(text@),
{
    MegolmV1BackupKey::from_base64(text).is_ok()
}

/// Describes the version of a backup with `to_backup_info`, written with
/// `serde_json::to_string`.
///
/// Trusted: what is written says, read as a version description, what the public
/// half of the key is. Writing it does not fail: it is an object of texts.
#[verifier::external_body]
fn describe_version(key: &[u8; 32]) -> (text: String)
    ensures
        version_key(text@) == Some(VersionKey::Public(public_key(key@))),
{
    serde_json::to_string(&BackupDecryptionKey::from_bytes(key).to_backup_info())
        .expect("a backup version description built from a fresh key cannot fail to serialise")
}

/// Holds a key against a version description with `backup_key_matches`, the
/// description read with `serde_json` as `RoomKeyBackupInfo`.
///
/// Trusted: what the description says is a function of the text alone, named
/// [`version_key`]; the key matches where that is its public half, and only
/// there.
#[verifier::external_body]
fn key_matches(key: &[u8; 32], version_info: &str) -> (answer: Option<bool>)
    ensures
        match answer {
            Some(answer) => version_key(version_info@) is Some && answer == (version_key(
                version_info@,
            ) == Some(VersionKey::Public(public_key(key@)))),
            None => version_key(version_info@) is None,
        },
{
    let info = serde_json::from_str::<RoomKeyBackupInfo>(version_info).ok()?;
    Some(BackupDecryptionKey::from_bytes(key).backup_key_matches(&info))
}

/// Whether a setup hangs together: its restore key is a key, written down in
/// groups, its sealing key is that key's public half, and its version description
/// says so.
pub open spec fn is_backup_setup(setup: BackupSetup) -> bool {
    backup_key(setup.restore_key@) matches Some(key) && {
        &&& setup.restore_key@ == backup_key_text(key)
        &&& is_written_key(setup.restore_key@)
        &&& setup.sealing_key@ == public_key(key)
        &&& is_public_key(setup.sealing_key@)
        &&& version_key(setup.version_request@) == Some(VersionKey::Public(public_key(key)))
    }
}

/// Makes a new backup, under a key drawn for it.
pub fn create_backup() -> (setup: BackupSetup)
    ensures
        is_backup_setup(setup),
{
    let key: [u8; 32] = fresh_key();
    backup_under(&key)
}

/// The backup that a key makes.
pub fn backup_under(key: &[u8; 32]) -> (setup: BackupSetup)
    ensures
        is_backup_setup(setup),
        backup_key(setup.restore_key@) == Some(key@),
{
    BackupSetup {
        restore_key: write_key(key),
        sealing_key: write_public_key(key),
        version_request: describe_version(key),
    }
}

/// Reads a restore key.
fn parse_restore_key(restore_key: &str) -> (result: Result<[u8; 32], BackupError>)
    ensures
        match result {
            Ok(key) => backup_key(restore_key@) == Some(key@),
            Err(error) => backup_key(restore_key@) is None && error is MalformedIdentifier,
        },
{
    match read_key(restore_key) {
        Some(key) => Ok(key),
        None => Err(BackupError::MalformedIdentifier),
    }
}

/// Whether a restore key belongs to the backup of a version, as a model.
pub open spec fn matched(restore_key: Seq<char>, version_info: Seq<char>) -> Result<
    bool,
    BackupError,
> {
    match backup_key(restore_key) {
        None => Err(BackupError::MalformedIdentifier),
        Some(key) => match version_key(version_info) {
            None => Err(BackupError::MalformedPayload),
            Some(wanted) => Ok(wanted == VersionKey::Public(public_key(key))),
        },
    }
}

/// Whether a restore key belongs to the backup of a version.
///
/// A text that is no key is told apart from a key for another backup, and both
/// from a description that is none. A version in an algorithm that is not known
/// here belongs to no key.
pub fn restore_key_matches(restore_key: &str, version_info: &str) -> (result: Result<
    bool,
    BackupError,
>)
    ensures
        result == matched(restore_key@, version_info@),
{
    let key: [u8; 32] = match parse_restore_key(restore_key) {
        Ok(key) => key,
        Err(error) => {
            return Err(error);
        },
    };
    match key_matches(&key, version_info) {
        Some(answer) => Ok(answer),
        None => Err(BackupError::MalformedPayload),
    }
}

/// The key a backup is made with belongs to the version it is made with.
pub proof fn law_a_backup_matches_its_own_version(setup: BackupSetup)
    requires
        is_backup_setup(setup),
    ensures
        matched(setup.restore_key@, setup.version_request@) == Ok::<bool, BackupError>(true),
{
}

/// White space in a restore key is of no account: two texts that differ in nothing
/// else are the same restore key to every call that takes one.
pub proof fn law_white_space_in_a_restore_key_is_of_no_account(
    a: Seq<char>,
    b: Seq<char>,
    version_info: Seq<char>,
    version: Seq<char>,
    text: Seq<char>,
)
    requires
        unspaced(a) == unspaced(b),
    ensures
        matched(a, version_info) == matched(b, version_info),
        opened_backup(a, version, text) == opened_backup(b, version, text),
{
}

/// A restore key without its white space is the restore key.
pub proof fn law_a_restore_key_needs_no_white_space(
    restore_key: Seq<char>,
    version_info: Seq<char>,
    version: Seq<char>,
    text: Seq<char>,
)
    ensures
        matched(unspaced(restore_key), version_info) == matched(restore_key, version_info),
        opened_backup(unspaced(restore_key), version, text) == opened_backup(
            restore_key,
            version,
            text,
        ),
{
    lemma_unspaced_again(restore_key);
}

/// What the machine is asked to back up with.
pub struct EnableCall {
    pub sealing_key: String,
    pub version: String,
}

/// Checks what the machine is to back up with. A version has to be named: the
/// machine would take none, and then back up nothing.
pub fn enable_backup(sealing_key: &str, version: &str) -> (result: Result<EnableCall, BackupError>)
    ensures
        match result {
            Ok(call) => {
                &&& version@.len() > 0
                &&& is_public_key(sealing_key@)
                &&& call.sealing_key@ == sealing_key@
                &&& call.version@ == version@
            },
            Err(error) => {
                &&& version@.len() == 0 || !is_public_key(sealing_key@)
                &&& error is MalformedIdentifier
            },
        },
{
    if version.is_empty() {
        return Err(BackupError::MalformedIdentifier);
    }
    if !reads_as_public_key(sealing_key) {
        return Err(BackupError::MalformedIdentifier);
    }
    Ok(EnableCall { sealing_key: sealing_key.to_owned(), version: version.to_owned() })
}

/// Whether a running backup has to be stopped before another is started: where
/// one runs and it is of another version. What was counted towards that one must
/// not be counted towards this one.
pub fn must_disable_first(current: Option<&str>, version: &str) -> (answer: bool)
    ensures
        answer == (current matches Some(current) && current@ != version@),
{
    match current {
        Some(current) => !same_text(current, version),
        None => false,
    }
}

/// What a change of the running backup is reported as.
pub open spec fn reported_change(outcome: Trip<()>) -> Result<(), BackupError> {
    match outcome {
        Trip::NoMachine => Err(BackupError::NotInitialised),
        Trip::Refused => Err(BackupError::Failed),
        Trip::Done(()) => Ok(()),
    }
}

/// Reports what became of starting a backup.
pub fn report_enabling(outcome: Trip<()>) -> (result: Result<(), BackupError>)
    ensures
        result == reported_change(outcome),
{
    match outcome {
        Trip::NoMachine => Err(BackupError::from(MachineError::NotInitialised)),
        Trip::Refused => Err(BackupError::Failed),
        Trip::Done(()) => Ok(()),
    }
}

/// Reports what became of stopping a backup.
pub fn disable_backup(outcome: Trip<()>) -> (result: Result<(), BackupError>)
    ensures
        result == reported_change(outcome),
{
    report_enabling(outcome)
}

/// What the machine says of its backup.
pub struct BackupReading {
    pub enabled: bool,
    pub version: Option<String>,
    /// How many keys there are and how many have been backed up, unless the store
    /// would not say.
    pub counts: Option<(usize, usize)>,
}

/// How far the backup has got, as a model. Where the store would not say how many
/// keys there are, nothing is reported.
pub open spec fn reported_state(reading: Trip<BackupReading>) -> Result<BackupState, BackupError> {
    match reading {
        Trip::NoMachine => Err(BackupError::NotInitialised),
        Trip::Refused => Err(BackupError::Failed),
        Trip::Done(BackupReading { counts: None, .. }) => Err(BackupError::Failed),
        Trip::Done(BackupReading { enabled, version, counts: Some((total, backed_up)) }) => Ok(
            BackupState { enabled, version, total: total as u32, backed_up: backed_up as u32 },
        ),
    }
}

/// How far the backup has got.
pub fn backup_state(reading: Trip<BackupReading>) -> (result: Result<BackupState, BackupError>)
    ensures
        result == reported_state(reading),
{
    match reading {
        Trip::NoMachine => Err(BackupError::from(MachineError::NotInitialised)),
        Trip::Refused => Err(BackupError::Failed),
        Trip::Done(reading) => match reading.counts {
            None => Err(BackupError::Failed),
            Some((total, backed_up)) => Ok(
                BackupState {
                    enabled: reading.enabled,
                    version: reading.version,
                    total: #[verifier::truncate]
                    (total as u32),
                    backed_up: #[verifier::truncate]
                    (backed_up as u32),
                },
            ),
        },
    }
}

/// A backup that runs is reported with its version as it was given, and one that
/// does not run without any. No more keys are reported as backed up than there
/// are, as long as 32 bits can count them.
pub proof fn law_what_runs_is_what_is_reported(
    call: EnableCall,
    reading: BackupReading,
    total: usize,
    backed_up: usize,
)
    requires
        reading.counts == Some((total, backed_up)),
        backed_up <= total <= u32::MAX,
        if reading.enabled {
            reading.version == Some(call.version)
        } else {
            reading.version is None
        },
    ensures
        reported_state(Trip::Done(reading)) matches Ok(state) && {
            &&& state.enabled == reading.enabled
            &&& state.version == (if reading.enabled {
                Some(call.version)
            } else {
                None
            })
            &&& state.total == total
            &&& state.backed_up == backed_up
            &&& state.backed_up <= state.total
        },
{
}

/// One session of a downloaded backup.
pub struct BackedUpSession {
    pub room_id: String,
    pub session_id: String,
    /// The entry, as JSON.
    pub entry: String,
}

/// The same, as a model.
pub struct SessionModel {
    pub room_id: Seq<char>,
    pub session_id: Seq<char>,
    pub entry: Seq<char>,
}

/// What a session is as a model.
pub open spec fn session_model(session: BackedUpSession) -> SessionModel {
    SessionModel {
        room_id: session.room_id@,
        session_id: session.session_id@,
        entry: session.entry@,
    }
}

/// What a list of sessions is as a model.
pub open spec fn session_models(list: Seq<BackedUpSession>) -> Seq<SessionModel> {
    list.map_values(|s: BackedUpSession| session_model(s))
}

/// The sealed part of an entry.
pub struct SealedSession {
    pub ephemeral: Vec<u8>,
    pub ciphertext: Vec<u8>,
    pub mac: Vec<u8>,
}

/// The same, as a model.
pub struct SealedModel {
    pub ephemeral: Seq<u8>,
    pub ciphertext: Seq<u8>,
    pub mac: Seq<u8>,
}

impl View for SealedSession {
    type V = SealedModel;

    open spec fn view(&self) -> SealedModel {
        SealedModel { ephemeral: self.ephemeral@, ciphertext: self.ciphertext@, mac: self.mac@ }
    }
}

/// The sessions that a download holds, by scope and within it by session.
pub uninterp spec fn downloaded(text: Seq<char>) -> Option<Seq<SessionModel>>;

/// The sealed part of an entry, if the entry reads as one.
pub uninterp spec fn sealed_part(entry: Seq<char>) -> Option<SealedModel>;

/// The key of a session that a backup key opens, as the JSON of an exported key.
pub uninterp spec fn opened_session(
    key: Seq<u8>,
    room_id: Seq<char>,
    session_id: Seq<char>,
    sealed: SealedModel,
) -> Option<Seq<char>>;

/// Reads a download with `try_from_http_response` of `ruma`'s response to the
/// request for all the keys of a backup.
///
/// Trusted: what is read is a function of the text alone, named [`downloaded`].
#[verifier::external_body]
fn read_download(text: &str) -> (list: Option<Vec<BackedUpSession>>)
    ensures
        match list {
            Some(list) => downloaded(text@) == Some(session_models(list@)),
            None => downloaded(text@) is None,
        },
{
    let response = http::Response::new(text.as_bytes().to_vec());
    let mut list = Vec::new();
    for (room_id, backup) in BackupKeysResponse::try_from_http_response(response).ok()?.rooms {
        for (session_id, entry) in backup.sessions {
            let entry = entry.json().get().to_owned();
            list.push(BackedUpSession { room_id: room_id.to_string(), session_id, entry });
        }
    }
    Some(list)
}

/// Reads an entry with `serde_json` as `ruma`'s `KeyBackupData`.
///
/// Trusted: what is read is a function of the text alone, named [`sealed_part`].
#[verifier::external_body]
fn read_entry(entry: &str) -> (sealed: Option<SealedSession>)
    ensures
        match sealed {
            Some(sealed) => sealed_part(entry@) == Some(sealed@),
            None => sealed_part(entry@) is None,
        },
{
    let data = serde_json::from_str::<KeyBackupData>(entry).ok()?.session_data;
    Some(
        SealedSession {
            ephemeral: data.ephemeral.into_inner(),
            ciphertext: data.ciphertext.into_inner(),
            mac: data.mac.into_inner(),
        },
    )
}

/// Opens a session with `BackupDecryptionKey::decrypt_session_data`, and writes it
/// as an `ExportedRoomKey` of its scope and session with `serde_json`.
///
/// Trusted: what comes out, if anything does, is a function of the key, the scope,
/// the session and the sealed part alone, named [`opened_session`].
#[verifier::external_body]
fn open_session(key: &[u8; 32], room_id: &str, session_id: &str, sealed: SealedSession) -> (opened:
    Option<String>)
    ensures
        match opened {
            Some(opened) => opened_session(key@, room_id@, session_id@, sealed@) == Some(opened@),
            None => opened_session(key@, room_id@, session_id@, sealed@) is None,
        },
{
    let data = EncryptedSessionDataInit {
        ephemeral: Base64::new(sealed.ephemeral),
        ciphertext: Base64::new(sealed.ciphertext),
        mac: Base64::new(sealed.mac),
    };
    let key = BackupDecryptionKey::from_bytes(key).decrypt_session_data(data.into()).ok()?;
    let (room_id, session_id) = (room_id.parse().ok()?, session_id.to_owned());
    serde_json::to_string(&ExportedRoomKey::from_backed_up_room_key(room_id, session_id, key)).ok()
}

/// Whether an entry reads as one.
pub open spec fn is_readable(session: SessionModel) -> bool {
    sealed_part(session.entry) is Some
}

/// What a key opens of one session.
pub open spec fn opens(key: Seq<u8>, session: SessionModel) -> Option<Seq<char>> {
    match sealed_part(session.entry) {
        Some(sealed) => opened_session(key, session.room_id, session.session_id, sealed),
        None => None,
    }
}

/// How many sessions there are, as far as 32 bits can count.
pub open spec fn counted(n: nat) -> u32 {
    if n <= u32::MAX {
        n as u32
    } else {
        u32::MAX
    }
}

/// What a key opens of a list of sessions, in their order.
pub open spec fn all_opened(key: Seq<u8>, sessions: Seq<SessionModel>) -> Seq<Seq<char>> {
    sessions.filter_map(|s: SessionModel| opens(key, s))
}

/// Whether any entry reads as one.
pub open spec fn any_readable(sessions: Seq<SessionModel>) -> bool {
    exists|i: int| 0 <= i < sessions.len() && is_readable(#[trigger] sessions[i])
}

/// What opening a downloaded backup comes to, as a model: the number of sessions
/// offered and the keys that were opened.
///
/// Where entries can be read and not one opens, the key is the wrong one. Where
/// there are entries and not one can be read, it is the download that is at
/// fault. A backup with nothing in it is neither.
pub open spec fn opened_backup(restore_key: Seq<char>, version: Seq<char>, text: Seq<char>) -> Result<
    (u32, Seq<Seq<char>>),
    BackupError,
> {
    if version.len() == 0 {
        Err(BackupError::MalformedIdentifier)
    } else {
        match backup_key(restore_key) {
            None => Err(BackupError::MalformedIdentifier),
            Some(key) => match downloaded(text) {
                None => Err(BackupError::MalformedPayload),
                Some(sessions) => if any_readable(sessions) && all_opened(key, sessions).len() == 0 {
                    Err(BackupError::WrongKey)
                } else if sessions.len() > 0 && !any_readable(sessions) {
                    Err(BackupError::MalformedPayload)
                } else {
                    Ok((counted(sessions.len()), all_opened(key, sessions)))
                },
            },
        }
    }
}

/// A downloaded backup, opened.
pub struct OpenedBackup {
    /// How many sessions were offered.
    pub offered: u32,
    /// The version the keys belong to.
    pub version: String,
    /// The keys that were opened, each as the JSON of an exported key.
    pub keys: Vec<String>,
}

/// Reads a download.
pub fn parse_download(keys: &str) -> (result: Result<Vec<BackedUpSession>, BackupError>)
    ensures
        match result {
            Ok(list) => downloaded(keys@) == Some(session_models(list@)),
            Err(error) => downloaded(keys@) is None && error is MalformedPayload,
        },
{
    match read_download(keys) {
        Some(list) => Ok(list),
        None => Err(BackupError::MalformedPayload),
    }
}

/// Opens a downloaded backup, ready for the machine to import.
///
/// One entry that cannot be read, or that the key does not open, does not stand
/// in the way of the others.
pub fn restore_backup(restore_key: &str, version: &str, keys: &str) -> (result: Result<
    OpenedBackup,
    BackupError,
>)
    ensures
        match result {
            Ok(opened) => opened_backup(restore_key@, version@, keys@) == Ok::<
                (u32, Seq<Seq<char>>),
                BackupError,
            >((opened.offered, names(opened.keys@))) && opened.version@ == version@,
            Err(error) => opened_backup(restore_key@, version@, keys@) == Err::<
                (u32, Seq<Seq<char>>),
                BackupError,
            >(error),
        },
{
    if version.is_empty() {
        return Err(BackupError::MalformedIdentifier);
    }
    let key: [u8; 32] = match parse_restore_key(restore_key) {
        Ok(key) => key,
        Err(error) => {
            return Err(error);
        },
    };
    let list: Vec<BackedUpSession> = match parse_download(keys) {
        Ok(list) => list,
        Err(error) => {
            return Err(error);
        },
    };
    let ghost sessions = session_models(list@);
    let ghost wanted = |s: SessionModel| opens(key@, s);
    let mut offered: u32 = 0;
    let mut tried: u32 = 0;
    let mut opened: Vec<String> = Vec::new();
    let mut i: usize = 0;
    proof {
        assert(sessions.take(0) =~= Seq::<SessionModel>::empty());
        reveal_with_fuel(Seq::filter_map, 1);
        assert(names(opened@) =~= sessions.take(0).filter_map(wanted));
    }
    while i < list.len()
        invariant
            i <= list@.len(),
            sessions == session_models(list@),
            wanted == (|s: SessionModel| opens(key@, s)),
            offered == counted(i as nat),
            (tried > 0) == (exists|j: int| 0 <= j < i && is_readable(#[trigger] sessions[j])),
            names(opened@) == sessions.take(i as int).filter_map(wanted),
        decreases list@.len() - i,
    {
        let session: &BackedUpSession = &list[i];
        let ghost model = sessions[i as int];
        let ghost before = names(opened@);
        proof {
            assert(model == session_model(*session));
            sessions.lemma_filter_map_take_succ(wanted, i as int);
        }
        offered = offered.saturating_add(1);
        if let Some(sealed) = read_entry(session.entry.as_str()) {
            assert(is_readable(sessions[i as int]));
            tried = tried.saturating_add(1);
            if let Some(one) = open_session(
                &key,
                session.room_id.as_str(),
                session.session_id.as_str(),
                sealed,
            ) {
                opened.push(one);
                assert(names(opened@) =~= before.push(one@));
                assert(wanted(model) == Some(one@));
            } else {
                assert(wanted(model) is None);
            }
        } else {
            assert(wanted(model) is None);
        }
        proof {
            assert(names(opened@) =~= sessions.take(i + 1).filter_map(wanted));
        }
        i = i + 1;
    }
    assert(sessions.take(i as int) =~= sessions);
    if tried > 0 && opened.len() == 0 {
        return Err(BackupError::WrongKey);
    }
    if offered > 0 && tried == 0 {
        return Err(BackupError::MalformedPayload);
    }
    Ok(OpenedBackup { offered, version: version.to_owned(), keys: opened })
}

/// What an import came to: the number that were offered, and the number that the
/// machine found to be new.
pub fn report_import(offered: u32, imported: Trip<usize>) -> (result: Result<
    BackupImport,
    BackupError,
>)
    ensures
        match imported {
            Trip::NoMachine => result == Err::<BackupImport, BackupError>(
                BackupError::NotInitialised,
            ),
            Trip::Refused => result == Err::<BackupImport, BackupError>(BackupError::Failed),
            Trip::Done(count) => result == Ok::<BackupImport, BackupError>(
                BackupImport { offered, imported: count as u32 },
            ),
        },
{
    match imported {
        Trip::NoMachine => Err(BackupError::from(MachineError::NotInitialised)),
        Trip::Refused => Err(BackupError::Failed),
        Trip::Done(count) => Ok(
            BackupImport {
                offered,
                imported: #[verifier::truncate]
                (count as u32),
            },
        ),
    }
}

/// The three ways in which a download opens to nothing are told apart: a backup
/// with nothing in it opens, one of which nothing can be read is malformed, and
/// one of which something can be read and nothing opened has another key.
pub proof fn law_opening_to_nothing_is_told_apart(
    restore_key: Seq<char>,
    version: Seq<char>,
    text: Seq<char>,
)
    requires
        version.len() > 0,
        backup_key(restore_key) is Some,
        downloaded(text) is Some,
        all_opened(backup_key(restore_key)->0, downloaded(text)->0).len() == 0,
    ensures
        downloaded(text)->0.len() == 0 <==> opened_backup(restore_key, version, text) is Ok,
        any_readable(downloaded(text)->0) <==> opened_backup(restore_key, version, text) == Err::<
            (u32, Seq<Seq<char>>),
            BackupError,
        >(BackupError::WrongKey),
        downloaded(text)->0.len() > 0 && !any_readable(downloaded(text)->0) <==> opened_backup(
            restore_key,
            version,
            text,
        ) == Err::<(u32, Seq<Seq<char>>), BackupError>(BackupError::MalformedPayload),
{
}

proof fn lemma_nothing_opens(key: Seq<u8>, sessions: Seq<SessionModel>)
    requires
        !any_readable(sessions),
    ensures
        all_opened(key, sessions).len() == 0,
    decreases sessions.len(),
{
    reveal_with_fuel(Seq::filter_map, 2);
    if sessions.len() > 0 {
        let shorter = sessions.drop_last();
        assert(!any_readable(shorter)) by {
            if any_readable(shorter) {
                let i = choose|i: int| 0 <= i < shorter.len() && is_readable(#[trigger] shorter[i]);
                assert(is_readable(sessions[i]));
            }
        }
        lemma_nothing_opens(key, shorter);
        assert(!is_readable(sessions[sessions.len() - 1]));
    }
}

/// What opens is never refused: where the key opens a session, the download
/// opens, whatever else it holds.
pub proof fn law_what_opens_is_not_refused(
    restore_key: Seq<char>,
    version: Seq<char>,
    text: Seq<char>,
)
    requires
        version.len() > 0,
        backup_key(restore_key) is Some,
        downloaded(text) is Some,
        all_opened(backup_key(restore_key)->0, downloaded(text)->0).len() > 0,
    ensures
        opened_backup(restore_key, version, text) is Ok,
{
    if !any_readable(downloaded(text)->0) {
        lemma_nothing_opens(backup_key(restore_key)->0, downloaded(text)->0);
    }
}

} // verus!
