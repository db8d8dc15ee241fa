//! What holds of backups.

use vstd::prelude::*;
use vstd::std_specs::convert::FromSpec;

use crate::backup::{all_opened, backup_key_text, backup_state, backup_under, compact_key,
    create_backup, disable_backup, downloaded, enable_backup, is_public_key, is_readable,
    must_disable_first, opened_session, opens, parse_download, public_key, report_enabling,
    report_import, restore_backup, restore_key_matches, sealed_part, session_models, version_key,
    BackedUpSession, BackupError, BackupImport, BackupReading, BackupSetup, BackupState, EnableCall,
    OpenedBackup, SessionModel, VersionKey};
use crate::machine::{MachineError, Trip};
use crate::recovery_laws::{is_key_character, is_twelve_groups};
use crate::requests::names;
use crate::session_laws::lemma_low_bits;
use crate::text::{is_written_key, unspaced};

verus! {

/// Whether a key opens a session of a download, and this is the key that comes out.
pub open spec fn opens_to(key: Seq<u8>, session: SessionModel, opened: Seq<char>) -> bool {
    sealed_part(session.entry) matches Some(sealed) && opened_session(
        key,
        session.room_id,
        session.session_id,
        sealed,
    ) == Some(opened)
}

/// Whether a key opens a session of a download.
pub open spec fn is_opened(key: Seq<u8>, session: SessionModel) -> bool {
    sealed_part(session.entry) matches Some(sealed) && opened_session(
        key,
        session.room_id,
        session.session_id,
        sealed,
    ) is Some
}

/// Whether an entry of a download can be read.
pub open spec fn can_be_read(session: SessionModel) -> bool {
    sealed_part(session.entry) is Some
}

/// Whether these are the numbers of the sessions that a key opens, all of them and
/// in their order.
pub open spec fn are_the_opened(key: Seq<u8>, sessions: Seq<SessionModel>, at: Seq<int>) -> bool {
    &&& forall|k: int, l: int| 0 <= k < l < at.len() ==> #[trigger] at[k] < #[trigger] at[l]
    &&& forall|k: int|
        0 <= k < at.len() ==> 0 <= #[trigger] at[k] < sessions.len() && is_opened(
            key,
            sessions[at[k]],
        )
    &&& forall|i: int|
        0 <= i < sessions.len() && is_opened(key, #[trigger] sessions[i]) ==> at.contains(i)
}

proof fn lemma_opened_at(key: Seq<u8>, sessions: Seq<SessionModel>) -> (at: Seq<int>)
    ensures
        are_the_opened(key, sessions, at),
        at.len() == all_opened(key, sessions).len(),
        forall|k: int|
            0 <= k < at.len() ==> opens_to(
                key,
                sessions[#[trigger] at[k]],
                all_opened(key, sessions)[k],
            ),
    decreases sessions.len(),
{
    reveal_with_fuel(Seq::filter_map, 2);
    if sessions.len() == 0 {
        Seq::empty()
    } else {
        let shorter = sessions.drop_last();
        let last = sessions.last();
        let n = shorter.len() as int;
        let below = lemma_opened_at(key, shorter);
        assert(sessions[n] == last);
        let at = if is_opened(key, last) {
            below.push(n)
        } else {
            below
        };
        assert forall|k: int| 0 <= k < at.len() implies 0 <= #[trigger] at[k] < sessions.len()
            && is_opened(key, sessions[at[k]]) by {
            if k < below.len() {
                assert(at[k] == below[k]);
                assert(shorter[below[k]] == sessions[below[k]]);
            }
        }
        assert forall|k: int, l: int| 0 <= k < l < at.len() implies #[trigger] at[k]
            < #[trigger] at[l] by {
            assert(at[k] == below[k]);
            if l < below.len() {
                assert(at[l] == below[l]);
            }
        }
        assert forall|i: int|
            0 <= i < sessions.len() && is_opened(key, #[trigger] sessions[i]) implies
            at.contains(i) by {
            if i < n {
                assert(shorter[i] == sessions[i]);
                let k = choose|k: int| 0 <= k < below.len() && below[k] == i;
                assert(at[k] == i);
            } else {
                assert(at[at.len() - 1] == i);
            }
        }
        let opened = all_opened(key, sessions);
        let fewer = all_opened(key, shorter);
        assert(opened == (match opens(key, last) {
            Some(one) => fewer.push(one),
            None => fewer,
        }));
        assert forall|k: int| 0 <= k < at.len() implies opens_to(
            key,
            sessions[#[trigger] at[k]],
            opened[k],
        ) by {
            if k < below.len() {
                assert(at[k] == below[k]);
                assert(shorter[below[k]] == sessions[below[k]]);
            }
        }
        at
    }
}

/// What a download opens to: the key of every session that the restore key opens,
/// each of them once and in the order of the download, and of no other session. All
/// the sessions count as offered, as far as 32 bits can count.
pub proof fn law_a_backup_opens_to_all_that_its_key_opens(
    restore_key: &str,
    version: &str,
    keys: &str,
    opened: OpenedBackup,
    key: Seq<u8>,
    sessions: Seq<SessionModel>,
) -> (at: Seq<int>)
    requires
        call_ensures(
            restore_backup,
            (restore_key, version, keys),
            Ok::<OpenedBackup, BackupError>(opened),
        ),
        compact_key(unspaced(restore_key@)) == Some(key),
        downloaded(keys@) == Some(sessions),
    ensures
        are_the_opened(key, sessions, at),
        opened.keys@.len() == at.len(),
        forall|k: int|
            0 <= k < at.len() ==> opens_to(key, sessions[#[trigger] at[k]], opened.keys@[k]@),
        sessions.len() <= u32::MAX ==> opened.offered == sessions.len(),
        sessions.len() > u32::MAX ==> opened.offered == u32::MAX,
        opened.version@ == version@,
{
    let at = lemma_opened_at(key, sessions);
    let all = all_opened(key, sessions);
    assert(names(opened.keys@) == all);
    assert(names(opened.keys@).len() == opened.keys@.len());
    assert forall|k: int| 0 <= k < at.len() implies opens_to(
        key,
        sessions[#[trigger] at[k]],
        opened.keys@[k]@,
    ) by {
        assert(names(opened.keys@)[k] == opened.keys@[k]@);
    }
    at
}

/// When a download opens: where a version is named, the restore key is one, the
/// download can be read, and either it has no sessions, or one of them opens. A
/// download of which entries can be read and none opens has another key; one of
/// which no entry can be read is malformed.
pub proof fn law_when_a_backup_opens(
    restore_key: &str,
    version: &str,
    keys: &str,
    result: Result<OpenedBackup, BackupError>,
)
    requires
        call_ensures(restore_backup, (restore_key, version, keys), result),
    ensures
        version@.len() == 0 || compact_key(unspaced(restore_key@)) is None ==> result is Err
            && result->Err_0 == BackupError::MalformedIdentifier,
        version@.len() > 0 && compact_key(unspaced(restore_key@)) is Some && downloaded(keys@)
            is None ==> result is Err && result->Err_0 == BackupError::MalformedPayload,
        version@.len() > 0 ==> (compact_key(unspaced(restore_key@)) matches Some(key) ==> (
        downloaded(keys@) matches Some(sessions) ==> {
            let read = exists|i: int|
                0 <= i < sessions.len() && can_be_read(#[trigger] sessions[i]);
            let open = exists|i: int|
                0 <= i < sessions.len() && is_opened(key, #[trigger] sessions[i]);
            &&& sessions.len() == 0 || open ==> result is Ok
            &&& read && !open ==> result is Err && result->Err_0 == BackupError::WrongKey
            &&& sessions.len() > 0 && !read ==> result is Err && result->Err_0
                == BackupError::MalformedPayload
        })),
{
    if version@.len() > 0 && compact_key(unspaced(restore_key@)) is Some && downloaded(keys@)
        is Some {
        let key = compact_key(unspaced(restore_key@))->0;
        let sessions = downloaded(keys@)->0;
        let at = lemma_opened_at(key, sessions);
        let read = exists|i: int| 0 <= i < sessions.len() && can_be_read(#[trigger] sessions[i]);
        let open = exists|i: int|
            0 <= i < sessions.len() && is_opened(key, #[trigger] sessions[i]);
        if open {
            let i = choose|i: int|
                0 <= i < sessions.len() && is_opened(key, #[trigger] sessions[i]);
            assert(at.contains(i));
            assert(can_be_read(sessions[i]));
        } else if at.len() > 0 {
            assert(is_opened(key, sessions[at[0]]));
        }
        if read {
            let i = choose|i: int| 0 <= i < sessions.len() && can_be_read(#[trigger] sessions[i]);
            assert(is_readable(sessions[i]));
        } else {
            assert forall|i: int| 0 <= i < sessions.len() implies !is_readable(
                #[trigger] sessions[i],
            ) by {
                assert(!can_be_read(sessions[i]));
            }
        }
    }
}

/// A download is read session by session.
pub proof fn law_a_download_is_read_session_by_session(
    keys: &str,
    result: Result<Vec<BackedUpSession>, BackupError>,
)
    requires
        call_ensures(parse_download, (keys,), result),
    ensures
        downloaded(keys@) is None ==> result is Err && result->Err_0
            == BackupError::MalformedPayload,
        downloaded(keys@) matches Some(sessions) ==> (result matches Ok(list) && list@.len()
            == sessions.len() && forall|i: int|
            0 <= i < list@.len() ==> {
                &&& (#[trigger] list@[i]).room_id@ == sessions[i].room_id
                &&& list@[i].session_id@ == sessions[i].session_id
                &&& list@[i].entry@ == sessions[i].entry
            }),
{
    if let Ok(list) = result {
        let models = session_models(list@);
        assert forall|i: int| 0 <= i < list@.len() implies {
            &&& (#[trigger] list@[i]).room_id@ == models[i].room_id
            &&& list@[i].session_id@ == models[i].session_id
            &&& list@[i].entry@ == models[i].entry
        } by {
        }
    }
}

/// A restore key belongs to a version exactly where the version names its public
/// half. A text that is no key is found before a description that is none, and a
/// version that names no key belongs to none.
pub proof fn law_which_key_belongs_to_a_version(
    restore_key: &str,
    version_info: &str,
    result: Result<bool, BackupError>,
)
    requires
        call_ensures(restore_key_matches, (restore_key, version_info), result),
    ensures
        compact_key(unspaced(restore_key@)) is None ==> result == Err::<bool, BackupError>(
            BackupError::MalformedIdentifier,
        ),
        compact_key(unspaced(restore_key@)) is Some && version_key(version_info@) is None
            ==> result == Err::<bool, BackupError>(BackupError::MalformedPayload),
        compact_key(unspaced(restore_key@)) matches Some(key) ==> (version_key(version_info@)
            matches Some(named) ==> result == Ok::<bool, BackupError>(
            named == VersionKey::Public(public_key(key)),
        )),
{
}

/// A backup is made under one key: the restore key writes it down so that it can be
/// copied by hand, the sealing key is its public half, and so is what the version
/// names. What was made is told to belong together.
pub proof fn law_a_backup_is_made_under_one_key(
    key: &[u8; 32],
    setup: BackupSetup,
    restore_key: &str,
    version_info: &str,
    result: Result<bool, BackupError>,
)
    requires
        call_ensures(backup_under, (key,), setup),
        restore_key@ == setup.restore_key@,
        version_info@ == setup.version_request@,
        call_ensures(restore_key_matches, (restore_key, version_info), result),
    ensures
        is_twelve_groups(setup.restore_key@),
        compact_key(unspaced(setup.restore_key@)) == Some(key@),
        setup.restore_key@ == backup_key_text(key@),
        setup.sealing_key@ == public_key(key@),
        is_public_key(setup.sealing_key@),
        version_key(setup.version_request@) == Some(VersionKey::Public(setup.sealing_key@)),
        result == Ok::<bool, BackupError>(true),
{
    lemma_twelve_groups(setup.restore_key@);
}

proof fn lemma_twelve_groups(text: Seq<char>)
    requires
        is_written_key(text),
    ensures
        is_twelve_groups(text),
{
    assert forall|i: int| 0 <= i < 59 && i % 5 == 4 implies #[trigger] text[i] == ' ' by {
    }
    assert forall|i: int| 0 <= i < 59 && i % 5 != 4 implies is_key_character(
        #[trigger] text[i],
    ) by {
    }
}

/// A new backup hangs together as one that is made under a given key does, and what
/// it seals can be backed up with.
pub proof fn law_a_new_backup_hangs_together(
    setup: BackupSetup,
    sealing_key: &str,
    version: &str,
    enabled: Result<EnableCall, BackupError>,
) -> (key: Seq<u8>)
    requires
        call_ensures(create_backup, (), setup),
        sealing_key@ == setup.sealing_key@,
        version@.len() > 0,
        call_ensures(enable_backup, (sealing_key, version), enabled),
    ensures
        is_twelve_groups(setup.restore_key@),
        compact_key(unspaced(setup.restore_key@)) == Some(key),
        setup.sealing_key@ == public_key(key),
        version_key(setup.version_request@) == Some(VersionKey::Public(public_key(key))),
        enabled is Ok,
{
    lemma_twelve_groups(setup.restore_key@);
    compact_key(unspaced(setup.restore_key@))->0
}

/// A backup is enabled with exactly what was given, and only where a version is
/// named and the sealing key is a public key.
pub proof fn law_with_what_a_backup_is_enabled(
    sealing_key: &str,
    version: &str,
    result: Result<EnableCall, BackupError>,
)
    requires
        call_ensures(enable_backup, (sealing_key, version), result),
    ensures
        version@.len() > 0 && is_public_key(sealing_key@) ==> (result matches Ok(call)
            && call.sealing_key@ == sealing_key@ && call.version@ == version@),
        version@.len() == 0 || !is_public_key(sealing_key@) ==> result is Err && result->Err_0
            == BackupError::MalformedIdentifier,
{
}

/// A running backup has to be stopped first exactly where it is of another version.
pub proof fn law_when_a_running_backup_is_stopped_first(
    current: Option<&str>,
    version: &str,
    answer: bool,
)
    requires
        call_ensures(must_disable_first, (current, version), answer),
    ensures
        current is None ==> !answer,
        current matches Some(running) ==> answer == (running@ != version@),
{
}

/// Starting and stopping a backup are reported as what became of them.
pub proof fn law_what_became_of_a_backup_is_reported(
    outcome: Trip<()>,
    enabled: Result<(), BackupError>,
    disabled: Result<(), BackupError>,
)
    requires
        call_ensures(report_enabling, (outcome,), enabled),
        call_ensures(disable_backup, (outcome,), disabled),
    ensures
        outcome is Done <==> enabled is Ok,
        outcome is NoMachine <==> enabled == Err::<(), BackupError>(BackupError::NotInitialised),
        outcome is Refused <==> enabled == Err::<(), BackupError>(BackupError::Failed),
        disabled == enabled,
{
}

/// The state of a backup is what the machine says of it: whether it runs, its
/// version, and how many keys there are and how many are backed up, as far as 32
/// bits can count. Where it cannot be counted, nothing is said.
pub proof fn law_what_the_state_of_a_backup_says(
    reading: Trip<BackupReading>,
    result: Result<BackupState, BackupError>,
)
    requires
        call_ensures(backup_state, (reading,), result),
    ensures
        reading is NoMachine ==> result == Err::<BackupState, BackupError>(
            BackupError::NotInitialised,
        ),
        reading is Refused ==> result == Err::<BackupState, BackupError>(BackupError::Failed),
        reading matches Trip::Done(said) ==> {
            &&& said.counts is None ==> result == Err::<BackupState, BackupError>(
                BackupError::Failed,
            )
            &&& said.counts matches Some((total, backed_up)) ==> (result matches Ok(state) && {
                &&& state.enabled == said.enabled
                &&& state.version == said.version
                &&& total <= u32::MAX ==> state.total == total
                &&& backed_up <= u32::MAX ==> state.backed_up == backed_up
                &&& (state.total - total) % 0x1_0000_0000 == 0
                &&& (state.backed_up - backed_up) % 0x1_0000_0000 == 0
            })
        },
{
    if let Trip::Done(said) = reading {
        if let Some((total, backed_up)) = said.counts {
            lemma_low_bits(total);
            lemma_low_bits(backed_up);
        }
    }
}

/// An import reports the number that were offered and the number that the machine
/// found to be new, as far as 32 bits can count.
pub proof fn law_what_an_import_reports(
    offered: u32,
    imported: Trip<usize>,
    result: Result<BackupImport, BackupError>,
)
    requires
        call_ensures(report_import, (offered, imported), result),
    ensures
        imported is NoMachine ==> result == Err::<BackupImport, BackupError>(
            BackupError::NotInitialised,
        ),
        imported is Refused ==> result == Err::<BackupImport, BackupError>(BackupError::Failed),
        imported matches Trip::Done(count) ==> (result matches Ok(report) && {
            &&& report.offered == offered
            &&& count <= u32::MAX ==> report.imported == count
            &&& (report.imported - count) % 0x1_0000_0000 == 0
        }),
{
    if let Trip::Done(count) = imported {
        lemma_low_bits(count);
    }
}

/// What each error says, and what a machine error becomes: the machine is not there.
pub proof fn law_what_a_backup_error_says(
    error: BackupError,
    text: &'static str,
    machine: MachineError,
)
    requires
        call_ensures(BackupError::message, (error,), text),
    ensures
        error is MalformedIdentifier ==> text@ == "an identifier could not be parsed"@,
        error is MalformedPayload ==> text@ == "the payload could not be parsed"@,
        error is NotInitialised ==> text@ == "no crypto machine has been created"@,
        error is Failed ==> text@ == "the crypto operation failed"@,
        error is WrongKey ==> text@ == "that key does not open this backup"@,
        BackupError::from_spec(machine) == BackupError::NotInitialised,
{
}

} // verus!
