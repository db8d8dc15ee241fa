//! What holds of setting up a recovery and of recovering from one.

use vstd::prelude::*;

use crate::json::{is_json, lemma_members_empty, lemma_members_last, lemma_members_listed, members,
    object_of, raw_text, string_member, Member};
use crate::machine::{MachineError, Trip};
use crate::recovery::{check_create_recovery, check_recover_identity, ciphertexts,
    classify_decode_error, complete_export, create_recovery, entry, existing_ciphertexts,
    exported_seeds, finish_recovery, first_content, held_ciphertexts, is_secret_event,
    law_what_is_set_up_is_recovered, lemma_first_content_from, must_fetch_account_keys,
    object_member, pointed_key_id, recover_identity, recovers_with, recovery_events, store_failed,
    unlocked, unsealed, AccountDataEntry, KeyExport, KeyImport, RecoverySetup, Sealed, Secret,
    Seeds, StatusAnswer, UnlockFault};

verus! {

/// Whether this is the content of the first event of a type, or there is none.
pub open spec fn stands_under(
    data: Seq<AccountDataEntry>,
    event_type: Seq<char>,
    content: Option<Seq<char>>,
) -> bool {
    match content {
        Some(content) => exists|i: int|
            {
                &&& 0 <= i < data.len()
                &&& (#[trigger] data[i]).event_type@ == event_type
                &&& data[i].content@ == content
                &&& forall|j: int| 0 <= j < i ==> (#[trigger] data[j]).event_type@ != event_type
            },
        None => forall|i: int|
            0 <= i < data.len() ==> (#[trigger] data[i]).event_type@ != event_type,
    }
}

proof fn lemma_stands_under(
    data: Seq<AccountDataEntry>,
    event_type: Seq<char>,
    content: Option<Seq<char>>,
)
    requires
        stands_under(data, event_type, content),
    ensures
        first_content(data, event_type) == content,
{
    match content {
        Some(text) => {
            let i = choose|i: int|
                {
                    &&& 0 <= i < data.len()
                    &&& (#[trigger] data[i]).event_type@ == event_type
                    &&& data[i].content@ == text
                    &&& forall|j: int|
                        0 <= j < i ==> (#[trigger] data[j]).event_type@ != event_type
                };
            lemma_first_content_from(data, event_type, i);
            assert(data.skip(i)[0] == data[i]);
        },
        None => {
            lemma_first_content_from(data, event_type, data.len() as int);
        },
    }
}

/// The event type that each private key is kept under.
pub open spec fn kept_under(secret: Secret) -> Seq<char> {
    match secret {
        Secret::Master => "m.cross_signing.master"@,
        Secret::SelfSigning => "m.cross_signing.self_signing"@,
        Secret::UserSigning => "m.cross_signing.user_signing"@,
    }
}

/// The key that a pointer names, if there is a pointer and it names one.
pub open spec fn named_by(pointer: Option<Seq<char>>) -> Option<Seq<char>> {
    match pointer {
        Some(content) => match string_member(content, "key"@) {
            Some(key_id) => if key_id.len() == 0 {
                None
            } else {
                Some(key_id)
            },
            None => None,
        },
        None => None,
    }
}

/// The event of a type is the first one of it.
pub proof fn law_an_event_is_the_first_of_its_type(
    data: &[AccountDataEntry],
    event_type: &str,
    found: Option<&String>,
    content: Option<Seq<char>>,
)
    requires
        call_ensures(entry, (data, event_type), found),
        stands_under(data@, event_type@, content),
    ensures
        found is Some <==> content is Some,
        found matches Some(text) ==> content == Some(text@),
{
    lemma_stands_under(data@, event_type@, content);
}

/// The account data names the key that its pointer names: one that is missing, that
/// cannot be read, that has no such text or an empty one names none.
pub proof fn law_the_pointer_decides(
    data: &[AccountDataEntry],
    key_id: Option<String>,
    pointer: Option<Seq<char>>,
)
    requires
        call_ensures(pointed_key_id, (data,), key_id),
        stands_under(data@, "m.secret_storage.default_key"@, pointer),
    ensures
        key_id is Some <==> named_by(pointer) is Some,
        key_id matches Some(text) ==> named_by(pointer) == Some(text@),
{
    lemma_stands_under(data@, "m.secret_storage.default_key"@, pointer);
}

/// Whether a list of members says what a map says: each name is listed, none else
/// is, and the last of a name has its value.
pub open spec fn says(list: Seq<Member>, map: Map<Seq<char>, Seq<char>>) -> bool {
    &&& forall|name: Seq<char>| #[trigger]
        map.contains_key(name) <==> exists|i: int|
            0 <= i < list.len() && (#[trigger] list[i]).name@ == name
    &&& forall|i: int|
        0 <= i < list.len() && (forall|j: int|
            i < j < list.len() ==> (#[trigger] list[j]).name@ != list[i].name@)
            ==> map[(#[trigger] list[i]).name@] == list[i].json@
}

proof fn lemma_says(list: Seq<Member>)
    ensures
        says(list, members(list)),
{
    assert forall|name: Seq<char>| #[trigger]
        members(list).contains_key(name) <==> exists|i: int|
            0 <= i < list.len() && (#[trigger] list[i]).name@ == name by {
        lemma_members_listed(list, name);
    }
    assert forall|i: int|
        0 <= i < list.len() && (forall|j: int|
            i < j < list.len() ==> (#[trigger] list[j]).name@ != list[i].name@) implies members(
        list,
    )[(#[trigger] list[i]).name@] == list[i].json@ by {
        lemma_members_last(list, i);
    }
}

/// What the account data holds of a private key is all that its event holds; an
/// event that is missing or cannot be read holds nothing. All of it can be written
/// again.
pub proof fn law_what_is_held_of_a_private_key(
    data: &[AccountDataEntry],
    secret: Secret,
    list: Vec<Member>,
    content: Option<Seq<char>>,
)
    requires
        call_ensures(existing_ciphertexts, (data, secret), list),
        stands_under(data@, kept_under(secret), content),
    ensures
        content is None ==> list@.len() == 0,
        content matches Some(text) ==> match object_member(text, "encrypted"@) {
            Some(held) => says(list@, held),
            None => list@.len() == 0,
        },
        forall|i: int| 0 <= i < list@.len() ==> raw_text((#[trigger] list@[i]).json@) == Some(
            list@[i].json@,
        ),
{
    lemma_stands_under(data@, kept_under(secret), content);
    lemma_says(list@);
    lemma_members_empty(list@);
    assert forall|i: int| 0 <= i < list@.len() implies raw_text((#[trigger] list@[i]).json@) == Some(
        list@[i].json@,
    ) by {
        assert(is_json(list@[i].json@));
    }
}

/// A recovery can be set up exactly where there is a machine, the account data names
/// no key, and it is known what the homeserver holds and that no identity is still
/// to be published. What stands in the way is reported, and a key that is named
/// before anything the store says.
pub proof fn law_when_a_recovery_can_be_set_up(
    data: &[AccountDataEntry],
    status: StatusAnswer,
    result: Result<(), MachineError>,
    pointer: Option<Seq<char>>,
)
    requires
        call_ensures(check_create_recovery, (data, status), result),
        stands_under(data@, "m.secret_storage.default_key"@, pointer),
    ensures
        result is Ok ==> (status matches StatusAnswer::Known(known) && known.account_keys_fetched
            && !known.identity_publication_pending) && named_by(pointer) is None,
        status is NoMachine ==> result == Err::<(), MachineError>(MachineError::NotInitialised),
        !(status is NoMachine) && named_by(pointer) is Some ==> result == Err::<(), MachineError>(
            MachineError::RecoveryAlreadyExists,
        ),
        named_by(pointer) is None && status is Unreadable ==> result == Err::<(), MachineError>(
            status->Unreadable_0,
        ),
        named_by(pointer) is None && (status matches StatusAnswer::Known(known)
            && !known.account_keys_fetched) ==> result == Err::<(), MachineError>(
            MachineError::AccountKeysNotFetched,
        ),
        named_by(pointer) is None && (status matches StatusAnswer::Known(known)
            && known.account_keys_fetched && known.identity_publication_pending) ==> result == Err::<
            (),
            MachineError,
        >(MachineError::IdentityNotKnown),
        named_by(pointer) is None && (status matches StatusAnswer::Known(known)
            && known.account_keys_fetched && !known.identity_publication_pending) ==> result is Ok,
{
    lemma_stands_under(data@, "m.secret_storage.default_key"@, pointer);
}

/// Setting up a recovery is refused with what a check of the same account data and
/// the same status is refused with, and otherwise exactly where the machine did not
/// export all three private keys.
pub proof fn law_what_setting_up_is_refused_with(
    passphrase: &str,
    data: &[AccountDataEntry],
    status: StatusAnswer,
    export: Trip<Option<KeyExport>>,
    checked: Result<(), MachineError>,
    exported: Result<Seeds, MachineError>,
    result: Result<RecoverySetup, MachineError>,
)
    requires
        call_ensures(check_create_recovery, (data, status), checked),
        call_ensures(complete_export, (export,), exported),
        call_ensures(create_recovery, (passphrase, data, status, export), result),
    ensures
        checked matches Err(error) ==> result == Err::<RecoverySetup, MachineError>(error),
        checked is Ok && exported is Err ==> result is Err,
        checked is Ok && export is NoMachine ==> result == Err::<RecoverySetup, MachineError>(
            MachineError::NotInitialised,
        ),
        checked is Ok && export is Refused ==> result is Err && result->Err_0 is Store,
        checked is Ok && export is Done && exported is Err ==> result == Err::<
            RecoverySetup,
            MachineError,
        >(MachineError::PrivateKeysNotHeld),
        checked is Ok && exported is Ok ==> result is Ok,
{
}

/// An export counts where it has all three private keys, and gives them as they
/// are.
pub proof fn law_which_exports_are_complete(
    export: Trip<Option<KeyExport>>,
    result: Result<Seeds, MachineError>,
)
    requires
        call_ensures(complete_export, (export,), result),
    ensures
        export is NoMachine ==> result == Err::<Seeds, MachineError>(MachineError::NotInitialised),
        export is Refused ==> (result matches Err(MachineError::Store { detail }) && detail@
            == "the crypto store could not be opened"@),
        export matches Trip::Done(None) ==> result == Err::<Seeds, MachineError>(
            MachineError::PrivateKeysNotHeld,
        ),
        export matches Trip::Done(Some(keys)) ==> {
            &&& keys.master_key is None || keys.self_signing_key is None || keys.user_signing_key
                is None ==> result == Err::<Seeds, MachineError>(MachineError::PrivateKeysNotHeld)
            &&& keys.master_key is Some && keys.self_signing_key is Some && keys.user_signing_key
                is Some ==> (result matches Ok(seeds) && {
                &&& seeds.master@ == keys.master_key->0@
                &&& seeds.self_signing@ == keys.self_signing_key->0@
                &&& seeds.user_signing@ == keys.user_signing_key->0@
            })
        },
{
}

/// Whether account data has each event of a list as the first of its type.
pub open spec fn has_events(
    data: Seq<AccountDataEntry>,
    events: Seq<AccountDataEntry>,
) -> bool {
    forall|i: int|
        0 <= i < events.len() ==> stands_under(
            data,
            (#[trigger] events[i]).event_type@,
            Some(events[i].content@),
        )
}

/// Whether it is known what the homeserver holds, and that it holds an identity that
/// has been published.
pub open spec fn is_ready(status: StatusAnswer) -> bool {
    status matches StatusAnswer::Known(known) && known.account_keys_fetched
        && !known.identity_publication_pending && known.identity_known
}

/// What was set up is recovered: from any account data that has the events that
/// setting up gave, the passphrase gives the exported private keys back, and so does
/// the recovery key.
pub proof fn law_setting_up_and_recovering(
    passphrase: &str,
    before: &[AccountDataEntry],
    status: StatusAnswer,
    export: Trip<Option<KeyExport>>,
    setup: RecoverySetup,
    seeds: Seeds,
    after: &[AccountDataEntry],
    later: StatusAnswer,
    secret: &str,
    result: Result<Seeds, MachineError>,
)
    requires
        call_ensures(
            create_recovery,
            (passphrase, before, status, export),
            Ok::<RecoverySetup, MachineError>(setup),
        ),
        call_ensures(complete_export, (export,), Ok::<Seeds, MachineError>(seeds)),
        has_events(after@, setup.account_data@),
        is_ready(later),
        secret@ == passphrase@ || secret@ == setup.recovery_key@,
        call_ensures(recover_identity, (secret, after, later), result),
    ensures
        result matches Ok(recovered) && {
            &&& recovered.master@ == seeds.master@
            &&& recovered.self_signing@ == seeds.self_signing@
            &&& recovered.user_signing@ == seeds.user_signing@
        },
{
    let events = setup.account_data@;
    assert forall|i: int| 0 <= i < events.len() implies first_content(
        after@,
        (#[trigger] events[i]).event_type@,
    ) == Some(events[i].content@) by {
        lemma_stands_under(after@, events[i].event_type@, Some(events[i].content@));
    }
    law_what_is_set_up_is_recovered(setup, passphrase@, before@, seeds, after@);
}

/// Whether a character can stand in a key that is written down.
pub open spec fn is_key_character(c: char) -> bool {
    &&& '1' <= c <= '9' || 'A' <= c <= 'Z' || 'a' <= c <= 'z'
    &&& c != 'I' && c != 'O' && c != 'l'
}

/// Whether a text is twelve groups of four characters of a key, with a space between
/// each two.
pub open spec fn is_twelve_groups(text: Seq<char>) -> bool {
    &&& text.len() == 59
    &&& forall|i: int| 0 <= i < 59 && i % 5 == 4 ==> #[trigger] text[i] == ' '
    &&& forall|i: int| 0 <= i < 59 && i % 5 != 4 ==> is_key_character(#[trigger] text[i])
}

/// Whether an event keeps a private key: under its type, with every ciphertext that
/// the account data holds of it already, as it is, and with one more under the key's
/// own identifier.
pub open spec fn adds_one_ciphertext(
    event: AccountDataEntry,
    secret: Secret,
    content: Option<Seq<char>>,
    key_id: Seq<char>,
) -> bool {
    &&& event.event_type@ == kept_under(secret)
    &&& ciphertexts(event.content@) matches Some(kept)
    &&& kept.contains_key(key_id)
    &&& forall|other: Seq<char>|
        other != key_id ==> {
            &&& #[trigger] kept.contains_key(other) <==> (content matches Some(text)
                && object_member(text, "encrypted"@) matches Some(held) && held.contains_key(other))
            &&& kept.contains_key(other) ==> kept[other] == object_member(
                content->0,
                "encrypted"@,
            )->0[other]
        }
}

/// A recovery is five events, in this order: the description of the key, the three
/// private keys, each beside what is held of it already, and a pointer that names
/// the key and says nothing else. The pointer comes last. The recovery key can be
/// copied by hand.
pub proof fn law_a_recovery_is_five_events(
    passphrase: &str,
    data: &[AccountDataEntry],
    status: StatusAnswer,
    export: Trip<Option<KeyExport>>,
    setup: RecoverySetup,
    master: Option<Seq<char>>,
    self_signing: Option<Seq<char>>,
    user_signing: Option<Seq<char>>,
) -> (key_id: Seq<char>)
    requires
        call_ensures(
            create_recovery,
            (passphrase, data, status, export),
            Ok::<RecoverySetup, MachineError>(setup),
        ),
        stands_under(data@, kept_under(Secret::Master), master),
        stands_under(data@, kept_under(Secret::SelfSigning), self_signing),
        stands_under(data@, kept_under(Secret::UserSigning), user_signing),
    ensures
        ({
            let events = setup.account_data@;
            &&& is_twelve_groups(setup.recovery_key@)
            &&& key_id.len() == 32
            &&& events.len() == 5
            &&& events[0].event_type@ == "m.secret_storage.key."@ + key_id
            &&& adds_one_ciphertext(events[1], Secret::Master, master, key_id)
            &&& adds_one_ciphertext(events[2], Secret::SelfSigning, self_signing, key_id)
            &&& adds_one_ciphertext(events[3], Secret::UserSigning, user_signing, key_id)
            &&& events[4].event_type@ == "m.secret_storage.default_key"@
            &&& string_member(events[4].content@, "key"@) == Some(key_id)
            &&& object_of(events[4].content@) matches Some(object) && forall|name: Seq<char>|
             #[trigger]
                object.contains_key(name) <==> name == "key"@
        }),
{
    let events = setup.account_data@;
    let seeds = exported_seeds(export);
    let (key_id, description, sealed) = choose|
        key_id: Seq<char>,
        description: Seq<char>,
        sealed: Sealed,
    | #[trigger]
        recovers_with(setup, passphrase@, data@, seeds, key_id, description, sealed);
    lemma_stands_under(data@, kept_under(Secret::Master), master);
    lemma_stands_under(data@, kept_under(Secret::SelfSigning), self_signing);
    lemma_stands_under(data@, kept_under(Secret::UserSigning), user_signing);
    lemma_adds_one(events[1], Secret::Master, data@, master, key_id, sealed.master);
    lemma_adds_one(events[2], Secret::SelfSigning, data@, self_signing, key_id, sealed.self_signing);
    lemma_adds_one(events[3], Secret::UserSigning, data@, user_signing, key_id, sealed.user_signing);
    let object = object_of(events[4].content@)->0;
    assert forall|name: Seq<char>| #[trigger] object.contains_key(name) <==> name == "key"@ by {
        assert(object.dom().contains(name) == set!["key"@].contains(name));
    }
    key_id
}

proof fn lemma_adds_one(
    event: AccountDataEntry,
    secret: Secret,
    data: Seq<AccountDataEntry>,
    content: Option<Seq<char>>,
    key_id: Seq<char>,
    ciphertext: Seq<char>,
)
    requires
        is_secret_event(event, secret, data, key_id, ciphertext),
        first_content(data, kept_under(secret)) == content,
    ensures
        adds_one_ciphertext(event, secret, content, key_id),
{
    let kept = ciphertexts(event.content@)->0;
    let held = held_ciphertexts(data, secret);
    assert forall|other: Seq<char>| other != key_id implies {
        &&& #[trigger] kept.contains_key(other) <==> (content matches Some(text) && object_member(
            text,
            "encrypted"@,
        ) matches Some(held) && held.contains_key(other))
        &&& kept.contains_key(other) ==> kept[other] == object_member(content->0, "encrypted"@)->0[other]
    } by {
        assert(kept.contains_key(other) == held.contains_key(other));
    }
}

/// The events of a recovery carry what they are given: the description as it is
/// under the key's type, and each ciphertext under the key in the event of its own
/// private key.
pub proof fn law_the_events_of_a_recovery_carry_what_they_are_given(
    data: &[AccountDataEntry],
    key_id: &str,
    description: &str,
    master: &str,
    self_signing: &str,
    user_signing: &str,
    events: Vec<AccountDataEntry>,
)
    requires
        call_ensures(
            recovery_events,
            (data, key_id, description, master, self_signing, user_signing),
            events,
        ),
    ensures
        events@.len() == 5,
        events@[0].event_type@ == "m.secret_storage.key."@ + key_id@,
        events@[0].content@ == description@,
        events@[1].event_type@ == "m.cross_signing.master"@,
        ciphertexts(events@[1].content@) matches Some(kept) && kept.contains_key(key_id@)
            && kept[key_id@] == master@,
        events@[2].event_type@ == "m.cross_signing.self_signing"@,
        ciphertexts(events@[2].content@) matches Some(kept) && kept.contains_key(key_id@)
            && kept[key_id@] == self_signing@,
        events@[3].event_type@ == "m.cross_signing.user_signing"@,
        ciphertexts(events@[3].content@) matches Some(kept) && kept.contains_key(key_id@)
            && kept[key_id@] == user_signing@,
        events@[4].event_type@ == "m.secret_storage.default_key"@,
        string_member(events@[4].content@, "key"@) == Some(key_id@),
{
}

/// An identity can be recovered exactly where it is known what the homeserver holds,
/// and that it holds an identity that has been published. What stands in the way is
/// reported.
pub proof fn law_when_an_identity_can_be_recovered(
    status: StatusAnswer,
    result: Result<(), MachineError>,
)
    requires
        call_ensures(check_recover_identity, (status,), result),
    ensures
        result is Ok <==> is_ready(status),
        status is NoMachine ==> result == Err::<(), MachineError>(MachineError::NotInitialised),
        status is Unreadable ==> result == Err::<(), MachineError>(status->Unreadable_0),
        status matches StatusAnswer::Known(known) ==> {
            &&& !known.account_keys_fetched ==> result == Err::<(), MachineError>(
                MachineError::AccountKeysNotFetched,
            )
            &&& known.account_keys_fetched && !is_ready(status) ==> result == Err::<
                (),
                MachineError,
            >(MachineError::IdentityNotKnown)
        },
{
}

/// Recovering is refused with what a check of the same status is refused with.
pub proof fn law_what_recovering_is_refused_with(
    secret: &str,
    data: &[AccountDataEntry],
    status: StatusAnswer,
    checked: Result<(), MachineError>,
    result: Result<Seeds, MachineError>,
)
    requires
        call_ensures(check_recover_identity, (status,), checked),
        call_ensures(recover_identity, (secret, data, status), result),
    ensures
        checked matches Err(error) ==> result == Err::<Seeds, MachineError>(error),
{
}

/// Whether what is kept of a private key is missing: there is no event, or none of
/// its ciphertexts is under the key.
pub open spec fn is_missing(content: Option<Seq<char>>, key_id: Seq<char>) -> bool {
    match content {
        None => true,
        Some(text) => ciphertexts(text) matches Some(kept) && !kept.contains_key(key_id),
    }
}

/// Whether what is kept of a private key is there and cannot be read: the event
/// cannot be, or the key does not open the ciphertext.
pub open spec fn is_broken(
    content: Option<Seq<char>>,
    secret: Secret,
    key_id: Seq<char>,
    key: Seq<char>,
) -> bool {
    content matches Some(text) && match ciphertexts(text) {
        None => true,
        Some(kept) => kept.contains_key(key_id) && unsealed(key, kept_under(secret), kept[key_id])
            is None,
    }
}

/// Whether a description asks a passphrase for a key of an algorithm other than the
/// one that is known.
pub open spec fn asks_for_another_algorithm(description: Seq<char>) -> bool {
    &&& object_member(description, "passphrase"@) is Some
    &&& string_member(description, "algorithm"@) matches Some(algorithm)
    &&& algorithm != "m.secret_storage.v1.aes-hmac-sha2"@
}

/// What recovering comes to before the private keys are looked at. Without a pointer,
/// or without the description that it points to, there is no recovery. A description
/// that is not JSON, or that asks for an algorithm that is not known, is malformed.
/// A secret that does not open the key is reported as what is wrong with it.
pub proof fn law_what_opening_a_recovery_comes_to(
    secret: &str,
    data: &[AccountDataEntry],
    status: StatusAnswer,
    result: Result<Seeds, MachineError>,
    pointer: Option<Seq<char>>,
    key_id: Seq<char>,
    description: Option<Seq<char>>,
    fault: UnlockFault,
    classified: MachineError,
)
    requires
        call_ensures(recover_identity, (secret, data, status), result),
        is_ready(status),
        stands_under(data@, "m.secret_storage.default_key"@, pointer),
        named_by(pointer) matches Some(named) ==> key_id == named,
        stands_under(data@, "m.secret_storage.key."@ + key_id, description),
        call_ensures(classify_decode_error, (fault,), classified),
    ensures
        named_by(pointer) is None ==> result == Err::<Seeds, MachineError>(
            MachineError::RecoveryNotSetUp,
        ),
        description is None ==> result == Err::<Seeds, MachineError>(
            MachineError::RecoveryNotSetUp,
        ),
        named_by(pointer) is Some && (description matches Some(text) && (raw_text(text) is None
            || asks_for_another_algorithm(text))) ==> result == Err::<Seeds, MachineError>(
            MachineError::RecoveryDataMalformed,
        ),
        named_by(pointer) is Some && (description matches Some(text) && raw_text(text) is Some
            && !asks_for_another_algorithm(text) && unlocked(
            secret@,
            "m.secret_storage.key."@ + key_id,
            text,
        ) == Err::<Seq<char>, UnlockFault>(fault)) ==> result == Err::<Seeds, MachineError>(
            classified,
        ),
{
    lemma_stands_under(data@, "m.secret_storage.default_key"@, pointer);
    lemma_stands_under(data@, "m.secret_storage.key."@ + key_id, description);
}

/// What recovering comes to once the key is open. Where all three private keys are
/// kept under the key and it opens them, they are what comes out. Otherwise the first
/// of them that is missing or broken decides: what is missing means that no recovery
/// is set up, and what is broken that its data are malformed.
pub proof fn law_what_an_open_recovery_gives(
    secret: &str,
    data: &[AccountDataEntry],
    status: StatusAnswer,
    result: Result<Seeds, MachineError>,
    pointer: Option<Seq<char>>,
    key_id: Seq<char>,
    description: Seq<char>,
    key: Seq<char>,
    master: Option<Seq<char>>,
    self_signing: Option<Seq<char>>,
    user_signing: Option<Seq<char>>,
)
    requires
        call_ensures(recover_identity, (secret, data, status), result),
        is_ready(status),
        stands_under(data@, "m.secret_storage.default_key"@, pointer),
        named_by(pointer) == Some(key_id),
        stands_under(data@, "m.secret_storage.key."@ + key_id, Some(description)),
        raw_text(description) is Some,
        !asks_for_another_algorithm(description),
        unlocked(secret@, "m.secret_storage.key."@ + key_id, description) == Ok::<
            Seq<char>,
            UnlockFault,
        >(key),
        stands_under(data@, kept_under(Secret::Master), master),
        stands_under(data@, kept_under(Secret::SelfSigning), self_signing),
        stands_under(data@, kept_under(Secret::UserSigning), user_signing),
    ensures
        ({
            let missing = |content: Option<Seq<char>>| is_missing(content, key_id);
            let broken = |content: Option<Seq<char>>, s: Secret| is_broken(content, s, key_id, key);
            let whole = |content: Option<Seq<char>>, s: Secret|
                !is_missing(content, key_id) && !is_broken(content, s, key_id, key);
            let not_set_up = Err::<Seeds, MachineError>(MachineError::RecoveryNotSetUp);
            let malformed = Err::<Seeds, MachineError>(MachineError::RecoveryDataMalformed);
            &&& missing(master) ==> result == not_set_up
            &&& broken(master, Secret::Master) ==> result == malformed
            &&& whole(master, Secret::Master) ==> {
                &&& missing(self_signing) ==> result == not_set_up
                &&& broken(self_signing, Secret::SelfSigning) ==> result == malformed
                &&& whole(self_signing, Secret::SelfSigning) ==> {
                    &&& missing(user_signing) ==> result == not_set_up
                    &&& broken(user_signing, Secret::UserSigning) ==> result == malformed
                    &&& whole(user_signing, Secret::UserSigning) ==> (result matches Ok(seeds) && {
                        &&& opens_to(master, Secret::Master, key_id, key, seeds.master@)
                        &&& opens_to(self_signing, Secret::SelfSigning, key_id, key, seeds.self_signing@)
                        &&& opens_to(user_signing, Secret::UserSigning, key_id, key, seeds.user_signing@)
                    })
                }
            }
        }),
{
    lemma_stands_under(data@, "m.secret_storage.default_key"@, pointer);
    lemma_stands_under(data@, "m.secret_storage.key."@ + key_id, Some(description));
    lemma_stands_under(data@, kept_under(Secret::Master), master);
    lemma_stands_under(data@, kept_under(Secret::SelfSigning), self_signing);
    lemma_stands_under(data@, kept_under(Secret::UserSigning), user_signing);
}

/// Whether a private key is what the key opens its ciphertext to.
pub open spec fn opens_to(
    content: Option<Seq<char>>,
    secret: Secret,
    key_id: Seq<char>,
    key: Seq<char>,
    seed: Seq<char>,
) -> bool {
    &&& content matches Some(text)
    &&& ciphertexts(text) matches Some(kept)
    &&& unsealed(key, kept_under(secret), kept[key_id]) == Some(seed)
}

/// A secret that fails by what it is itself is incorrect; one that fails by what the
/// description is finds malformed data.
pub proof fn law_whose_fault_a_locked_recovery_is(fault: UnlockFault, error: MachineError)
    requires
        call_ensures(classify_decode_error, (fault,), error),
    ensures
        error == MachineError::RecoveryKeyIncorrect <==> {
            ||| fault is Mac
            ||| fault is Base58
            ||| fault is KeyLength
            ||| fault is Prefix
            ||| fault is Parity
        },
        error == MachineError::RecoveryDataMalformed <==> {
            ||| fault is Description
            ||| fault is Base64
            ||| fault is IvLength
            ||| fault is MacLength
            ||| fault is UnsupportedAlgorithm
            ||| fault is KdfIterationCount
        },
{
}

/// A recovery is finished exactly where the machine took the keys in and its identity
/// is complete with them. Keys that it refused, or that are not enough, are malformed
/// data; a store that refused is not.
pub proof fn law_when_a_recovery_is_finished(import: KeyImport, result: Result<(), MachineError>)
    requires
        call_ensures(finish_recovery, (import,), result),
    ensures
        result is Ok <==> import == (KeyImport::Imported { complete: true }),
        import is NoMachine ==> result == Err::<(), MachineError>(MachineError::NotInitialised),
        import is StoreRefused ==> (result matches Err(MachineError::Store { detail }) && detail@
            == "the crypto store could not be opened"@),
        import is KeysRefused || import == (KeyImport::Imported { complete: false }) ==> result
            == Err::<(), MachineError>(MachineError::RecoveryDataMalformed),
{
}

/// Only a refusal for want of the account's keys is lifted by fetching them.
pub proof fn law_which_refusals_fetching_lifts(error: MachineError, answer: bool)
    requires
        call_ensures(must_fetch_account_keys, (&error,), answer),
    ensures
        answer <==> error == MachineError::AccountKeysNotFetched,
{
}

/// A store that refused is reported with a fixed text.
pub proof fn law_a_refusing_store_says_nothing_of_its_own(error: MachineError)
    requires
        call_ensures(store_failed, (), error),
    ensures
        error matches MachineError::Store { detail } && detail@
            == "the crypto store could not be opened"@,
{
}

} // verus!
