//! What holds of the homeserver's answers.

use vstd::prelude::*;

use crate::json::object_of;
use crate::machine::Trip;
use crate::registry::Registry;
use crate::requests::{names, response_fields, texts, PendingKind};
use crate::responses::{answer_about_this_account, asserted_master, carries_a_field_of,
    claims_an_identity, claims_identity, is_a_failure_status, is_about_this_account, is_same_master,
    keys_claim_response, keys_query_response, keys_upload_response, mark_sent, read_response,
    refuse_a_non_response, room_message_response, signature_upload_response,
    signing_keys_upload_response, to_device_response, users_answered, AccountReading,
    AnswerAboutAccount, KeysQueryAnswer, MasterKey, ReadResponse, StoredIdentity, Taken};
use crate::session::SessionError;
use crate::state::RequestState;

verus! {

/// Whether the endpoint that requests of this kind go to answers with a field.
pub open spec fn is_answered_with(kind: PendingKind, field: Seq<char>) -> bool {
    match kind {
        PendingKind::KeysUpload => field == "one_time_key_counts"@,
        PendingKind::KeysQuery
        | PendingKind::AccountKeysQuery
        | PendingKind::AccountKeysQueryOutOfBand
        | PendingKind::PeerKeysQueryOutOfBand => field == "failures"@ || field == "device_keys"@
            || field == "master_keys"@ || field == "self_signing_keys"@ || field
            == "user_signing_keys"@,
        PendingKind::KeysClaim => field == "failures"@ || field == "one_time_keys"@,
        PendingKind::SignatureUpload => field == "failures"@,
        PendingKind::RoomMessage => field == "event_id"@,
        PendingKind::ToDevice | PendingKind::SigningKeysUpload => false,
    }
}

/// Whether an object is an error, as the protocol or a gateway writes one.
pub open spec fn is_error(object: Map<Seq<char>, Seq<char>>) -> bool {
    object.contains_key("errcode"@) || object.contains_key("error"@) || object.contains_key(
        "flows"@,
    )
}

/// The fields that a kind declares are those that its endpoint answers with.
pub proof fn law_declared_fields_are_what_is_answered_with(
    kind: PendingKind,
    fields: &'static [&'static str],
    field: Seq<char>,
)
    requires
        call_ensures(PendingKind::declared_response_fields, (kind,), fields),
    ensures
        is_answered_with(kind, field) <==> exists|i: int|
            0 <= i < fields@.len() && (#[trigger] fields@[i])@ == field,
{
    let listed = texts(fields@);
    let declared = response_fields(kind);
    assert forall|i: int| 0 <= i < fields@.len() implies listed[i] == (#[trigger] fields@[i])@ by {
    }
    if is_answered_with(kind, field) {
        assert(declared.contains(field)) by {
            assert(declared.len() > 0 && declared[0] == field || declared.len() > 1 && declared[1]
                == field || declared.len() > 2 && declared[2] == field || declared.len() > 3
                && declared[3] == field || declared.len() > 4 && declared[4] == field);
        }
        let i = choose|i: int| 0 <= i < declared.len() && declared[i] == field;
        assert(fields@[i]@ == field);
    }
    if exists|i: int| 0 <= i < fields@.len() && (#[trigger] fields@[i])@ == field {
        let i = choose|i: int| 0 <= i < fields@.len() && (#[trigger] fields@[i])@ == field;
        assert(declared[i] == field);
        assert(declared.len() <= 5);
        assert(i == 0 || i == 1 || i == 2 || i == 3 || i == 4);
    }
}

proof fn lemma_carries(object: Map<Seq<char>, Seq<char>>, kind: PendingKind)
    ensures
        carries_a_field_of(object, kind) <==> exists|field: Seq<char>| #[trigger]
            object.contains_key(field) && is_answered_with(kind, field),
{
    let declared = response_fields(kind);
    if carries_a_field_of(object, kind) {
        let i = choose|i: int|
            0 <= i < declared.len() && object.contains_key(#[trigger] declared[i]);
        assert(declared.len() <= 5);
        assert(i == 0 || i == 1 || i == 2 || i == 3 || i == 4);
        assert(object.contains_key(declared[i]) && is_answered_with(kind, declared[i]));
    }
    if exists|field: Seq<char>| #[trigger]
        object.contains_key(field) && is_answered_with(kind, field) {
        let field = choose|field: Seq<char>| #[trigger]
            object.contains_key(field) && is_answered_with(kind, field);
        assert(declared.len() > 0 && declared[0] == field || declared.len() > 1 && declared[1]
            == field || declared.len() > 2 && declared[2] == field || declared.len() > 3
            && declared[3] == field || declared.len() > 4 && declared[4] == field);
        let i = choose|i: int| 0 <= i < declared.len() && declared[i] == field;
        assert(object.contains_key(declared[i]));
    }
}

/// An object that is no error and that has a field of the endpoint's is believed,
/// whatever else it has; one that has other fields only is not, and neither is an
/// error, nor what is no object. Nothing at all is believed, whether it is an empty
/// body or an empty object.
pub proof fn law_which_answers_are_believed(
    kind: PendingKind,
    body: &str,
    result: Result<(), SessionError>,
)
    requires
        call_ensures(refuse_a_non_response, (kind, body), result),
    ensures
        body@.len() == 0 ==> result is Ok,
        object_of(body@) matches Some(object) && !is_error(object) && (exists|field: Seq<char>|
         #[trigger]
            object.contains_key(field) && is_answered_with(kind, field)) ==> result is Ok,
        object_of(body@) matches Some(object) && (forall|field: Seq<char>| !#[trigger]
            object.contains_key(field)) ==> result is Ok,
        body@.len() > 0 && object_of(body@) is None ==> result is Err,
        body@.len() > 0 && (object_of(body@) matches Some(object) && is_error(object)) ==> result
            is Err,
        body@.len() > 0 && (object_of(body@) matches Some(object) && (exists|field: Seq<char>|
         #[trigger]
            object.contains_key(field)) && !(exists|field: Seq<char>| #[trigger]
            object.contains_key(field) && is_answered_with(kind, field))) ==> result is Err,
        result is Err ==> result->Err_0 == SessionError::MalformedPayload,
{
    if let Some(object) = object_of(body@) {
        lemma_carries(object, kind);
        if forall|field: Seq<char>| !#[trigger] object.contains_key(field) {
            assert(object =~= Map::<Seq<char>, Seq<char>>::empty());
        }
        if exists|field: Seq<char>| #[trigger] object.contains_key(field) {
            let field = choose|field: Seq<char>| #[trigger] object.contains_key(field);
            assert(!Map::<Seq<char>, Seq<char>>::empty().contains_key(field));
        }
    }
}

/// An answer is reported for a request that is pending, and taken on as an answer
/// to what that request is; it is believed exactly where it would be of that kind
/// alone.
pub proof fn law_an_answer_is_reported_for_what_is_pending(
    state: RequestState,
    id: &str,
    body: &str,
    result: Result<PendingKind, SessionError>,
    believed: Result<(), SessionError>,
)
    requires
        state.wf(),
        call_ensures(RequestState::mark_request_sent, (&state, id, body), result),
        call_ensures(refuse_a_non_response, (state@.pending[id@].kind, body), believed),
    ensures
        !state@.pending.contains_key(id@) ==> result == Err::<PendingKind, SessionError>(
            SessionError::UnknownRequest,
        ),
        state@.pending.contains_key(id@) && believed is Ok ==> result == Ok::<
            PendingKind,
            SessionError,
        >(state@.pending[id@].kind),
        state@.pending.contains_key(id@) && believed is Err ==> result == Err::<
            PendingKind,
            SessionError,
        >(SessionError::MalformedPayload),
{
}

/// An answer is read as the response that the request calls for, and what it is
/// read as is handed on. An answer that is none is malformed.
pub proof fn law_an_answer_is_read_as_what_was_asked(
    kind: PendingKind,
    body: &str,
    result: Result<ReadResponse, SessionError>,
)
    requires
        call_ensures(read_response, (kind, body), result),
    ensures
        result is Err ==> result->Err_0 == SessionError::MalformedPayload,
        kind is KeysUpload ==> (keys_upload_response(body@) matches Some(response) ==> result == Ok::<
            ReadResponse,
            SessionError,
        >(ReadResponse::KeysUpload(response))) && (keys_upload_response(body@) is None ==> result
            is Err),
        kind is KeysClaim ==> (keys_claim_response(body@) matches Some(response) ==> result == Ok::<
            ReadResponse,
            SessionError,
        >(ReadResponse::KeysClaim(response))) && (keys_claim_response(body@) is None ==> result
            is Err),
        kind is SignatureUpload ==> (signature_upload_response(body@) matches Some(response)
            ==> result == Ok::<ReadResponse, SessionError>(
            ReadResponse::SignatureUpload(response),
        )) && (signature_upload_response(body@) is None ==> result is Err),
        kind is RoomMessage ==> (room_message_response(body@) matches Some(response) ==> result
            == Ok::<ReadResponse, SessionError>(ReadResponse::RoomMessage(response))) && (
        room_message_response(body@) is None ==> result is Err),
        kind is ToDevice ==> (result matches Ok(ReadResponse::ToDevice(response))
            && to_device_response(body@) == Some(response)),
        kind is SigningKeysUpload ==> (result matches Ok(ReadResponse::SigningKeysUpload(response))
            && signing_keys_upload_response(body@) == Some(response)),
        kind is KeysQuery || kind is AccountKeysQuery || kind is AccountKeysQueryOutOfBand || kind
            is PeerKeysQueryOutOfBand ==> match keys_query_response(body@) {
            Some(wanted) => {
                &&& result matches Ok(ReadResponse::KeysQuery { response, answer, body: text })
                &&& response == wanted
                &&& users_answered(body@) == Some(answer@)
                &&& text@ == body@
            },
            None => result is Err,
        },
{
}

/// Whether a list names a text.
pub open spec fn is_named(list: Seq<String>, text: Seq<char>) -> bool {
    exists|i: int| 0 <= i < list.len() && (#[trigger] list[i])@ == text
}

/// Whether two lists hold the same texts in the same order.
pub open spec fn same_texts(a: Seq<String>, b: Seq<String>) -> bool {
    &&& a.len() == b.len()
    &&& forall|i: int| 0 <= i < a.len() ==> (#[trigger] a[i])@ == b[i]@
}

/// Whether two master keys are one: the same user, the same usage, and the same
/// public keys under the same identifiers.
pub open spec fn is_one_key(a: MasterKey, b: MasterKey) -> bool {
    &&& a.user@ == b.user@
    &&& same_texts(a.usage@, b.usage@)
    &&& same_texts(a.key_ids@, b.key_ids@)
    &&& same_texts(a.keys@, b.keys@)
}

proof fn lemma_is_named(list: Seq<String>, text: Seq<char>)
    ensures
        names(list).contains(text) == is_named(list, text),
{
    if names(list).contains(text) {
        let i = choose|i: int| 0 <= i < names(list).len() && names(list)[i] == text;
        assert(list[i]@ == text);
    }
    if is_named(list, text) {
        let i = choose|i: int| 0 <= i < list.len() && (#[trigger] list[i])@ == text;
        assert(names(list)[i] == text);
    }
}

proof fn lemma_same_texts(a: Seq<String>, b: Seq<String>)
    ensures
        (names(a) == names(b)) == same_texts(a, b),
{
    if names(a) == names(b) {
        assert(names(a).len() == names(b).len());
        assert forall|i: int| 0 <= i < a.len() implies (#[trigger] a[i])@ == b[i]@ by {
            assert(names(a)[i] == names(b)[i]);
        }
    }
    if same_texts(a, b) {
        assert(names(a) =~= names(b));
    }
}

proof fn lemma_is_one_key(a: MasterKey, b: MasterKey)
    ensures
        (a@ == b@) == is_one_key(a, b),
{
    lemma_same_texts(a.usage@, b.usage@);
    lemma_same_texts(a.key_ids@, b.key_ids@);
    lemma_same_texts(a.keys@, b.keys@);
}

/// A master key is the same as another exactly where nothing but the signatures
/// could tell them apart.
pub proof fn law_a_master_key_is_its_user_its_usage_and_its_keys(
    a: MasterKey,
    b: MasterKey,
    same: bool,
)
    requires
        call_ensures(is_same_master, (&a, &b), same),
    ensures
        same == is_one_key(a, b),
{
    lemma_is_one_key(a, b);
}

/// Whether an answer asserts an identity for the account, in whole or in part.
pub open spec fn asserts_identity(answer: KeysQueryAnswer, account: Seq<char>) -> bool {
    ||| is_named(answer.master_keys@, account)
    ||| is_named(answer.self_signing_keys@, account)
    ||| is_named(answer.user_signing_keys@, account)
}

proof fn lemma_asserts_identity(answer: KeysQueryAnswer, account: Seq<char>)
    ensures
        claims_identity(answer@, account) == asserts_identity(answer, account),
        answer@.device_keys.contains(account) == is_named(answer.device_keys@, account),
        answer@.self_signing_keys.contains(account) == is_named(answer.self_signing_keys@, account),
        answer@.user_signing_keys.contains(account) == is_named(answer.user_signing_keys@, account),
{
    lemma_is_named(answer.master_keys@, account);
    lemma_is_named(answer.self_signing_keys@, account);
    lemma_is_named(answer.user_signing_keys@, account);
    lemma_is_named(answer.device_keys@, account);
}

/// Any one of the three keys of an identity asserts it.
pub proof fn law_any_part_asserts_an_identity(answer: KeysQueryAnswer, account: &str, claims: bool)
    requires
        call_ensures(claims_an_identity, (&answer, account), claims),
    ensures
        claims == asserts_identity(answer, account@),
{
    lemma_asserts_identity(answer, account@);
}

/// Whether the machine holds this account's own identity under the master key.
pub open spec fn is_held_here(stored: StoredIdentity, asserted: Option<MasterKey>) -> bool {
    &&& stored matches StoredIdentity::Stored { own: Some(own), .. }
    &&& asserted matches Some(asserted)
    &&& is_one_key(own, asserted)
}

/// An answer that asserts an identity settles what the homeserver holds exactly
/// where the machine holds that very identity as this account's own. One that
/// asserts none settles it exactly where it names the account and the machine
/// either holds no identity or one that was never published. An identity is
/// published exactly where the answer asserts it and all of it.
pub proof fn law_what_an_answer_settles(
    answer: KeysQueryAnswer,
    account: &str,
    asserted: Option<MasterKey>,
    stored: StoredIdentity,
    reading: AccountReading,
)
    requires
        call_ensures(
            answer_about_this_account,
            (&answer, account, &asserted, &stored),
            reading,
        ),
    ensures
        asserts_identity(answer, account@) && is_held_here(stored, asserted) ==> reading.settled
            == AnswerAboutAccount::Settled,
        asserts_identity(answer, account@) && !is_held_here(stored, asserted) ==> reading.settled
            == AnswerAboutAccount::Unsettled,
        !asserts_identity(answer, account@) && !is_named(answer.device_keys@, account@)
            ==> reading.settled == AnswerAboutAccount::Unsettled,
        !asserts_identity(answer, account@) && is_named(answer.device_keys@, account@) ==> (
        reading.settled == AnswerAboutAccount::Settled <==> {
            ||| stored is Missing
            ||| stored is Stored && stored->unpublished
        }),
        !(reading.settled is NotAsked),
        reading.published <==> {
            &&& is_held_here(stored, asserted)
            &&& is_named(answer.self_signing_keys@, account@)
            &&& is_named(answer.user_signing_keys@, account@)
        },
{
    lemma_asserts_identity(answer, account@);
    if let StoredIdentity::Stored { own: Some(own), .. } = stored {
        if let Some(asserted) = asserted {
            lemma_is_one_key(own, asserted);
        }
    }
}

/// Only the answers to the two queries about this account are ones about it.
pub proof fn law_which_queries_are_about_this_account(kind: PendingKind, answer: bool)
    requires
        call_ensures(is_about_this_account, (kind,), answer),
    ensures
        answer <==> kind == PendingKind::AccountKeysQuery || kind
            == PendingKind::AccountKeysQueryOutOfBand,
{
}

/// A request whose answer the machine has taken is read for what it settles only
/// where it asked about this account. There it comes to what the answer comes to
/// with the master key that its own body asserts.
pub proof fn law_what_a_taken_answer_comes_to(
    kind: PendingKind,
    read: ReadResponse,
    taken: Trip<Taken>,
    result: Result<AccountReading, SessionError>,
    asserted: Option<MasterKey>,
    alone: AccountReading,
    account: &str,
)
    requires
        call_ensures(mark_sent, (kind, &read, taken), result),
        taken is Done ==> account@ == taken->Done_0.account@,
        taken is Done && read is KeysQuery ==> call_ensures(
            answer_about_this_account,
            (&read->answer, account, &asserted, &taken->Done_0.stored),
            alone,
        ),
        read is KeysQuery ==> match asserted {
            Some(key) => asserted_master(read->body@, account@) == Some(key@),
            None => asserted_master(read->body@, account@) is None,
        },
    ensures
        taken is NoMachine ==> result == Err::<AccountReading, SessionError>(
            SessionError::NotInitialised,
        ),
        taken is Refused ==> result == Err::<AccountReading, SessionError>(SessionError::Failed),
        taken is Done && !(read is KeysQuery && (kind is AccountKeysQuery || kind
            is AccountKeysQueryOutOfBand)) ==> (result matches Ok(reading) && reading.settled
            == AnswerAboutAccount::NotAsked && !reading.published),
        taken is Done && read is KeysQuery && (kind is AccountKeysQuery || kind
            is AccountKeysQueryOutOfBand) ==> (result matches Ok(reading) && reading.settled
            == alone.settled && reading.published == alone.published),
{
}

/// A refused request carries no status at all, given as zero, or one from 300 to
/// 599.
pub proof fn law_which_statuses_are_failures(status: u16, answer: bool)
    requires
        call_ensures(is_a_failure_status, (status,), answer),
    ensures
        answer <==> status == 0 || 300 <= status && status <= 599,
{
}

/// A refusal is noted for a request that is pending, and with a status that a
/// refusal can have. The request is looked for before the status is looked at.
pub proof fn law_which_refusals_are_noted(
    state: RequestState,
    id: &str,
    status: u16,
    result: Result<(), SessionError>,
)
    requires
        state.wf(),
        call_ensures(RequestState::mark_request_failed, (&state, id, status), result),
    ensures
        !state@.pending.contains_key(id@) ==> result == Err::<(), SessionError>(
            SessionError::UnknownRequest,
        ),
        state@.pending.contains_key(id@) && (status == 0 || 300 <= status <= 599) ==> result
            is Ok,
        state@.pending.contains_key(id@) && !(status == 0 || 300 <= status <= 599) ==> result
            == Err::<(), SessionError>(SessionError::NotAFailureStatus),
{
}

/// A request whose answer was not taken is as pending as before, and nothing else
/// changes. One whose answer was taken is resolved, and no other is; what is
/// queued stays queued. What an answer settled stays settled, an answer that
/// settles nothing is remembered only as long as none has settled it, and an
/// answer about others changes neither.
pub proof fn law_what_a_resolved_request_changes(
    state: &mut RequestState,
    id: &str,
    marked: Result<AccountReading, SessionError>,
    result: Result<(), SessionError>,
    other: Seq<char>,
)
    requires
        old(state).wf(),
        call_ensures(RequestState::finish_mark, (state, id, marked), result),
        other != id@,
    ensures
        marked is Err ==> *final(state) == *old(state) && result == Err::<(), SessionError>(
            marked->Err_0,
        ),
        marked is Ok ==> {
            let before = old(state)@;
            let after = final(state)@;
            let settled = marked->Ok_0.settled;
            &&& result is Ok
            &&& !after.pending.contains_key(id@)
            &&& after.pending.contains_key(other) == before.pending.contains_key(other)
            &&& before.pending.contains_key(other) ==> after.pending[other] == before.pending[other]
            &&& after.answered == (before.answered || settled == AnswerAboutAccount::Settled)
            &&& settled == AnswerAboutAccount::NotAsked ==> after.unsettled == before.unsettled
            &&& settled == AnswerAboutAccount::Settled ==> !after.unsettled
            &&& settled == AnswerAboutAccount::Unsettled ==> after.unsettled == !before.answered
            &&& queues_unchanged(before, after)
            &&& after.next_sequence == before.next_sequence
        },
{
}

/// Whether what waits to be handed out is as it was.
pub open spec fn queues_unchanged(before: Registry, after: Registry) -> bool {
    &&& after.to_device == before.to_device
    &&& after.claim == before.claim
    &&& after.account_query == before.account_query
    &&& after.signing_keys == before.signing_keys
    &&& after.peer_queries == before.peer_queries
    &&& after.actions == before.actions
}

} // verus!
