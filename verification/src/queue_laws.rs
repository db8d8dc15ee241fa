//! What holds of queueing requests.

use vstd::prelude::*;

use crate::history::HistoryError;
use crate::machine::{MachineError, Trip};
use crate::registry::{all_filed, by_identifier, filed, offered_models, waiting_message,
    OfferedRequest, Registry, ToDeviceMessage, Waiting};
use crate::registry_laws::{ids_waiting, lemma_all_filed, lemma_filed_keeps_ids};
use crate::request_laws::{cannot_be_sent, is_sent_as};
use crate::requests::{describe_keys_claim, describe_keys_query, describe_outgoing,
    describe_signing_keys, KeysClaimParts, KeysQueryParts, OutgoingParts, PendingKind,
    SigningKeysParts};
use crate::session::{SessionError, ShareOutcome};
use crate::state::{lemma_filed_in_order, RequestState};
use crate::text::{lemma_before_irreflexive, text_before};

verus! {

/// Whether a body that waits is the one that was described, and is missing where
/// describing it failed.
pub open spec fn is_described_body(
    body: Option<Seq<char>>,
    described: Result<String, SessionError>,
) -> bool {
    match described {
        Ok(text) => body == Some(text@),
        Err(_) => body is None,
    }
}

/// Whether a request that waits is the one that was described, under its
/// identifier and with the users it asks about.
pub open spec fn is_described_request(
    waiting: Waiting,
    id: Seq<char>,
    request: OutgoingParts,
    described: Result<(PendingKind, String), SessionError>,
) -> bool {
    &&& waiting.id == id
    &&& match described {
        Ok((kind, body)) => waiting.kind == kind && waiting.body == Some(body@),
        Err(_) => waiting.body is None,
    }
    &&& match request {
        OutgoingParts::KeysQuery(r) => {
            &&& waiting.kind == PendingKind::KeysQuery
            &&& waiting.users.len() == r.users@.len()
            &&& forall|i: int|
                0 <= i < r.users@.len() ==> #[trigger] waiting.users[i] == r.users@[i]@
        },
        _ => waiting.kind != PendingKind::KeysQuery && waiting.users.len() == 0,
    }
}

/// A request of the machine waits as what it is described as.
pub proof fn law_what_is_offered_is_what_is_described(
    offered: Seq<OfferedRequest>,
    i: int,
    described: Result<(PendingKind, String), SessionError>,
)
    requires
        0 <= i < offered.len(),
        call_ensures(describe_outgoing, (&offered[i].request,), described),
    ensures
        offered_models(offered).len() == offered.len(),
        is_described_request(
            offered_models(offered)[i],
            offered[i].id@,
            offered[i].request,
            described,
        ),
{
}

/// An action is queued once: under an identifier that is queued or pending already
/// it changes nothing. Any other is queued last, with the next place, and nothing
/// else changes.
pub proof fn law_how_an_action_is_queued(
    state: &mut RequestState,
    id: String,
    request: OutgoingParts,
    described: Result<(PendingKind, String), SessionError>,
)
    requires
        old(state).wf(),
        old(state)@.next_sequence < u64::MAX,
        call_ensures(RequestState::queue_action_request, (state, id, request), ()),
        call_ensures(describe_outgoing, (&request,), described),
    ensures
        ({
            let before = old(state)@;
            let after = final(state)@;
            let known = before.pending.contains_key(id@) || exists|i: int|
                0 <= i < before.actions.len() && (#[trigger] before.actions[i]).1.id == id@;
            &&& known ==> after == before
            &&& !known ==> {
                &&& after.actions.len() == before.actions.len() + 1
                &&& after.actions.drop_last() == before.actions
                &&& after.actions.last().0 == before.next_sequence
                &&& is_described_request(after.actions.last().1, id@, request, described)
                &&& after.next_sequence == before.next_sequence + 1
                &&& after == (Registry {
                    actions: after.actions,
                    next_sequence: after.next_sequence,
                    ..before
                })
            }
        }),
{
    let before = old(state)@;
    let after = final(state)@;
    let known = before.pending.contains_key(id@) || exists|i: int|
        0 <= i < before.actions.len() && (#[trigger] before.actions[i]).1.id == id@;
    if !known {
        assert(after.actions.drop_last() =~= before.actions);
    }
}

/// An upload of the signing keys waits alone: it takes the place of one that waits,
/// or the next place, and nothing else changes.
pub proof fn law_how_a_signing_keys_upload_is_queued(
    state: &mut RequestState,
    id: String,
    request: SigningKeysParts,
    described: Result<String, SessionError>,
)
    requires
        old(state).wf(),
        old(state)@.next_sequence < u64::MAX,
        call_ensures(RequestState::queue_signing_keys_under, (state, id, request), ()),
        call_ensures(describe_signing_keys, (&request,), described),
    ensures
        is_queued_upload(old(state)@, final(state)@, id@, described),
{
}

/// Whether a registry is what another becomes when a signing-keys upload is queued.
pub open spec fn is_queued_upload(
    before: Registry,
    after: Registry,
    id: Seq<char>,
    described: Result<String, SessionError>,
) -> bool {
    &&& after.signing_keys matches Some((place, upload))
    &&& upload.id == id
    &&& upload.kind == PendingKind::SigningKeysUpload
    &&& is_described_body(upload.body, described)
    &&& match before.signing_keys {
        Some((earlier, _)) => place == earlier && after.next_sequence == before.next_sequence,
        None => place == before.next_sequence && after.next_sequence == before.next_sequence + 1,
    }
    &&& after == (Registry {
        signing_keys: after.signing_keys,
        next_sequence: after.next_sequence,
        ..before
    })
}

/// An upload of the signing keys under a new identifier is queued under the
/// identifier that is handed back.
pub proof fn law_a_signing_keys_upload_is_queued_under_what_is_handed_back(
    state: &mut RequestState,
    request: SigningKeysParts,
    id: String,
    described: Result<String, SessionError>,
)
    requires
        old(state).wf(),
        old(state)@.next_sequence < u64::MAX,
        call_ensures(RequestState::queue_signing_keys_request, (state, request), id),
        call_ensures(describe_signing_keys, (&request,), described),
    ensures
        is_queued_upload(old(state)@, final(state)@, id@, described),
{
}

/// Whether a registry is what another becomes when a query about this account is
/// queued.
pub open spec fn is_queued_account_query(
    before: Registry,
    after: Registry,
    id: Seq<char>,
    described: Result<String, SessionError>,
) -> bool {
    &&& after.account_query matches Some((place, query))
    &&& query.id == id
    &&& query.kind == PendingKind::AccountKeysQueryOutOfBand
    &&& is_described_body(query.body, described)
    &&& match before.account_query {
        Some((earlier, _)) => place == earlier && after.next_sequence == before.next_sequence,
        None => place == before.next_sequence && after.next_sequence == before.next_sequence + 1,
    }
    &&& after == (Registry {
        account_query: after.account_query,
        next_sequence: after.next_sequence,
        ..before
    })
}

/// A query about this account waits alone: it takes the place of one that waits, or
/// the next place, and nothing else changes.
pub proof fn law_how_an_account_query_is_queued(
    state: &mut RequestState,
    id: String,
    request: KeysQueryParts,
    described: Result<String, SessionError>,
)
    requires
        old(state).wf(),
        old(state)@.next_sequence < u64::MAX,
        call_ensures(RequestState::queue_account_key_query, (state, id, request), ()),
        call_ensures(describe_keys_query, (&request,), described),
    ensures
        is_queued_account_query(old(state)@, final(state)@, id@, described),
{
}

/// Where the account's keys have to be fetched first, the query that fetches them
/// is queued, and that is what is reported.
pub proof fn law_the_query_that_has_to_come_first_is_queued(
    state: &mut RequestState,
    id: String,
    query: KeysQueryParts,
    error: MachineError,
    described: Result<String, SessionError>,
)
    requires
        old(state).wf(),
        old(state)@.next_sequence < u64::MAX,
        call_ensures(RequestState::fetch_account_keys_first, (state, id, query), error),
        call_ensures(describe_keys_query, (&query,), described),
    ensures
        error == MachineError::AccountKeysNotFetched,
        is_queued_account_query(old(state)@, final(state)@, id@, described),
{
}

/// A query owed to a person is queued behind those that are owed already, without a
/// place, and nothing else changes.
pub proof fn law_how_a_peer_query_is_queued(
    state: &mut RequestState,
    id: String,
    request: KeysQueryParts,
    described: Result<String, SessionError>,
)
    requires
        old(state).wf(),
        call_ensures(RequestState::queue_peer_key_query, (state, id, request), ()),
        call_ensures(describe_keys_query, (&request,), described),
    ensures
        ({
            let before = old(state)@;
            let after = final(state)@;
            &&& after.peer_queries.len() == before.peer_queries.len() + 1
            &&& after.peer_queries.drop_last() == before.peer_queries
            &&& after.peer_queries.last().id == id@
            &&& after.peer_queries.last().kind == PendingKind::PeerKeysQueryOutOfBand
            &&& is_described_body(after.peer_queries.last().body, described)
            &&& after == (Registry { peer_queries: after.peer_queries, ..before })
        }),
{
    assert(final(state)@.peer_queries.drop_last() =~= old(state)@.peer_queries);
}

/// Whether a request that waits is a claim.
pub open spec fn is_described_claim(
    waiting: Waiting,
    id: Seq<char>,
    described: Result<String, SessionError>,
) -> bool {
    &&& waiting.id == id
    &&& waiting.kind == PendingKind::KeysClaim
    &&& is_described_body(waiting.body, described)
}

/// A claim waits alone, over one that waits, and nothing else changes.
pub proof fn law_how_a_claim_is_queued(
    state: &mut RequestState,
    id: String,
    request: KeysClaimParts,
    described: Result<String, SessionError>,
)
    requires
        old(state).wf(),
        call_ensures(RequestState::queue_claim, (state, id, request), ()),
        call_ensures(describe_keys_claim, (&request,), described),
    ensures
        final(state)@.claim matches Some(claim) && is_described_claim(claim, id@, described),
        final(state)@ == (Registry { claim: final(state)@.claim, ..old(state)@ }),
{
}

/// Whether a request that waits is a to-device message.
pub open spec fn is_waiting_message(waiting: Waiting, message: ToDeviceMessage) -> bool {
    &&& waiting.id == message.id@
    &&& waiting.kind == PendingKind::ToDevice
    &&& waiting.users.len() == 0
    &&& waiting.body matches Some(text) ==> is_sent_as(message.request, text)
    &&& waiting.body is None ==> cannot_be_sent(message.request)
}

/// Whether messages were filed among those that waited: by identifier, each under
/// its own, the last of those with one identifier over every other, and with
/// nothing lost and nothing added.
pub open spec fn are_filed(
    before: Seq<Waiting>,
    messages: Seq<ToDeviceMessage>,
    after: Seq<Waiting>,
) -> bool {
    &&& forall|i: int, j: int|
        0 <= i < j < after.len() ==> text_before((#[trigger] after[i]).id, (#[trigger] after[j]).id)
    &&& forall|i: int|
        0 <= i < after.len() ==> is_last_message(messages, #[trigger] after[i]) || (
        has_no_message(messages, after[i].id) && before.contains(after[i]))
    &&& forall|i: int|
        0 <= i < before.len() && has_no_message(messages, (#[trigger] before[i]).id)
            ==> after.contains(before[i])
    &&& forall|m: int|
        0 <= m < messages.len() ==> exists|i: int|
            0 <= i < after.len() && #[trigger] after[i].id == (#[trigger] messages[m]).id@
}

/// Whether no message goes by the identifier.
pub open spec fn has_no_message(messages: Seq<ToDeviceMessage>, id: Seq<char>) -> bool {
    forall|m: int| 0 <= m < messages.len() ==> (#[trigger] messages[m]).id@ != id
}

/// Whether a request that waits is the last message of its identifier.
pub open spec fn is_last_message(messages: Seq<ToDeviceMessage>, waiting: Waiting) -> bool {
    exists|m: int|
        0 <= m < messages.len() && is_waiting_message(waiting, #[trigger] messages[m])
            && has_no_message(messages.skip(m + 1), waiting.id)
}

proof fn lemma_filed_others(list: Seq<Waiting>, message: Waiting, other: Waiting)
    requires
        by_identifier(list),
        list.contains(other),
        other.id != message.id,
    ensures
        filed(list, message).contains(other),
    decreases list.len(),
{
    let after = filed(list, message);
    let at = choose|i: int| 0 <= i < list.len() && list[i] == other;
    if list.last().id == message.id {
        assert(after[at] == other);
    } else if text_before(message.id, list.last().id) {
        let shorter = list.drop_last();
        if at == list.len() - 1 {
            assert(after[after.len() - 1] == other);
        } else {
            assert(shorter[at] == other);
            assert(by_identifier(shorter)) by {
                assert forall|i: int, j: int| 0 <= i < j < shorter.len() implies text_before(
                    (#[trigger] shorter[i]).id,
                    (#[trigger] shorter[j]).id,
                ) by {
                    assert(text_before(list[i].id, list[j].id));
                }
            }
            lemma_filed_others(shorter, message, other);
            let below = filed(shorter, message);
            let k = choose|i: int| 0 <= i < below.len() && below[i] == other;
            assert(after[k] == other);
        }
    } else {
        assert(after[at] == other);
    }
}

proof fn lemma_filed_replaces(list: Seq<Waiting>, message: Waiting, i: int)
    requires
        by_identifier(list),
        0 <= i < filed(list, message).len(),
        filed(list, message)[i].id == message.id,
    ensures
        filed(list, message)[i] == message,
{
    lemma_filed_in_order(list, message);
    let after = filed(list, message);
    let k = choose|k: int| 0 <= k < after.len() && after[k] == message;
    if k < i {
        assert(text_before(after[k].id, after[i].id));
        lemma_before_irreflexive(message.id);
    } else if i < k {
        assert(text_before(after[i].id, after[k].id));
        lemma_before_irreflexive(message.id);
    }
}

/// Filing one more message leaves the last messages of their identifiers, and what
/// waited under others.
proof fn lemma_last_messages(
    list: Seq<Waiting>,
    messages: Seq<ToDeviceMessage>,
    below: Seq<Waiting>,
    i: int,
)
    requires
        messages.len() > 0,
        by_identifier(below),
        are_filed(list, messages.drop_last(), below),
        0 <= i < filed(below, waiting_message(messages.last())).len(),
    ensures
        ({
            let w = filed(below, waiting_message(messages.last()))[i];
            is_last_message(messages, w) || (has_no_message(messages, w.id) && list.contains(w))
        }),
{
    let shorter = messages.drop_last();
    let last = messages.last();
    let filing = waiting_message(last);
    let w = filed(below, filing)[i];
    lemma_filed_in_order(below, filing);
    if w.id == filing.id {
        lemma_filed_replaces(below, filing, i);
        assert(is_waiting_message(w, messages[messages.len() - 1]));
        assert(has_no_message(messages.skip(messages.len() as int), w.id));
    } else {
        assert(below.contains(w));
        let k = choose|k: int| 0 <= k < below.len() && below[k] == w;
        assert(is_last_message(shorter, below[k]) || (has_no_message(shorter, below[k].id)
            && list.contains(below[k])));
        if is_last_message(shorter, w) {
            let m = choose|m: int|
                0 <= m < shorter.len() && is_waiting_message(w, #[trigger] shorter[m])
                    && has_no_message(shorter.skip(m + 1), w.id);
            assert(messages[m] == shorter[m]);
            let rest = messages.skip(m + 1);
            assert forall|n: int| 0 <= n < rest.len() implies (#[trigger] rest[n]).id@
                != w.id by {
                if n < rest.len() - 1 {
                    assert(rest[n] == shorter.skip(m + 1)[n]);
                } else {
                    assert(rest[n] == last);
                }
            }
        } else {
            lemma_has_no_message(messages, w.id);
        }
    }
}

proof fn lemma_has_no_message(messages: Seq<ToDeviceMessage>, id: Seq<char>)
    requires
        messages.len() > 0,
    ensures
        has_no_message(messages, id) == (has_no_message(messages.drop_last(), id)
            && messages.last().id@ != id),
{
    let shorter = messages.drop_last();
    assert(messages[messages.len() - 1] == messages.last());
    if has_no_message(messages, id) {
        assert forall|m: int| 0 <= m < shorter.len() implies (#[trigger] shorter[m]).id@ != id by {
            assert(messages[m] == shorter[m]);
        }
    }
    if has_no_message(shorter, id) && messages.last().id@ != id {
        assert forall|m: int| 0 <= m < messages.len() implies (#[trigger] messages[m]).id@ != id by {
            if m < shorter.len() {
                assert(messages[m] == shorter[m]);
            }
        }
    }
}

proof fn lemma_message_is_filed(
    list: Seq<Waiting>,
    messages: Seq<ToDeviceMessage>,
    below: Seq<Waiting>,
    m: int,
)
    requires
        messages.len() > 0,
        are_filed(list, messages.drop_last(), below),
        0 <= m < messages.len(),
    ensures
        exists|i: int|
            0 <= i < filed(below, waiting_message(messages.last())).len() && #[trigger] filed(
                below,
                waiting_message(messages.last()),
            )[i].id == messages[m].id@,
{
    let shorter = messages.drop_last();
    let filing = waiting_message(messages.last());
    let after = filed(below, filing);
    let id = messages[m].id@;
    if m < shorter.len() {
        assert(shorter[m].id@ == id);
        let k = choose|i: int| 0 <= i < below.len() && #[trigger] below[i].id == shorter[m].id@;
        assert(ids_waiting(below)[k] == id);
    }
    lemma_filed_keeps_ids(below, filing, id);
    let ids = ids_waiting(after);
    let k = choose|i: int| 0 <= i < ids.len() && ids[i] == id;
    assert(after[k].id == id);
}

proof fn lemma_are_filed(list: Seq<Waiting>, messages: Seq<ToDeviceMessage>)
    requires
        by_identifier(list),
    ensures
        are_filed(list, messages, all_filed(list, messages)),
    decreases messages.len(),
{
    let after = all_filed(list, messages);
    lemma_all_filed(list, messages, Seq::empty());
    if messages.len() > 0 {
        let shorter = messages.drop_last();
        let filing = waiting_message(messages.last());
        let below = all_filed(list, shorter);
        lemma_are_filed(list, shorter);
        lemma_all_filed(list, shorter, Seq::empty());
        assert forall|i: int| 0 <= i < after.len() implies is_last_message(
            messages,
            #[trigger] after[i],
        ) || (has_no_message(messages, after[i].id) && list.contains(after[i])) by {
            lemma_last_messages(list, messages, below, i);
        }
        assert forall|i: int|
            0 <= i < list.len() && has_no_message(messages, (#[trigger] list[i]).id) implies
            after.contains(list[i]) by {
            lemma_has_no_message(messages, list[i].id);
            lemma_filed_others(below, filing, list[i]);
        }
        assert forall|m: int| 0 <= m < messages.len() implies exists|i: int|
            0 <= i < after.len() && #[trigger] after[i].id == (#[trigger] messages[m]).id@ by {
            lemma_message_is_filed(list, messages, below, m);
        }
    } else {
        assert forall|i: int| 0 <= i < after.len() implies list.contains(#[trigger] after[i]) by {
        }
    }
}

/// To-device messages are filed by identifier, each over one that waits under its
/// own, and nothing else changes.
pub proof fn law_how_messages_are_queued(state: &mut RequestState, messages: Vec<ToDeviceMessage>)
    requires
        old(state).wf(),
        call_ensures(RequestState::queue_to_device_requests, (state, messages), ()),
    ensures
        are_filed(old(state)@.to_device, messages@, final(state)@.to_device),
        final(state)@ == (Registry { to_device: final(state)@.to_device, ..old(state)@ }),
{
    lemma_are_filed(old(state)@.to_device, messages@);
}

/// The messages that tell someone about a bundle are queued where the machine made
/// them; where it did not, nothing changes and that is what is reported.
pub proof fn law_how_the_messages_of_a_bundle_are_queued(
    state: &mut RequestState,
    messages: Trip<Vec<ToDeviceMessage>>,
    result: Result<(), HistoryError>,
)
    requires
        old(state).wf(),
        call_ensures(RequestState::record_bundle_share, (state, messages), result),
    ensures
        messages is NoMachine ==> *final(state) == *old(state) && result == Err::<(), HistoryError>(
            HistoryError::NotInitialised,
        ),
        messages is Refused ==> *final(state) == *old(state) && result == Err::<(), HistoryError>(
            HistoryError::Failed,
        ),
        messages matches Trip::Done(list) ==> {
            &&& result is Ok
            &&& are_filed(old(state)@.to_device, list@, final(state)@.to_device)
            &&& final(state)@ == (Registry { to_device: final(state)@.to_device, ..old(state)@ })
        },
{
    if let Trip::Done(list) = messages {
        lemma_are_filed(old(state)@.to_device, list@);
    }
}

/// Sharing a scope's key queues the claim for the missing sessions, if any is
/// missing, and then the messages, up to the step that failed; the first failure is
/// what is reported. Whether the users can be tracked takes nothing back.
pub proof fn law_what_sharing_a_key_queues(
    state: &mut RequestState,
    outcome: ShareOutcome,
    result: Result<(), SessionError>,
    described: Result<String, SessionError>,
)
    requires
        old(state).wf(),
        call_ensures(RequestState::record_share, (state, outcome), result),
        outcome.missing matches Trip::Done(Some(claim)) ==> call_ensures(
            describe_keys_claim,
            (&claim.request,),
            described,
        ),
    ensures
        ({
            let before = old(state)@;
            let after = final(state)@;
            &&& after == (Registry { claim: after.claim, to_device: after.to_device, ..before })
            &&& outcome.missing matches Trip::Done(Some(claim)) ==> (after.claim matches Some(
                waiting,
            ) && is_described_claim(waiting, claim.id@, described))
            &&& !(outcome.missing matches Trip::Done(Some(claim))) ==> after.claim == before.claim
            &&& outcome.missing is Done && outcome.shared is Done ==> are_filed(
                before.to_device,
                outcome.shared->Done_0@,
                after.to_device,
            )
            &&& !(outcome.missing is Done && outcome.shared is Done) ==> after.to_device
                == before.to_device
        }),
        outcome.missing is NoMachine || outcome.missing is Done && outcome.shared is NoMachine
            || outcome.missing is Done && outcome.shared is Done && outcome.tracking is NoMachine
            <==> result == Err::<(), SessionError>(SessionError::NotInitialised),
        outcome.missing is Refused || outcome.missing is Done && outcome.shared is Refused
            || outcome.missing is Done && outcome.shared is Done && outcome.tracking is Refused
            <==> result == Err::<(), SessionError>(SessionError::Failed),
        outcome.missing is Done && outcome.shared is Done && outcome.tracking is Done <==> result
            is Ok,
{
    if outcome.missing is Done && outcome.shared is Done {
        lemma_are_filed(old(state)@.to_device, outcome.shared->Done_0@);
    }
}

/// A registry begins empty, and is empty again once it has been reset.
pub proof fn law_a_registry_begins_empty(fresh: RequestState, state: &mut RequestState)
    requires
        call_ensures(RequestState::new, (), fresh),
        call_ensures(RequestState::reset, (state,), ()),
    ensures
        fresh@ == final(state)@,
        fresh@.to_device.len() == 0,
        fresh@.claim is None,
        fresh@.account_query is None,
        fresh@.signing_keys is None,
        fresh@.peer_queries.len() == 0,
        fresh@.actions.len() == 0,
        forall|id: Seq<char>| !#[trigger] fresh@.pending.contains_key(id),
        !fresh@.answered,
        !fresh@.unsettled,
        fresh@.next_sequence == 0,
        fresh.wf(),
{
}

/// Forgetting what answers have settled forgets that and nothing else.
pub proof fn law_what_is_forgotten(state: &mut RequestState)
    requires
        old(state).wf(),
        call_ensures(RequestState::forget_account_keys_answered, (state,), ()),
    ensures
        !final(state)@.answered,
        !final(state)@.unsettled,
        final(state)@ == (Registry { answered: false, unsettled: false, ..old(state)@ }),
{
}

/// A registry says what it holds.
pub proof fn law_a_registry_says_what_it_holds(
    state: RequestState,
    id: &str,
    place: u64,
    pending: bool,
    answered: bool,
    unsettled: bool,
)
    requires
        state.wf(),
        call_ensures(RequestState::next_place, (&state,), place),
        call_ensures(RequestState::is_pending, (&state, id), pending),
        call_ensures(RequestState::account_keys_answered, (&state,), answered),
        call_ensures(RequestState::account_keys_answer_unsettled, (&state,), unsettled),
    ensures
        place == state@.next_sequence,
        pending == state@.pending.contains_key(id@),
        answered == state@.answered,
        unsettled == state@.unsettled,
        !(answered && unsettled),
{
}

} // verus!
