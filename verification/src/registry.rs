//! The registry of requests as a model: what waits to be handed out, what has
//! been handed out, and what the homeserver's answers have settled.

use vstd::prelude::*;

use crate::ledger::{unsuperseded, Pending};
use crate::requests::{asks_about, body_of, keys_claim_body, keys_query_body, kind_of, names,
    scoped, signing_keys_body, tag_of, whole_body, KeysClaimParts, KeysQueryParts, OutgoingParts, Part,
    PendingKind, SigningKeysParts};
use crate::text::text_before;

verus! {

/// A request as the caller is handed it.
#[derive(Clone, PartialEq, Eq)]
pub struct OutgoingRequest {
    /// What to report the answer under.
    pub id: String,
    /// Which endpoint it goes to.
    pub kind: String,
    /// What to send.
    pub body: String,
}

/// A request of the machine, under the identifier the machine gave it.
pub struct OfferedRequest {
    pub id: String,
    pub request: OutgoingParts,
}

/// A to-device message, under its transaction identifier.
pub struct ToDeviceMessage {
    pub id: String,
    pub request: Part,
}

/// A request that waits, as a model: its identifier, what it is, whom it asks
/// about, and its body if all of it serialises.
pub struct Waiting {
    pub id: Seq<char>,
    pub kind: PendingKind,
    pub users: Seq<Seq<char>>,
    pub body: Option<Seq<char>>,
}

/// The registry, as a model.
pub struct Registry {
    /// The to-device messages, in the order of their identifiers.
    pub to_device: Seq<Waiting>,
    pub claim: Option<Waiting>,
    /// A query about this account, with the place it was given when queued.
    pub account_query: Option<(u64, Waiting)>,
    /// A signing-keys upload, with the place it was given when queued.
    pub signing_keys: Option<(u64, Waiting)>,
    pub peer_queries: Seq<Waiting>,
    /// The requests that verification actions made, with the places they were
    /// given when queued.
    pub actions: Seq<(u64, Waiting)>,
    pub pending: Map<Seq<char>, Pending>,
    /// Whether an answer has settled what the homeserver holds for this account.
    pub answered: bool,
    /// Whether an answer has come that settled nothing, and none has that did.
    pub unsettled: bool,
    pub next_sequence: u64,
}

/// What a request of the machine is as a waiting one.
pub open spec fn waiting_request(id: Seq<char>, request: OutgoingParts) -> Waiting {
    Waiting { id, kind: kind_of(request), users: asks_about(request), body: body_of(request) }
}

/// What a to-device message is as a waiting one.
pub open spec fn waiting_message(message: ToDeviceMessage) -> Waiting {
    Waiting {
        id: message.id@,
        kind: PendingKind::ToDevice,
        users: seq![],
        body: whole_body(message.request),
    }
}

/// What a claim is as a waiting one.
pub open spec fn waiting_claim(id: Seq<char>, request: KeysClaimParts) -> Waiting {
    Waiting { id, kind: PendingKind::KeysClaim, users: seq![], body: keys_claim_body(request) }
}

/// What a key query asked for by name is as a waiting one.
pub open spec fn waiting_query(id: Seq<char>, kind: PendingKind, request: KeysQueryParts) -> Waiting {
    Waiting { id, kind, users: names(request.users@), body: keys_query_body(request) }
}

/// What a signing-keys upload is as a waiting one.
pub open spec fn waiting_signing_keys(id: Seq<char>, request: SigningKeysParts) -> Waiting {
    Waiting {
        id,
        kind: PendingKind::SigningKeysUpload,
        users: seq![],
        body: signing_keys_body(request),
    }
}

/// A request that is about to be handed out.
pub struct Fresh {
    /// The place it was given when it was queued, if it was.
    pub queued_at: Option<u64>,
    pub id: Seq<char>,
    pub kind: PendingKind,
    pub body: Option<Seq<char>>,
}

/// A waiting request about to be handed out, told apart by whether it asks about
/// this account.
pub open spec fn fresh(queued_at: Option<u64>, waiting: Waiting, account: Seq<char>) -> Fresh {
    Fresh {
        queued_at,
        id: waiting.id,
        kind: scoped(waiting.kind, waiting.users, account),
        body: waiting.body,
    }
}

/// A list of at most one.
pub open spec fn at_most_one<T>(item: Option<T>) -> Seq<T> {
    match item {
        Some(item) => seq![item],
        None => seq![],
    }
}

/// Requests that get their place when they are handed out.
pub open spec fn unplaced(list: Seq<Waiting>, account: Seq<char>) -> Seq<Fresh> {
    list.map_values(|w: Waiting| fresh(None, w, account))
}

/// Requests that got their place when they were queued.
pub open spec fn placed(list: Seq<(u64, Waiting)>, account: Seq<char>) -> Seq<Fresh> {
    list.map_values(|w: (u64, Waiting)| fresh(Some(w.0), w.1, account))
}

/// Everything there is to hand out: what the machine offers, then what is queued
/// here.
pub open spec fn batch(registry: Registry, offered: Seq<Waiting>, account: Seq<char>) -> Seq<Fresh> {
    unplaced(offered, account)
        + unplaced(registry.to_device, account)
        + unplaced(at_most_one(registry.claim), account)
        + placed(at_most_one(registry.account_query), account)
        + placed(at_most_one(registry.signing_keys), account)
        + unplaced(registry.peer_queries, account)
        + placed(registry.actions, account)
}

/// Whether every request of the batch can be sent.
pub open spec fn all_serialise(batch: Seq<Fresh>) -> bool {
    forall|i: int| 0 <= i < batch.len() ==> (#[trigger] batch[i]).body is Some
}

/// Whether the request is heard of for the first time.
pub open spec fn is_new(request: Fresh, pending: Map<Seq<char>, Pending>) -> bool {
    request.queued_at is None && !pending.contains_key(request.id)
}

/// How many requests of the batch are heard of for the first time.
pub open spec fn new_count(batch: Seq<Fresh>, pending: Map<Seq<char>, Pending>) -> nat
    decreases batch.len(),
{
    if batch.len() == 0 {
        0
    } else {
        new_count(batch.drop_last(), pending) + (if is_new(batch.last(), pending) {
            1nat
        } else {
            0nat
        })
    }
}

/// The place of a request: the one it was given when queued, else the one it was
/// given when it was first handed out, else the next one.
pub open spec fn place_of(request: Fresh, pending: Map<Seq<char>, Pending>, next: int) -> u64 {
    match request.queued_at {
        Some(sequence) => sequence,
        None => if pending.contains_key(request.id) {
            pending[request.id].sequence
        } else {
            next as u64
        },
    }
}

/// A request with its place.
pub struct Stamped {
    pub sequence: u64,
    pub id: Seq<char>,
    pub kind: PendingKind,
    pub body: Seq<char>,
}

/// A request with its place, given the places used up before it.
pub open spec fn stamp(request: Fresh, pending: Map<Seq<char>, Pending>, next: int) -> Stamped {
    Stamped {
        sequence: place_of(request, pending, next),
        id: request.id,
        kind: request.kind,
        body: request.body->0,
    }
}

/// The batch with places, in the order it was gathered in.
pub open spec fn stamped(
    batch: Seq<Fresh>,
    pending: Map<Seq<char>, Pending>,
    next: int,
) -> Seq<Stamped> {
    Seq::new(
        batch.len(),
        |i: int| stamp(batch[i], pending, next + new_count(batch.take(i), pending)),
    )
}

/// Puts one request behind all those whose places are not after its own.
pub open spec fn put(list: Seq<Stamped>, request: Stamped) -> Seq<Stamped>
    decreases list.len(),
{
    if list.len() == 0 || list.last().sequence <= request.sequence {
        list.push(request)
    } else {
        put(list.drop_last(), request).push(list.last())
    }
}

/// The requests by their places; those with one place stay as they were.
pub open spec fn in_order(list: Seq<Stamped>) -> Seq<Stamped>
    decreases list.len(),
{
    if list.len() == 0 {
        list
    } else {
        put(in_order(list.drop_last()), list.last())
    }
}

/// The kinds of a list of requests.
pub open spec fn kinds(list: Seq<Stamped>) -> Seq<PendingKind> {
    list.map_values(|r: Stamped| r.kind)
}

/// The pending requests once these have been handed out too.
pub open spec fn recorded(
    pending: Map<Seq<char>, Pending>,
    list: Seq<Stamped>,
) -> Map<Seq<char>, Pending>
    decreases list.len(),
{
    if list.len() == 0 {
        pending
    } else {
        recorded(pending, list.drop_last()).insert(
            list.last().id,
            Pending { kind: list.last().kind, sequence: list.last().sequence },
        )
    }
}

/// The batch in the order in which it is handed out.
pub open spec fn handed_out(
    registry: Registry,
    offered: Seq<Waiting>,
    account: Seq<char>,
) -> Seq<Stamped> {
    in_order(
        stamped(
            batch(registry, offered, account),
            registry.pending,
            registry.next_sequence as int,
        ),
    )
}

/// The registry once a batch has been handed out: nothing waits, what the batch
/// supersedes is forgotten, and the batch is pending.
pub open spec fn after_take(
    registry: Registry,
    offered: Seq<Waiting>,
    account: Seq<char>,
) -> Registry {
    let list = handed_out(registry, offered, account);
    Registry {
        to_device: seq![],
        claim: None,
        account_query: None,
        signing_keys: None,
        peer_queries: seq![],
        actions: seq![],
        pending: recorded(unsuperseded(registry.pending, kinds(list)), list),
        next_sequence: (registry.next_sequence + new_count(
            batch(registry, offered, account),
            registry.pending,
        )) as u64,
        ..registry
    }
}

/// Whether the caller's request is the stamped one.
pub open spec fn is_handed_out(request: OutgoingRequest, stamped: Stamped) -> bool {
    &&& request.id@ == stamped.id
    &&& request.kind@ == tag_of(stamped.kind)
    &&& request.body@ == stamped.body
}

/// Puts a to-device message where its identifier belongs, over one that goes by
/// the same identifier.
pub open spec fn filed(list: Seq<Waiting>, message: Waiting) -> Seq<Waiting>
    decreases list.len(),
{
    if list.len() == 0 {
        seq![message]
    } else if list.last().id == message.id {
        list.drop_last().push(message)
    } else if text_before(message.id, list.last().id) {
        filed(list.drop_last(), message).push(list.last())
    } else {
        list.push(message)
    }
}

/// Files several messages, one after the other.
pub open spec fn all_filed(list: Seq<Waiting>, messages: Seq<ToDeviceMessage>) -> Seq<Waiting>
    decreases messages.len(),
{
    if messages.len() == 0 {
        list
    } else {
        filed(all_filed(list, messages.drop_last()), waiting_message(messages.last()))
    }
}

/// Whether the identifiers are in their order, each listed once.
pub open spec fn by_identifier(list: Seq<Waiting>) -> bool {
    forall|i: int, j: int|
        0 <= i < j < list.len() ==> text_before((#[trigger] list[i]).id, (#[trigger] list[j]).id)
}

/// Whether an action with this identifier is queued.
pub open spec fn action_queued(actions: Seq<(u64, Waiting)>, id: Seq<char>) -> bool {
    exists|i: int| 0 <= i < actions.len() && (#[trigger] actions[i]).1.id == id
}

/// What every registry keeps to.
///
/// The to-device messages are filed by identifier; the actions stand in the
/// order they were queued in, each under an identifier of its own that is not
/// pending; no place has been given that is still to come; and what an answer
/// settled is not also held to be unsettled.
pub open spec fn consistent(r: Registry) -> bool {
    &&& by_identifier(r.to_device)
    &&& forall|i: int| 0 <= i < r.to_device.len() ==> (#[trigger] r.to_device[i]).kind is ToDevice
    &&& r.claim matches Some(claim) ==> claim.kind is KeysClaim
    &&& r.account_query matches Some(query) ==> query.0 < r.next_sequence
        && query.1.kind is AccountKeysQueryOutOfBand
    &&& r.signing_keys matches Some(keys) ==> keys.0 < r.next_sequence
        && keys.1.kind is SigningKeysUpload
    &&& forall|i: int|
        0 <= i < r.peer_queries.len() ==> (
        #[trigger] r.peer_queries[i]).kind is PeerKeysQueryOutOfBand
    &&& forall|i: int| 0 <= i < r.actions.len() ==> (#[trigger] r.actions[i]).0 < r.next_sequence
    &&& forall|i: int, j: int|
        0 <= i < j < r.actions.len() ==> (#[trigger] r.actions[i]).0 < (#[trigger] r.actions[j]).0
    &&& forall|i: int, j: int|
        0 <= i < j < r.actions.len() ==> (#[trigger] r.actions[i]).1.id != (
        #[trigger] r.actions[j]).1.id
    &&& forall|i: int|
        0 <= i < r.actions.len() ==> !r.pending.contains_key((#[trigger] r.actions[i]).1.id)
    &&& forall|id: Seq<char>| #[trigger]
        r.pending.contains_key(id) ==> r.pending[id].sequence < r.next_sequence
    &&& !(r.answered && r.unsettled)
}

/// A registry in which nothing has happened.
pub open spec fn nothing_yet() -> Registry {
    Registry {
        to_device: seq![],
        claim: None,
        account_query: None,
        signing_keys: None,
        peer_queries: seq![],
        actions: seq![],
        pending: Map::empty(),
        answered: false,
        unsettled: false,
        next_sequence: 0,
    }
}

/// The registry once an action has been queued: one that is queued or pending
/// already is not queued again.
pub open spec fn after_action(r: Registry, action: Waiting) -> Registry {
    if action_queued(r.actions, action.id) || r.pending.contains_key(action.id) {
        r
    } else {
        Registry {
            actions: r.actions.push((r.next_sequence, action)),
            next_sequence: (r.next_sequence + 1) as u64,
            ..r
        }
    }
}

/// The place a slot's next occupant gets: that of the one it replaces.
pub open spec fn slot_place(slot: Option<(u64, Waiting)>, next: u64) -> u64 {
    match slot {
        Some((sequence, _)) => sequence,
        None => next,
    }
}

/// The next place, once a slot has been filled.
pub open spec fn next_after_slot(slot: Option<(u64, Waiting)>, next: u64) -> u64 {
    match slot {
        Some(_) => next,
        None => (next + 1) as u64,
    }
}

/// The registry once a signing-keys upload has been queued.
pub open spec fn after_signing_keys(r: Registry, upload: Waiting) -> Registry {
    Registry {
        signing_keys: Some((slot_place(r.signing_keys, r.next_sequence), upload)),
        next_sequence: next_after_slot(r.signing_keys, r.next_sequence),
        ..r
    }
}

/// The registry once a query about this account has been queued.
pub open spec fn after_account_query(r: Registry, query: Waiting) -> Registry {
    Registry {
        account_query: Some((slot_place(r.account_query, r.next_sequence), query)),
        next_sequence: next_after_slot(r.account_query, r.next_sequence),
        ..r
    }
}

/// The models of what the machine offers.
pub open spec fn offered_models(offered: Seq<OfferedRequest>) -> Seq<Waiting> {
    offered.map_values(|o: OfferedRequest| waiting_request(o.id@, o.request))
}

} // verus!
