//! The registry of requests.

use vstd::prelude::*;

use crate::ledger::{Ledger, Pending};
use crate::registry::{action_queued, after_account_query, after_action, after_signing_keys,
    all_filed, by_identifier, consistent, filed, nothing_yet, waiting_claim, waiting_message,
    waiting_query, waiting_request, waiting_signing_keys, Registry, ToDeviceMessage, Waiting};
use crate::requests::{KeysClaimParts, KeysQueryParts, OutgoingParts, PendingKind,
    SigningKeysParts};
use crate::text::{comes_before, lemma_before_irreflexive, lemma_before_total,
    lemma_before_transitive, same_text, text_before};

verus! {

/// A request a verification action made, with its place.
pub(crate) struct QueuedAction {
    pub(crate) sequence: u64,
    pub(crate) id: String,
    pub(crate) request: OutgoingParts,
}

/// A claim of one-time keys.
pub(crate) struct QueuedClaim {
    pub(crate) id: String,
    pub(crate) request: KeysClaimParts,
}

/// A query about this account, with its place.
pub(crate) struct QueuedAccountQuery {
    pub(crate) sequence: u64,
    pub(crate) id: String,
    pub(crate) request: KeysQueryParts,
}

/// A signing-keys upload, with its place.
pub(crate) struct QueuedSigningKeys {
    pub(crate) sequence: u64,
    pub(crate) id: String,
    pub(crate) request: SigningKeysParts,
}

/// A query owed to a person who was just verified.
pub(crate) struct QueuedPeerQuery {
    pub(crate) id: String,
    pub(crate) request: KeysQueryParts,
}

/// What waits to be handed out, what has been handed out and not been resolved,
/// and what the homeserver's answers have settled about this account.
pub struct RequestState {
    pub(crate) queued_to_device: Vec<ToDeviceMessage>,
    pub(crate) pending_claim: Option<QueuedClaim>,
    pub(crate) queued_action: Vec<QueuedAction>,
    pub(crate) queued_signing_keys: Option<QueuedSigningKeys>,
    pub(crate) queued_account_query: Option<QueuedAccountQuery>,
    pub(crate) queued_peer_queries: Vec<QueuedPeerQuery>,
    pub(crate) pending: Ledger,
    pub(crate) account_keys_answered: bool,
    pub(crate) account_keys_answer_unsettled: bool,
    pub(crate) next_sequence: u64,
}

pub(crate) open spec fn action_model(action: QueuedAction) -> (u64, Waiting) {
    (action.sequence, waiting_request(action.id@, action.request))
}

pub(crate) open spec fn claim_model(claim: Option<QueuedClaim>) -> Option<Waiting> {
    match claim {
        Some(claim) => Some(waiting_claim(claim.id@, claim.request)),
        None => None,
    }
}

pub(crate) open spec fn account_query_model(query: Option<QueuedAccountQuery>) -> Option<
    (u64, Waiting),
> {
    match query {
        Some(query) => Some(
            (
                query.sequence,
                waiting_query(query.id@, PendingKind::AccountKeysQueryOutOfBand, query.request),
            ),
        ),
        None => None,
    }
}

pub(crate) open spec fn signing_keys_model(keys: Option<QueuedSigningKeys>) -> Option<
    (u64, Waiting),
> {
    match keys {
        Some(keys) => Some((keys.sequence, waiting_signing_keys(keys.id@, keys.request))),
        None => None,
    }
}

pub(crate) open spec fn peer_query_model(query: QueuedPeerQuery) -> Waiting {
    waiting_query(query.id@, PendingKind::PeerKeysQueryOutOfBand, query.request)
}

pub(crate) open spec fn message_models(list: Seq<ToDeviceMessage>) -> Seq<Waiting> {
    list.map_values(|m: ToDeviceMessage| waiting_message(m))
}

pub(crate) open spec fn peer_query_models(list: Seq<QueuedPeerQuery>) -> Seq<Waiting> {
    list.map_values(|q: QueuedPeerQuery| peer_query_model(q))
}

pub(crate) open spec fn action_models(list: Seq<QueuedAction>) -> Seq<(u64, Waiting)> {
    list.map_values(|a: QueuedAction| action_model(a))
}

impl View for RequestState {
    type V = Registry;

    open(crate) spec fn view(&self) -> Registry {
        Registry {
            to_device: message_models(self.queued_to_device@),
            claim: claim_model(self.pending_claim),
            account_query: account_query_model(self.queued_account_query),
            signing_keys: signing_keys_model(self.queued_signing_keys),
            peer_queries: peer_query_models(self.queued_peer_queries@),
            actions: action_models(self.queued_action@),
            pending: self.pending@,
            answered: self.account_keys_answered,
            unsettled: self.account_keys_answer_unsettled,
            next_sequence: self.next_sequence,
        }
    }
}

/// Filing a message below the messages its identifier comes before leaves those
/// where they are.
proof fn lemma_filed_below(list: Seq<Waiting>, message: Waiting, from: int)
    requires
        0 <= from <= list.len(),
        forall|k: int|
            from <= k < list.len() ==> (#[trigger] list[k]).id != message.id && text_before(
                message.id,
                list[k].id,
            ),
    ensures
        filed(list, message) == filed(list.take(from), message) + list.skip(from),
    decreases list.len(),
{
    if from == list.len() {
        assert(list.take(from) =~= list);
        assert(filed(list, message) =~= filed(list.take(from), message) + list.skip(from));
    } else {
        let shorter = list.drop_last();
        assert(list[list.len() - 1] == list.last());
        lemma_filed_below(shorter, message, from);
        assert(shorter.take(from) =~= list.take(from));
        assert(shorter.skip(from).push(list.last()) =~= list.skip(from));
        assert(filed(list, message) =~= filed(list.take(from), message) + list.skip(from));
    }
}

/// Filing keeps the identifiers in their order.
pub(crate) proof fn lemma_filed_in_order(list: Seq<Waiting>, message: Waiting)
    requires
        by_identifier(list),
    ensures
        by_identifier(filed(list, message)),
        forall|i: int|
            0 <= i < filed(list, message).len() ==> list.contains(
                #[trigger] filed(list, message)[i],
            ) || filed(list, message)[i] == message,
        filed(list, message).contains(message),
    decreases list.len(),
{
    let after = filed(list, message);
    if list.len() == 0 {
        assert(after[0] == message);
    } else {
        let shorter = list.drop_last();
        let last = list.last();
        assert(list[list.len() - 1] == last);
        if last.id == message.id {
            assert(after[after.len() - 1] == message);
            assert forall|i: int| 0 <= i < after.len() implies list.contains(#[trigger] after[i])
                || after[i] == message by {
                if i < after.len() - 1 {
                    assert(list[i] == after[i]);
                }
            }
            assert forall|i: int, j: int| 0 <= i < j < after.len() implies text_before(
                (#[trigger] after[i]).id,
                (#[trigger] after[j]).id,
            ) by {
                assert(text_before(list[i].id, list[j].id));
            }
        } else if text_before(message.id, last.id) {
            assert(by_identifier(shorter)) by {
                assert forall|i: int, j: int| 0 <= i < j < shorter.len() implies text_before(
                    (#[trigger] shorter[i]).id,
                    (#[trigger] shorter[j]).id,
                ) by {
                    assert(text_before(list[i].id, list[j].id));
                }
            }
            lemma_filed_in_order(shorter, message);
            let below = filed(shorter, message);
            assert(after == below.push(last));
            assert forall|i: int| 0 <= i < after.len() implies list.contains(#[trigger] after[i])
                || after[i] == message by {
                if i < below.len() {
                    assert(after[i] == below[i]);
                    if below[i] != message {
                        let k = choose|k: int| 0 <= k < shorter.len() && shorter[k] == below[i];
                        assert(list[k] == after[i]);
                    }
                } else {
                    assert(list[list.len() - 1] == after[i]);
                }
            }
            let at = choose|k: int| 0 <= k < below.len() && below[k] == message;
            assert(after[at] == message);
            assert forall|i: int, j: int| 0 <= i < j < after.len() implies text_before(
                (#[trigger] after[i]).id,
                (#[trigger] after[j]).id,
            ) by {
                assert(after[i] == below[i]);
                if j < below.len() {
                    assert(after[j] == below[j]);
                } else if below[i] != message {
                    let k = choose|k: int| 0 <= k < shorter.len() && shorter[k] == below[i];
                    assert(text_before(list[k].id, list[list.len() - 1].id));
                }
            }
        } else {
            lemma_before_total(message.id, last.id);
            assert(after == list.push(message));
            assert(after[list.len() as int] == message);
            assert forall|i: int| 0 <= i < after.len() implies list.contains(#[trigger] after[i])
                || after[i] == message by {
                if i < list.len() {
                    assert(list[i] == after[i]);
                }
            }
            assert forall|i: int, j: int| 0 <= i < j < after.len() implies text_before(
                (#[trigger] after[i]).id,
                (#[trigger] after[j]).id,
            ) by {
                assert(after[i] == list[i]);
                if j < list.len() {
                    assert(after[j] == list[j]);
                } else if i < list.len() - 1 {
                    assert(text_before(list[i].id, list[list.len() - 1].id));
                    lemma_before_transitive(list[i].id, last.id, message.id);
                }
            }
        }
    }
}

/// Files a message in a list kept by identifier.
fn file(list: &mut Vec<ToDeviceMessage>, message: ToDeviceMessage)
    requires
        by_identifier(message_models(old(list)@)),
    ensures
        message_models(final(list)@) == filed(message_models(old(list)@), waiting_message(message)),
{
    let ghost before = message_models(list@);
    let ghost filing = waiting_message(message);
    let mut i: usize = list.len();
    while i > 0 && comes_before(message.id.as_str(), list[i - 1].id.as_str())
        invariant
            i <= list@.len(),
            before == message_models(list@),
            filing == waiting_message(message),
            forall|k: int|
                i <= k < before.len() ==> (#[trigger] before[k]).id != filing.id && text_before(
                    filing.id,
                    before[k].id,
                ),
        decreases i,
    {
        proof {
            lemma_before_irreflexive(filing.id);
            assert(before[i - 1].id == list@[i - 1].id@);
        }
        i = i - 1;
    }
    proof {
        lemma_filed_below(before, filing, i as int);
    }
    if i > 0 && same_text(message.id.as_str(), list[i - 1].id.as_str()) {
        proof {
            let below = before.take(i as int);
            assert(below.last() == before[i - 1]);
            assert(before[i - 1].id == list@[i - 1].id@);
            assert(filed(below, filing) == below.drop_last().push(filing));
            assert(before.update(i - 1, filing) =~= filed(below, filing) + before.skip(i as int));
        }
        list.set(i - 1, message);
        assert(message_models(list@) =~= before.update(i - 1, filing));
    } else {
        proof {
            let below = before.take(i as int);
            if i > 0 {
                assert(below.last() == before[i - 1]);
                assert(before[i - 1].id == list@[i - 1].id@);
            }
            assert(filed(below, filing) =~= below.push(filing));
            assert(before.insert(i as int, filing) =~= filed(below, filing) + before.skip(
                i as int,
            ));
        }
        list.insert(i, message);
        assert(message_models(list@) =~= before.insert(i as int, filing));
    }
}

impl RequestState {
    /// What every registry keeps to.
    pub open(crate) spec fn wf(self) -> bool {
        self.pending.wf() && consistent(self@)
    }

    /// A registry in which nothing has happened.
    pub fn new() -> (state: RequestState)
        ensures
            state.wf(),
            state@ == nothing_yet(),
    {
        let state = RequestState {
            queued_to_device: Vec::new(),
            pending_claim: None,
            queued_action: Vec::new(),
            queued_signing_keys: None,
            queued_account_query: None,
            queued_peer_queries: Vec::new(),
            pending: Ledger::new(),
            account_keys_answered: false,
            account_keys_answer_unsettled: false,
            next_sequence: 0,
        };
        assert(state@.to_device =~= nothing_yet().to_device);
        assert(state@.peer_queries =~= nothing_yet().peer_queries);
        assert(state@.actions =~= nothing_yet().actions);
        state
    }

    /// The place that the next request to be produced will get.
    pub fn next_place(&self) -> (place: u64)
        ensures
            place == self@.next_sequence,
    {
        self.next_sequence
    }

    /// How many requests have been handed out and not been resolved.
    pub fn pending_count(&self) -> (count: usize)
        requires
            self.wf(),
        ensures
            count == self@.pending.len(),
            self@.pending.dom().finite(),
    {
        self.pending.len()
    }

    /// Whether a request has been handed out under the identifier and not been
    /// resolved.
    pub fn is_pending(&self, id: &str) -> (answer: bool)
        requires
            self.wf(),
        ensures
            answer == self@.pending.contains_key(id@),
    {
        match self.pending.get(id) {
            Some(_) => true,
            None => false,
        }
    }

    /// The next place, which is then used up.
    fn next_sequence(&mut self) -> (sequence: u64)
        requires
            old(self).next_sequence < u64::MAX,
        ensures
            sequence == old(self).next_sequence,
            *final(self) == (RequestState { next_sequence: (sequence + 1) as u64, ..*old(self) }),
    {
        let sequence: u64 = self.next_sequence;
        self.next_sequence = sequence + 1;
        sequence
    }

    /// Queues a request that a verification action made. One that is queued
    /// already, or handed out and not resolved, is not queued again.
    pub fn queue_action_request(&mut self, id: String, request: OutgoingParts)
        requires
            old(self).wf(),
            old(self)@.next_sequence < u64::MAX,
        ensures
            final(self).wf(),
            final(self)@ == after_action(old(self)@, waiting_request(id@, request)),
    {
        let ghost before = self@;
        let mut i: usize = 0;
        while i < self.queued_action.len()
            invariant
                i <= self.queued_action@.len(),
                self@ == before,
                self == old(self),
                self.wf(),
                forall|j: int| 0 <= j < i ==> (#[trigger] before.actions[j]).1.id != id@,
            decreases self.queued_action@.len() - i,
        {
            assert(before.actions[i as int].1.id == self.queued_action@[i as int].id@);
            if same_text(self.queued_action[i].id.as_str(), id.as_str()) {
                assert(action_queued(before.actions, id@));
                return ;
            }
            i = i + 1;
        }
        if self.is_pending(id.as_str()) {
            return ;
        }
        let ghost waiting = waiting_request(id@, request);
        let sequence: u64 = self.next_sequence();
        self.queued_action.push(QueuedAction { sequence, id, request });
        proof {
            let after = after_action(before, waiting);
            assert(self@.actions =~= before.actions.push((sequence, waiting)));
            assert(self@ == after);
        }
    }

    /// Queues an upload of the public signing keys. There is room for one: it
    /// replaces one that waits, and takes its place in the order.
    pub fn queue_signing_keys_under(&mut self, id: String, request: SigningKeysParts)
        requires
            old(self).wf(),
            old(self)@.next_sequence < u64::MAX,
        ensures
            final(self).wf(),
            final(self)@ == after_signing_keys(old(self)@, waiting_signing_keys(id@, request)),
    {
        let waits: Option<u64> = match &self.queued_signing_keys {
            Some(keys) => Some(keys.sequence),
            None => None,
        };
        let sequence: u64 = match waits {
            Some(sequence) => sequence,
            None => self.next_sequence(),
        };
        self.queued_signing_keys = Some(QueuedSigningKeys { sequence, id, request });
    }

    /// Queues a query about this account. There is room for one: it replaces one
    /// that waits, and takes its place in the order.
    pub fn queue_account_key_query(&mut self, id: String, request: KeysQueryParts)
        requires
            old(self).wf(),
            old(self)@.next_sequence < u64::MAX,
        ensures
            final(self).wf(),
            final(self)@ == after_account_query(
                old(self)@,
                waiting_query(id@, PendingKind::AccountKeysQueryOutOfBand, request),
            ),
    {
        let waits: Option<u64> = match &self.queued_account_query {
            Some(query) => Some(query.sequence),
            None => None,
        };
        let sequence: u64 = match waits {
            Some(sequence) => sequence,
            None => self.next_sequence(),
        };
        self.queued_account_query = Some(QueuedAccountQuery { sequence, id, request });
    }

    /// Queues a query owed to a person who was just verified. It gets its place
    /// when it is handed out, behind the signature upload it reads back.
    pub fn queue_peer_key_query(&mut self, id: String, request: KeysQueryParts)
        requires
            old(self).wf(),
        ensures
            final(self).wf(),
            final(self)@ == (Registry {
                peer_queries: old(self)@.peer_queries.push(
                    waiting_query(id@, PendingKind::PeerKeysQueryOutOfBand, request),
                ),
                ..old(self)@
            }),
    {
        let ghost waiting = waiting_query(id@, PendingKind::PeerKeysQueryOutOfBand, request);
        self.queued_peer_queries.push(QueuedPeerQuery { id, request });
        assert(self@.peer_queries =~= old(self)@.peer_queries.push(waiting));
    }

    /// Queues a claim of one-time keys, over one that waits.
    pub fn queue_claim(&mut self, id: String, request: KeysClaimParts)
        requires
            old(self).wf(),
        ensures
            final(self).wf(),
            final(self)@ == (Registry {
                claim: Some(waiting_claim(id@, request)),
                ..old(self)@
            }),
    {
        self.pending_claim = Some(QueuedClaim { id, request });
    }

    /// Queues to-device messages, each over one that waits under the same
    /// identifier.
    pub fn queue_to_device_requests(&mut self, messages: Vec<ToDeviceMessage>)
        requires
            old(self).wf(),
        ensures
            final(self).wf(),
            final(self)@ == (Registry {
                to_device: all_filed(old(self)@.to_device, messages@),
                ..old(self)@
            }),
    {
        let ghost before = self@;
        let ghost all = messages@;
        let mut rest: Vec<ToDeviceMessage> = messages;
        let ghost mut done: int = 0;
        assert(all.take(0) =~= Seq::<ToDeviceMessage>::empty());
        while rest.len() > 0
            invariant
                0 <= done <= all.len(),
                self.wf(),
                rest@ == all.skip(done),
                self@ == (Registry {
                    to_device: all_filed(before.to_device, all.take(done)),
                    ..before
                }),
            decreases rest@.len(),
        {
            let ghost list_before = self@.to_device;
            let message: ToDeviceMessage = rest.remove(0);
            proof {
                assert(message == all[done]);
                assert(all.take(done + 1).drop_last() =~= all.take(done));
                assert(rest@ =~= all.skip(done + 1));
                lemma_filed_in_order(list_before, waiting_message(message));
            }
            let ghost filing = waiting_message(message);
            file(&mut self.queued_to_device, message);
            proof {
                assert forall|i: int| 0 <= i < self@.to_device.len() implies (
                #[trigger] self@.to_device[i]).kind is ToDevice by {
                    let w = self@.to_device[i];
                    if w != filing {
                        let k = choose|k: int| 0 <= k < list_before.len() && list_before[k] == w;
                        assert(list_before[k].kind is ToDevice);
                    }
                }
                done = done + 1;
            }
        }
        assert(all.take(done) =~= all);
    }

    /// Whether an answer has settled what the homeserver holds for this account.
    pub fn account_keys_answered(&self) -> (answered: bool)
        ensures
            answered == self@.answered,
    {
        self.account_keys_answered
    }

    /// Whether an answer about this account has come that settled nothing, and
    /// none has come that did.
    pub fn account_keys_answer_unsettled(&self) -> (unsettled: bool)
        ensures
            unsettled == self@.unsettled,
    {
        self.account_keys_answer_unsettled
    }

    /// Forgets what answers have settled about this account.
    pub fn forget_account_keys_answered(&mut self)
        requires
            old(self).wf(),
        ensures
            final(self).wf(),
            final(self)@ == (Registry { answered: false, unsettled: false, ..old(self)@ }),
    {
        self.account_keys_answered = false;
        self.account_keys_answer_unsettled = false;
    }

    /// Forgets everything.
    pub fn reset(&mut self)
        ensures
            final(self).wf(),
            final(self)@ == nothing_yet(),
    {
        *self = RequestState::new();
    }
}

} // verus!
