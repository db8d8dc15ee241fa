//! Handing the waiting requests out.

use vstd::prelude::*;
use vstd::string::StringExecFns;

use crate::ledger::{unsuperseded, Pending};
use crate::registry::{after_take, all_serialise, at_most_one, batch, consistent, fresh, handed_out,
    in_order, is_handed_out, is_new, kinds, new_count, offered_models, place_of, placed, put,
    recorded, stamp, stamped, unplaced, waiting_message, waiting_request, Fresh, OfferedRequest,
    OutgoingRequest, Registry, Stamped, Waiting};
use crate::requests::{account_scoped, describe_keys_claim, describe_keys_query, describe_outgoing,
    describe_signing_keys, part_json, OutgoingParts, PendingKind};
use crate::json::write_number;
use crate::session::SessionError;
use crate::text::{debug_text, decimal, quoted};
use crate::state::{action_models, message_models, peer_query_model, peer_query_models, RequestState};

verus! {

/// A request that is about to be handed out.
struct FreshRequest {
    queued_at: Option<u64>,
    id: String,
    kind: PendingKind,
    body: String,
}

spec fn fresh_model(request: FreshRequest) -> Fresh {
    Fresh {
        queued_at: request.queued_at,
        id: request.id@,
        kind: request.kind,
        body: Some(request.body@),
    }
}

spec fn fresh_models(list: Seq<FreshRequest>) -> Seq<Fresh> {
    list.map_values(|r: FreshRequest| fresh_model(r))
}

/// A request with its place.
struct StampedRequest {
    sequence: u64,
    id: String,
    kind: PendingKind,
    body: String,
}

spec fn stamped_model(request: StampedRequest) -> Stamped {
    Stamped {
        sequence: request.sequence,
        id: request.id@,
        kind: request.kind,
        body: request.body@,
    }
}

spec fn stamped_models(list: Seq<StampedRequest>) -> Seq<Stamped> {
    list.map_values(|r: StampedRequest| stamped_model(r))
}

/// A batch in two halves serialises when both halves do.
proof fn lemma_serialise_halves(a: Seq<Fresh>, b: Seq<Fresh>)
    ensures
        all_serialise(a + b) == (all_serialise(a) && all_serialise(b)),
{
    if all_serialise(a + b) {
        assert forall|i: int| 0 <= i < a.len() implies (#[trigger] a[i]).body is Some by {
            assert((a + b)[i] == a[i]);
        }
        assert forall|i: int| 0 <= i < b.len() implies (#[trigger] b[i]).body is Some by {
            assert((a + b)[a.len() + i] == b[i]);
        }
    }
}

/// Appends one described request to the batch.
fn append(
    list: &mut Vec<FreshRequest>,
    queued_at: Option<u64>,
    id: &String,
    kind: PendingKind,
    body: String,
)
    ensures
        fresh_models(final(list)@) == fresh_models(old(list)@).push(
            Fresh { queued_at, id: id@, kind, body: Some(body@) },
        ),
{
    let ghost before = fresh_models(list@);
    list.push(FreshRequest { queued_at, id: id.clone(), kind, body });
    assert(fresh_models(list@) =~= before.push(
        Fresh { queued_at, id: id@, kind, body: Some(body@) },
    ));
}

/// Describes one request and appends it to the batch.
fn append_described(
    list: &mut Vec<FreshRequest>,
    queued_at: Option<u64>,
    id: &String,
    request: &OutgoingParts,
    account: &str,
) -> (result: Result<(), SessionError>)
    ensures
        ({
            let item = fresh(queued_at, waiting_request(id@, *request), account@);
            match result {
                Ok(()) => item.body is Some && fresh_models(final(list)@) == fresh_models(
                    old(list)@,
                ).push(item),
                Err(error) => item.body is None && error is Failed,
            }
        }),
{
    match describe_outgoing(request) {
        Ok((kind, body)) => {
            append(list, queued_at, id, account_scoped(kind, request, account), body);
            Ok(())
        },
        Err(error) => Err(error),
    }
}

/// How many places are needed at most to hand out everything that waits and this
/// many requests of the machine: one each, and one for each of three that may
/// wait alone.
pub open spec fn places_needed(r: Registry, offered: nat) -> nat {
    offered + r.to_device.len() + r.peer_queries.len() + r.actions.len() + 3
}

impl RequestState {
    /// Whether there are places left for everything that waits and for this
    /// many requests of the machine.
    pub fn has_places_for(&self, offered: usize) -> (answer: bool)
        ensures
            answer == (self@.next_sequence + places_needed(self@, offered as nat) <= u64::MAX),
            answer ==> forall|list: Seq<Waiting>, account: Seq<char>|
                list.len() <= offered ==> self@.next_sequence + new_count(
                    #[trigger] batch(self@, list, account),
                    self@.pending,
                ) <= u64::MAX,
    {
        let waiting: u128 = offered as u128 + self.queued_to_device.len() as u128
            + self.queued_peer_queries.len() as u128 + self.queued_action.len() as u128 + 3;
        let answer: bool = self.next_sequence as u128 + waiting <= u64::MAX as u128;
        proof {
            assert forall|list: Seq<Waiting>, account: Seq<char>|
                answer && list.len() <= offered implies self@.next_sequence + new_count(
                #[trigger] batch(self@, list, account),
                self@.pending,
            ) <= u64::MAX by {
                lemma_new_count_bounded(batch(self@, list, account), self@.pending);
            }
        }
        answer
    }

    /// Appends what the machine offers to the batch.
    fn append_offered(
        list: &mut Vec<FreshRequest>,
        offered: &Vec<OfferedRequest>,
        account: &str,
    ) -> (result: Result<(), SessionError>)
        ensures
            ({
                let items = unplaced(offered_models(offered@), account@);
                match result {
                    Ok(()) => all_serialise(items) && fresh_models(final(list)@) == fresh_models(
                        old(list)@,
                    ) + items,
                    Err(error) => !all_serialise(items) && error is Failed,
                }
            }),
    {
        let ghost before = fresh_models(list@);
        let ghost items = unplaced(offered_models(offered@), account@);
        let mut i: usize = 0;
        assert(fresh_models(list@) =~= before + items.take(0));
        while i < offered.len()
            invariant
                i <= offered@.len(),
                items == unplaced(offered_models(offered@), account@),
                fresh_models(list@) == before + items.take(i as int),
                forall|j: int| 0 <= j < i ==> (#[trigger] items[j]).body is Some,
            decreases offered@.len() - i,
        {
            let one: &OfferedRequest = &offered[i];
            assert(items[i as int] == fresh(None, waiting_request(one.id@, one.request), account@));
            match append_described(list, None, &one.id, &one.request, account) {
                Ok(()) => {},
                Err(error) => {
                    return Err(error);
                },
            }
            assert(items.take(i + 1) =~= items.take(i as int).push(items[i as int]));
            assert(fresh_models(list@) =~= before + items.take(i + 1));
            i = i + 1;
        }
        assert(items.take(i as int) =~= items);
        Ok(())
    }

    /// Appends the waiting to-device messages to the batch.
    fn append_to_device(&self, list: &mut Vec<FreshRequest>, account: &str) -> (result: Result<
        (),
        SessionError,
    >)
        ensures
            ({
                let items = unplaced(self@.to_device, account@);
                match result {
                    Ok(()) => all_serialise(items) && fresh_models(final(list)@) == fresh_models(
                        old(list)@,
                    ) + items,
                    Err(error) => !all_serialise(items) && error is Failed,
                }
            }),
    {
        let ghost before = fresh_models(list@);
        let ghost items = unplaced(self@.to_device, account@);
        let mut i: usize = 0;
        assert(fresh_models(list@) =~= before + items.take(0));
        while i < self.queued_to_device.len()
            invariant
                i <= self.queued_to_device@.len(),
                items == unplaced(message_models(self.queued_to_device@), account@),
                fresh_models(list@) == before + items.take(i as int),
                forall|j: int| 0 <= j < i ==> (#[trigger] items[j]).body is Some,
            decreases self.queued_to_device@.len() - i,
        {
            let message = &self.queued_to_device[i];
            assert(items[i as int] == fresh(None, waiting_message(*message), account@));
            match part_json(&message.request) {
                Some(body) => {
                    append(list, None, &message.id, PendingKind::ToDevice, body);
                },
                None => {
                    return Err(SessionError::Failed);
                },
            }
            assert(items.take(i + 1) =~= items.take(i as int).push(items[i as int]));
            assert(fresh_models(list@) =~= before + items.take(i + 1));
            i = i + 1;
        }
        assert(items.take(i as int) =~= items);
        Ok(())
    }

    /// Appends the waiting claim, the waiting query about this account and the
    /// waiting signing-keys upload to the batch.
    fn append_slots(&self, list: &mut Vec<FreshRequest>, account: &str) -> (result: Result<
        (),
        SessionError,
    >)
        ensures
            ({
                let items = unplaced(at_most_one(self@.claim), account@) + placed(
                    at_most_one(self@.account_query),
                    account@,
                ) + placed(at_most_one(self@.signing_keys), account@);
                match result {
                    Ok(()) => all_serialise(items) && fresh_models(final(list)@) == fresh_models(
                        old(list)@,
                    ) + items,
                    Err(error) => !all_serialise(items) && error is Failed,
                }
            }),
    {
        let ghost before = fresh_models(list@);
        let ghost claims = unplaced(at_most_one(self@.claim), account@);
        let ghost queries = placed(at_most_one(self@.account_query), account@);
        let ghost uploads = placed(at_most_one(self@.signing_keys), account@);
        proof {
            lemma_serialise_halves(claims, queries);
            lemma_serialise_halves(claims + queries, uploads);
        }
        if let Some(claim) = &self.pending_claim {
            assert(claims.len() == 1);
            match describe_keys_claim(&claim.request) {
                Ok(body) => {
                    assert(claims[0].body is Some);
                    append(list, None, &claim.id, PendingKind::KeysClaim, body);
                },
                Err(error) => {
                    assert(claims[0].body is None);
                    return Err(error);
                },
            }
        }
        assert(fresh_models(list@) =~= before + claims);
        if let Some(query) = &self.queued_account_query {
            assert(queries.len() == 1);
            match describe_keys_query(&query.request) {
                Ok(body) => {
                    assert(queries[0].body is Some);
                    append(
                        list,
                        Some(query.sequence),
                        &query.id,
                        PendingKind::AccountKeysQueryOutOfBand,
                        body,
                    );
                },
                Err(error) => {
                    assert(queries[0].body is None);
                    return Err(error);
                },
            }
        }
        assert(fresh_models(list@) =~= before + claims + queries);
        if let Some(keys) = &self.queued_signing_keys {
            assert(uploads.len() == 1);
            match describe_signing_keys(&keys.request) {
                Ok(body) => {
                    assert(uploads[0].body is Some);
                    append(
                        list,
                        Some(keys.sequence),
                        &keys.id,
                        PendingKind::SigningKeysUpload,
                        body,
                    );
                },
                Err(error) => {
                    assert(uploads[0].body is None);
                    return Err(error);
                },
            }
        }
        assert(fresh_models(list@) =~= before + (claims + queries + uploads));
        Ok(())
    }

    /// Appends the queries owed to verified persons to the batch.
    fn append_peer_queries(&self, list: &mut Vec<FreshRequest>, account: &str) -> (result: Result<
        (),
        SessionError,
    >)
        ensures
            ({
                let items = unplaced(self@.peer_queries, account@);
                match result {
                    Ok(()) => all_serialise(items) && fresh_models(final(list)@) == fresh_models(
                        old(list)@,
                    ) + items,
                    Err(error) => !all_serialise(items) && error is Failed,
                }
            }),
    {
        let ghost before = fresh_models(list@);
        let ghost items = unplaced(self@.peer_queries, account@);
        let mut i: usize = 0;
        assert(fresh_models(list@) =~= before + items.take(0));
        while i < self.queued_peer_queries.len()
            invariant
                i <= self.queued_peer_queries@.len(),
                items == unplaced(peer_query_models(self.queued_peer_queries@), account@),
                fresh_models(list@) == before + items.take(i as int),
                forall|j: int| 0 <= j < i ==> (#[trigger] items[j]).body is Some,
            decreases self.queued_peer_queries@.len() - i,
        {
            let query = &self.queued_peer_queries[i];
            assert(items[i as int] == fresh(None, peer_query_model(*query), account@));
            match describe_keys_query(&query.request) {
                Ok(body) => {
                    append(list, None, &query.id, PendingKind::PeerKeysQueryOutOfBand, body);
                },
                Err(error) => {
                    return Err(error);
                },
            }
            assert(items.take(i + 1) =~= items.take(i as int).push(items[i as int]));
            assert(fresh_models(list@) =~= before + items.take(i + 1));
            i = i + 1;
        }
        assert(items.take(i as int) =~= items);
        Ok(())
    }

    /// Appends the waiting actions to the batch.
    fn append_actions(&self, list: &mut Vec<FreshRequest>, account: &str) -> (result: Result<
        (),
        SessionError,
    >)
        ensures
            ({
                let items = placed(self@.actions, account@);
                match result {
                    Ok(()) => all_serialise(items) && fresh_models(final(list)@) == fresh_models(
                        old(list)@,
                    ) + items,
                    Err(error) => !all_serialise(items) && error is Failed,
                }
            }),
    {
        let ghost before = fresh_models(list@);
        let ghost items = placed(self@.actions, account@);
        let mut i: usize = 0;
        assert(fresh_models(list@) =~= before + items.take(0));
        while i < self.queued_action.len()
            invariant
                i <= self.queued_action@.len(),
                items == placed(action_models(self.queued_action@), account@),
                fresh_models(list@) == before + items.take(i as int),
                forall|j: int| 0 <= j < i ==> (#[trigger] items[j]).body is Some,
            decreases self.queued_action@.len() - i,
        {
            let action = &self.queued_action[i];
            assert(items[i as int] == fresh(
                Some(action.sequence),
                waiting_request(action.id@, action.request),
                account@,
            ));
            match append_described(
                list,
                Some(action.sequence),
                &action.id,
                &action.request,
                account,
            ) {
                Ok(()) => {},
                Err(error) => {
                    return Err(error);
                },
            }
            assert(items.take(i + 1) =~= items.take(i as int).push(items[i as int]));
            assert(fresh_models(list@) =~= before + items.take(i + 1));
            i = i + 1;
        }
        assert(items.take(i as int) =~= items);
        Ok(())
    }

    /// Gathers everything there is to hand out.
    fn gather(&self, account: &str, offered: &Vec<OfferedRequest>) -> (result: Result<
        Vec<FreshRequest>,
        SessionError,
    >)
        ensures
            ({
                let items = batch(self@, offered_models(offered@), account@);
                match result {
                    Ok(list) => all_serialise(items) && fresh_models(list@) == items,
                    Err(error) => !all_serialise(items) && error is Failed,
                }
            }),
    {
        let ghost first = unplaced(offered_models(offered@), account@);
        let ghost second = unplaced(self@.to_device, account@);
        let ghost claims = unplaced(at_most_one(self@.claim), account@);
        let ghost queries = placed(at_most_one(self@.account_query), account@);
        let ghost uploads = placed(at_most_one(self@.signing_keys), account@);
        let ghost slots = claims + queries + uploads;
        let ghost peers = unplaced(self@.peer_queries, account@);
        let ghost actions = placed(self@.actions, account@);
        let ghost items = batch(self@, offered_models(offered@), account@);
        proof {
            assert(items =~= first + second + slots + peers + actions);
            lemma_serialise_halves(first, second);
            lemma_serialise_halves(first + second, slots);
            lemma_serialise_halves(first + second + slots, peers);
            lemma_serialise_halves(first + second + slots + peers, actions);
        }
        let mut list: Vec<FreshRequest> = Vec::new();
        assert(fresh_models(list@) =~= Seq::<Fresh>::empty());
        if let Err(error) = Self::append_offered(&mut list, offered, account) {
            return Err(error);
        }
        assert(fresh_models(list@) =~= first);
        if let Err(error) = self.append_to_device(&mut list, account) {
            return Err(error);
        }
        if let Err(error) = self.append_slots(&mut list, account) {
            return Err(error);
        }
        if let Err(error) = self.append_peer_queries(&mut list, account) {
            return Err(error);
        }
        if let Err(error) = self.append_actions(&mut list, account) {
            return Err(error);
        }
        Ok(list)
    }

    /// Gives every request of the batch its place.
    fn stamp_all(&mut self, list: Vec<FreshRequest>) -> (stamps: Vec<StampedRequest>)
        requires
            old(self).wf(),
            old(self)@.next_sequence + new_count(fresh_models(list@), old(self)@.pending)
                <= u64::MAX,
        ensures
            stamped_models(stamps@) == stamped(
                fresh_models(list@),
                old(self)@.pending,
                old(self)@.next_sequence as int,
            ),
            *final(self) == (RequestState {
                next_sequence: (old(self)@.next_sequence + new_count(
                    fresh_models(list@),
                    old(self)@.pending,
                )) as u64,
                ..*old(self)
            }),
    {
        let ghost items = fresh_models(list@);
        let ghost pending = self@.pending;
        let ghost next = self@.next_sequence as int;
        let ghost whole = stamped(items, pending, next);
        let mut stamps: Vec<StampedRequest> = Vec::new();
        let mut rest: Vec<FreshRequest> = list;
        let ghost mut done: int = 0;
        proof {
            assert(items.take(0) =~= Seq::<Fresh>::empty());
            assert(stamped_models(stamps@) =~= whole.take(0));
            assert(rest@ =~= list@.skip(0));
        }
        while rest.len() > 0
            invariant
                0 <= done <= items.len(),
                items == fresh_models(list@),
                rest@ == list@.skip(done),
                whole == stamped(items, pending, next),
                pending == old(self)@.pending,
                next == old(self)@.next_sequence,
                old(self).wf(),
                next + new_count(items, pending) <= u64::MAX,
                self.next_sequence == next + new_count(items.take(done), pending),
                *self == (RequestState { next_sequence: self.next_sequence, ..*old(self) }),
                stamped_models(stamps@) == whole.take(done),
            decreases rest@.len(),
        {
            let request: FreshRequest = rest.remove(0);
            let ghost item = items[done];
            proof {
                assert(request == list@[done]);
                assert(item == fresh_model(request));
                assert(rest@ =~= list@.skip(done + 1));
                assert(items.take(done + 1).drop_last() =~= items.take(done));
                lemma_new_count_grows(items, pending, done + 1);
            }
            let already: Option<u64> = match self.pending.get(request.id.as_str()) {
                Some(pending) => Some(pending.sequence),
                None => None,
            };
            let known: Option<u64> = match request.queued_at {
                Some(sequence) => Some(sequence),
                None => already,
            };
            let sequence: u64 = match known {
                Some(sequence) => sequence,
                None => {
                    assert(is_new(item, pending));
                    let sequence: u64 = self.next_sequence;
                    self.next_sequence = sequence + 1;
                    sequence
                },
            };
            let ghost before = stamped_models(stamps@);
            stamps.push(
                StampedRequest { sequence, id: request.id, kind: request.kind, body: request.body },
            );
            proof {
                let stampd = stamp(item, pending, next + new_count(items.take(done), pending));
                assert(stamped_model(stamps@.last()) == stampd);
                assert(stamped_models(stamps@) =~= before.push(stampd));
                assert(whole[done] == stampd);
                assert(whole.take(done + 1) =~= whole.take(done).push(whole[done]));
                done = done + 1;
            }
        }
        proof {
            assert(items.take(done) =~= items);
            assert(whole.take(done) =~= whole);
        }
        stamps
    }

    /// Takes everything there is to hand out, in the order it was produced in.
    ///
    /// `offered` is what the machine wants sent; `account` is whom the machine
    /// belongs to. A request keeps the place it was given when it was queued, or
    /// when it was first handed out; what is heard of for the first time comes
    /// after all of those, in the order it was gathered in. What the batch
    /// supersedes is forgotten, and the batch is pending from here on.
    ///
    /// If part of one request does not serialise, nothing is handed out and
    /// nothing changes.
    pub fn take_outgoing_requests(
        &mut self,
        account: &str,
        offered: &Vec<OfferedRequest>,
    ) -> (result: Result<Vec<OutgoingRequest>, SessionError>)
        requires
            old(self).wf(),
            old(self)@.next_sequence + new_count(
                batch(old(self)@, offered_models(offered@), account@),
                old(self)@.pending,
            ) <= u64::MAX,
        ensures
            final(self).wf(),
            match result {
                Ok(out) => {
                    &&& all_serialise(batch(old(self)@, offered_models(offered@), account@))
                    &&& out@.len() == handed_out(
                        old(self)@,
                        offered_models(offered@),
                        account@,
                    ).len()
                    &&& forall|i: int|
                        0 <= i < out@.len() ==> is_handed_out(
                            #[trigger] out@[i],
                            handed_out(old(self)@, offered_models(offered@), account@)[i],
                        )
                    &&& final(self)@ == after_take(
                        old(self)@,
                        offered_models(offered@),
                        account@,
                    )
                },
                Err(error) => {
                    &&& !all_serialise(batch(old(self)@, offered_models(offered@), account@))
                    &&& error is Failed
                    &&& *final(self) == *old(self)
                },
            },
    {
        let ghost before = self@;
        let ghost items = batch(self@, offered_models(offered@), account@);
        let ghost next = self@.next_sequence as int;
        let fresh_list: Vec<FreshRequest> = match self.gather(account, offered) {
            Ok(list) => list,
            Err(error) => {
                return Err(error);
            },
        };
        let stamps: Vec<StampedRequest> = self.stamp_all(fresh_list);
        let ghost stamps_model = stamped_models(stamps@);
        let ordered: Vec<StampedRequest> = sort(stamps);
        let ghost list = stamped_models(ordered@);
        assert(list == handed_out(before, offered_models(offered@), account@));

        self.queued_to_device = Vec::new();
        self.pending_claim = None;
        self.queued_action = Vec::new();
        self.queued_account_query = None;
        self.queued_signing_keys = None;
        self.queued_peer_queries = Vec::new();

        let refreshed: Vec<PendingKind> = kinds_of(&ordered);
        self.pending.evict(&refreshed);

        let ghost kept = unsuperseded(before.pending, kinds(list));
        let mut out: Vec<OutgoingRequest> = Vec::new();
        let mut i: usize = 0;
        assert(list.take(0) =~= Seq::<Stamped>::empty());
        let ghost drained = *self;
        while i < ordered.len()
            invariant
                i <= ordered@.len(),
                list == stamped_models(ordered@),
                self.pending.wf(),
                self.pending@ == recorded(kept, list.take(i as int)),
                *self == (RequestState { pending: self.pending, ..drained }),
                out@.len() == i,
                forall|j: int| 0 <= j < i ==> is_handed_out(#[trigger] out@[j], list[j]),
            decreases ordered@.len() - i,
        {
            let request: &StampedRequest = &ordered[i];
            assert(list.take(i + 1).drop_last() =~= list.take(i as int));
            assert(list.take(i + 1).last() == list[i as int]);
            assert(list[i as int] == stamped_model(*request));
            self.pending.insert(
                request.id.clone(),
                Pending { kind: request.kind, sequence: request.sequence },
            );
            out.push(
                OutgoingRequest {
                    id: request.id.clone(),
                    kind: request.kind.tag().to_owned(),
                    body: request.body.clone(),
                },
            );
            i = i + 1;
        }
        proof {
            assert(list.take(i as int) =~= list);
            let after = after_take(before, offered_models(offered@), account@);
            assert(self@.to_device =~= after.to_device);
            assert(self@.peer_queries =~= after.peer_queries);
            assert(self@.actions =~= after.actions);
            assert(self@ == after);
            lemma_stamps_bounded(before, items);
            lemma_in_order_keeps(stamps_model);
            lemma_recorded_bounded(kept, list, after.next_sequence);
            assert(consistent(self@));
        }
        Ok(out)
    }
}

/// How a request is shown: of the body only the length.
pub open spec fn request_text(id: Seq<char>, kind: Seq<char>, body_len: nat) -> Seq<char> {
    "OutgoingRequest { id: "@ + debug_text(id) + ", kind: "@ + debug_text(kind) + ", body_len: "@
        + decimal(body_len) + " }"@
}

impl OutgoingRequest {
    /// Shows the request without its body.
    pub fn debug_text(&self) -> (text: String)
        ensures
            text@ == request_text(
                self.id@,
                self.kind@,
                (vstd::utf8::encode_utf8(self.body@).len() as usize) as nat,
            ),
    {
        let mut text: String = "OutgoingRequest { id: ".to_owned();
        text.append(quoted(self.id.as_str()).as_str());
        text.append(", kind: ");
        text.append(quoted(self.kind.as_str()).as_str());
        text.append(", body_len: ");
        text.append(write_number(self.body.as_str().len() as u64).as_str());
        text.append(" }");
        text
    }
}

/// The kinds of the requests.
fn kinds_of(list: &Vec<StampedRequest>) -> (answer: Vec<PendingKind>)
    ensures
        answer@ == kinds(stamped_models(list@)),
{
    let mut answer: Vec<PendingKind> = Vec::new();
    let mut i: usize = 0;
    while i < list.len()
        invariant
            i <= list@.len(),
            answer@.len() == i,
            forall|j: int| 0 <= j < i ==> #[trigger] answer@[j] == list@[j].kind,
        decreases list@.len() - i,
    {
        answer.push(list[i].kind);
        i = i + 1;
    }
    assert(answer@ =~= kinds(stamped_models(list@)));
    answer
}

/// Putting a request below those whose places are after its own leaves those
/// where they are.
proof fn lemma_put_below(list: Seq<Stamped>, request: Stamped, from: int)
    requires
        0 <= from <= list.len(),
        forall|k: int| from <= k < list.len() ==> request.sequence < (#[trigger] list[k]).sequence,
    ensures
        put(list, request) == put(list.take(from), request) + list.skip(from),
    decreases list.len(),
{
    if from == list.len() {
        assert(list.take(from) =~= list);
        assert(put(list, request) =~= put(list.take(from), request) + list.skip(from));
    } else {
        let shorter = list.drop_last();
        assert(list[list.len() - 1] == list.last());
        lemma_put_below(shorter, request, from);
        assert(shorter.take(from) =~= list.take(from));
        assert(shorter.skip(from).push(list.last()) =~= list.skip(from));
        assert(put(list, request) =~= put(list.take(from), request) + list.skip(from));
    }
}

/// Puts one request into a list.
fn put_one(list: &mut Vec<StampedRequest>, request: StampedRequest)
    ensures
        stamped_models(final(list)@) == put(stamped_models(old(list)@), stamped_model(request)),
{
    let ghost before = stamped_models(list@);
    let ghost putting = stamped_model(request);
    let mut i: usize = list.len();
    while i > 0 && request.sequence < list[i - 1].sequence
        invariant
            i <= list@.len(),
            before == stamped_models(list@),
            putting == stamped_model(request),
            forall|k: int|
                i <= k < before.len() ==> putting.sequence < (#[trigger] before[k]).sequence,
        decreases i,
    {
        assert(before[i - 1].sequence == list@[i - 1].sequence);
        i = i - 1;
    }
    proof {
        lemma_put_below(before, putting, i as int);
        let below = before.take(i as int);
        if i > 0 {
            assert(below.last() == before[i - 1]);
            assert(before[i - 1].sequence == list@[i - 1].sequence);
        }
        assert(put(below, putting) == below.push(putting));
        assert(before.insert(i as int, putting) =~= put(below, putting) + before.skip(i as int));
    }
    list.insert(i, request);
    assert(stamped_models(list@) =~= before.insert(i as int, putting));
}

/// Puts the requests in the order of their places.
fn sort(list: Vec<StampedRequest>) -> (ordered: Vec<StampedRequest>)
    ensures
        stamped_models(ordered@) == in_order(stamped_models(list@)),
{
    let ghost all = stamped_models(list@);
    let mut ordered: Vec<StampedRequest> = Vec::new();
    let mut rest: Vec<StampedRequest> = list;
    let ghost mut done: int = 0;
    proof {
        assert(all.take(0) =~= Seq::<Stamped>::empty());
        assert(stamped_models(ordered@) =~= in_order(all.take(0)));
        assert(rest@ =~= list@.skip(0));
    }
    while rest.len() > 0
        invariant
            0 <= done <= all.len(),
            all == stamped_models(list@),
            rest@ == list@.skip(done),
            stamped_models(ordered@) == in_order(all.take(done)),
        decreases rest@.len(),
    {
        let request: StampedRequest = rest.remove(0);
        proof {
            assert(request == list@[done]);
            assert(all[done] == stamped_model(request));
            assert(rest@ =~= list@.skip(done + 1));
            assert(all.take(done + 1).drop_last() =~= all.take(done));
            assert(all.take(done + 1).last() == all[done]);
        }
        put_one(&mut ordered, request);
        proof {
            done = done + 1;
        }
    }
    assert(all.take(done) =~= all);
    ordered
}

/// There are no more new requests than requests.
pub proof fn lemma_new_count_bounded(items: Seq<Fresh>, pending: Map<Seq<char>, Pending>)
    ensures
        new_count(items, pending) <= items.len(),
    decreases items.len(),
{
    if items.len() > 0 {
        lemma_new_count_bounded(items.drop_last(), pending);
    }
}

/// A shorter part of the batch has no more new requests than the whole.
pub proof fn lemma_new_count_grows(items: Seq<Fresh>, pending: Map<Seq<char>, Pending>, n: int)
    requires
        0 <= n <= items.len(),
    ensures
        new_count(items.take(n), pending) <= new_count(items, pending),
    decreases items.len(),
{
    if n == items.len() {
        assert(items.take(n) =~= items);
    } else {
        lemma_new_count_grows(items.drop_last(), pending, n);
        assert(items.drop_last().take(n) =~= items.take(n));
    }
}

/// Every place that a batch uses is below the next one that follows it.
proof fn lemma_stamps_bounded(r: Registry, items: Seq<Fresh>)
    requires
        consistent(r),
        r.next_sequence + new_count(items, r.pending) <= u64::MAX,
        forall|i: int|
            0 <= i < items.len() ==> ((#[trigger] items[i]).queued_at matches Some(sequence)
                ==> sequence < r.next_sequence),
    ensures
        forall|i: int|
            0 <= i < items.len() ==> (#[trigger] stamped(
                items,
                r.pending,
                r.next_sequence as int,
            )[i]).sequence < r.next_sequence + new_count(items, r.pending),
{
    let list = stamped(items, r.pending, r.next_sequence as int);
    assert forall|i: int| 0 <= i < items.len() implies (#[trigger] list[i]).sequence
        < r.next_sequence + new_count(items, r.pending) by {
        let item = items[i];
        if item.queued_at is None && !r.pending.contains_key(item.id) {
            assert(items.take(i + 1).drop_last() =~= items.take(i));
            assert(items.take(i + 1).last() == item);
            lemma_new_count_grows(items, r.pending, i + 1);
        }
    }
}

/// Putting in order neither loses nor adds a request.
pub proof fn lemma_put_keeps(list: Seq<Stamped>, request: Stamped)
    ensures
        put(list, request).len() == list.len() + 1,
        put(list, request).to_multiset() == list.to_multiset().insert(request),
    decreases list.len(),
{
    broadcast use vstd::seq_lib::group_to_multiset_ensures;

    if list.len() == 0 || list.last().sequence <= request.sequence {
    } else {
        lemma_put_keeps(list.drop_last(), request);
        assert(list =~= list.drop_last().push(list.last()));
    }
}

/// Putting in order neither loses nor adds a request.
pub proof fn lemma_in_order_keeps(list: Seq<Stamped>)
    ensures
        in_order(list).len() == list.len(),
        in_order(list).to_multiset() == list.to_multiset(),
        forall|i: int|
            0 <= i < list.len() ==> list.contains(#[trigger] in_order(list)[i]),
    decreases list.len(),
{
    broadcast use vstd::seq_lib::group_to_multiset_ensures;

    if list.len() > 0 {
        lemma_in_order_keeps(list.drop_last());
        lemma_put_keeps(in_order(list.drop_last()), list.last());
        assert(list =~= list.drop_last().push(list.last()));
    }
    assert forall|i: int| 0 <= i < list.len() implies list.contains(#[trigger] in_order(list)[i]) by {
        assert(in_order(list).contains(in_order(list)[i]));
        assert(in_order(list).to_multiset().contains(in_order(list)[i]));
        assert(list.to_multiset().contains(in_order(list)[i]));
    }
}

/// What is recorded was pending before or is of the list.
proof fn lemma_recorded_bounded(pending: Map<Seq<char>, Pending>, list: Seq<Stamped>, bound: u64)
    requires
        forall|id: Seq<char>| #[trigger] pending.contains_key(id) ==> pending[id].sequence < bound,
        forall|i: int| 0 <= i < list.len() ==> (#[trigger] list[i]).sequence < bound,
    ensures
        forall|id: Seq<char>| #[trigger]
            recorded(pending, list).contains_key(id) ==> recorded(pending, list)[id].sequence
                < bound,
    decreases list.len(),
{
    if list.len() > 0 {
        assert forall|i: int| 0 <= i < list.drop_last().len() implies (
        #[trigger] list.drop_last()[i]).sequence < bound by {
            assert(list.drop_last()[i] == list[i]);
        }
        lemma_recorded_bounded(pending, list.drop_last(), bound);
        assert(list[list.len() - 1] == list.last());
    }
}

} // verus!
