//! What holds of handing the waiting requests out.

use vstd::prelude::*;

use crate::ledger::{superseded, Ledger, Pending};
use crate::pump::lemma_new_count_grows;
use crate::registry::{after_take, batch, consistent, fresh, handed_out, in_order, is_handed_out,
    is_new, kinds, new_count, offered_models, put, stamped, Fresh, OfferedRequest, OutgoingRequest,
    Registry, Stamped, Waiting};
use crate::registry_laws::{by_place, goes_out, law_in_order, law_what_is_handed_out_is_pending,
    law_what_is_pending_after_a_batch};
use crate::requests::{group_of, PendingKind};
use crate::session::SessionError;
use crate::state::RequestState;
use crate::text::{debug_text, decimal};

verus! {

/// A request that is there to be handed out, with the place it was queued with if
/// it was queued with one.
pub struct Source {
    pub place: Option<u64>,
    pub waiting: Waiting,
}

/// Everything that is there to be handed out: what the machine offers, the to-device
/// messages, the claim, the query about this account, the signing-keys upload, the
/// queries owed to persons, and the actions.
pub open spec fn sources(r: Registry, offered: Seq<Waiting>) -> Seq<Source> {
    Seq::new(offered.len(), |i: int| Source { place: None, waiting: offered[i] }) + Seq::new(
        r.to_device.len(),
        |i: int| Source { place: None, waiting: r.to_device[i] },
    ) + (match r.claim {
        Some(claim) => seq![Source { place: None, waiting: claim }],
        None => seq![],
    }) + (match r.account_query {
        Some((place, query)) => seq![Source { place: Some(place), waiting: query }],
        None => seq![],
    }) + (match r.signing_keys {
        Some((place, upload)) => seq![Source { place: Some(place), waiting: upload }],
        None => seq![],
    }) + Seq::new(
        r.peer_queries.len(),
        |i: int| Source { place: None, waiting: r.peer_queries[i] },
    ) + Seq::new(
        r.actions.len(),
        |i: int| Source { place: Some(r.actions[i].0), waiting: r.actions[i].1 },
    )
}

/// The place that a request has before the batch: the one it was queued with, or
/// the one it was handed out with and is still pending under.
pub open spec fn known_place(r: Registry, source: Source) -> Option<u64> {
    if source.place is Some {
        source.place
    } else if r.pending.contains_key(source.waiting.id) {
        Some(r.pending[source.waiting.id].sequence)
    } else {
        None
    }
}

/// How many requests are heard of for the first time, and have no place yet.
pub open spec fn newcomers(r: Registry, all: Seq<Source>) -> nat
    decreases all.len(),
{
    if all.len() == 0 {
        0
    } else {
        newcomers(r, all.drop_last()) + (if known_place(r, all.last()) is None {
            1nat
        } else {
            0nat
        })
    }
}

/// Whether one request leaves before another: by the places they have, those that
/// have one before those that have none, and otherwise in the order in which they
/// were gathered.
pub open spec fn leaves_before(r: Registry, all: Seq<Source>, a: int, b: int) -> bool {
    match (known_place(r, all[a]), known_place(r, all[b])) {
        (Some(x), Some(y)) => x < y || x == y && a < b,
        (Some(_), None) => true,
        (None, Some(_)) => false,
        (None, None) => a < b,
    }
}

/// What a request goes out as: what it waits as, but for a key query of the
/// machine's that names this account.
pub open spec fn goes_out_as(waiting: Waiting, account: Seq<char>) -> PendingKind {
    if waiting.kind == PendingKind::KeysQuery && exists|i: int|
        0 <= i < waiting.users.len() && #[trigger] waiting.users[i] == account {
        PendingKind::AccountKeysQuery
    } else {
        waiting.kind
    }
}

/// Whether two kinds are one standing need, of which a newer request supersedes an
/// older one.
pub open spec fn is_one_need(a: PendingKind, b: PendingKind) -> bool {
    match a {
        PendingKind::ToDevice
        | PendingKind::SignatureUpload
        | PendingKind::RoomMessage
        | PendingKind::PeerKeysQueryOutOfBand => false,
        PendingKind::KeysQuery | PendingKind::AccountKeysQuery => b == PendingKind::KeysQuery || b
            == PendingKind::AccountKeysQuery,
        _ => a == b,
    }
}

/// Whether an order lists the numbers below its length, each once.
pub open spec fn is_order(order: Seq<int>) -> bool {
    &&& forall|k: int| 0 <= k < order.len() ==> 0 <= #[trigger] order[k] < order.len()
    &&& forall|k: int, l: int|
        0 <= k < l < order.len() ==> #[trigger] order[k] != #[trigger] order[l]
}

proof fn lemma_put_at(list: Seq<Stamped>, request: Stamped) -> (at: int)
    requires
        by_place(list),
    ensures
        0 <= at <= list.len(),
        put(list, request) == list.insert(at, request),
        forall|i: int| 0 <= i < at ==> (#[trigger] list[i]).sequence <= request.sequence,
        forall|i: int| at <= i < list.len() ==> (#[trigger] list[i]).sequence > request.sequence,
    decreases list.len(),
{
    if list.len() == 0 || list.last().sequence <= request.sequence {
        assert forall|i: int| 0 <= i < list.len() implies (#[trigger] list[i]).sequence
            <= request.sequence by {
            assert(list[i].sequence <= list[list.len() - 1].sequence);
        }
        assert(list.push(request) =~= list.insert(list.len() as int, request));
        list.len() as int
    } else {
        let shorter = list.drop_last();
        assert(by_place(shorter)) by {
            assert forall|i: int, j: int| 0 <= i <= j < shorter.len() implies (
            #[trigger] shorter[i]).sequence <= (#[trigger] shorter[j]).sequence by {
                assert(list[i].sequence <= list[j].sequence);
            }
        }
        let at = lemma_put_at(shorter, request);
        assert(put(list, request) =~= list.insert(at, request));
        assert forall|i: int| 0 <= i < at implies (#[trigger] list[i]).sequence
            <= request.sequence by {
            assert(shorter[i] == list[i]);
        }
        assert forall|i: int| at <= i < list.len() implies (#[trigger] list[i]).sequence
            > request.sequence by {
            if i < shorter.len() {
                assert(shorter[i] == list[i]);
            }
        }
        at
    }
}

/// Where each request of an ordered list came from.
proof fn lemma_order(list: Seq<Stamped>) -> (order: Seq<int>)
    ensures
        order.len() == list.len(),
        in_order(list).len() == list.len(),
        is_order(order),
        forall|k: int| 0 <= k < order.len() ==> in_order(list)[k] == list[#[trigger] order[k]],
        forall|k: int, l: int|
            0 <= k < l < order.len() ==> {
                ||| list[#[trigger] order[k]].sequence < list[#[trigger] order[l]].sequence
                ||| list[order[k]].sequence == list[order[l]].sequence && order[k] < order[l]
            },
    decreases list.len(),
{
    if list.len() == 0 {
        Seq::empty()
    } else {
        let shorter = list.drop_last();
        let sorted = in_order(shorter);
        let n = shorter.len() as int;
        let below = lemma_order(shorter);
        law_in_order(shorter);
        let at = lemma_put_at(sorted, list.last());
        let order = below.insert(at, n);
        assert forall|k: int| 0 <= k < order.len() implies 0 <= #[trigger] order[k]
            < order.len() by {
            if k < at {
                assert(order[k] == below[k]);
            } else if k > at {
                assert(order[k] == below[k - 1]);
            }
        }
        assert forall|k: int, l: int| 0 <= k < l < order.len() implies #[trigger] order[k]
            != #[trigger] order[l] by {
            let x = if k < at { k } else { k - 1 };
            let y = if l < at { l } else { l - 1 };
            if k != at {
                assert(order[k] == below[x]);
            }
            if l != at {
                assert(order[l] == below[y]);
            }
        }
        assert forall|k: int| 0 <= k < order.len() implies in_order(list)[k]
            == list[#[trigger] order[k]] by {
            if k < at {
                assert(order[k] == below[k]);
            } else if k > at {
                assert(order[k] == below[k - 1]);
            }
        }
        assert forall|k: int, l: int| 0 <= k < l < order.len() implies {
            ||| list[#[trigger] order[k]].sequence < list[#[trigger] order[l]].sequence
            ||| list[order[k]].sequence == list[order[l]].sequence && order[k] < order[l]
        } by {
            let x = if k < at { k } else { k - 1 };
            let y = if l < at { l } else { l - 1 };
            if k != at {
                assert(order[k] == below[x]);
                assert(sorted[x] == shorter[below[x]]);
            }
            if l != at {
                assert(order[l] == below[y]);
                assert(sorted[y] == shorter[below[y]]);
            }
        }
        order
    }
}

/// A batch is gathered from the sources, in their order.
proof fn lemma_batch_is_sources(r: Registry, offered: Seq<Waiting>, account: Seq<char>)
    ensures
        batch(r, offered, account).len() == sources(r, offered).len(),
        forall|i: int|
            0 <= i < sources(r, offered).len() ==> #[trigger] batch(r, offered, account)[i] == fresh(
                sources(r, offered)[i].place,
                sources(r, offered)[i].waiting,
                account,
            ),
{
    let all = sources(r, offered);
    let items = batch(r, offered, account);
    let mapped = all.map_values(|s: Source| fresh(s.place, s.waiting, account));
    assert(items =~= mapped);
}

proof fn lemma_newcomers(
    r: Registry,
    all: Seq<Source>,
    items: Seq<Fresh>,
    account: Seq<char>,
)
    requires
        items.len() == all.len(),
        forall|i: int|
            0 <= i < all.len() ==> #[trigger] items[i] == fresh(
                all[i].place,
                all[i].waiting,
                account,
            ),
    ensures
        newcomers(r, all) == new_count(items, r.pending),
    decreases all.len(),
{
    if all.len() > 0 {
        let fewer = items.drop_last();
        assert forall|i: int| 0 <= i < all.drop_last().len() implies #[trigger] fewer[i] == fresh(
            all.drop_last()[i].place,
            all.drop_last()[i].waiting,
            account,
        ) by {
            assert(fewer[i] == items[i]);
        }
        lemma_newcomers(r, all.drop_last(), fewer, account);
        assert(items[items.len() - 1] == items.last());
    }
}

/// The places that a batch uses up are those of its newcomers.
proof fn lemma_places_used(r: Registry, offered: Seq<Waiting>, account: Seq<char>)
    ensures
        newcomers(r, sources(r, offered)) == new_count(batch(r, offered, account), r.pending),
{
    lemma_batch_is_sources(r, offered, account);
    lemma_newcomers(r, sources(r, offered), batch(r, offered, account), account);
}

proof fn lemma_goes_out_as(waiting: Waiting, account: Seq<char>, place: Option<u64>)
    ensures
        fresh(place, waiting, account).kind == goes_out_as(waiting, account),
{
    if waiting.users.contains(account) {
        let i = choose|i: int| 0 <= i < waiting.users.len() && waiting.users[i] == account;
        assert(waiting.users[i] == account);
    }
}

/// How a batch was made: an order in which the sources leave.
pub open spec fn is_order_of(r: Registry, all: Seq<Source>, order: Seq<int>) -> bool {
    &&& order.len() == all.len()
    &&& is_order(order)
    &&& forall|k: int, l: int|
        0 <= k < l < order.len() ==> leaves_before(
            r,
            all,
            #[trigger] order[k],
            #[trigger] order[l],
        )
}

proof fn lemma_handed_out(r: Registry, offered: Seq<Waiting>, account: Seq<char>) -> (order: Seq<
    int,
>)
    requires
        consistent(r),
        r.next_sequence + new_count(batch(r, offered, account), r.pending) <= u64::MAX,
    ensures
        is_order_of(r, sources(r, offered), order),
        handed_out(r, offered, account).len() == order.len(),
        forall|k: int|
            0 <= k < order.len() ==> {
                let out = #[trigger] handed_out(r, offered, account)[k];
                let source = sources(r, offered)[order[k]];
                &&& out.id == source.waiting.id
                &&& out.kind == goes_out_as(source.waiting, account)
                &&& out.body == source.waiting.body->0
                &&& known_place(r, source) matches Some(place) ==> out.sequence == place
                &&& known_place(r, source) is None ==> r.next_sequence <= out.sequence
                    < r.next_sequence + new_count(batch(r, offered, account), r.pending)
            },
        by_place(handed_out(r, offered, account)),
        forall|k: int, l: int|
            0 <= k < l < order.len() && known_place(r, sources(r, offered)[#[trigger] order[k]])
                is None && known_place(r, sources(r, offered)[#[trigger] order[l]]) is None
                ==> handed_out(r, offered, account)[k].sequence < handed_out(
                r,
                offered,
                account,
            )[l].sequence,
{
    let items = batch(r, offered, account);
    let all = sources(r, offered);
    let list = stamped(items, r.pending, r.next_sequence as int);
    let order = lemma_order(list);
    lemma_batch_is_sources(r, offered, account);
    law_in_order(list);
    assert forall|i: int| 0 <= i < all.len() implies {
        let one = #[trigger] list[i];
        &&& known_place(r, all[i]) matches Some(place) ==> one.sequence == place && place
            < r.next_sequence
        &&& known_place(r, all[i]) is None ==> one.sequence == r.next_sequence + new_count(
            items.take(i),
            r.pending,
        ) && is_new(items[i], r.pending) && one.sequence < r.next_sequence + new_count(
            items,
            r.pending,
        )
    } by {
        assert(items[i] == fresh(all[i].place, all[i].waiting, account));
        lemma_new_count_grows(items, r.pending, i);
        assert(items.take(i + 1).drop_last() =~= items.take(i));
        assert(items.take(i + 1).last() == items[i]);
        lemma_new_count_grows(items, r.pending, i + 1);
        lemma_known_below(r, offered, i);
    }
    assert forall|a: int, b: int|
        0 <= a < b < all.len() && known_place(r, all[a]) is None && known_place(r, all[b])
            is None implies (#[trigger] list[a]).sequence < (#[trigger] list[b]).sequence by {
        let head = items.take(b);
        assert(head.take(a + 1).drop_last() =~= items.take(a));
        assert(head.take(a + 1).last() == items[a]);
        lemma_new_count_grows(head, r.pending, a + 1);
    }
    assert forall|k: int, l: int| 0 <= k < l < order.len() implies leaves_before(
        r,
        all,
        #[trigger] order[k],
        #[trigger] order[l],
    ) by {
        let a = order[k];
        let b = order[l];
        assert(list[a].sequence < list[b].sequence || list[a].sequence == list[b].sequence && a
            < b);
        if known_place(r, all[a]) is None && known_place(r, all[b]) is None && b < a {
            assert(list[b].sequence < list[a].sequence);
        }
    }
    assert forall|k: int| 0 <= k < order.len() implies {
        let out = #[trigger] handed_out(r, offered, account)[k];
        let source = all[order[k]];
        &&& out.id == source.waiting.id
        &&& out.kind == goes_out_as(source.waiting, account)
        &&& out.body == source.waiting.body->0
        &&& known_place(r, source) matches Some(place) ==> out.sequence == place
        &&& known_place(r, source) is None ==> r.next_sequence <= out.sequence < r.next_sequence
            + new_count(items, r.pending)
    } by {
        let i = order[k];
        assert(handed_out(r, offered, account)[k] == list[i]);
        lemma_goes_out_as(all[i].waiting, account, all[i].place);
    }
    order
}

proof fn lemma_known_below(r: Registry, offered: Seq<Waiting>, i: int)
    requires
        consistent(r),
        0 <= i < sources(r, offered).len(),
    ensures
        known_place(r, sources(r, offered)[i]) matches Some(place) ==> place < r.next_sequence,
{
}

/// Everything that is there to be handed out is handed out, each request once, under
/// its identifier, with its body and for its endpoint, and in order: what has a place
/// by its place, then what is heard of for the first time, as it was gathered. All
/// of it or nothing: if one request has no body that could be sent, nothing is
/// handed out and nothing changes.
pub proof fn law_a_batch_is_everything_in_order(
    state: &mut RequestState,
    account: &str,
    offered: Vec<OfferedRequest>,
    result: Result<Vec<OutgoingRequest>, SessionError>,
) -> (order: Seq<int>)
    requires
        old(state).wf(),
        old(state)@.next_sequence + newcomers(
            old(state)@,
            sources(old(state)@, offered_models(offered@)),
        ) <= u64::MAX,
        call_ensures(RequestState::take_outgoing_requests, (state, account, &offered), result),
    ensures
        ({
            let all = sources(old(state)@, offered_models(offered@));
            let sendable = forall|i: int|
                0 <= i < all.len() ==> (#[trigger] all[i]).waiting.body is Some;
            &&& is_order_of(old(state)@, all, order)
            &&& sendable ==> result is Ok
            &&& !sendable ==> *final(state) == *old(state) && result == Err::<
                Vec<OutgoingRequest>,
                SessionError,
            >(SessionError::Failed)
            &&& result matches Ok(out) ==> {
                &&& out@.len() == all.len()
                &&& forall|k: int|
                    0 <= k < out@.len() ==> {
                        let source = all[order[k]];
                        &&& (#[trigger] out@[k]).id@ == source.waiting.id
                        &&& source.waiting.body == Some(out@[k].body@)
                        &&& forall|tag: &'static str| #[trigger]
                            call_ensures(
                                PendingKind::tag,
                                (goes_out_as(source.waiting, account@),),
                                tag,
                            ) ==> out@[k].kind@ == tag@
                    }
            }
        }),
{
    let r = old(state)@;
    let models = offered_models(offered@);
    let all = sources(r, models);
    let items = batch(r, models, account@);
    lemma_places_used(r, models, account@);
    let order = lemma_handed_out(r, models, account@);
    lemma_batch_is_sources(r, models, account@);
    let sendable = forall|i: int| 0 <= i < all.len() ==> (#[trigger] all[i]).waiting.body is Some;
    if sendable {
        assert forall|i: int| 0 <= i < items.len() implies (#[trigger] items[i]).body is Some by {
            assert(all[i].waiting.body is Some);
        }
    } else {
        let i = choose|i: int|
            0 <= i < all.len() && !((#[trigger] all[i]).waiting.body is Some);
        assert(items[i].body is None);
    }
    if let Ok(out) = result {
        assert forall|i: int| 0 <= i < all.len() implies (
        #[trigger] all[i]).waiting.body is Some by {
            assert(items[i].body is Some);
        }
        assert forall|k: int| 0 <= k < out@.len() implies {
            let source = all[order[k]];
            &&& (#[trigger] out@[k]).id@ == source.waiting.id
            &&& source.waiting.body == Some(out@[k].body@)
            &&& forall|tag: &'static str| #[trigger]
                call_ensures(PendingKind::tag, (goes_out_as(source.waiting, account@),), tag)
                    ==> out@[k].kind@ == tag@
        } by {
            assert(is_handed_out(out@[k], handed_out(r, models, account@)[k]));
            assert(all[order[k]].waiting.body is Some);
        }
    }
    order
}

/// Whether a request of the sources goes by the identifier.
pub open spec fn is_there(all: Seq<Source>, id: Seq<char>) -> bool {
    exists|i: int| 0 <= i < all.len() && (#[trigger] all[i]).waiting.id == id
}

/// Whether the batch has a request that supersedes one of this kind.
pub open spec fn is_renewed(all: Seq<Source>, account: Seq<char>, kind: PendingKind) -> bool {
    exists|i: int|
        0 <= i < all.len() && is_one_need(kind, goes_out_as((#[trigger] all[i]).waiting, account))
}

proof fn lemma_one_need(a: PendingKind, list: Seq<PendingKind>)
    ensures
        superseded(a, list) <==> exists|i: int|
            0 <= i < list.len() && is_one_need(a, #[trigger] list[i]),
{
    reveal_strlit("keys_upload");
    reveal_strlit("keys_query");
    reveal_strlit("keys_claim");
    reveal_strlit("signing_keys_upload");
    reveal_strlit("account_keys_query_out_of_band");
    assert("keys_upload"@[5] == 'u');
    assert("keys_query"@[5] == 'q');
    assert("keys_claim"@[5] == 'c');
    assert("signing_keys_upload"@[5] == 'n');
    assert("account_keys_query_out_of_band"@[4] == 'u');
    assert("keys_upload"@[4] == '_');
    assert("keys_query"@[4] == '_');
    assert("keys_claim"@[4] == '_');
    assert("signing_keys_upload"@[4] == 'i');
    assert forall|b: PendingKind|
        (group_of(a) is Some && #[trigger] group_of(b)
            == group_of(a)) == is_one_need(a, b) by {
    }
    if superseded(a, list) {
        let i = choose|i: int|
            0 <= i < list.len() && #[trigger] group_of(list[i])
                == group_of(a);
        assert(is_one_need(a, list[i]));
    }
    if exists|i: int| 0 <= i < list.len() && is_one_need(a, #[trigger] list[i]) {
        let i = choose|i: int| 0 <= i < list.len() && is_one_need(a, #[trigger] list[i]);
        assert(group_of(list[i]) == group_of(a));
    }
}

/// Once a batch has been handed out nothing waits. Exactly what it handed out is
/// pending, and what was pending before and is not renewed by it; the latter is
/// pending as it was. What the answers have settled is as it was.
pub proof fn law_what_a_batch_leaves(
    state: &mut RequestState,
    account: &str,
    offered: Vec<OfferedRequest>,
    out: Vec<OutgoingRequest>,
    id: Seq<char>,
)
    requires
        old(state).wf(),
        old(state)@.next_sequence + newcomers(
            old(state)@,
            sources(old(state)@, offered_models(offered@)),
        ) <= u64::MAX,
        call_ensures(
            RequestState::take_outgoing_requests,
            (state, account, &offered),
            Ok::<Vec<OutgoingRequest>, SessionError>(out),
        ),
    ensures
        ({
            let before = old(state)@;
            let after = final(state)@;
            let all = sources(before, offered_models(offered@));
            &&& sources(after, seq![]).len() == 0
            &&& after.answered == before.answered
            &&& after.unsettled == before.unsettled
            &&& after.next_sequence == before.next_sequence + newcomers(before, all)
            &&& after.pending.contains_key(id) <==> is_there(all, id) || (
            before.pending.contains_key(id) && !is_renewed(
                all,
                account@,
                before.pending[id].kind,
            ))
            &&& !is_there(all, id) && after.pending.contains_key(id) ==> after.pending[id]
                == before.pending[id]
        }),
{
    let r = old(state)@;
    let models = offered_models(offered@);
    let all = sources(r, models);
    let list = handed_out(r, models, account@);
    lemma_places_used(r, models, account@);
    let order = lemma_handed_out(r, models, account@);
    law_what_is_pending_after_a_batch(r, models, account@, id);
    lemma_goes_out(all, order, list, id);
    if r.pending.contains_key(id) {
        lemma_renewed(all, order, list, account@, r.pending[id].kind);
    }
    assert(sources(final(state)@, seq![]) =~= seq![]);
}

proof fn lemma_goes_out(all: Seq<Source>, order: Seq<int>, list: Seq<Stamped>, id: Seq<char>)
    requires
        is_order(order),
        order.len() == all.len(),
        list.len() == all.len(),
        forall|k: int|
            0 <= k < list.len() ==> (#[trigger] list[k]).id == all[order[k]].waiting.id,
    ensures
        goes_out(list, id) == is_there(all, id),
{
    if is_there(all, id) {
        let i = choose|i: int| 0 <= i < all.len() && (#[trigger] all[i]).waiting.id == id;
        lemma_covers(order, i);
        let k = choose|k: int| 0 <= k < order.len() && order[k] == i;
        assert(list[k].id == id);
    }
    if goes_out(list, id) {
        let k = choose|k: int| 0 <= k < list.len() && (#[trigger] list[k]).id == id;
        assert(0 <= order[k] < order.len());
        assert(all[order[k]].waiting.id == id);
    }
}

proof fn lemma_renewed(
    all: Seq<Source>,
    order: Seq<int>,
    list: Seq<Stamped>,
    account: Seq<char>,
    kind: PendingKind,
)
    requires
        is_order(order),
        order.len() == all.len(),
        list.len() == all.len(),
        forall|k: int|
            0 <= k < list.len() ==> (#[trigger] list[k]).kind == goes_out_as(
                all[order[k]].waiting,
                account,
            ),
    ensures
        superseded(kind, kinds(list)) == is_renewed(all, account, kind),
{
    lemma_one_need(kind, kinds(list));
    if is_renewed(all, account, kind) {
        let i = choose|i: int|
            0 <= i < all.len() && is_one_need(
                kind,
                goes_out_as((#[trigger] all[i]).waiting, account),
            );
        lemma_covers(order, i);
        let k = choose|k: int| 0 <= k < order.len() && order[k] == i;
        assert(kinds(list)[k] == list[k].kind);
    }
    if exists|i: int| 0 <= i < kinds(list).len() && is_one_need(kind, #[trigger] kinds(list)[i]) {
        let k = choose|i: int|
            0 <= i < kinds(list).len() && is_one_need(kind, #[trigger] kinds(list)[i]);
        assert(kinds(list)[k] == list[k].kind);
        assert(0 <= order[k] < order.len());
        assert(is_one_need(kind, goes_out_as(all[order[k]].waiting, account)));
    }
}

/// An order of so many numbers lists each of them.
proof fn lemma_covers(order: Seq<int>, i: int)
    requires
        is_order(order),
        0 <= i < order.len(),
    ensures
        exists|k: int| 0 <= k < order.len() && #[trigger] order[k] == i,
{
    let n = order.len() as int;
    let listed = order.to_set();
    let range = vstd::set_lib::set_int_range(0, n);
    order.unique_seq_to_set();
    vstd::set_lib::lemma_int_range(0, n);
    assert forall|j: int| #[trigger] listed.contains(j) implies range.contains(j) by {
        let k = choose|k: int| 0 <= k < order.len() && order[k] == j;
        assert(0 <= order[k] < order.len());
    }
    vstd::set_lib::lemma_subset_equality(listed, range);
    assert(listed.contains(i));
    let k = choose|k: int| 0 <= k < order.len() && order[k] == i;
    assert(order[k] == i);
}

/// What a batch hands out is pending as what it went out as. It keeps the place that
/// it had; what had none gets one after every place that was given before, and one
/// that is used up, in the order in which it leaves. Where two requests go by one
/// identifier, it is so of the later one.
pub proof fn law_what_is_handed_out_keeps_its_place(
    state: &mut RequestState,
    account: &str,
    offered: Vec<OfferedRequest>,
    out: Vec<OutgoingRequest>,
) -> (order: Seq<int>)
    requires
        old(state).wf(),
        old(state)@.next_sequence + newcomers(
            old(state)@,
            sources(old(state)@, offered_models(offered@)),
        ) <= u64::MAX,
        call_ensures(
            RequestState::take_outgoing_requests,
            (state, account, &offered),
            Ok::<Vec<OutgoingRequest>, SessionError>(out),
        ),
    ensures
        ({
            let before = old(state)@;
            let after = final(state)@;
            let all = sources(before, offered_models(offered@));
            &&& is_order_of(before, all, order)
            &&& forall|k: int|
                0 <= k < order.len() && leaves_last(all, order, k) ==> {
                    let source = all[#[trigger] order[k]];
                    let pending = after.pending[source.waiting.id];
                    &&& after.pending.contains_key(source.waiting.id)
                    &&& pending.kind == goes_out_as(source.waiting, account@)
                    &&& known_place(before, source) matches Some(place) ==> pending.sequence
                        == place
                    &&& known_place(before, source) is None ==> before.next_sequence
                        <= pending.sequence < after.next_sequence
                }
            &&& forall|k: int, l: int|
                0 <= k < l < order.len() && leaves_last(all, order, k) && leaves_last(all, order, l)
                    && known_place(before, all[#[trigger] order[k]]) is None && known_place(
                    before,
                    all[#[trigger] order[l]],
                ) is None ==> after.pending[all[order[k]].waiting.id].sequence
                    < after.pending[all[order[l]].waiting.id].sequence
        }),
{
    let r = old(state)@;
    let models = offered_models(offered@);
    let all = sources(r, models);
    let list = handed_out(r, models, account@);
    let after = after_take(r, models, account@).pending;
    lemma_places_used(r, models, account@);
    let order = lemma_handed_out(r, models, account@);
    assert forall|k: int| 0 <= k < order.len() && leaves_last(all, order, k) implies {
        &&& after.contains_key(all[#[trigger] order[k]].waiting.id)
        &&& after[all[order[k]].waiting.id] == (Pending {
            kind: list[k].kind,
            sequence: list[k].sequence,
        })
    } by {
        assert forall|j: int| k < j < list.len() implies (#[trigger] list[j]).id != list[k].id by {
            assert(list[j].id == all[order[j]].waiting.id);
        }
        assert(list[k].id == all[order[k]].waiting.id);
        law_what_is_handed_out_is_pending(r, models, account@, k);
    }
    assert forall|k: int| 0 <= k < order.len() && leaves_last(all, order, k) implies {
        let source = all[#[trigger] order[k]];
        let pending = final(state)@.pending[source.waiting.id];
        &&& final(state)@.pending.contains_key(source.waiting.id)
        &&& pending.kind == goes_out_as(source.waiting, account@)
        &&& known_place(r, source) matches Some(place) ==> pending.sequence == place
        &&& known_place(r, source) is None ==> r.next_sequence <= pending.sequence
            < final(state)@.next_sequence
    } by {
        let one = list[k];
        assert(one.kind == goes_out_as(all[order[k]].waiting, account@));
    }
    order
}

/// Whether no later request of the batch goes by the identifier.
pub open spec fn leaves_last(all: Seq<Source>, order: Seq<int>, k: int) -> bool {
    forall|j: int|
        k < j < order.len() ==> all[#[trigger] order[j]].waiting.id != all[order[k]].waiting.id
}

/// What a request shows of itself: its identifier, its endpoint and how long its body
/// is, not the body.
pub proof fn law_what_a_request_shows(request: OutgoingRequest, text: String)
    requires
        call_ensures(OutgoingRequest::debug_text, (&request,), text),
        vstd::utf8::encode_utf8(request.body@).len() <= usize::MAX,
    ensures
        text@ == "OutgoingRequest { id: "@ + debug_text(request.id@) + ", kind: "@ + debug_text(
            request.kind@,
        ) + ", body_len: "@ + decimal(vstd::utf8::encode_utf8(request.body@).len()) + " }"@,
{
}

/// Where there are places for so many requests, a batch of no more than those can
/// be handed out.
pub proof fn law_places_for_a_batch_suffice(
    state: RequestState,
    offered: usize,
    answer: bool,
    list: Seq<Waiting>,
)
    requires
        call_ensures(RequestState::has_places_for, (&state, offered), answer),
        list.len() <= offered,
    ensures
        answer ==> state@.next_sequence + newcomers(state@, sources(state@, list)) <= u64::MAX,
        !answer ==> state@.next_sequence + offered + state@.to_device.len()
            + state@.peer_queries.len() + state@.actions.len() + 3 > u64::MAX,
{
    lemma_places_used(state@, list, Seq::empty());
}

/// A ledger holds what was entered and not taken out, each identifier with what was
/// entered for it last.
pub proof fn law_a_ledger_holds_what_was_entered(
    fresh_ledger: Ledger,
    ledger: &mut Ledger,
    id: String,
    pending: Pending,
    other: &str,
    found: Option<Pending>,
)
    requires
        call_ensures(Ledger::new, (), fresh_ledger),
        old(ledger).wf(),
        call_ensures(Ledger::insert, (ledger, id, pending), ()),
        call_ensures(Ledger::get, (final(ledger), other), found),
    ensures
        forall|name: Seq<char>| !#[trigger] fresh_ledger@.contains_key(name),
        other@ == id@ ==> found == Some(pending),
        other@ != id@ ==> found == (if old(ledger)@.contains_key(other@) {
            Some(old(ledger)@[other@])
        } else {
            None
        }),
{
}

/// Taking a request out takes out that one and no other.
pub proof fn law_one_request_is_taken_out(
    ledger: &mut Ledger,
    id: &str,
    other: &str,
    found: Option<Pending>,
)
    requires
        old(ledger).wf(),
        call_ensures(Ledger::remove, (ledger, id), ()),
        call_ensures(Ledger::get, (final(ledger), other), found),
    ensures
        other@ == id@ ==> found is None,
        other@ != id@ ==> found == (if old(ledger)@.contains_key(other@) {
            Some(old(ledger)@[other@])
        } else {
            None
        }),
{
}

/// A newer request makes a ledger forget those that are the same standing need, and
/// no others.
pub proof fn law_what_a_newer_request_makes_a_ledger_forget(
    ledger: &mut Ledger,
    newer: Vec<PendingKind>,
    id: Seq<char>,
)
    requires
        old(ledger).wf(),
        call_ensures(Ledger::evict, (ledger, &newer), ()),
    ensures
        final(ledger)@.contains_key(id) <==> old(ledger)@.contains_key(id) && !(exists|i: int|
            0 <= i < newer@.len() && is_one_need(old(ledger)@[id].kind, #[trigger] newer@[i])),
        final(ledger)@.contains_key(id) ==> final(ledger)@[id] == old(ledger)@[id],
{
    if old(ledger)@.contains_key(id) {
        lemma_one_need(old(ledger)@[id].kind, newer@);
    }
}

} // verus!
