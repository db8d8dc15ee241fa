//! What holds of the registry as a whole.

use vstd::prelude::*;

use crate::ledger::{superseded, unsuperseded, Pending};
use crate::pump::{lemma_in_order_keeps, lemma_new_count_grows};
use crate::registry::{action_queued, after_account_query, after_action, after_signing_keys,
    after_take, all_filed, at_most_one, batch, by_identifier, consistent, filed, fresh, handed_out,
    in_order, is_new, kinds, new_count, placed, put, recorded, stamped, unplaced, waiting_message,
    Fresh, Registry, Stamped, ToDeviceMessage, Waiting};
use crate::requests::{group_of, scoped, PendingKind};
use crate::session::{after_share, ShareOutcome};
use crate::state::lemma_filed_in_order;
use crate::text::{lemma_before_irreflexive, text_before};

verus! {

/// Whether the requests stand by their places.
pub open spec fn by_place(list: Seq<Stamped>) -> bool {
    forall|i: int, j: int|
        0 <= i <= j < list.len() ==> (#[trigger] list[i]).sequence <= (#[trigger] list[j]).sequence
}

/// The requests of a list that have one place.
pub open spec fn at_place(list: Seq<Stamped>, sequence: u64) -> Seq<Stamped> {
    list.filter(|r: Stamped| r.sequence == sequence)
}

proof fn lemma_put_by_place(list: Seq<Stamped>, request: Stamped)
    requires
        by_place(list),
    ensures
        by_place(put(list, request)),
        forall|i: int|
            0 <= i < put(list, request).len() ==> list.contains(#[trigger] put(list, request)[i])
                || put(list, request)[i] == request,
    decreases list.len(),
{
    let after = put(list, request);
    if list.len() == 0 || list.last().sequence <= request.sequence {
        assert forall|i: int| 0 <= i < after.len() implies list.contains(#[trigger] after[i])
            || after[i] == request by {
            if i < list.len() {
                assert(list[i] == after[i]);
            }
        }
        assert forall|i: int, j: int| 0 <= i <= j < after.len() implies (
        #[trigger] after[i]).sequence <= (#[trigger] after[j]).sequence by {
            if j < list.len() {
                assert(list[i].sequence <= list[j].sequence);
            } else if i < list.len() {
                assert(list[i].sequence <= list[list.len() - 1].sequence);
            }
        }
    } else {
        let shorter = list.drop_last();
        assert forall|i: int, j: int| 0 <= i <= j < shorter.len() implies (
        #[trigger] shorter[i]).sequence <= (#[trigger] shorter[j]).sequence by {
            assert(list[i].sequence <= list[j].sequence);
        }
        lemma_put_by_place(shorter, request);
        let below = put(shorter, request);
        assert(after == below.push(list.last()));
        assert forall|i: int| 0 <= i < below.len() implies (#[trigger] below[i]).sequence
            <= list.last().sequence by {
            if below[i] != request {
                let k = choose|k: int| 0 <= k < shorter.len() && shorter[k] == below[i];
                assert(list[k].sequence <= list[list.len() - 1].sequence);
            }
        }
        assert forall|i: int| 0 <= i < after.len() implies list.contains(#[trigger] after[i])
            || after[i] == request by {
            if i < below.len() {
                assert(after[i] == below[i]);
                if below[i] != request {
                    let k = choose|k: int| 0 <= k < shorter.len() && shorter[k] == below[i];
                    assert(list[k] == after[i]);
                }
            } else {
                assert(list[list.len() - 1] == after[i]);
            }
        }
        assert forall|i: int, j: int| 0 <= i <= j < after.len() implies (
        #[trigger] after[i]).sequence <= (#[trigger] after[j]).sequence by {
            if j < below.len() {
                assert(below[i].sequence <= below[j].sequence);
            } else if i < below.len() {
                assert(after[i] == below[i]);
            }
        }
    }
}

proof fn lemma_put_stable(list: Seq<Stamped>, request: Stamped, sequence: u64)
    requires
        by_place(list),
    ensures
        at_place(put(list, request), sequence) == at_place(list.push(request), sequence),
    decreases list.len(),
{
    let wanted = |r: Stamped| r.sequence == sequence;
    if list.len() == 0 || list.last().sequence <= request.sequence {
    } else {
        let shorter = list.drop_last();
        let last = list.last();
        assert forall|i: int, j: int| 0 <= i <= j < shorter.len() implies (
        #[trigger] shorter[i]).sequence <= (#[trigger] shorter[j]).sequence by {
            assert(list[i].sequence <= list[j].sequence);
        }
        lemma_put_stable(shorter, request, sequence);
        assert(list =~= shorter.push(last));
        put(shorter, request).lemma_filter_push(last, wanted);
        shorter.lemma_filter_push(request, wanted);
        shorter.lemma_filter_push(last, wanted);
        list.lemma_filter_push(request, wanted);
    }
}

proof fn lemma_in_order_by_place(list: Seq<Stamped>)
    ensures
        by_place(in_order(list)),
    decreases list.len(),
{
    if list.len() > 0 {
        lemma_in_order_by_place(list.drop_last());
        lemma_put_by_place(in_order(list.drop_last()), list.last());
    }
}

proof fn lemma_in_order_stable(list: Seq<Stamped>, sequence: u64)
    ensures
        at_place(in_order(list), sequence) == at_place(list, sequence),
    decreases list.len(),
{
    if list.len() > 0 {
        let wanted = |r: Stamped| r.sequence == sequence;
        let shorter = list.drop_last();
        lemma_in_order_stable(shorter, sequence);
        lemma_in_order_by_place(shorter);
        lemma_put_stable(in_order(shorter), list.last(), sequence);
        in_order(shorter).lemma_filter_push(list.last(), wanted);
        shorter.lemma_filter_push(list.last(), wanted);
        assert(list =~= shorter.push(list.last()));
    }
}

/// Putting a batch in order rearranges it by place, loses and adds nothing, and
/// leaves requests that share a place as they were.
pub proof fn law_in_order(list: Seq<Stamped>)
    ensures
        by_place(in_order(list)),
        in_order(list).to_multiset() == list.to_multiset(),
        forall|sequence: u64| #[trigger]
            at_place(in_order(list), sequence) == at_place(list, sequence),
{
    lemma_in_order_by_place(list);
    lemma_in_order_keeps(list);
    assert forall|sequence: u64| #[trigger]
        at_place(in_order(list), sequence) == at_place(list, sequence) by {
        lemma_in_order_stable(list, sequence);
    }
}

/// A batch is handed out whole: as many requests come out as there were to hand
/// out, each with its place, in the order of their places.
pub proof fn law_batch_is_handed_out_whole(r: Registry, offered: Seq<Waiting>, account: Seq<char>)
    ensures
        by_place(handed_out(r, offered, account)),
        handed_out(r, offered, account).to_multiset() == stamped(
            batch(r, offered, account),
            r.pending,
            r.next_sequence as int,
        ).to_multiset(),
        handed_out(r, offered, account).len() == batch(r, offered, account).len(),
{
    let list = stamped(batch(r, offered, account), r.pending, r.next_sequence as int);
    law_in_order(list);
    lemma_in_order_keeps(list);
}

/// The place a request of the batch has once the batch is stamped.
pub open spec fn place_in_batch(r: Registry, items: Seq<Fresh>, i: int) -> u64 {
    stamped(items, r.pending, r.next_sequence as int)[i].sequence
}

/// Places that were given before the batch are below the next place, and places
/// given in it are not.
proof fn lemma_known_below_new(r: Registry, items: Seq<Fresh>, i: int)
    requires
        consistent(r),
        r.next_sequence + new_count(items, r.pending) <= u64::MAX,
        0 <= i < items.len(),
        items[i].queued_at matches Some(sequence) ==> sequence < r.next_sequence,
    ensures
        is_new(items[i], r.pending) == (place_in_batch(r, items, i) >= r.next_sequence),
        is_new(items[i], r.pending) ==> place_in_batch(r, items, i) == r.next_sequence + new_count(
            items.take(i),
            r.pending,
        ),
{
    lemma_new_count_grows(items, r.pending, i);
}

/// A place from the order in which the batch was gathered: of two requests that
/// are heard of for the first time, the one gathered first has the lower place.
proof fn lemma_new_in_turn(r: Registry, items: Seq<Fresh>, i: int, j: int)
    requires
        consistent(r),
        r.next_sequence + new_count(items, r.pending) <= u64::MAX,
        0 <= i < j < items.len(),
        is_new(items[i], r.pending),
        is_new(items[j], r.pending),
    ensures
        place_in_batch(r, items, i) < place_in_batch(r, items, j),
{
    lemma_known_below_new(r, items, i);
    lemma_known_below_new(r, items, j);
    let head = items.take(j);
    assert(head.take(i + 1).drop_last() =~= items.take(i));
    assert(head.take(i + 1).last() == items[i]);
    lemma_new_count_grows(head, r.pending, i + 1);
}

/// Every place that was given to a queued request is below the next place.
proof fn lemma_queued_below_next(r: Registry, offered: Seq<Waiting>, account: Seq<char>, i: int)
    requires
        consistent(r),
        0 <= i < batch(r, offered, account).len(),
    ensures
        batch(r, offered, account)[i].queued_at matches Some(sequence) ==> sequence
            < r.next_sequence,
{
}

/// Whether, of the requests handed out, every one with the first place and every
/// one with the second stand in that order.
pub open spec fn precedes(list: Seq<Stamped>, first: u64, second: u64) -> bool {
    forall|i: int, j: int|
        0 <= i < list.len() && 0 <= j < list.len() && (#[trigger] list[i]).sequence == first && (
        #[trigger] list[j]).sequence == second ==> i < j
}

proof fn lemma_lower_place_precedes(list: Seq<Stamped>, first: u64, second: u64)
    requires
        by_place(list),
        first < second,
    ensures
        precedes(list, first, second),
{
    assert forall|i: int, j: int|
        0 <= i < list.len() && 0 <= j < list.len() && (#[trigger] list[i]).sequence == first && (
        #[trigger] list[j]).sequence == second implies i < j by {
        if j <= i {
            assert(list[j].sequence <= list[i].sequence);
        }
    }
}

/// What was given a place before comes ahead of everything the batch hears of
/// for the first time.
///
/// A request that was handed out and is offered again keeps its place, and so
/// does one that was queued with one, so neither is overtaken by what is new.
pub proof fn law_known_requests_come_first(
    r: Registry,
    offered: Seq<Waiting>,
    account: Seq<char>,
    known: int,
    new: int,
)
    requires
        consistent(r),
        r.next_sequence + new_count(batch(r, offered, account), r.pending) <= u64::MAX,
        0 <= known < batch(r, offered, account).len(),
        0 <= new < batch(r, offered, account).len(),
        !is_new(batch(r, offered, account)[known], r.pending),
        is_new(batch(r, offered, account)[new], r.pending),
    ensures
        precedes(
            handed_out(r, offered, account),
            place_in_batch(r, batch(r, offered, account), known),
            place_in_batch(r, batch(r, offered, account), new),
        ),
{
    let items = batch(r, offered, account);
    lemma_queued_below_next(r, offered, account, known);
    lemma_queued_below_next(r, offered, account, new);
    lemma_known_below_new(r, items, known);
    lemma_known_below_new(r, items, new);
    law_batch_is_handed_out_whole(r, offered, account);
    lemma_lower_place_precedes(
        handed_out(r, offered, account),
        place_in_batch(r, items, known),
        place_in_batch(r, items, new),
    );
}

/// What the batch hears of for the first time leaves in the order it was
/// gathered in.
pub proof fn law_new_requests_leave_as_gathered(
    r: Registry,
    offered: Seq<Waiting>,
    account: Seq<char>,
    i: int,
    j: int,
)
    requires
        consistent(r),
        r.next_sequence + new_count(batch(r, offered, account), r.pending) <= u64::MAX,
        0 <= i < j < batch(r, offered, account).len(),
        is_new(batch(r, offered, account)[i], r.pending),
        is_new(batch(r, offered, account)[j], r.pending),
    ensures
        precedes(
            handed_out(r, offered, account),
            place_in_batch(r, batch(r, offered, account), i),
            place_in_batch(r, batch(r, offered, account), j),
        ),
{
    let items = batch(r, offered, account);
    lemma_new_in_turn(r, items, i, j);
    law_batch_is_handed_out_whole(r, offered, account);
    lemma_lower_place_precedes(
        handed_out(r, offered, account),
        place_in_batch(r, items, i),
        place_in_batch(r, items, j),
    );
}

/// A request that was handed out, was not resolved and is offered again goes out
/// with the place it was given first.
pub proof fn law_reoffered_request_keeps_its_place(
    r: Registry,
    offered: Seq<Waiting>,
    account: Seq<char>,
    i: int,
)
    requires
        0 <= i < offered.len(),
        r.pending.contains_key(offered[i].id),
    ensures
        batch(r, offered, account)[i] == fresh(None, offered[i], account),
        place_in_batch(r, batch(r, offered, account), i) == r.pending[offered[i].id].sequence,
{
    let items = batch(r, offered, account);
    assert(items[i] == unplaced(offered, account)[i]);
}

/// The requests that verification actions made leave in the order they were
/// queued in, whatever their identifiers are.
pub proof fn law_actions_leave_as_queued(
    r: Registry,
    offered: Seq<Waiting>,
    account: Seq<char>,
    i: int,
    j: int,
)
    requires
        consistent(r),
        0 <= i < j < r.actions.len(),
    ensures
        precedes(handed_out(r, offered, account), r.actions[i].0, r.actions[j].0),
{
    law_batch_is_handed_out_whole(r, offered, account);
    lemma_lower_place_precedes(
        handed_out(r, offered, account),
        r.actions[i].0,
        r.actions[j].0,
    );
}

/// Where the queries owed to verified persons stand in the batch.
pub open spec fn peer_offset(r: Registry, offered: Seq<Waiting>) -> nat {
    offered.len() + r.to_device.len() + at_most_one(r.claim).len() + at_most_one(
        r.account_query,
    ).len() + at_most_one(r.signing_keys).len()
}

/// A batch is gathered queue by queue: what the machine offers, then the to-device
/// messages, then the claim, and the queries owed to verified persons after those.
pub proof fn law_where_each_queue_stands(
    r: Registry,
    offered: Seq<Waiting>,
    account: Seq<char>,
    i: int,
)
    ensures
        0 <= i < offered.len() ==> batch(r, offered, account)[i] == fresh(
            None,
            offered[i],
            account,
        ),
        0 <= i < r.to_device.len() ==> batch(r, offered, account)[offered.len() + i] == fresh(
            None,
            r.to_device[i],
            account,
        ),
        r.claim matches Some(claim) ==> batch(
            r,
            offered,
            account,
        )[(offered.len() + r.to_device.len()) as int] == fresh(None, claim, account),
        0 <= i < r.peer_queries.len() ==> batch(r, offered, account)[peer_offset(r, offered) + i]
            == fresh(None, r.peer_queries[i], account),
        peer_offset(r, offered) >= offered.len() + r.to_device.len() + at_most_one(r.claim).len(),
{
    let items = batch(r, offered, account);
    if 0 <= i < offered.len() {
        assert(items[i] == unplaced(offered, account)[i]);
    }
    if 0 <= i < r.to_device.len() {
        assert(items[offered.len() + i] == unplaced(r.to_device, account)[i]);
    }
    if r.claim is Some {
        assert(items[(offered.len() + r.to_device.len()) as int] == unplaced(
            at_most_one(r.claim),
            account,
        )[0]);
    }
    if 0 <= i < r.peer_queries.len() {
        assert(items[peer_offset(r, offered) + i] == unplaced(r.peer_queries, account)[i]);
    }
}

/// A query owed to a verified person does not overtake what the machine offers.
///
/// The verification that owes the query also made a signature upload, which the
/// machine offers. The query reads back what that upload writes, so it has to
/// follow it.
pub proof fn law_peer_queries_follow_what_is_offered(
    r: Registry,
    offered: Seq<Waiting>,
    account: Seq<char>,
    i: int,
    j: int,
)
    requires
        consistent(r),
        r.next_sequence + new_count(batch(r, offered, account), r.pending) <= u64::MAX,
        0 <= i < offered.len(),
        0 <= j < r.peer_queries.len(),
        !r.pending.contains_key(r.peer_queries[j].id),
    ensures
        batch(r, offered, account)[peer_offset(r, offered) + j] == fresh(
            None,
            r.peer_queries[j],
            account,
        ),
        precedes(
            handed_out(r, offered, account),
            place_in_batch(r, batch(r, offered, account), i),
            place_in_batch(r, batch(r, offered, account), peer_offset(r, offered) + j),
        ),
{
    let items = batch(r, offered, account);
    let at = (peer_offset(r, offered) + j) as int;
    assert(items[i] == unplaced(offered, account)[i]);
    assert(items[at] == unplaced(r.peer_queries, account)[j]);
    if is_new(items[i], r.pending) {
        law_new_requests_leave_as_gathered(r, offered, account, i, at);
    } else {
        law_known_requests_come_first(r, offered, account, i, at);
    }
}

/// Queueing an action again, under the identifier it was queued under, changes
/// nothing.
pub proof fn law_action_is_queued_once(r: Registry, action: Waiting, again: Waiting)
    requires
        action.id == again.id,
    ensures
        after_action(after_action(r, action), again) == after_action(r, action),
{
    let after = after_action(r, action);
    if !action_queued(r.actions, action.id) && !r.pending.contains_key(action.id) {
        assert(after.actions[r.actions.len() as int].1.id == again.id);
        assert(action_queued(after.actions, again.id));
    }
}

/// An action under an identifier that is neither queued nor pending is queued
/// behind all the others, with a place after every place that was given before.
pub proof fn law_another_action_is_queued_last(r: Registry, action: Waiting)
    requires
        consistent(r),
        r.next_sequence < u64::MAX,
        !action_queued(r.actions, action.id),
        !r.pending.contains_key(action.id),
    ensures
        ({
            let after = after_action(r, action);
            &&& after == (Registry {
                actions: r.actions.push((r.next_sequence, action)),
                next_sequence: (r.next_sequence + 1) as u64,
                ..r
            })
            &&& forall|i: int|
                0 <= i < r.actions.len() ==> (#[trigger] r.actions[i]).0 < r.next_sequence
            &&& forall|id: Seq<char>| #[trigger]
                r.pending.contains_key(id) ==> r.pending[id].sequence < r.next_sequence
            &&& r.account_query matches Some(query) ==> query.0 < r.next_sequence
            &&& r.signing_keys matches Some(keys) ==> keys.0 < r.next_sequence
        }),
{
}

/// A signing-keys upload that replaces one that waits takes its place.
pub proof fn law_replaced_upload_keeps_the_place(r: Registry, first: Waiting, second: Waiting)
    ensures
        after_signing_keys(after_signing_keys(r, first), second) == after_signing_keys(r, second),
{
}

/// A query about this account that replaces one that waits takes its place.
pub proof fn law_replaced_query_keeps_the_place(r: Registry, first: Waiting, second: Waiting)
    ensures
        after_account_query(after_account_query(r, first), second) == after_account_query(
            r,
            second,
        ),
{
}

/// Whether a request of the list goes by the identifier.
pub open spec fn goes_out(list: Seq<Stamped>, id: Seq<char>) -> bool {
    exists|i: int| 0 <= i < list.len() && (#[trigger] list[i]).id == id
}

proof fn lemma_recorded(pending: Map<Seq<char>, Pending>, list: Seq<Stamped>, id: Seq<char>)
    ensures
        recorded(pending, list).contains_key(id) == (pending.contains_key(id) || goes_out(
            list,
            id,
        )),
        !goes_out(list, id) && pending.contains_key(id) ==> recorded(pending, list)[id]
            == pending[id],
    decreases list.len(),
{
    if list.len() > 0 {
        let shorter = list.drop_last();
        lemma_recorded(pending, shorter, id);
        if goes_out(shorter, id) {
            let i = choose|i: int| 0 <= i < shorter.len() && (#[trigger] shorter[i]).id == id;
            assert(list[i].id == id);
        }
        if goes_out(list, id) {
            let i = choose|i: int| 0 <= i < list.len() && (#[trigger] list[i]).id == id;
            if i < shorter.len() {
                assert(shorter[i].id == id);
            }
        }
        if list.last().id == id {
            assert(list[list.len() - 1].id == id);
        }
    }
}

/// After a batch, exactly these requests are pending: those of the batch, and
/// those that were pending and that it does not supersede. The latter are
/// pending as they were.
pub proof fn law_what_is_pending_after_a_batch(
    r: Registry,
    offered: Seq<Waiting>,
    account: Seq<char>,
    id: Seq<char>,
)
    ensures
        after_take(r, offered, account).pending.contains_key(id) == (goes_out(
            handed_out(r, offered, account),
            id,
        ) || (r.pending.contains_key(id) && !superseded(
            r.pending[id].kind,
            kinds(handed_out(r, offered, account)),
        ))),
        !goes_out(handed_out(r, offered, account), id) && after_take(
            r,
            offered,
            account,
        ).pending.contains_key(id) ==> after_take(r, offered, account).pending[id]
            == r.pending[id],
{
    let list = handed_out(r, offered, account);
    lemma_recorded(unsuperseded(r.pending, kinds(list)), list, id);
}

/// A request that was handed out, was not resolved and is not in the batch is
/// still pending afterwards exactly where it belongs to no group, or the batch has
/// no request of its group.
pub proof fn law_only_its_own_group_forgets_a_request(
    r: Registry,
    offered: Seq<Waiting>,
    account: Seq<char>,
    id: Seq<char>,
)
    requires
        r.pending.contains_key(id),
        !goes_out(handed_out(r, offered, account), id),
    ensures
        after_take(r, offered, account).pending.contains_key(id) == (group_of(r.pending[id].kind)
            is None || forall|i: int|
            0 <= i < handed_out(r, offered, account).len() ==> group_of(
                (#[trigger] handed_out(r, offered, account)[i]).kind,
            ) != group_of(r.pending[id].kind)),
{
    let list = handed_out(r, offered, account);
    let kind = r.pending[id].kind;
    law_what_is_pending_after_a_batch(r, offered, account, id);
    if superseded(kind, kinds(list)) {
        let i = choose|i: int|
            0 <= i < kinds(list).len() && group_of(#[trigger] kinds(list)[i]) == group_of(kind);
        assert(kinds(list)[i] == list[i].kind);
    } else if group_of(kind) is Some {
        assert forall|i: int| 0 <= i < list.len() implies group_of((#[trigger] list[i]).kind)
            != group_of(kind) by {
            assert(kinds(list)[i] == list[i].kind);
        }
    }
}

proof fn lemma_recorded_last(pending: Map<Seq<char>, Pending>, list: Seq<Stamped>, i: int)
    requires
        0 <= i < list.len(),
        forall|j: int| i < j < list.len() ==> (#[trigger] list[j]).id != list[i].id,
    ensures
        recorded(pending, list).contains_key(list[i].id),
        recorded(pending, list)[list[i].id] == (Pending {
            kind: list[i].kind,
            sequence: list[i].sequence,
        }),
    decreases list.len(),
{
    if i < list.len() - 1 {
        let shorter = list.drop_last();
        assert(list[list.len() - 1] == list.last());
        assert forall|j: int| i < j < shorter.len() implies (#[trigger] shorter[j]).id
            != shorter[i].id by {
            assert(shorter[j] == list[j]);
        }
        lemma_recorded_last(pending, shorter, i);
    }
}

/// What is handed out is pending, as what it was handed out as and with its place.
/// Where a batch has two requests under one identifier, it is so of the later one.
pub proof fn law_what_is_handed_out_is_pending(
    r: Registry,
    offered: Seq<Waiting>,
    account: Seq<char>,
    i: int,
)
    requires
        0 <= i < handed_out(r, offered, account).len(),
    ensures
        ({
            let list = handed_out(r, offered, account);
            let after = after_take(r, offered, account).pending;
            &&& after.contains_key(list[i].id)
            &&& (forall|j: int| i < j < list.len() ==> (#[trigger] list[j]).id != list[i].id)
                ==> after[list[i].id] == (Pending {
                kind: list[i].kind,
                sequence: list[i].sequence,
            })
        }),
{
    let list = handed_out(r, offered, account);
    assert(goes_out(list, list[i].id));
    law_what_is_pending_after_a_batch(r, offered, account, list[i].id);
    if forall|j: int| i < j < list.len() ==> (#[trigger] list[j]).id != list[i].id {
        lemma_recorded_last(unsuperseded(r.pending, kinds(list)), list, i);
    }
}

/// A to-device message, a signature upload, a room message and a query owed to a
/// verified person stay pending whatever else is handed out.
pub proof fn law_needs_of_their_own_are_not_superseded(
    r: Registry,
    offered: Seq<Waiting>,
    account: Seq<char>,
    id: Seq<char>,
)
    requires
        r.pending.contains_key(id),
        r.pending[id].kind is ToDevice || r.pending[id].kind is SignatureUpload
            || r.pending[id].kind is RoomMessage || r.pending[id].kind is PeerKeysQueryOutOfBand,
    ensures
        after_take(r, offered, account).pending.contains_key(id),
{
    law_what_is_pending_after_a_batch(r, offered, account, id);
}

/// Standing needs do not pile up: where a batch hands out a request of a group,
/// the requests of that group that are pending afterwards are those of the batch.
pub proof fn law_standing_needs_do_not_pile_up(
    r: Registry,
    offered: Seq<Waiting>,
    account: Seq<char>,
    i: int,
    id: Seq<char>,
)
    requires
        0 <= i < handed_out(r, offered, account).len(),
        group_of(handed_out(r, offered, account)[i].kind) is Some,
        after_take(r, offered, account).pending.contains_key(id),
        group_of(after_take(r, offered, account).pending[id].kind) == group_of(
            handed_out(r, offered, account)[i].kind,
        ),
    ensures
        goes_out(handed_out(r, offered, account), id),
{
    let list = handed_out(r, offered, account);
    law_what_is_pending_after_a_batch(r, offered, account, id);
    assert(kinds(list)[i] == list[i].kind);
}

/// A query about this account that was asked for by name is superseded by
/// another of its kind and by nothing else; an ordinary query and one the
/// machine volunteers about this account supersede each other.
pub proof fn law_queries_supersede_their_own(kind: PendingKind)
    ensures
        group_of(kind) == group_of(PendingKind::AccountKeysQueryOutOfBand) ==> kind
            is AccountKeysQueryOutOfBand,
        group_of(PendingKind::KeysQuery) == group_of(PendingKind::AccountKeysQuery),
        group_of(kind) == group_of(PendingKind::KeysQuery) ==> kind is KeysQuery || kind
            is AccountKeysQuery,
{
    reveal_strlit("account_keys_query_out_of_band");
    reveal_strlit("keys_upload");
    reveal_strlit("keys_query");
    reveal_strlit("keys_claim");
    reveal_strlit("signing_keys_upload");
    assert("account_keys_query_out_of_band"@.len() == 30);
    assert("signing_keys_upload"@.len() == 19);
    assert("keys_query"@.len() == 10);
    assert("keys_upload"@.len() == 11);
    assert("keys_claim"@.len() == 10);
    assert("keys_query"@[5] == 'q');
    assert("keys_upload"@[5] == 'u');
    assert("keys_claim"@[5] == 'c');
}

/// Once a batch has been handed out, the next one is what the machine offers and
/// nothing else.
pub proof fn law_the_next_batch_is_what_is_offered(
    r: Registry,
    offered: Seq<Waiting>,
    account: Seq<char>,
    next: Seq<Waiting>,
)
    ensures
        batch(after_take(r, offered, account), next, account) == unplaced(next, account),
{
    assert(batch(after_take(r, offered, account), next, account) =~= unplaced(next, account));
}

/// Once a batch has been handed out nothing waits, so that asking again with
/// nothing new on offer hands out nothing and changes nothing.
pub proof fn law_asking_again_hands_out_nothing(
    r: Registry,
    offered: Seq<Waiting>,
    account: Seq<char>,
)
    ensures
        handed_out(after_take(r, offered, account), seq![], account).len() == 0,
        after_take(after_take(r, offered, account), seq![], account) == after_take(
            r,
            offered,
            account,
        ),
{
    let after = after_take(r, offered, account);
    let none: Seq<Waiting> = seq![];
    assert(batch(after, none, account) =~= Seq::<Fresh>::empty());
    let list = handed_out(after, none, account);
    lemma_in_order_keeps(stamped(batch(after, none, account), after.pending, after.next_sequence as int));
    assert(list.len() == 0);
    assert(kinds(list) =~= Seq::<PendingKind>::empty());
    assert(unsuperseded(after.pending, kinds(list)) =~= after.pending);
    assert(after_take(after, none, account).pending =~= after.pending);
}

/// How often an identifier is listed.
pub open spec fn times(ids: Seq<Seq<char>>, id: Seq<char>) -> nat
    decreases ids.len(),
{
    if ids.len() == 0 {
        0
    } else {
        times(ids.drop_last(), id) + (if ids.last() == id {
            1nat
        } else {
            0nat
        })
    }
}

/// The identifiers of requests that are handed out.
pub open spec fn ids_out(list: Seq<Stamped>) -> Seq<Seq<char>> {
    list.map_values(|r: Stamped| r.id)
}

/// The identifiers of requests that wait.
pub open spec fn ids_waiting(list: Seq<Waiting>) -> Seq<Seq<char>> {
    list.map_values(|w: Waiting| w.id)
}

/// The identifiers of requests that wait with their places.
pub open spec fn ids_placed(list: Seq<(u64, Waiting)>) -> Seq<Seq<char>> {
    list.map_values(|w: (u64, Waiting)| w.1.id)
}

/// The identifiers of a batch.
spec fn ids_in_batch(list: Seq<Fresh>) -> Seq<Seq<char>> {
    list.map_values(|f: Fresh| f.id)
}

proof fn lemma_times_add(a: Seq<Seq<char>>, b: Seq<Seq<char>>, id: Seq<char>)
    ensures
        times(a + b, id) == times(a, id) + times(b, id),
    decreases b.len(),
{
    if b.len() == 0 {
        assert(a + b =~= a);
    } else {
        assert((a + b).drop_last() =~= a + b.drop_last());
        lemma_times_add(a, b.drop_last(), id);
    }
}

proof fn lemma_times_put(list: Seq<Stamped>, request: Stamped, id: Seq<char>)
    ensures
        times(ids_out(put(list, request)), id) == times(ids_out(list), id) + (if request.id == id {
            1nat
        } else {
            0nat
        }),
    decreases list.len(),
{
    let after = put(list, request);
    if list.len() == 0 || list.last().sequence <= request.sequence {
        assert(ids_out(after).drop_last() =~= ids_out(list));
    } else {
        let shorter = list.drop_last();
        lemma_times_put(shorter, request, id);
        assert(ids_out(after).drop_last() =~= ids_out(put(shorter, request)));
        assert(ids_out(list).drop_last() =~= ids_out(shorter));
    }
}

proof fn lemma_times_in_order(list: Seq<Stamped>, id: Seq<char>)
    ensures
        times(ids_out(in_order(list)), id) == times(ids_out(list), id),
    decreases list.len(),
{
    if list.len() > 0 {
        let shorter = list.drop_last();
        lemma_times_in_order(shorter, id);
        lemma_times_put(in_order(shorter), list.last(), id);
        assert(ids_out(list).drop_last() =~= ids_out(shorter));
    }
}

/// How often an identifier waits in another place than among the to-device
/// messages.
pub open spec fn times_beside_messages(r: Registry, offered: Seq<Waiting>, id: Seq<char>) -> nat {
    times(ids_waiting(offered), id) + times(ids_waiting(at_most_one(r.claim)), id) + times(
        ids_placed(at_most_one(r.account_query)),
        id,
    ) + times(ids_placed(at_most_one(r.signing_keys)), id) + times(
        ids_waiting(r.peer_queries),
        id,
    ) + times(ids_placed(r.actions), id)
}

/// A batch hands an identifier out as often as it is offered and waits.
pub proof fn law_requests_go_out_as_often_as_they_wait(
    r: Registry,
    offered: Seq<Waiting>,
    account: Seq<char>,
    id: Seq<char>,
)
    ensures
        times(ids_out(handed_out(r, offered, account)), id) == times(ids_waiting(r.to_device), id)
            + times_beside_messages(r, offered, id),
{
    let items = batch(r, offered, account);
    let list = stamped(items, r.pending, r.next_sequence as int);
    lemma_times_in_order(list, id);
    let offers = ids_waiting(offered);
    let messages = ids_waiting(r.to_device);
    let claim = ids_waiting(at_most_one(r.claim));
    let query = ids_placed(at_most_one(r.account_query));
    let keys = ids_placed(at_most_one(r.signing_keys));
    let peers = ids_waiting(r.peer_queries);
    let actions = ids_placed(r.actions);
    assert(ids_out(list) =~= ids_in_batch(items));
    assert(ids_in_batch(items) =~= offers + messages + claim + query + keys + peers + actions);
    lemma_times_add(offers + messages + claim + query + keys + peers, actions, id);
    lemma_times_add(offers + messages + claim + query + keys, peers, id);
    lemma_times_add(offers + messages + claim + query, keys, id);
    lemma_times_add(offers + messages + claim, query, id);
    lemma_times_add(offers + messages, claim, id);
    lemma_times_add(offers, messages, id);
}

proof fn lemma_times_of_distinct(ids: Seq<Seq<char>>, at: int)
    requires
        0 <= at < ids.len(),
        forall|i: int, j: int| 0 <= i < j < ids.len() ==> #[trigger] ids[i] != #[trigger] ids[j],
    ensures
        times(ids, ids[at]) == 1,
    decreases ids.len(),
{
    let shorter = ids.drop_last();
    assert forall|i: int, j: int| 0 <= i < j < shorter.len() implies #[trigger] shorter[i]
        != #[trigger] shorter[j] by {
        assert(ids[i] != ids[j]);
    }
    if at < shorter.len() {
        lemma_times_of_distinct(shorter, at);
        assert(ids[at] != ids[ids.len() - 1]);
    } else {
        lemma_times_of_none(shorter, ids[at]);
    }
}

proof fn lemma_times_of_none(ids: Seq<Seq<char>>, id: Seq<char>)
    requires
        forall|i: int| 0 <= i < ids.len() ==> #[trigger] ids[i] != id,
    ensures
        times(ids, id) == 0,
    decreases ids.len(),
{
    if ids.len() > 0 {
        let shorter = ids.drop_last();
        assert forall|i: int| 0 <= i < shorter.len() implies #[trigger] shorter[i] != id by {
            assert(ids[i] != id);
        }
        lemma_times_of_none(shorter, id);
        assert(ids[ids.len() - 1] != id);
    }
}

/// A list kept by identifier lists an identifier that it has once.
proof fn lemma_filed_once(list: Seq<Waiting>, id: Seq<char>)
    requires
        by_identifier(list),
        ids_waiting(list).contains(id),
    ensures
        times(ids_waiting(list), id) == 1,
{
    let ids = ids_waiting(list);
    assert forall|i: int, j: int| 0 <= i < j < ids.len() implies #[trigger] ids[i]
        != #[trigger] ids[j] by {
        assert(list[i].id == ids[i] && list[j].id == ids[j]);
        lemma_before_irreflexive(ids[i]);
    }
    let at = choose|i: int| 0 <= i < ids.len() && ids[i] == id;
    lemma_times_of_distinct(ids, at);
}

/// Filing a message takes no identifier away, and adds the message's own.
pub(crate) proof fn lemma_filed_keeps_ids(list: Seq<Waiting>, message: Waiting, id: Seq<char>)
    requires
        ids_waiting(list).contains(id) || message.id == id,
    ensures
        ids_waiting(filed(list, message)).contains(id),
    decreases list.len(),
{
    let after = filed(list, message);
    let ids = ids_waiting(after);
    if list.len() == 0 {
        assert(ids[0] == message.id);
    } else if list.last().id == message.id {
        assert(ids[ids.len() - 1] == message.id);
        if id != message.id {
            let at = choose|i: int| 0 <= i < list.len() && ids_waiting(list)[i] == id;
            assert(list[at].id == id);
            assert(ids[at] == id);
        }
    } else if text_before(message.id, list.last().id) {
        let shorter = list.drop_last();
        if list.last().id == id {
            assert(ids[ids.len() - 1] == id);
        } else {
            if message.id != id {
                let at = choose|i: int| 0 <= i < list.len() && ids_waiting(list)[i] == id;
                assert(list[at].id == id);
                assert(ids_waiting(shorter)[at] == id);
            }
            lemma_filed_keeps_ids(shorter, message, id);
            let below = ids_waiting(filed(shorter, message));
            let at = choose|i: int| 0 <= i < below.len() && below[i] == id;
            assert(ids[at] == below[at]);
        }
    } else if message.id == id {
        assert(ids[list.len() as int] == id);
    } else {
        let at = choose|i: int| 0 <= i < list.len() && ids_waiting(list)[i] == id;
        assert(ids[at] == ids_waiting(list)[at]);
    }
}

/// Whether a message goes by the identifier.
pub open spec fn has_message(messages: Seq<ToDeviceMessage>, id: Seq<char>) -> bool {
    exists|i: int| 0 <= i < messages.len() && (#[trigger] messages[i]).id@ == id
}

pub(crate) proof fn lemma_all_filed(list: Seq<Waiting>, messages: Seq<ToDeviceMessage>, id: Seq<char>)
    requires
        by_identifier(list),
    ensures
        by_identifier(all_filed(list, messages)),
        ids_waiting(list).contains(id) || has_message(messages, id) ==> ids_waiting(
            all_filed(list, messages),
        ).contains(id),
    decreases messages.len(),
{
    if messages.len() > 0 {
        let shorter = messages.drop_last();
        let message = waiting_message(messages.last());
        lemma_all_filed(list, shorter, id);
        lemma_filed_in_order(all_filed(list, shorter), message);
        if ids_waiting(list).contains(id) || has_message(messages, id) {
            if has_message(messages, id) && message.id != id {
                let at = choose|i: int|
                    0 <= i < messages.len() && (#[trigger] messages[i]).id@ == id;
                assert(shorter[at].id@ == id);
            }
            lemma_filed_keeps_ids(all_filed(list, shorter), message, id);
        }
    }
}

/// The messages of a share that came to an end.
pub open spec fn shared_messages(outcome: ShareOutcome) -> Seq<ToDeviceMessage> {
    outcome.shared->Done_0@
}

/// Sharing a scope's key again, before the messages of the first time have been
/// handed out, does not repeat them: the next batch hands out each message of
/// either time once, unless something else goes by its identifier.
pub proof fn law_sharing_again_repeats_nothing(
    r: Registry,
    first: ShareOutcome,
    second: ShareOutcome,
    offered: Seq<Waiting>,
    account: Seq<char>,
    id: Seq<char>,
)
    requires
        consistent(r),
        first.missing is Done && first.shared is Done,
        second.missing is Done && second.shared is Done,
        has_message(shared_messages(first), id) || has_message(shared_messages(second), id),
        times_beside_messages(after_share(after_share(r, first), second), offered, id) == 0,
    ensures
        times(
            ids_out(handed_out(after_share(after_share(r, first), second), offered, account)),
            id,
        ) == 1,
{
    let once = after_share(r, first);
    let twice = after_share(once, second);
    lemma_all_filed(r.to_device, shared_messages(first), id);
    lemma_all_filed(once.to_device, shared_messages(second), id);
    lemma_filed_once(twice.to_device, id);
    law_requests_go_out_as_often_as_they_wait(twice, offered, account, id);
}

/// An action that is queued goes out once in the next batch, with the place that it
/// was queued with and the body that it had then, unless something else goes by
/// its identifier.
pub proof fn law_a_queued_action_goes_out_once(
    r: Registry,
    offered: Seq<Waiting>,
    account: Seq<char>,
    at: int,
)
    requires
        consistent(r),
        0 <= at < r.actions.len(),
        times(ids_waiting(r.to_device), r.actions[at].1.id) == 0,
        times_beside_messages(r, offered, r.actions[at].1.id) == times(
            ids_placed(r.actions),
            r.actions[at].1.id,
        ),
    ensures
        times(ids_out(handed_out(r, offered, account)), r.actions[at].1.id) == 1,
        handed_out(r, offered, account).contains(
            (Stamped {
                sequence: r.actions[at].0,
                id: r.actions[at].1.id,
                kind: scoped(r.actions[at].1.kind, r.actions[at].1.users, account),
                body: r.actions[at].1.body->0,
            }),
        ),
{
    broadcast use vstd::seq_lib::group_to_multiset_ensures;

    let action = r.actions[at].1;
    let ids = ids_placed(r.actions);
    assert forall|i: int, j: int| 0 <= i < j < ids.len() implies #[trigger] ids[i]
        != #[trigger] ids[j] by {
        assert(r.actions[i].1.id == ids[i] && r.actions[j].1.id == ids[j]);
    }
    assert(ids[at] == action.id);
    lemma_times_of_distinct(ids, at);
    law_requests_go_out_as_often_as_they_wait(r, offered, account, action.id);
    let items = batch(r, offered, account);
    let list = stamped(items, r.pending, r.next_sequence as int);
    let k = items.len() - r.actions.len() + at;
    assert(items[k] == placed(r.actions, account)[at]);
    assert(list[k].sequence == r.actions[at].0);
    law_in_order(list);
    assert(list.contains(list[k]));
    assert(in_order(list).to_multiset().contains(list[k]));
}

} // verus!
