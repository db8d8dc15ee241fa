//! The requests that have been handed out and not yet resolved.

use vstd::prelude::*;

use crate::requests::{group_of, PendingKind};
use crate::text::same_text;

verus! {

/// What is known of a request that was handed out: what it is, and the place it
/// was given in the order in which requests were produced.
#[derive(Clone, Copy, Debug, PartialEq, Eq, Structural)]
pub struct Pending {
    pub kind: PendingKind,
    pub sequence: u64,
}

/// One request of a [`Ledger`].
struct PendingEntry {
    id: String,
    pending: Pending,
}

/// The requests that have been handed out and not yet resolved, by identifier.
pub struct Ledger {
    entries: Vec<PendingEntry>,
}

/// Whether one of the kinds supersedes what is pending under `kind`: the two
/// share an eviction group.
pub open spec fn superseded(kind: PendingKind, kinds: Seq<PendingKind>) -> bool {
    group_of(kind) is Some && exists|i: int|
        0 <= i < kinds.len() && #[trigger] group_of(kinds[i]) == group_of(kind)
}

/// What is left of the pending requests when new requests of the given kinds go
/// out.
pub open spec fn unsuperseded(
    pending: Map<Seq<char>, Pending>,
    kinds: Seq<PendingKind>,
) -> Map<Seq<char>, Pending> {
    Map::new(
        |id: Seq<char>| pending.contains_key(id) && !superseded(pending[id].kind, kinds),
        |id: Seq<char>| pending[id],
    )
}

/// Whether some entry goes by the identifier.
spec fn listed(entries: Seq<PendingEntry>, id: Seq<char>) -> bool {
    exists|i: int| 0 <= i < entries.len() && (#[trigger] entries[i]).id@ == id
}

/// Where the identifier stands.
spec fn place(entries: Seq<PendingEntry>, id: Seq<char>) -> int {
    choose|i: int| 0 <= i < entries.len() && (#[trigger] entries[i]).id@ == id
}

impl View for Ledger {
    type V = Map<Seq<char>, Pending>;

    closed spec fn view(&self) -> Map<Seq<char>, Pending> {
        Map::new(
            |id: Seq<char>| listed(self.entries@, id),
            |id: Seq<char>| self.entries@[place(self.entries@, id)].pending,
        )
    }
}

impl Ledger {
    /// No identifier is listed twice.
    pub closed spec fn wf(self) -> bool {
        forall|i: int, j: int|
            0 <= i < j < self.entries@.len() ==> (#[trigger] self.entries@[i]).id@ != (
            #[trigger] self.entries@[j]).id@
    }

    /// A ledger with nothing in it.
    pub fn new() -> (ledger: Ledger)
        ensures
            ledger.wf(),
            ledger@ == Map::<Seq<char>, Pending>::empty(),
    {
        let ledger = Ledger { entries: Vec::new() };
        assert(ledger@ =~= Map::<Seq<char>, Pending>::empty());
        ledger
    }

    /// How many requests are pending.
    pub fn len(&self) -> (count: usize)
        requires
            self.wf(),
        ensures
            count == self@.len(),
            self@.dom().finite(),
    {
        proof {
            self.lemma_count(self.entries@.len() as int);
            assert(self.entries@.take(self.entries@.len() as int) =~= self.entries@);
            assert(self.ids(self.entries@.len() as int) =~= self@.dom());
        }
        self.entries.len()
    }

    /// The identifiers of the first `n` entries.
    spec fn ids(self, n: int) -> Set<Seq<char>> {
        Set::new(|id: Seq<char>| listed(self.entries@.take(n), id))
    }

    proof fn lemma_count(self, n: int)
        requires
            self.wf(),
            0 <= n <= self.entries@.len(),
        ensures
            self.ids(n).finite(),
            self.ids(n).len() == n,
        decreases n,
    {
        if n == 0 {
            assert(self.ids(0) =~= Set::empty());
        } else {
            self.lemma_count(n - 1);
            let last = self.entries@[n - 1].id@;
            let before = self.entries@.take(n - 1);
            let now = self.entries@.take(n);
            assert(!listed(before, last)) by {
                if listed(before, last) {
                    let i = place(before, last);
                    assert(self.entries@[i].id@ == self.entries@[n - 1].id@);
                }
            }
            assert(self.ids(n) =~= self.ids(n - 1).insert(last)) by {
                assert forall|id: Seq<char>| listed(now, id) == (listed(before, id) || id == last) by {
                    if listed(now, id) {
                        let i = place(now, id);
                        if i < n - 1 {
                            assert(before[i].id@ == id);
                        }
                    }
                    if listed(before, id) {
                        let i = place(before, id);
                        assert(now[i].id@ == id);
                    }
                    assert(now[n - 1].id@ == last);
                }
            }
        }
    }

    /// What an entry says is what the view says of its identifier.
    proof fn lemma_entry(self, i: int)
        requires
            self.wf(),
            0 <= i < self.entries@.len(),
        ensures
            self@.contains_key(self.entries@[i].id@),
            self@[self.entries@[i].id@] == self.entries@[i].pending,
    {
        let id = self.entries@[i].id@;
        assert(listed(self.entries@, id));
        let at = place(self.entries@, id);
        assert(self.entries@[at].id@ == self.entries@[i].id@);
        assert(at == i);
    }

    /// Where an identifier stands in the list.
    fn find(&self, id: &str) -> (at: Option<usize>)
        ensures
            match at {
                Some(at) => at < self.entries@.len() && self.entries@[at as int].id@ == id@,
                None => !self@.contains_key(id@),
            },
    {
        let mut i: usize = 0;
        while i < self.entries.len()
            invariant
                i <= self.entries@.len(),
                forall|j: int| 0 <= j < i ==> (#[trigger] self.entries@[j]).id@ != id@,
            decreases self.entries@.len() - i,
        {
            if same_text(self.entries[i].id.as_str(), id) {
                return Some(i);
            }
            i = i + 1;
        }
        None
    }

    /// What is pending under the identifier.
    pub fn get(&self, id: &str) -> (found: Option<Pending>)
        requires
            self.wf(),
        ensures
            match found {
                Some(pending) => self@.contains_key(id@) && self@[id@] == pending,
                None => !self@.contains_key(id@),
            },
    {
        match self.find(id) {
            Some(at) => {
                proof {
                    self.lemma_entry(at as int);
                }
                Some(self.entries[at].pending)
            },
            None => None,
        }
    }

    /// Records a request under its identifier, over whatever was recorded there.
    pub fn insert(&mut self, id: String, pending: Pending)
        requires
            old(self).wf(),
        ensures
            final(self).wf(),
            final(self)@ == old(self)@.insert(id@, pending),
    {
        let ghost before = *self;
        match self.find(id.as_str()) {
            Some(at) => {
                let entry = PendingEntry { id, pending };
                self.entries.set(at, entry);
                proof {
                    before.lemma_entry(at as int);
                    assert forall|k: Seq<char>|
                        listed(self.entries@, k) == listed(before.entries@, k) by {
                        if listed(before.entries@, k) {
                            let i = place(before.entries@, k);
                            assert(self.entries@[i].id@ == k);
                        }
                        if listed(self.entries@, k) {
                            let i = place(self.entries@, k);
                            assert(before.entries@[i].id@ == k);
                        }
                    }
                    assert forall|k: Seq<char>| #[trigger]
                        self@.contains_key(k) implies self@[k] == before@.insert(
                        id@,
                        pending,
                    )[k] by {
                        let i = place(self.entries@, k);
                        assert(before.entries@[i].id@ == k);
                        self.lemma_entry(i);
                        before.lemma_entry(i);
                        if i != at {
                            assert(before.entries@[i].id@ != before.entries@[at as int].id@);
                        }
                    }
                    assert(self@ =~= before@.insert(id@, pending));
                }
            },
            None => {
                self.entries.push(PendingEntry { id, pending });
                proof {
                    let n = before.entries@.len() as int;
                    assert forall|i: int| 0 <= i < n implies (#[trigger] self.entries@[i]).id@
                        != id@ by {
                        before.lemma_entry(i);
                    }
                    assert(self.wf());
                    assert forall|k: Seq<char>|
                        listed(self.entries@, k) == (listed(before.entries@, k) || k == id@) by {
                        if listed(before.entries@, k) {
                            let i = place(before.entries@, k);
                            assert(self.entries@[i].id@ == k);
                        }
                        assert(self.entries@[n].id@ == id@);
                        if listed(self.entries@, k) {
                            let i = place(self.entries@, k);
                            if i < n {
                                assert(before.entries@[i].id@ == k);
                            }
                        }
                    }
                    assert forall|k: Seq<char>| #[trigger]
                        self@.contains_key(k) implies self@[k] == before@.insert(
                        id@,
                        pending,
                    )[k] by {
                        let i = place(self.entries@, k);
                        self.lemma_entry(i);
                        if i < n {
                            assert(before.entries@[i].id@ == k);
                            before.lemma_entry(i);
                        }
                    }
                    assert(self@ =~= before@.insert(id@, pending));
                }
            },
        }
    }

    /// Forgets the request under the identifier.
    pub fn remove(&mut self, id: &str)
        requires
            old(self).wf(),
        ensures
            final(self).wf(),
            final(self)@ == old(self)@.remove(id@),
    {
        let ghost before = *self;
        match self.find(id) {
            Some(at) => {
                self.entries.remove(at);
                proof {
                    assert forall|i: int| 0 <= i < self.entries@.len() implies (
                    #[trigger] self.entries@[i]) == before.entries@[if i < at { i } else { i + 1 }] by {
                    }
                    assert(self.wf());
                    assert forall|k: Seq<char>|
                        listed(self.entries@, k) == (listed(before.entries@, k) && k != id@) by {
                        if listed(before.entries@, k) && k != id@ {
                            let i = place(before.entries@, k);
                            assert(i != at);
                            if i < at {
                                assert(self.entries@[i].id@ == k);
                            } else {
                                assert(self.entries@[i - 1].id@ == k);
                            }
                        }
                        if listed(self.entries@, k) {
                            let i = place(self.entries@, k);
                            let j = if i < at { i } else { i + 1 };
                            assert(before.entries@[j].id@ == k);
                            assert(before.entries@[j].id@ != before.entries@[at as int].id@);
                        }
                    }
                    assert forall|k: Seq<char>| #[trigger]
                        self@.contains_key(k) implies self@[k] == before@.remove(id@)[k] by {
                        let i = place(self.entries@, k);
                        let j = if i < at { i } else { i + 1 };
                        self.lemma_entry(i);
                        before.lemma_entry(j);
                        assert(self.entries@[i] == before.entries@[j]);
                    }
                    assert(self@ =~= before@.remove(id@));
                }
            },
            None => {
                assert(self@ =~= self@.remove(id@));
            },
        }
    }

    /// Whether a request of one of the kinds supersedes one of `kind`.
    fn is_superseded(kind: PendingKind, kinds: &Vec<PendingKind>) -> (answer: bool)
        ensures
            answer == superseded(kind, kinds@),
    {
        let group: &'static str = match kind.eviction_group() {
            Some(group) => group,
            None => {
                return false;
            },
        };
        let mut i: usize = 0;
        while i < kinds.len()
            invariant
                i <= kinds@.len(),
                group_of(kind) == Some(group@),
                forall|j: int| 0 <= j < i ==> #[trigger] group_of(kinds@[j]) != group_of(kind),
            decreases kinds@.len() - i,
        {
            if let Some(other) = kinds[i].eviction_group() {
                if same_text(other, group) {
                    assert(group_of(kinds@[i as int]) == group_of(kind));
                    return true;
                }
            }
            i = i + 1;
        }
        false
    }

    /// Forgets every request that new requests of the given kinds supersede.
    pub fn evict(&mut self, kinds: &Vec<PendingKind>)
        requires
            old(self).wf(),
        ensures
            final(self).wf(),
            final(self)@ == unsuperseded(old(self)@, kinds@),
    {
        let ghost before = *self;
        let mut kept: Vec<PendingEntry> = Vec::new();
        let mut i: usize = 0;
        while i < self.entries.len()
            invariant
                *self == before,
                before.wf(),
                i <= self.entries@.len(),
                forall|j: int, k: int|
                    0 <= j < k < kept@.len() ==> (#[trigger] kept@[j]).id@ != (
                    #[trigger] kept@[k]).id@,
                forall|j: int|
                    0 <= j < kept@.len() ==> kept_from(self.entries@, i as int, kinds@, #[trigger] kept@[j]),
                forall|j: int|
                    0 <= j < i && !superseded((#[trigger] self.entries@[j]).pending.kind, kinds@)
                        ==> listed(kept@, self.entries@[j].id@),
            decreases self.entries@.len() - i,
        {
            let ghost earlier = kept@;
            if !Self::is_superseded(self.entries[i].pending.kind, kinds) {
                kept.push(
                    PendingEntry {
                        id: self.entries[i].id.clone(),
                        pending: self.entries[i].pending,
                    },
                );
                assert(kept@.last() == self.entries@[i as int]);
                assert forall|j: int| 0 <= j < earlier.len() implies (#[trigger] kept@[j]).id@
                    != self.entries@[i as int].id@ by {
                    assert(kept_from(self.entries@, i as int, kinds@, earlier[j]));
                }
                assert forall|j: int|
                    0 <= j < i + 1 && !superseded((#[trigger] self.entries@[j]).pending.kind, kinds@) implies listed(
                kept@, self.entries@[j].id@) by {
                    if j < i {
                        let k = place(earlier, self.entries@[j].id@);
                        assert(kept@[k].id@ == self.entries@[j].id@);
                    } else {
                        assert(kept@[earlier.len() as int].id@ == self.entries@[j].id@);
                    }
                }
            }
            assert forall|j: int| 0 <= j < kept@.len() implies kept_from(
                self.entries@,
                i + 1,
                kinds@,
                #[trigger] kept@[j],
            ) by {
                if j < earlier.len() {
                    assert(kept_from(self.entries@, i as int, kinds@, earlier[j]));
                    let k = choose|k: int|
                        0 <= k < i && self.entries@[k] == earlier[j];
                    assert(self.entries@[k] == kept@[j]);
                } else {
                    assert(self.entries@[i as int] == kept@[j]);
                }
            }
            i = i + 1;
        }
        self.entries = kept;
        proof {
            let after = unsuperseded(before@, kinds@);
            assert forall|id: Seq<char>| listed(self.entries@, id) == after.contains_key(id) by {
                if listed(self.entries@, id) {
                    let j = place(self.entries@, id);
                    assert(kept_from(before.entries@, i as int, kinds@, self.entries@[j]));
                    let k = choose|k: int|
                        0 <= k < i && before.entries@[k] == self.entries@[j];
                    before.lemma_entry(k);
                }
                if after.contains_key(id) {
                    let k = place(before.entries@, id);
                    before.lemma_entry(k);
                }
            }
            assert forall|id: Seq<char>| #[trigger] self@.contains_key(id) implies self@[id]
                == after[id] by {
                let j = place(self.entries@, id);
                assert(kept_from(before.entries@, i as int, kinds@, self.entries@[j]));
                let k = choose|k: int| 0 <= k < i && before.entries@[k] == self.entries@[j];
                before.lemma_entry(k);
                self.lemma_entry(j);
            }
            assert(self@ =~= after);
        }
    }
}

/// Whether the entry is one of the first `n`, and not superseded.
spec fn kept_from(
    entries: Seq<PendingEntry>,
    n: int,
    kinds: Seq<PendingKind>,
    entry: PendingEntry,
) -> bool {
    !superseded(entry.pending.kind, kinds) && exists|k: int|
        0 <= k < n && #[trigger] entries[k] == entry
}

} // verus!
