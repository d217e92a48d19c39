//! The per-request cache of video view counts: one count per video id, each id once,
//! kept in the order in which the ids were first recorded.

use vstd::prelude::*;

use crate::text::str_eq;

verus! {

/// The map that a sequence of (id, count) entries denotes; later entries win.
pub open spec fn entries_to_map(entries: Seq<(Seq<char>, u64)>) -> Map<Seq<char>, u64>
    decreases entries.len(),
{
    if entries.len() == 0 {
        Map::empty()
    } else {
        entries_to_map(entries.drop_last()).insert(entries.last().0, entries.last().1)
    }
}

/// No id occurs twice among the entries.
pub open spec fn distinct_ids(entries: Seq<(Seq<char>, u64)>) -> bool {
    forall|i: int, j: int|
        0 <= i < j < entries.len() ==> #[trigger] entries[i].0 != #[trigger] entries[j].0
}

/// Video id to view count, as recorded while events are processed.
pub struct ViewCounts {
    ids: Vec<String>,
    counts: Vec<u64>,
}

impl ViewCounts {
    /// The recorded entries, in the order in which their ids were first recorded.
    pub closed spec fn entries(&self) -> Seq<(Seq<char>, u64)> {
        Seq::new(self.ids@.len(), |i: int| (self.ids@[i]@, self.counts@[i]))
    }

    #[verifier::type_invariant]
    closed spec fn well_formed(&self) -> bool {
        &&& self.ids@.len() == self.counts@.len()
        &&& distinct_ids(self.entries())
    }
}

impl View for ViewCounts {
    type V = Map<Seq<char>, u64>;

    open spec fn view(&self) -> Map<Seq<char>, u64> {
        entries_to_map(self.entries())
    }
}

/// Ids of the entries are exactly the keys of the denoted map, with their counts.
pub proof fn lemma_entries_to_map(entries: Seq<(Seq<char>, u64)>)
    requires
        distinct_ids(entries),
    ensures
        forall|k: Seq<char>| #[trigger]
            entries_to_map(entries).dom().contains(k) <==> exists|i: int|
                0 <= i < entries.len() && #[trigger] entries[i].0 == k,
        forall|i: int|
            0 <= i < entries.len() ==> #[trigger] entries_to_map(entries)[entries[i].0]
                == entries[i].1,
        entries_to_map(entries).dom().finite(),
        entries_to_map(entries).dom().len() == entries.len(),
    decreases entries.len(),
{
    if entries.len() > 0 {
        let init = entries.drop_last();
        assert(distinct_ids(init));
        lemma_entries_to_map(init);
        let last = entries.last();
        assert(!entries_to_map(init).dom().contains(last.0)) by {
            if entries_to_map(init).dom().contains(last.0) {
                let i = choose|i: int| 0 <= i < init.len() && #[trigger] init[i].0 == last.0;
                assert(entries[i].0 == entries[entries.len() - 1].0);
            }
        }
        assert forall|k: Seq<char>| #[trigger]
            entries_to_map(entries).dom().contains(k) implies exists|i: int|
                0 <= i < entries.len() && #[trigger] entries[i].0 == k by {
            if k != last.0 {
                let i = choose|i: int| 0 <= i < init.len() && #[trigger] init[i].0 == k;
                assert(entries[i].0 == k);
            } else {
                assert(entries[entries.len() - 1].0 == k);
            }
        }
        assert forall|k: Seq<char>|
            (exists|i: int| 0 <= i < entries.len() && #[trigger] entries[i].0 == k) implies
            #[trigger] entries_to_map(entries).dom().contains(k) by {
            let i = choose|i: int| 0 <= i < entries.len() && #[trigger] entries[i].0 == k;
            if i < entries.len() - 1 {
                assert(init[i].0 == k);
            }
        }
        assert forall|i: int| 0 <= i < entries.len() implies #[trigger] entries_to_map(
            entries,
        )[entries[i].0] == entries[i].1 by {
            if i < entries.len() - 1 {
                assert(init[i] == entries[i]);
                assert(entries[i].0 != last.0);
            }
        }
    }
}

/// Overwriting the count of an id that is present updates the denoted map at that id.
proof fn lemma_update_entry(entries: Seq<(Seq<char>, u64)>, i: int, count: u64)
    requires
        distinct_ids(entries),
        0 <= i < entries.len(),
    ensures
        entries_to_map(entries.update(i, (entries[i].0, count))) == entries_to_map(
            entries,
        ).insert(entries[i].0, count),
    decreases entries.len(),
{
    let updated = entries.update(i, (entries[i].0, count));
    let k = entries[i].0;
    if i == entries.len() - 1 {
        assert(updated.drop_last() == entries.drop_last());
        assert(entries_to_map(entries).insert(k, count) =~= entries_to_map(
            entries.drop_last(),
        ).insert(k, count));
    } else {
        let init = entries.drop_last();
        assert(distinct_ids(init));
        lemma_update_entry(init, i, count);
        assert(updated.drop_last() == init.update(i, (init[i].0, count)));
        let last = entries.last();
        assert(last.0 != k);
        assert(entries_to_map(updated) =~= entries_to_map(entries).insert(k, count));
    }
}

impl ViewCounts {
    /// An empty cache.
    pub fn new() -> (r: Self)
        ensures
            r.entries() == Seq::<(Seq<char>, u64)>::empty(),
            r@ == Map::<Seq<char>, u64>::empty(),
    {
        let r = ViewCounts { ids: Vec::new(), counts: Vec::new() };
        assert(r.entries() =~= Seq::<(Seq<char>, u64)>::empty());
        r
    }

    /// Number of distinct ids recorded.
    pub fn len(&self) -> (n: usize)
        ensures
            n == self.entries().len(),
            n == self@.len(),
    {
        proof {
            use_type_invariant(self);
            lemma_entries_to_map(self.entries());
        }
        self.ids.len()
    }

    /// Whether nothing is recorded.
    pub fn is_empty(&self) -> (b: bool)
        ensures
            b == (self.entries().len() == 0),
            b == self@.is_empty(),
    {
        proof {
            use_type_invariant(self);
            lemma_entries_to_map(self.entries());
            if self@.is_empty() {
                if self.entries().len() > 0 {
                    assert(self@.dom().contains(self.entries()[0].0));
                }
            } else {
                let k = self@.dom().choose();
                assert(self@.dom().contains(k));
            }
        }
        self.ids.len() == 0
    }

    /// The entry at position `i`.
    pub fn entry(&self, i: usize) -> (r: (&str, u64))
        requires
            i < self.entries().len(),
        ensures
            r.0@ == self.entries()[i as int].0,
            r.1 == self.entries()[i as int].1,
    {
        proof {
            use_type_invariant(self);
        }
        (self.ids[i].as_str(), self.counts[i])
    }

    /// Position of `id` among the entries, if recorded.
    fn position(&self, id: &str) -> (r: Option<usize>)
        ensures
            match r {
                Some(i) => i < self.entries().len() && self.entries()[i as int].0 == id@,
                None => forall|j: int|
                    0 <= j < self.entries().len() ==> #[trigger] self.entries()[j].0 != id@,
            },
    {
        proof {
            use_type_invariant(self);
        }
        let mut i: usize = 0;
        while i < self.ids.len()
            invariant
                i <= self.ids@.len(),
                self.ids@.len() == self.counts@.len(),
                forall|j: int| 0 <= j < i ==> #[trigger] self.entries()[j].0 != id@,
            decreases self.ids@.len() - i,
        {
            if str_eq(self.ids[i].as_str(), id) {
                return Some(i);
            }
            i = i + 1;
        }
        None
    }

    /// The count recorded for `id`.
    pub fn get(&self, id: &str) -> (r: Option<u64>)
        ensures
            r == (if self@.dom().contains(id@) {
                Some(self@[id@])
            } else {
                None
            }),
    {
        proof {
            use_type_invariant(self);
            lemma_entries_to_map(self.entries());
        }
        match self.position(id) {
            Some(i) => Some(self.counts[i]),
            None => None,
        }
    }

    /// Records `count` for `id`, replacing any count recorded before for it.
    pub fn insert(&mut self, id: String, count: u64)
        ensures
            final(self)@ == old(self)@.insert(id@, count),
            old(self)@.dom().contains(id@) ==> final(self).entries() == old(
                self,
            ).entries().map_values(|e: (Seq<char>, u64)| if e.0 == id@ {
                (e.0, count)
            } else {
                e
            }),
            !old(self)@.dom().contains(id@) ==> final(self).entries() == old(self).entries().push(
                (id@, count),
            ),
    {
        proof {
            use_type_invariant(&*self);
            lemma_entries_to_map(self.entries());
        }
        let found = self.position(id.as_str());
        let ghost before = self.entries();
        let mut taken = ViewCounts { ids: Vec::new(), counts: Vec::new() };
        proof {
            assert(taken.entries() =~= Seq::<(Seq<char>, u64)>::empty());
        }
        std::mem::swap(&mut taken, self);
        let ViewCounts { mut ids, mut counts } = taken;
        match found {
            Some(i) => {
                counts.set(i, count);
                proof {
                    let after = before.update(i as int, (before[i as int].0, count));
                    assert(Seq::new(ids@.len(), |j: int| (ids@[j]@, counts@[j])) =~= after);
                    assert(after =~= before.map_values(|e: (Seq<char>, u64)| if e.0 == id@ {
                        (e.0, count)
                    } else {
                        e
                    })) by {
                        assert forall|j: int| 0 <= j < before.len() && j != i implies before[j].0
                            != id@ by {
                            if j < i {
                                assert(before[j].0 != before[i as int].0);
                            } else {
                                assert(before[i as int].0 != before[j].0);
                            }
                        }
                    }
                    assert(distinct_ids(after)) by {
                        assert forall|a: int, b: int| 0 <= a < b < after.len() implies
                            #[trigger] after[a].0 != #[trigger] after[b].0 by {
                            assert(after[a].0 == before[a].0 && after[b].0 == before[b].0);
                        }
                    }
                    lemma_update_entry(before, i as int, count);
                }
                let updated = ViewCounts { ids, counts };
                *self = updated;
            },
            None => {
                let ghost key = id@;
                ids.push(id);
                counts.push(count);
                proof {
                    let after = before.push((key, count));
                    assert(Seq::new(ids@.len(), |j: int| (ids@[j]@, counts@[j])) =~= after);
                    assert(distinct_ids(after)) by {
                        assert forall|a: int, b: int| 0 <= a < b < after.len() implies
                            #[trigger] after[a].0 != #[trigger] after[b].0 by {
                            if b < before.len() {
                                assert(after[a].0 == before[a].0 && after[b].0 == before[b].0);
                            } else {
                                assert(after[a].0 == before[a].0);
                            }
                        }
                    }
                    assert(after.drop_last() == before);
                }
                let updated = ViewCounts { ids, counts };
                *self = updated;
            },
        }
    }
}

/// A count recorded for an id is what reading that id gives afterwards, and every other
/// id reads as it did before.
pub proof fn law_recorded_count_reads_back(
    before: ViewCounts,
    after: ViewCounts,
    id: Seq<char>,
    count: u64,
    other: Seq<char>,
)
    requires
        after@ == before@.insert(id, count),
    ensures
        after@.dom().contains(id),
        after@[id] == count,
        other != id ==> after@.dom().contains(other) == before@.dom().contains(other),
        other != id && before@.dom().contains(other) ==> after@[other] == before@[other],
{
}

/// Recording the same id twice keeps only the later count.
pub proof fn law_later_count_wins(m: Map<Seq<char>, u64>, id: Seq<char>, first: u64, second: u64)
    ensures
        m.insert(id, first).insert(id, second) == m.insert(id, second),
{
    assert(m.insert(id, first).insert(id, second) =~= m.insert(id, second));
}

} // verus!
