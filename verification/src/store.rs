//! The deduplication store: every record ever accepted, in arrival order,
//! with an id index for membership tests. It never shrinks, and a record
//! id it holds is never accepted again.
use crate::records::Message;
use std::collections::HashSet;
use vstd::prelude::*;

verus! {

broadcast use vstd::std_specs::hash::group_hash_axioms;

/// The ids of a record sequence.
pub open spec fn seq_id_set(s: Seq<Message>) -> Set<i32>
    decreases s.len(),
{
    if s.len() == 0 {
        Set::empty()
    } else {
        seq_id_set(s.drop_last()).insert(s.last().id)
    }
}

/// The candidates whose ids are not yet known, in input order.
pub open spec fn novel_of(known: Set<i32>, cs: Seq<Message>) -> Seq<Message>
    decreases cs.len(),
{
    if cs.len() == 0 {
        Seq::empty()
    } else {
        let prefix = novel_of(known, cs.drop_last());
        if !known.contains(cs.last().id) {
            prefix.push(cs.last())
        } else {
            prefix
        }
    }
}

/// An id is in a sequence's id set exactly when some record carries it.
pub proof fn lemma_id_set_contains(s: Seq<Message>, id: i32)
    ensures
        seq_id_set(s).contains(id) <==> exists|i: int| 0 <= i < s.len() && s[i].id == id,
    decreases s.len(),
{
    if s.len() > 0 {
        lemma_id_set_contains(s.drop_last(), id);
        if seq_id_set(s).contains(id) {
            if s.last().id == id {
                assert(s[s.len() - 1].id == id);
            } else {
                let i = choose|i: int| 0 <= i < s.drop_last().len() && s.drop_last()[i].id == id;
                assert(s[i].id == id);
            }
        }
        if exists|i: int| 0 <= i < s.len() && s[i].id == id {
            let i = choose|i: int| 0 <= i < s.len() && s[i].id == id;
            if i < s.len() - 1 {
                assert(s.drop_last()[i].id == id);
            }
        }
    }
}

/// Every record a merge would return is one of the candidates, and its
/// id was not known before the call.
pub proof fn lemma_novel_records(known: Set<i32>, cs: Seq<Message>, i: int)
    requires
        0 <= i < novel_of(known, cs).len(),
    ensures
        !known.contains(novel_of(known, cs)[i].id),
        exists|j: int| 0 <= j < cs.len() && cs[j] == novel_of(known, cs)[i],
    decreases cs.len(),
{
    if cs.len() > 0 {
        let prefix = novel_of(known, cs.drop_last());
        if !known.contains(cs.last().id) && i == prefix.len() {
            assert(cs[cs.len() - 1] == novel_of(known, cs)[i]);
        } else {
            lemma_novel_records(known, cs.drop_last(), i);
            let j = choose|j: int|
                0 <= j < cs.drop_last().len() && cs.drop_last()[j] == prefix[i];
            assert(cs[j] == novel_of(known, cs)[i]);
        }
    }
}

/// A candidate whose id is not yet known appears among the novel records.
pub proof fn lemma_novel_covers(known: Set<i32>, cs: Seq<Message>, j: int)
    requires
        0 <= j < cs.len(),
        !known.contains(cs[j].id),
    ensures
        seq_id_set(novel_of(known, cs)).contains(cs[j].id),
    decreases cs.len(),
{
    let prefix = novel_of(known, cs.drop_last());
    if j == cs.len() - 1 {
        assert(novel_of(known, cs) == prefix.push(cs.last()));
        assert(novel_of(known, cs).drop_last() =~= prefix);
        assert(novel_of(known, cs).last() == cs.last());
    } else {
        assert(cs.drop_last()[j] == cs[j]);
        lemma_novel_covers(known, cs.drop_last(), j);
        if !known.contains(cs.last().id) {
            assert(novel_of(known, cs).drop_last() =~= prefix);
        }
    }
}

/// Novelty detection is idempotent across polls: a record id accepted by
/// one merge call (or already known at its time) is never returned by any
/// later merge, whatever that later call's candidates are. `k1` and `c1`
/// are the known set and candidates of the earlier call; `k2` is the known
/// set of the later call, which holds at least everything the earlier call
/// left known, since the store never shrinks.
pub proof fn lemma_id_published_at_most_once(
    k1: Set<i32>,
    c1: Seq<Message>,
    k2: Set<i32>,
    c2: Seq<Message>,
    i: int,
    j: int,
)
    requires
        k1.union(seq_id_set(c1)).subset_of(k2),
        0 <= i < c1.len(),
        0 <= j < novel_of(k2, c2).len(),
    ensures
        novel_of(k2, c2)[j].id != c1[i].id,
{
    lemma_id_set_contains(c1, c1[i].id);
    assert(k2.contains(c1[i].id));
    lemma_novel_records(k2, c2, j);
}

/// The set of record identifiers already accepted, in arrival order,
/// indexed by id.
pub struct DedupStore {
    records: Vec<Message>,
    index: HashSet<i32>,
}

impl DedupStore {
    /// The ids the store knows.
    pub closed spec fn known(&self) -> Set<i32> {
        self.index@
    }

    /// Every record ever accepted, oldest first.
    pub closed spec fn accepted(&self) -> Seq<Message> {
        self.records@
    }

    /// Borrows the accepted records, oldest first.
    pub fn records(&self) -> (r: &Vec<Message>)
        ensures
            r@ == self.accepted(),
    {
        &self.records
    }

    /// The id index and the record list always agree.
    pub open spec fn wf(&self) -> bool {
        self.known() == seq_id_set(self.accepted())
    }

    /// An empty store.
    pub fn new() -> (r: DedupStore)
        ensures
            r.wf(),
            r.accepted() == Seq::<Message>::empty(),
            r.known() == Set::<i32>::empty(),
    {
        DedupStore { records: Vec::new(), index: HashSet::new() }
    }

    /// Whether a record id has already been accepted.
    pub fn is_known(&self, id: i32) -> (r: bool)
        ensures
            r == self.known().contains(id),
    {
        self.index.contains(&id)
    }

    /// The number of records accepted so far.
    pub fn len(&self) -> (r: usize)
        ensures
            r == self.accepted().len(),
    {
        self.records.len()
    }

    /// Accepts the candidates that are genuinely new.
    ///
    /// Returns, in input order, exactly those candidates whose id was not
    /// known before the call, and appends them (and only them) to the
    /// store; afterwards every candidate id is known. The known set never
    /// shrinks.
    pub fn merge(&mut self, candidates: &Vec<Message>) -> (novel: Vec<Message>)
        requires
            old(self).wf(),
        ensures
            final(self).wf(),
            novel@ == novel_of(old(self).known(), candidates@),
            final(self).accepted() == old(self).accepted() + novel@,
            final(self).known() == old(self).known().union(seq_id_set(candidates@)),
            old(self).known().subset_of(final(self).known()),
    {
        let ghost known0 = self.known();
        let mut novel: Vec<Message> = Vec::new();
        let n = candidates.len();
        let mut i: usize = 0;
        while i < n
            invariant
                0 <= i <= n,
                n == candidates@.len(),
                *self == *old(self),
                old(self).wf(),
                known0 == old(self).known(),
                novel@ == novel_of(known0, candidates@.take(i as int)),
            decreases n - i,
        {
            let c = &candidates[i];
            proof {
                assert(candidates@.take(i + 1).drop_last() =~= candidates@.take(i as int));
                assert(candidates@.take(i + 1).last() == candidates@[i as int]);
            }
            if !self.index.contains(&c.id) {
                novel.push(c.duplicate());
            }
            i = i + 1;
        }
        proof {
            assert(candidates@.take(n as int) =~= candidates@);
        }

        let m = novel.len();
        let mut j: usize = 0;
        while j < m
            invariant
                0 <= j <= m,
                m == novel@.len(),
                novel@ == novel_of(known0, candidates@),
                self.records@ == old(self).records@ + novel@.take(j as int),
                self.known() == known0.union(seq_id_set(novel@.take(j as int))),
            decreases m - j,
        {
            proof {
                assert(novel@.take(j + 1).drop_last() =~= novel@.take(j as int));
                assert(novel@.take(j + 1).last() == novel@[j as int]);
            }
            let c = novel[j].duplicate();
            self.records.push(c);
            self.index.insert(novel[j].id);
            proof {
                assert(known0.union(seq_id_set(novel@.take(j as int))).insert(novel@[j as int].id)
                    =~= known0.union(seq_id_set(novel@.take(j + 1))));
                assert(self.records@ == old(self).records@ + novel@.take(j + 1));
            }
            j = j + 1;
        }
        proof {
            assert(novel@.take(m as int) =~= novel@);
            assert(old(self).records@ + novel@ == self.records@);
            lemma_merge_known(known0, candidates@, self.records@, old(self).records@, novel@);
        }
        novel
    }
}

/// After a merge, the known set is exactly the old one plus the candidate
/// ids, and it still matches the record list's ids.
proof fn lemma_merge_known(
    known0: Set<i32>,
    cs: Seq<Message>,
    records: Seq<Message>,
    records0: Seq<Message>,
    novel: Seq<Message>,
)
    requires
        known0 == seq_id_set(records0),
        novel == novel_of(known0, cs),
        records == records0 + novel,
    ensures
        known0.union(seq_id_set(novel)) == known0.union(seq_id_set(cs)),
        known0.union(seq_id_set(novel)) == seq_id_set(records),
{
    assert(known0.union(seq_id_set(novel)) =~= known0.union(seq_id_set(cs))) by {
        assert forall|id: i32| known0.union(seq_id_set(novel)).contains(id) implies known0.union(
            seq_id_set(cs),
        ).contains(id) by {
            if seq_id_set(novel).contains(id) {
                lemma_id_set_contains(novel, id);
                let i = choose|i: int| 0 <= i < novel.len() && novel[i].id == id;
                lemma_novel_records(known0, cs, i);
                let j = choose|j: int| 0 <= j < cs.len() && cs[j] == novel[i];
                lemma_id_set_contains(cs, id);
            }
        }
        assert forall|id: i32| known0.union(seq_id_set(cs)).contains(id) implies known0.union(
            seq_id_set(novel),
        ).contains(id) by {
            if !known0.contains(id) && seq_id_set(cs).contains(id) {
                lemma_id_set_contains(cs, id);
                let j = choose|j: int| 0 <= j < cs.len() && cs[j].id == id;
                lemma_novel_covers(known0, cs, j);
            }
        }
    }
    assert(known0.union(seq_id_set(novel)) =~= seq_id_set(records)) by {
        lemma_id_set_append(records0, novel);
    }
}

/// The ids of a concatenation are the union of the parts' ids.
proof fn lemma_id_set_append(a: Seq<Message>, b: Seq<Message>)
    ensures
        seq_id_set(a + b) == seq_id_set(a).union(seq_id_set(b)),
    decreases b.len(),
{
    if b.len() == 0 {
        assert(a + b =~= a);
        assert(seq_id_set(a).union(seq_id_set(b)) =~= seq_id_set(a));
    } else {
        assert((a + b).drop_last() =~= a + b.drop_last());
        assert((a + b).last() == b.last());
        lemma_id_set_append(a, b.drop_last());
        assert(seq_id_set(a).union(seq_id_set(b.drop_last())).insert(b.last().id) =~= seq_id_set(
            a,
        ).union(seq_id_set(b)));
    }
}

} // verus!
