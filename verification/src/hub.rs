//! The broadcast hub: a single-producer, multi-consumer distribution
//! point. Every live subscriber owns a bounded buffer; publishing
//! delivers a copy of the record to each buffer and never blocks on a
//! slow subscriber. When a buffer is saturated its oldest unread record
//! is dropped for that subscriber alone, and its drop counter grows.
use crate::records::Message;
use vstd::prelude::*;

verus! {

/// One live subscriber: its session id, its buffered records (oldest
/// first), and how many records it has lost to saturation.
pub struct Subscriber {
    pub id: u16,
    pub queue: Vec<Message>,
    pub dropped: u64,
}

/// The mathematical state of one subscriber.
pub ghost struct SubView {
    pub id: int,
    pub queue: Seq<Message>,
    pub dropped: int,
}

impl View for Subscriber {
    type V = SubView;

    open spec fn view(&self) -> SubView {
        SubView { id: self.id as int, queue: self.queue@, dropped: self.dropped as int }
    }
}

/// The mathematical state of the hub: its buffer capacity and the
/// subscribers in subscription order.
pub ghost struct HubView {
    pub capacity: int,
    pub subs: Seq<SubView>,
}

/// A counter that sticks at its maximum instead of wrapping.
pub open spec fn sat_inc(d: int) -> int {
    if d < u64::MAX {
        d + 1
    } else {
        d
    }
}

/// What one delivery does to one subscriber: append the record if there
/// is room, else drop that subscriber's oldest buffered record to make
/// room and count the loss.
pub open spec fn deliver_sub(s: SubView, m: Message, cap: int) -> SubView {
    if s.queue.len() < cap {
        SubView { id: s.id, queue: s.queue.push(m), dropped: s.dropped }
    } else {
        SubView {
            id: s.id,
            queue: s.queue.subrange(1, s.queue.len() as int).push(m),
            dropped: sat_inc(s.dropped),
        }
    }
}

/// What one publish does to the whole subscriber set: every subscriber
/// is updated from its own state alone.
pub open spec fn deliver_all(subs: Seq<SubView>, m: Message, cap: int) -> Seq<SubView> {
    Seq::new(subs.len(), |i: int| deliver_sub(subs[i], m, cap))
}

/// Whether some live subscriber carries this id.
pub open spec fn has_sub(subs: Seq<SubView>, id: int) -> bool {
    exists|i: int| 0 <= i < subs.len() && subs[i].id == id
}

/// The position of the subscriber that carries this id.
pub open spec fn sub_index(subs: Seq<SubView>, id: int) -> int {
    choose|i: int| 0 <= i < subs.len() && subs[i].id == id
}

/// Whether no two subscribers share an id.
pub open spec fn distinct_ids(subs: Seq<SubView>) -> bool {
    forall|i: int, j: int|
        0 <= i < subs.len() && 0 <= j < subs.len() && i != j ==> subs[i].id != subs[j].id
}

/// A single-producer, multi-consumer distribution point with bounded
/// per-subscriber buffers.
pub struct BroadcastHub {
    capacity: usize,
    subs: Vec<Subscriber>,
}

impl View for BroadcastHub {
    type V = HubView;

    closed spec fn view(&self) -> HubView {
        HubView {
            capacity: self.capacity as int,
            subs: Seq::new(self.subs@.len(), |i: int| self.subs@[i]@),
        }
    }
}

impl BroadcastHub {
    /// The hub's invariant: a real capacity, no buffer beyond it, and
    /// ids unique among live subscribers.
    pub open spec fn wf(&self) -> bool {
        &&& self@.capacity >= 1
        &&& forall|i: int|
            0 <= i < self@.subs.len() ==> (#[trigger] self@.subs[i]).queue.len() <= self@.capacity
        &&& distinct_ids(self@.subs)
    }

    /// A hub with no subscribers and the given buffer capacity.
    pub fn new(capacity: usize) -> (r: BroadcastHub)
        requires
            capacity >= 1,
        ensures
            r.wf(),
            r@.capacity == capacity,
            r@.subs == Seq::<SubView>::empty(),
    {
        let r = BroadcastHub { capacity, subs: Vec::new() };
        proof {
            assert(r@.subs =~= Seq::<SubView>::empty());
        }
        r
    }

    /// The buffer capacity every subscriber gets.
    pub fn capacity(&self) -> (r: usize)
        ensures
            r == self@.capacity,
    {
        self.capacity
    }

    /// How many subscribers are live.
    pub fn subscriber_count(&self) -> (r: usize)
        ensures
            r == self@.subs.len(),
    {
        self.subs.len()
    }

    /// The position of the live subscriber with this id, if any.
    fn find(&self, id: u16) -> (r: Option<usize>)
        requires
            self.wf(),
        ensures
            match r {
                Some(i) => i < self@.subs.len() && self@.subs[i as int].id == id as int && has_sub(
                    self@.subs,
                    id as int,
                ) && i as int == sub_index(self@.subs, id as int),
                None => !has_sub(self@.subs, id as int),
            },
    {
        let n = self.subs.len();
        let mut i: usize = 0;
        while i < n
            invariant
                0 <= i <= n,
                n == self@.subs.len(),
                self.wf(),
                forall|j: int| 0 <= j < i ==> (#[trigger] self@.subs[j]).id != id as int,
            decreases n - i,
        {
            if self.subs[i].id == id {
                proof {
                    assert(self@.subs[i as int] == self.subs@[i as int]@);
                    assert(self@.subs[i as int].id == id as int);
                    assert(has_sub(self@.subs, id as int));
                    let w = sub_index(self@.subs, id as int);
                    assert(0 <= w < self@.subs.len() && self@.subs[w].id == id as int);
                    assert(w == i as int);
                }
                return Some(i);
            }
            i = i + 1;
        }
        None
    }

    /// Adds a subscriber with an empty buffer, unless the id is already
    /// live; ids must be unique among live subscribers.
    pub fn subscribe(&mut self, id: u16) -> (r: bool)
        requires
            old(self).wf(),
        ensures
            final(self).wf(),
            final(self)@.capacity == old(self)@.capacity,
            r == !has_sub(old(self)@.subs, id as int),
            r ==> final(self)@.subs == old(self)@.subs.push(
                SubView { id: id as int, queue: Seq::empty(), dropped: 0 },
            ),
            !r ==> *final(self) == *old(self),
    {
        match self.find(id) {
            Some(_) => false,
            None => {
                self.subs.push(Subscriber { id, queue: Vec::new(), dropped: 0 });
                proof {
                    assert(self@.subs =~= old(self)@.subs.push(
                        SubView { id: id as int, queue: Seq::empty(), dropped: 0 },
                    ));
                }
                true
            },
        }
    }

    /// Removes the subscriber with this id, releasing its buffer; every
    /// other subscriber is left untouched.
    pub fn unsubscribe(&mut self, id: u16) -> (r: bool)
        requires
            old(self).wf(),
        ensures
            final(self).wf(),
            final(self)@.capacity == old(self)@.capacity,
            r == has_sub(old(self)@.subs, id as int),
            r ==> final(self)@.subs == old(self)@.subs.remove(
                sub_index(old(self)@.subs, id as int),
            ),
            !r ==> *final(self) == *old(self),
            !has_sub(final(self)@.subs, id as int),
    {
        match self.find(id) {
            Some(i) => {
                let _ = self.subs.remove(i);
                proof {
                    assert(self@.subs =~= old(self)@.subs.remove(i as int));
                    assert forall|j: int|
                        0 <= j < self@.subs.len() implies (#[trigger] self@.subs[j]).id
                        != id as int by {
                        if j < i {
                            assert(self@.subs[j] == old(self)@.subs[j]);
                        } else {
                            assert(self@.subs[j] == old(self)@.subs[j + 1]);
                        }
                    }
                }
                true
            },
            None => false,
        }
    }

    /// Delivers a copy of the record to every live subscriber. Never
    /// fails and never blocks: a subscriber whose buffer is full loses
    /// only its own oldest buffered record; everyone else's buffer just
    /// grows by this record.
    pub fn publish(&mut self, m: &Message)
        requires
            old(self).wf(),
        ensures
            final(self).wf(),
            final(self)@.capacity == old(self)@.capacity,
            final(self)@.subs == deliver_all(old(self)@.subs, *m, old(self)@.capacity),
    {
        let n = self.subs.len();
        let cap = self.capacity;
        let mut i: usize = 0;
        while i < n
            invariant
                0 <= i <= n,
                n == self@.subs.len(),
                n == old(self)@.subs.len(),
                cap == self@.capacity,
                self@.capacity == old(self)@.capacity,
                self@.capacity >= 1,
                forall|j: int| i <= j < n ==> #[trigger] self@.subs[j] == old(self)@.subs[j],
                forall|j: int|
                    0 <= j < i ==> #[trigger] self@.subs[j] == deliver_sub(
                        old(self)@.subs[j],
                        *m,
                        old(self)@.capacity,
                    ),
                old(self).wf(),
            decreases n - i,
        {
            let ghost before = self@.subs;
            let id = self.subs[i].id;
            let mut dropped = self.subs[i].dropped;
            let mut queue = crate::records::duplicate_all(&self.subs[i].queue);
            if queue.len() == cap {
                let _ = queue.remove(0);
                if dropped < u64::MAX {
                    dropped = dropped + 1;
                }
            }
            queue.push(m.duplicate());
            self.subs[i] = Subscriber { id, queue, dropped };
            proof {
                assert(before[i as int] == old(self)@.subs[i as int]);
                assert(self.subs@[i as int]@ == deliver_sub(before[i as int], *m, cap as int)) by {
                    assert(before[i as int].queue.subrange(
                        1,
                        before[i as int].queue.len() as int,
                    ) =~= before[i as int].queue.remove(0));
                }
                assert forall|j: int| 0 <= j < n && j != i implies #[trigger] self@.subs[j]
                    == before[j] by {
                    assert(self.subs@[j]@ == before[j]);
                }
                assert(self@.subs[i as int] == deliver_sub(
                    old(self)@.subs[i as int],
                    *m,
                    cap as int,
                ));
            }
            i = i + 1;
        }
        proof {
            assert(self@.subs =~= deliver_all(old(self)@.subs, *m, old(self)@.capacity));
        }
    }

    /// How many records are buffered for this subscriber, if it is live.
    pub fn buffered_len(&self, id: u16) -> (r: Option<usize>)
        requires
            self.wf(),
        ensures
            !has_sub(self@.subs, id as int) ==> r is None,
            has_sub(self@.subs, id as int) ==> (r matches Some(n) && n as int == self@.subs[
                sub_index(self@.subs, id as int)
            ].queue.len()),
    {
        match self.find(id) {
            Some(i) => Some(self.subs[i].queue.len()),
            None => None,
        }
    }

    /// How many records this subscriber has lost to saturation, if it is
    /// live.
    pub fn dropped_count(&self, id: u16) -> (r: Option<u64>)
        requires
            self.wf(),
        ensures
            !has_sub(self@.subs, id as int) ==> r is None,
            has_sub(self@.subs, id as int) ==> (r matches Some(d) && d as int == self@.subs[
                sub_index(self@.subs, id as int)
            ].dropped),
    {
        match self.find(id) {
            Some(i) => Some(self.subs[i].dropped),
            None => None,
        }
    }

    /// Hands out the oldest buffered record for this subscriber, if the
    /// id is live and its buffer is not empty; no other subscriber is
    /// touched.
    pub fn receive(&mut self, id: u16) -> (r: Option<Message>)
        requires
            old(self).wf(),
        ensures
            final(self).wf(),
            final(self)@.capacity == old(self)@.capacity,
            !has_sub(old(self)@.subs, id as int) ==> r is None && *final(self) == *old(self),
            has_sub(old(self)@.subs, id as int) ==> {
                let i = sub_index(old(self)@.subs, id as int);
                if old(self)@.subs[i].queue.len() == 0 {
                    r is None && *final(self) == *old(self)
                } else {
                    &&& r == Some(old(self)@.subs[i].queue[0])
                    &&& final(self)@.subs == old(self)@.subs.update(
                        i,
                        SubView {
                            id: old(self)@.subs[i].id,
                            queue: old(self)@.subs[i].queue.subrange(
                                1,
                                old(self)@.subs[i].queue.len() as int,
                            ),
                            dropped: old(self)@.subs[i].dropped,
                        },
                    )
                }
            },
    {
        match self.find(id) {
            Some(i) => {
                if self.subs[i].queue.len() == 0 {
                    None
                } else {
                    let ghost before = self@.subs;
                    let id2 = self.subs[i].id;
                    let dropped = self.subs[i].dropped;
                    let mut queue = crate::records::duplicate_all(&self.subs[i].queue);
                    let m = queue.remove(0);
                    self.subs[i] = Subscriber { id: id2, queue, dropped };
                    proof {
                        assert(self.subs@[i as int]@.queue =~= before[i as int].queue.subrange(
                            1,
                            before[i as int].queue.len() as int,
                        ));
                        assert forall|j: int|
                            0 <= j < self@.subs.len() && j != i implies #[trigger] self@.subs[j]
                            == before[j] by {
                            assert(self.subs@[j]@ == before[j]);
                        }
                        assert(self@.subs =~= before.update(
                            i as int,
                            SubView {
                                id: before[i as int].id,
                                queue: before[i as int].queue.subrange(
                                    1,
                                    before[i as int].queue.len() as int,
                                ),
                                dropped: before[i as int].dropped,
                            },
                        ));
                    }
                    Some(m)
                }
            },
            None => None,
        }
    }
}

/// What publishing a whole batch, first record first, does to the
/// subscriber set.
pub open spec fn publish_seq(subs: Seq<SubView>, msgs: Seq<Message>, cap: int) -> Seq<SubView>
    decreases msgs.len(),
{
    if msgs.len() == 0 {
        subs
    } else {
        deliver_all(publish_seq(subs, msgs.drop_last(), cap), msgs.last(), cap)
    }
}

/// Publishing a batch touches neither the number of subscribers nor
/// their ids.
pub proof fn lemma_publish_seq_frame(subs: Seq<SubView>, msgs: Seq<Message>, cap: int)
    ensures
        publish_seq(subs, msgs, cap).len() == subs.len(),
        forall|j: int|
            0 <= j < subs.len() ==> (#[trigger] publish_seq(subs, msgs, cap)[j]).id == subs[j].id,
    decreases msgs.len(),
{
    if msgs.len() > 0 {
        lemma_publish_seq_frame(subs, msgs.drop_last(), cap);
    }
}

/// Order preservation: a subscriber with room for a whole batch observes
/// exactly that batch, appended behind its buffer in publish order,
/// whatever happens to every other subscriber.
pub proof fn lemma_order_preserved(subs: Seq<SubView>, msgs: Seq<Message>, cap: int, j: int)
    requires
        0 <= j < subs.len(),
        subs[j].queue.len() + msgs.len() <= cap,
    ensures
        publish_seq(subs, msgs, cap)[j].queue == subs[j].queue + msgs,
        publish_seq(subs, msgs, cap)[j].id == subs[j].id,
        publish_seq(subs, msgs, cap)[j].dropped == subs[j].dropped,
    decreases msgs.len(),
{
    if msgs.len() == 0 {
        assert(subs[j].queue + msgs =~= subs[j].queue);
    } else {
        lemma_order_preserved(subs, msgs.drop_last(), cap, j);
        lemma_publish_seq_frame(subs, msgs.drop_last(), cap);
        assert((subs[j].queue + msgs.drop_last()).push(msgs.last()) =~= subs[j].queue + msgs);
    }
}

/// The tail a bounded buffer keeps of a record sequence: all of it when
/// it fits, else the newest `cap` records.
pub open spec fn newest_of(all: Seq<Message>, cap: int) -> Seq<Message> {
    if all.len() <= cap {
        all
    } else {
        all.subrange(all.len() - cap, all.len() as int)
    }
}

/// Publishing a whole batch to a subscriber that never reads drops only
/// that subscriber's own oldest records: afterwards its buffer holds
/// exactly the newest `cap` records of its old buffer followed by the
/// batch, still in publish order — however large the batch. Together with
/// `lemma_order_preserved` this is fan-out isolation for a whole cycle:
/// the batch is delivered to every subscriber, and a lagging one loses
/// nothing but its own oldest records.
pub proof fn lemma_batch_keeps_newest(subs: Seq<SubView>, msgs: Seq<Message>, cap: int, j: int)
    requires
        0 <= j < subs.len(),
        cap >= 1,
        subs[j].queue.len() <= cap,
    ensures
        publish_seq(subs, msgs, cap)[j].id == subs[j].id,
        publish_seq(subs, msgs, cap)[j].queue == newest_of(subs[j].queue + msgs, cap),
    decreases msgs.len(),
{
    let all = subs[j].queue + msgs;
    if msgs.len() == 0 {
        assert(all =~= subs[j].queue);
    } else {
        lemma_batch_keeps_newest(subs, msgs.drop_last(), cap, j);
        lemma_publish_seq_frame(subs, msgs.drop_last(), cap);
        let all0 = subs[j].queue + msgs.drop_last();
        let prev = publish_seq(subs, msgs.drop_last(), cap)[j];
        let now = publish_seq(subs, msgs, cap)[j];
        assert(now == deliver_sub(prev, msgs.last(), cap));
        assert(all =~= all0.push(msgs.last()));
        if all0.len() < cap {
            assert(now.queue =~= newest_of(all, cap));
        } else if all0.len() == cap {
            assert(prev.queue == all0);
            assert(now.queue == all0.subrange(1, cap).push(msgs.last()));
            assert(now.queue =~= all.subrange(all.len() - cap, all.len() as int));
        } else {
            assert(prev.queue == all0.subrange(all0.len() - cap, all0.len() as int));
            assert(now.queue == prev.queue.subrange(1, cap).push(msgs.last()));
            assert(now.queue =~= all.subrange(all.len() - cap, all.len() as int));
        }
    }
}

/// Fan-out isolation: one publish updates each subscriber from its own
/// state alone. A subscriber with room in its buffer receives the record
/// whatever the state of every other subscriber, and a saturated
/// subscriber loses only its own oldest buffered record.
pub proof fn lemma_fanout_isolation(subs: Seq<SubView>, m: Message, cap: int, j: int)
    requires
        0 <= j < subs.len(),
    ensures
        deliver_all(subs, m, cap).len() == subs.len(),
        deliver_all(subs, m, cap)[j] == deliver_sub(subs[j], m, cap),
        subs[j].queue.len() < cap ==> deliver_all(subs, m, cap)[j].queue == subs[j].queue.push(m),
        subs[j].queue.len() >= cap ==> deliver_all(subs, m, cap)[j].queue == subs[j].queue.subrange(
            1,
            subs[j].queue.len() as int,
        ).push(m),
{
}

/// Session teardown is isolated: removing one subscriber leaves every
/// other subscriber present with its buffer untouched, and no subscriber
/// with the removed id stays behind.
pub proof fn lemma_teardown_isolation(subs: Seq<SubView>, i: int, other: int)
    requires
        distinct_ids(subs),
        0 <= i < subs.len(),
        0 <= other < subs.len(),
        other != i,
    ensures
        subs.remove(i).len() == subs.len() - 1,
        has_sub(subs.remove(i), subs[other].id),
        subs.remove(i)[sub_index(subs.remove(i), subs[other].id)] == subs[other],
        !has_sub(subs.remove(i), subs[i].id),
{
    let rest = subs.remove(i);
    if other < i {
        assert(rest[other] == subs[other]);
    } else {
        assert(rest[other - 1] == subs[other]);
    }
    assert(has_sub(rest, subs[other].id));
    let w = sub_index(rest, subs[other].id);
    assert(0 <= w < rest.len() && rest[w].id == subs[other].id);
    assert forall|j: int| 0 <= j < rest.len() implies #[trigger] rest[j].id != subs[i].id by {
        if j < i {
            assert(rest[j] == subs[j]);
        } else {
            assert(rest[j] == subs[j + 1]);
        }
    }
    if w < i {
        assert(rest[w] == subs[w]);
        assert(subs[w] == subs[other]);
    } else {
        assert(rest[w] == subs[w + 1]);
        assert(subs[w + 1] == subs[other]);
    }
}

} // verus!
