//! The poll loop's decision core: one bootstrap-or-steady cycle, from a
//! fetch result to store updates and hub publishes.
//!
//! The loop around it performs the fetch, hands the result in, publishes
//! nothing itself, and sleeps the configured interval between cycles;
//! transient fetch failures skip a cycle and never end the loop.
use crate::client::SrError;
use crate::hub::publish_seq;
use crate::hub::BroadcastHub;
use crate::records::Sr;
use crate::store::novel_of;
use crate::store::seq_id_set;
use crate::store::DedupStore;
use vstd::prelude::*;

verus! {

/// How long to wait between poll cycles, in seconds.
pub struct SrPollOptions {
    sleep_duration: usize,
}

impl SrPollOptions {
    /// The configured interval, in seconds.
    pub closed spec fn interval(&self) -> int {
        self.sleep_duration as int
    }

    /// Options with the given interval in seconds.
    pub fn new(sleep_duration: usize) -> (r: SrPollOptions)
        ensures
            r.interval() == sleep_duration,
    {
        SrPollOptions { sleep_duration }
    }

    /// The configured interval, in seconds.
    pub fn sleep_duration(&self) -> (r: usize)
        ensures
            r == self.interval(),
    {
        self.sleep_duration
    }
}

/// Where the poller stands: seeding its baseline, or in steady cycles.
#[derive(Clone, Copy, Debug, PartialEq, Eq, Structural)]
pub enum PollState {
    /// The baseline load has not succeeded yet; nothing may be published.
    Bootstrapping,
    /// The baseline is in; each cycle publishes the novel records.
    Steady,
}

/// The poller: owns the deduplication store, seeds it silently from the
/// first successful fetch, and thereafter publishes exactly the novel
/// records of each cycle, in feed order.
pub struct SrPoller {
    /// Every record accepted so far; only the poller mutates it.
    pub store: DedupStore,
    /// Bootstrapping until the first successful fetch, then steady.
    pub state: PollState,
    /// The id of the most recently published record; diagnostic only.
    pub last_message_id: i32,
    /// The configured cycle interval.
    pub options: SrPollOptions,
}

impl SrPoller {
    /// The poller's invariant: its store's index and record list agree.
    pub open spec fn wf(&self) -> bool {
        self.store.wf()
    }

    /// A poller that has loaded nothing, ready to bootstrap.
    pub fn new(options: SrPollOptions) -> (r: SrPoller)
        ensures
            r.wf(),
            r.state is Bootstrapping,
            r.store.accepted() == Seq::<crate::records::Message>::empty(),
            r.last_message_id == 0,
            r.options == options,
    {
        SrPoller { store: DedupStore::new(), state: PollState::Bootstrapping, last_message_id: 0, options }
    }

    /// One poll cycle, given the fetch result the loop obtained.
    ///
    /// A failed fetch changes nothing and publishes nothing, in either
    /// state. A successful fetch while bootstrapping seeds the whole
    /// page into the store as already known and publishes nothing. A
    /// successful fetch in steady state accepts exactly the novel
    /// records and publishes them to the hub in feed order. Returns how
    /// many records were published.
    pub fn poll_step(&mut self, hub: &mut BroadcastHub, fetched: Result<Sr, SrError>) -> (published:
        usize)
        requires
            old(self).wf(),
            old(hub).wf(),
        ensures
            final(self).wf(),
            final(hub).wf(),
            final(hub)@.capacity == old(hub)@.capacity,
            final(self).options == old(self).options,
            fetched is Err ==> *final(self) == *old(self) && *final(hub) == *old(hub) && published
                == 0,
            old(self).state is Bootstrapping ==> (fetched matches Ok(page) ==> {
                &&& final(self).state is Steady
                &&& final(self).store.accepted() == old(self).store.accepted() + novel_of(
                    old(self).store.known(),
                    page.messages@,
                )
                &&& final(self).store.known() == old(self).store.known().union(
                    seq_id_set(page.messages@),
                )
                &&& *final(hub) == *old(hub)
                &&& published == 0
                &&& final(self).last_message_id == old(self).last_message_id
            }),
            old(self).state is Steady ==> (fetched matches Ok(page) ==> {
                let novel = novel_of(old(self).store.known(), page.messages@);
                &&& final(self).state is Steady
                &&& final(self).store.accepted() == old(self).store.accepted() + novel
                &&& final(self).store.known() == old(self).store.known().union(
                    seq_id_set(page.messages@),
                )
                &&& final(hub)@.subs == publish_seq(old(hub)@.subs, novel, old(hub)@.capacity)
                &&& published == novel.len()
                &&& final(self).last_message_id == (if novel.len() > 0 {
                    novel.last().id
                } else {
                    old(self).last_message_id
                })
            }),
    {
        match fetched {
            Err(_) => 0,
            Ok(page) => {
                match self.state {
                    PollState::Bootstrapping => {
                        let _ = self.store.merge(&page.messages);
                        self.state = PollState::Steady;
                        0
                    },
                    PollState::Steady => {
                        let novel = self.store.merge(&page.messages);
                        let n = novel.len();
                        let ghost cap = old(hub)@.capacity;
                        let mut i: usize = 0;
                        while i < n
                            invariant
                                0 <= i <= n,
                                n == novel@.len(),
                                novel@ == novel_of(old(self).store.known(), page.messages@),
                                hub.wf(),
                                hub@.capacity == cap,
                                hub@.subs == publish_seq(
                                    old(hub)@.subs,
                                    novel@.take(i as int),
                                    cap,
                                ),
                                self.store.wf(),
                                self.store.accepted() == old(self).store.accepted() + novel@,
                                self.store.known() == old(self).store.known().union(
                                    seq_id_set(page.messages@),
                                ),
                                self.state is Steady,
                                self.options == old(self).options,
                                self.last_message_id == (if i > 0 {
                                    novel@[i - 1].id
                                } else {
                                    old(self).last_message_id
                                }),
                            decreases n - i,
                        {
                            hub.publish(&novel[i]);
                            self.last_message_id = novel[i].id;
                            proof {
                                assert(novel@.take(i + 1).drop_last() =~= novel@.take(i as int));
                                assert(novel@.take(i + 1).last() == novel@[i as int]);
                            }
                            i = i + 1;
                        }
                        proof {
                            assert(novel@.take(n as int) =~= novel@);
                        }
                        n
                    },
                }
            },
        }
    }
}

} // verus!
