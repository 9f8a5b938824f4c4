//! Subscriber sessions and their registry: one session per live
//! connection, subscribed to the hub while forwarding, torn down without
//! touching any other session.
use crate::hub::has_sub;
use crate::hub::sub_index;
use crate::hub::BroadcastHub;
use crate::hub::SubView;
use crate::records::rendered_lines;
use crate::records::Message;
use vstd::prelude::*;

verus! {

/// What a session's forwarding task can be asked to do.
pub enum Actions {
    SendMessage { msg: Message },
}

/// A session's lifecycle; it only ever moves forward.
#[derive(Clone, Copy, Debug, PartialEq, Eq, Structural)]
pub enum SessionState {
    /// The connection is accepted; nothing is subscribed yet.
    Connected,
    /// The session is subscribed and forwards records to its connection.
    Forwarding,
    /// Torn down; the hub no longer buffers for it.
    Closed,
}

/// The mathematical state of one session.
pub ghost struct SessionView {
    pub id: int,
    pub state: SessionState,
}

/// One subscriber session: its id, derived from the connection's port at
/// accept time and unique among live sessions, and where it stands in
/// its lifecycle.
pub struct SrSession {
    id: u16,
    state: SessionState,
}

impl View for SrSession {
    type V = SessionView;

    closed spec fn view(&self) -> SessionView {
        SessionView { id: self.id as int, state: self.state }
    }
}

impl SrSession {
    /// A freshly accepted session, not yet forwarding.
    pub fn new(id: u16) -> (r: SrSession)
        ensures
            r@.id == id as int,
            r@.state is Connected,
    {
        SrSession { id, state: SessionState::Connected }
    }

    /// The session's id.
    pub fn id(&self) -> (r: u16)
        ensures
            r as int == self@.id,
    {
        self.id
    }

    /// Where the session stands in its lifecycle.
    pub fn state(&self) -> (r: SessionState)
        ensures
            r == self@.state,
    {
        self.state
    }

    /// Subscribes the session to the hub and starts forwarding; refused
    /// if a live subscriber already carries this id.
    pub fn start_forwarding(&mut self, hub: &mut BroadcastHub) -> (r: bool)
        requires
            old(self)@.state is Connected,
            old(hub).wf(),
        ensures
            final(hub).wf(),
            final(hub)@.capacity == old(hub)@.capacity,
            final(self)@.id == old(self)@.id,
            r == !has_sub(old(hub)@.subs, old(self)@.id),
            r ==> final(self)@.state is Forwarding && final(hub)@.subs == old(hub)@.subs.push(
                SubView { id: old(self)@.id, queue: Seq::empty(), dropped: 0 },
            ),
            !r ==> final(self)@.state is Connected && *final(hub) == *old(hub),
    {
        if hub.subscribe(self.id) {
            self.state = SessionState::Forwarding;
            true
        } else {
            false
        }
    }

    /// Pass-through: any inbound text from the connection is echoed back
    /// unchanged.
    pub fn on_text(&self, text: String) -> (r: String)
        ensures
            r@ == text@,
    {
        text
    }

    /// Turns a forwarding request into the text to write to the
    /// connection: the record, every field on its own line.
    pub fn on_call(&self, call: &Actions) -> (r: String)
        ensures
            *call matches Actions::SendMessage { msg } ==> r@ == rendered_lines(msg),
    {
        match call {
            Actions::SendMessage { msg } => msg.render_lines(),
        }
    }

    /// One forwarding step: takes the oldest record buffered for this
    /// session, if any, and renders it for the connection. No other
    /// session's buffer is touched.
    pub fn forward_step(&self, hub: &mut BroadcastHub) -> (r: Option<String>)
        requires
            old(hub).wf(),
            self@.state is Forwarding,
        ensures
            final(hub).wf(),
            final(hub)@.capacity == old(hub)@.capacity,
            !has_sub(old(hub)@.subs, self@.id) ==> r is None && *final(hub) == *old(hub),
            has_sub(old(hub)@.subs, self@.id) ==> {
                let i = sub_index(old(hub)@.subs, self@.id);
                if old(hub)@.subs[i].queue.len() == 0 {
                    r is None && *final(hub) == *old(hub)
                } else {
                    &&& r matches Some(t) && t@ == rendered_lines(old(hub)@.subs[i].queue[0])
                    &&& final(hub)@.subs == old(hub)@.subs.update(
                        i,
                        SubView {
                            id: old(hub)@.subs[i].id,
                            queue: old(hub)@.subs[i].queue.subrange(
                                1,
                                old(hub)@.subs[i].queue.len() as int,
                            ),
                            dropped: old(hub)@.subs[i].dropped,
                        },
                    )
                }
            },
    {
        match hub.receive(self.id) {
            Some(m) => Some(m.render_lines()),
            None => None,
        }
    }

    /// Teardown, from either side or on a forwarding error: the session
    /// is closed and the hub stops buffering for it. Every other
    /// subscriber keeps its buffer untouched.
    pub fn close(&mut self, hub: &mut BroadcastHub)
        requires
            old(hub).wf(),
        ensures
            final(hub).wf(),
            final(hub)@.capacity == old(hub)@.capacity,
            final(self)@.id == old(self)@.id,
            final(self)@.state is Closed,
            !has_sub(final(hub)@.subs, old(self)@.id),
            has_sub(old(hub)@.subs, old(self)@.id) ==> final(hub)@.subs == old(hub)@.subs.remove(
                sub_index(old(hub)@.subs, old(self)@.id),
            ),
            !has_sub(old(hub)@.subs, old(self)@.id) ==> *final(hub) == *old(hub),
    {
        let _ = hub.unsubscribe(self.id);
        self.state = SessionState::Closed;
    }
}

/// Whether some live session carries this id.
pub open spec fn has_session(ss: Seq<SrSession>, id: int) -> bool {
    exists|i: int| 0 <= i < ss.len() && ss[i]@.id == id
}

/// The position of the live session that carries this id.
pub open spec fn session_index(ss: Seq<SrSession>, id: int) -> int {
    choose|i: int| 0 <= i < ss.len() && ss[i]@.id == id
}

/// Whether no two live sessions share an id.
pub open spec fn distinct_session_ids(ss: Seq<SrSession>) -> bool {
    forall|i: int, j: int|
        0 <= i < ss.len() && 0 <= j < ss.len() && i != j ==> ss[i]@.id != ss[j]@.id
}

/// The session registry: accepts connections, gives each a forwarding
/// session subscribed to the hub, and removes it on disconnect.
pub struct SrTrafficMessageServer {
    sessions: Vec<SrSession>,
}

impl SrTrafficMessageServer {
    /// The live sessions, in accept order.
    pub closed spec fn live(&self) -> Seq<SrSession> {
        self.sessions@
    }

    /// The registry's invariant: ids unique among live sessions, all of
    /// them forwarding.
    pub open spec fn wf(&self) -> bool {
        &&& distinct_session_ids(self.live())
        &&& forall|i: int|
            0 <= i < self.live().len() ==> (#[trigger] self.live()[i])@.state is Forwarding
    }

    /// A registry with no live session.
    pub fn new() -> (r: SrTrafficMessageServer)
        ensures
            r.wf(),
            r.live() == Seq::<SrSession>::empty(),
    {
        SrTrafficMessageServer { sessions: Vec::new() }
    }

    /// How many sessions are live.
    pub fn session_count(&self) -> (r: usize)
        ensures
            r == self.live().len(),
    {
        self.sessions.len()
    }

    /// The position of the live session with this id, if any.
    fn find(&self, id: u16) -> (r: Option<usize>)
        requires
            self.wf(),
        ensures
            match r {
                Some(i) => i < self.live().len() && self.live()[i as int]@.id == id as int && i as int
                    == session_index(self.live(), id as int) && has_session(self.live(), id as int),
                None => !has_session(self.live(), id as int),
            },
    {
        let n = self.sessions.len();
        let mut i: usize = 0;
        while i < n
            invariant
                0 <= i <= n,
                n == self.live().len(),
                self.wf(),
                forall|j: int| 0 <= j < i ==> (#[trigger] self.live()[j])@.id != id as int,
            decreases n - i,
        {
            if self.sessions[i].id() == id {
                proof {
                    assert(self.live()[i as int]@.id == id as int);
                    assert(has_session(self.live(), id as int));
                    let w = session_index(self.live(), id as int);
                    assert(0 <= w < self.live().len() && self.live()[w]@.id == id as int);
                    assert(w == i as int);
                }
                return Some(i);
            }
            i = i + 1;
        }
        None
    }

    /// Accepts one connection: a session under the connection's port is
    /// created, subscribed to the hub, and starts forwarding. Refused,
    /// with nothing changed, when the id is already live.
    pub fn on_connect(&mut self, hub: &mut BroadcastHub, port: u16) -> (r: bool)
        requires
            old(self).wf(),
            old(hub).wf(),
        ensures
            final(self).wf(),
            final(hub).wf(),
            final(hub)@.capacity == old(hub)@.capacity,
            r == (!has_session(old(self).live(), port as int) && !has_sub(
                old(hub)@.subs,
                port as int,
            )),
            r ==> {
                &&& final(self).live().len() == old(self).live().len() + 1
                &&& final(self).live().take(old(self).live().len() as int) == old(self).live()
                &&& final(self).live().last()@ == (SessionView {
                    id: port as int,
                    state: SessionState::Forwarding,
                })
                &&& final(hub)@.subs == old(hub)@.subs.push(
                    SubView { id: port as int, queue: Seq::empty(), dropped: 0 },
                )
                &&& has_session(final(self).live(), port as int)
            },
            !r ==> *final(self) == *old(self) && *final(hub) == *old(hub),
    {
        match self.find(port) {
            Some(_) => false,
            None => {
                let mut session = SrSession::new(port);
                if session.start_forwarding(hub) {
                    self.sessions.push(session);
                    proof {
                        assert(self.live().take(old(self).live().len() as int) =~= old(
                            self,
                        ).live());
                        assert forall|i: int, j: int|
                            0 <= i < self.live().len() && 0 <= j < self.live().len() && i
                                != j implies self.live()[i]@.id != self.live()[j]@.id by {
                            if i < old(self).live().len() && j < old(self).live().len() {
                            } else if i == old(self).live().len() {
                                assert(self.live()[j] == old(self).live()[j]);
                            } else if j == old(self).live().len() {
                                assert(self.live()[i] == old(self).live()[i]);
                            }
                        }
                    }
                    true
                } else {
                    false
                }
            },
        }
    }

    /// Removes one session on disconnect: that session is closed and its
    /// hub buffer released; every other session and its buffer are left
    /// untouched.
    pub fn on_disconnect(&mut self, hub: &mut BroadcastHub, id: u16) -> (r: bool)
        requires
            old(self).wf(),
            old(hub).wf(),
        ensures
            final(self).wf(),
            final(hub).wf(),
            final(hub)@.capacity == old(hub)@.capacity,
            r == has_session(old(self).live(), id as int),
            !has_session(final(self).live(), id as int),
            r ==> final(self).live() == old(self).live().remove(
                session_index(old(self).live(), id as int),
            ),
            !r ==> *final(self) == *old(self) && *final(hub) == *old(hub),
            r ==> !has_sub(final(hub)@.subs, id as int),
            r ==> (has_sub(old(hub)@.subs, id as int) ==> final(hub)@.subs == old(hub)@.subs.remove(
                sub_index(old(hub)@.subs, id as int),
            )),
            r ==> (!has_sub(old(hub)@.subs, id as int) ==> *final(hub) == *old(hub)),
    {
        match self.find(id) {
            Some(i) => {
                let mut session = self.sessions.remove(i);
                session.close(hub);
                proof {
                    assert forall|j: int|
                        0 <= j < self.live().len() implies (#[trigger] self.live()[j])@.id
                        != id as int by {
                        if j < i {
                            assert(self.live()[j] == old(self).live()[j]);
                        } else {
                            assert(self.live()[j] == old(self).live()[j + 1]);
                        }
                    }
                    assert forall|a: int, b: int|
                        0 <= a < self.live().len() && 0 <= b < self.live().len() && a
                            != b implies self.live()[a]@.id != self.live()[b]@.id by {
                        let a0 = if a < i {
                            a
                        } else {
                            a + 1
                        };
                        let b0 = if b < i {
                            b
                        } else {
                            b + 1
                        };
                        assert(self.live()[a] == old(self).live()[a0]);
                        assert(self.live()[b] == old(self).live()[b0]);
                    }
                    assert forall|j: int|
                        0 <= j < self.live().len() implies (#[trigger] self.live()[j])@.state
                        is Forwarding by {
                        if j < i {
                            assert(self.live()[j] == old(self).live()[j]);
                        } else {
                            assert(self.live()[j] == old(self).live()[j + 1]);
                        }
                    }
                }
                true
            },
            None => false,
        }
    }
}

} // verus!
