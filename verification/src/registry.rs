//! The client registry: who is connected, what each connection watches, and
//! the view-scoped broadcast fan-out.
//!
//! Each connection owns an outbound queue. A broadcast appends the payload to
//! the queue of every connection subscribed to the target view - and to no
//! other - in one call, so a delivery can never be partial or duplicated and
//! per-connection order follows broadcast order. Draining a queue and pushing
//! its contents down the wire is the transport layer's job.

use vstd::prelude::*;

use crate::scoring::{Match, MatchView};

verus! {

/// What a connected observer is watching: the global match list, or the page
/// of one specific match.
#[derive(Clone, Copy, PartialEq, Eq, Structural, Debug)]
pub enum ClientView {
    MainPage,
    MatchPage(i32),
}

/// A payload fanned out to observers: a change to the match list or to one
/// match's page. Match payloads are immutable snapshots of committed state.
pub enum Message {
    EntryAdded(Match),
    EntryUpdated(Match),
    EntryRemoved(i32),
    PageUpdated(Match),
    PageRemoved,
}

/// The model of a payload, over match models.
#[verifier::ext_equal]
pub ghost enum MessageView {
    EntryAdded(MatchView),
    EntryUpdated(MatchView),
    EntryRemoved(int),
    PageUpdated(MatchView),
    PageRemoved,
}

impl View for Message {
    type V = MessageView;

    open spec fn view(&self) -> MessageView {
        match *self {
            Message::EntryAdded(m) => MessageView::EntryAdded(m@),
            Message::EntryUpdated(m) => MessageView::EntryUpdated(m@),
            Message::EntryRemoved(id) => MessageView::EntryRemoved(id as int),
            Message::PageUpdated(m) => MessageView::PageUpdated(m@),
            Message::PageRemoved => MessageView::PageRemoved,
        }
    }
}

impl Clone for Message {
    /// A copy with the same model as the original.
    fn clone(&self) -> (r: Self)
        ensures
            r@ == self@,
    {
        match self {
            Message::EntryAdded(m) => Message::EntryAdded(m.clone()),
            Message::EntryUpdated(m) => Message::EntryUpdated(m.clone()),
            Message::EntryRemoved(id) => Message::EntryRemoved(*id),
            Message::PageUpdated(m) => Message::PageUpdated(m.clone()),
            Message::PageRemoved => Message::PageRemoved,
        }
    }
}

/// One connected observer: its identity, its subscription, and the queue of
/// payloads waiting to go down its wire.
pub struct Connection {
    pub id: u64,
    pub target: ClientView,
    pub outbox: Vec<Message>,
}

/// The model of a connection.
#[verifier::ext_equal]
pub ghost struct ConnectionView {
    pub id: u64,
    pub target: ClientView,
    pub outbox: Seq<MessageView>,
}

/// The models of a sequence of payloads, in order.
pub open spec fn msgs_of(v: Seq<Message>) -> Seq<MessageView> {
    Seq::new(v.len(), |i: int| v[i]@)
}

impl View for Connection {
    type V = ConnectionView;

    open spec fn view(&self) -> ConnectionView {
        ConnectionView { id: self.id, target: self.target, outbox: msgs_of(self.outbox@) }
    }
}

/// One connection after a broadcast: the payload is appended to its queue
/// exactly when its subscription matches the target view.
pub open spec fn spec_deliver(
    c: ConnectionView,
    target: ClientView,
    m: MessageView,
) -> ConnectionView {
    if c.target == target {
        ConnectionView { outbox: c.outbox.push(m), ..c }
    } else {
        c
    }
}

/// The whole registry after a broadcast to `target`.
pub open spec fn spec_broadcast(
    s: Seq<ConnectionView>,
    target: ClientView,
    m: MessageView,
) -> Seq<ConnectionView> {
    Seq::new(s.len(), |i: int| spec_deliver(s[i], target, m))
}

/// No two connections share an id.
pub open spec fn distinct_conn_ids(s: Seq<ConnectionView>) -> bool {
    forall|i: int, j: int| 0 <= i < j < s.len() ==> s[i].id != s[j].id
}

/// The registry of connected observers.
pub struct ClientRegistry {
    clients: Vec<Connection>,
}

impl View for ClientRegistry {
    type V = Seq<ConnectionView>;

    closed spec fn view(&self) -> Seq<ConnectionView> {
        Seq::new(self.clients@.len(), |i: int| self.clients@[i]@)
    }
}

impl ClientRegistry {
    /// Connection ids are distinct.
    pub closed spec fn wf(&self) -> bool {
        distinct_conn_ids(self@)
    }

    /// An empty registry.
    pub fn new() -> (r: ClientRegistry)
        ensures
            r.wf(),
            r@ == Seq::<ConnectionView>::empty(),
    {
        let r = ClientRegistry { clients: Vec::new() };
        proof {
            assert(r@ =~= Seq::<ConnectionView>::empty());
        }
        r
    }

    /// The position of the connection with this id, if any.
    fn find_conn(&self, id: u64) -> (r: Option<usize>)
        ensures
            match r {
                Some(i) => i < self@.len() && self@[i as int].id == id,
                None => forall|i: int| 0 <= i < self@.len() ==> (#[trigger] self@[i]).id != id,
            },
    {
        let mut i: usize = 0;
        while i < self.clients.len()
            invariant
                i <= self.clients.len(),
                self@.len() == self.clients@.len(),
                forall|j: int| 0 <= j < i ==> (#[trigger] self@[j]).id != id,
            decreases self.clients.len() - i,
        {
            if self.clients[i].id == id {
                return Some(i);
            }
            i += 1;
        }
        None
    }

    /// Adds a connection watching `target`, with an empty queue. Idempotent
    /// per id: when the id is already present nothing changes.
    pub fn register(&mut self, id: u64, target: ClientView) -> (added: bool)
        requires
            old(self).wf(),
        ensures
            final(self).wf(),
            added == !(exists|i: int|
                0 <= i < old(self)@.len() && (#[trigger] old(self)@[i]).id == id),
            added ==> final(self)@ == old(self)@.push(
                ConnectionView { id, target, outbox: Seq::<MessageView>::empty() },
            ),
            !added ==> final(self)@ == old(self)@,
    {
        match self.find_conn(id) {
            Some(_) => false,
            None => {
                self.clients.push(Connection { id, target, outbox: Vec::new() });
                proof {
                    assert(self@ =~~= old(self)@.push(
                        ConnectionView { id, target, outbox: Seq::<MessageView>::empty() },
                    ));
                }
                true
            },
        }
    }

    /// Removes the connection with this id; safe to call when it is absent.
    pub fn unregister(&mut self, id: u64) -> (removed: bool)
        requires
            old(self).wf(),
        ensures
            final(self).wf(),
            removed == (exists|i: int|
                0 <= i < old(self)@.len() && (#[trigger] old(self)@[i]).id == id),
            removed ==> exists|i: int|
                0 <= i < old(self)@.len() && (#[trigger] old(self)@[i]).id == id
                    && final(self)@ == old(self)@.remove(i),
            !removed ==> final(self)@ == old(self)@,
            forall|j: int|
                0 <= j < final(self)@.len() ==> (#[trigger] final(self)@[j]).id != id,
    {
        match self.find_conn(id) {
            Some(i) => {
                self.clients.remove(i);
                proof {
                    assert(self@ =~= old(self)@.remove(i as int));
                    assert forall|j: int| 0 <= j < self@.len() implies (#[trigger] self@[j]).id
                        != id by {
                        if j < i as int {
                            assert(old(self)@[j].id != id);
                        } else {
                            assert(self@[j] == old(self)@[j + 1]);
                        }
                    }
                }
                true
            },
            None => false,
        }
    }

    /// Appends the payload to the queue of every connection subscribed to
    /// `target` and of no other, in one call: each subscriber receives it
    /// exactly once, after everything already queued for it.
    pub fn send_to_clients(&mut self, target: ClientView, message: &Message)
        requires
            old(self).wf(),
        ensures
            final(self).wf(),
            final(self)@ == spec_broadcast(old(self)@, target, message@),
    {
        let n = self.clients.len();
        let mut j: usize = 0;
        while j < n
            invariant
                n == self.clients.len(),
                j <= n,
                self@.len() == old(self)@.len(),
                forall|k: int|
                    0 <= k < j ==> self@[k] == spec_deliver(
                        (#[trigger] old(self)@[k]),
                        target,
                        message@,
                    ),
                forall|k: int| j <= k < n ==> self@[k] == (#[trigger] old(self)@[k]),
            decreases n - j,
        {
            if self.clients[j].target == target {
                let ghost pre = self@;
                let ghost pre_clients = self.clients@;
                let mut c = self.clients.remove(j);
                c.outbox.push(message.clone());
                self.clients.insert(j, c);
                proof {
                    assert(self.clients@ == pre_clients.remove(j as int).insert(j as int, c));
                    assert(msgs_of(c.outbox@) =~= pre[j as int].outbox.push(message@));
                    assert(c@ =~= spec_deliver(pre[j as int], target, message@));
                    assert forall|k: int| 0 <= k < self@.len() && k != j as int implies self@[k]
                        == pre[k] by {
                        if k < j as int {
                            assert(self.clients@[k] == pre_clients[k]);
                        } else {
                            assert(self.clients@[k] == pre_clients.remove(j as int)[k - 1]);
                            assert(pre_clients.remove(j as int)[k - 1] == pre_clients[k]);
                        }
                    }
                    assert(self@[j as int] == c@);
                }
            }
            j += 1;
        }
        proof {
            assert(self@ =~= spec_broadcast(old(self)@, target, message@));
        }
    }

    /// Hands back everything queued for this connection, leaving its queue
    /// empty; an absent id yields nothing.
    pub fn take_outbox(&mut self, id: u64) -> (r: Vec<Message>)
        requires
            old(self).wf(),
        ensures
            final(self).wf(),
            final(self)@.len() == old(self)@.len(),
            forall|i: int|
                0 <= i < old(self)@.len() && (#[trigger] old(self)@[i]).id != id
                    ==> final(self)@[i] == old(self)@[i],
            forall|i: int|
                0 <= i < old(self)@.len() && (#[trigger] old(self)@[i]).id == id
                    ==> final(self)@[i] == (ConnectionView {
                    outbox: Seq::<MessageView>::empty(),
                    ..old(self)@[i]
                }) && msgs_of(r@) == old(self)@[i].outbox,
            (forall|i: int| 0 <= i < old(self)@.len() ==> (#[trigger] old(self)@[i]).id != id)
                ==> final(self)@ == old(self)@ && r@.len() == 0,
    {
        match self.find_conn(id) {
            Some(i) => {
                let c = self.clients.remove(i);
                let out = c.outbox;
                self.clients.insert(
                    i,
                    Connection { id: c.id, target: c.target, outbox: Vec::new() },
                );
                proof {
                    assert(self@ =~~= old(self)@.update(
                        i as int,
                        ConnectionView {
                            outbox: Seq::<MessageView>::empty(),
                            ..old(self)@[i as int]
                        },
                    ));
                    assert forall|k: int|
                        0 <= k < old(self)@.len() && (#[trigger] old(self)@[k]).id == id implies k
                        == i as int by {
                        if k != i as int {
                            if k < i as int {
                                assert(old(self)@[k].id != old(self)@[i as int].id);
                            } else {
                                assert(old(self)@[i as int].id != old(self)@[k].id);
                            }
                        }
                    }
                }
                out
            },
            None => Vec::new(),
        }
    }
}

/// Broadcast reaches exactly the subscribers of the target view: membership
/// and subscriptions are unchanged, a subscriber's queue grows by the one
/// payload at its end, and every other queue is untouched.
pub proof fn lemma_broadcast_fanout(s: Seq<ConnectionView>, target: ClientView, m: MessageView)
    ensures
        spec_broadcast(s, target, m).len() == s.len(),
        forall|i: int|
            0 <= i < s.len() ==> (#[trigger] spec_broadcast(s, target, m)[i]).id == s[i].id,
        forall|i: int|
            0 <= i < s.len() ==> (#[trigger] spec_broadcast(s, target, m)[i]).target
                == s[i].target,
        forall|i: int|
            0 <= i < s.len() && s[i].target == target ==> (#[trigger] spec_broadcast(
                s,
                target,
                m,
            )[i]).outbox == s[i].outbox.push(m),
        forall|i: int|
            0 <= i < s.len() && s[i].target != target ==> (#[trigger] spec_broadcast(
                s,
                target,
                m,
            )[i]).outbox == s[i].outbox,
{
}

/// Per-connection delivery order follows broadcast order: after two
/// broadcasts, a connection subscribed to both targets holds the first
/// payload before the second.
pub proof fn lemma_broadcast_order(
    s: Seq<ConnectionView>,
    t1: ClientView,
    m1: MessageView,
    t2: ClientView,
    m2: MessageView,
    i: int,
)
    requires
        0 <= i < s.len(),
        s[i].target == t1,
        s[i].target == t2,
    ensures
        spec_broadcast(spec_broadcast(s, t1, m1), t2, m2)[i].outbox == s[i].outbox.push(m1).push(
            m2,
        ),
{
}

} // verus!
