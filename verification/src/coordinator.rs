//! The update coordinator: apply a scoring transition against the store and,
//! only when it committed, fan the resulting snapshot out to the connections
//! whose subscription matches the affected view.
//!
//! A rejected transition broadcasts nothing. A point, swap or set action on a
//! match reaches that match's page subscribers; creation and removal also
//! reach the global list subscribers.

use vstd::prelude::*;

use crate::registry::{
    ClientRegistry, ClientView, ConnectionView, Message, MessageView, msgs_of, spec_broadcast,
};
use crate::scoring::{
    Match, MatchStatus, MatchView, can_add_point_a, can_add_point_b, can_remove_point_a,
    can_remove_point_b, end_allowed, spec_add_point_a, spec_add_point_b, spec_end,
    spec_remove_point_a, spec_remove_point_b, spec_swap, swap_allowed,
};
use crate::store::{
    MatchAddError, MatchStore, creation_error, has_id, id_index, match_with_id, trim_of,
    iso8601_unix_of,
};

verus! {

/// The joint model: the stored matches and the connected observers.
#[verifier::ext_equal]
pub ghost struct CoordinatorView {
    pub matches: Seq<MatchView>,
    pub clients: Seq<ConnectionView>,
}

/// Owns the match store and the client registry and runs every inbound
/// action as "mutate, then broadcast the committed state".
pub struct Coordinator {
    store: MatchStore,
    registry: ClientRegistry,
}

impl View for Coordinator {
    type V = CoordinatorView;

    closed spec fn view(&self) -> CoordinatorView {
        CoordinatorView { matches: self.store@, clients: self.registry@ }
    }
}

impl Coordinator {
    /// Both halves are well-formed.
    pub closed spec fn wf(&self) -> bool {
        self.store.wf() && self.registry.wf()
    }

    /// The store can still assign a fresh match id.
    pub closed spec fn can_accept_match(&self) -> bool {
        self.store.can_assign_id()
    }

    /// An empty coordinator: no matches, no connections.
    pub fn new() -> (r: Coordinator)
        ensures
            r.wf(),
            r@.matches == Seq::<MatchView>::empty(),
            r@.clients == Seq::<ConnectionView>::empty(),
            r.can_accept_match(),
    {
        Coordinator { store: MatchStore::new(), registry: ClientRegistry::new() }
    }

    /// Whether a creation may still be tried (a fresh id is available).
    pub fn can_add_match(&self) -> (r: bool)
        ensures
            r == self.can_accept_match(),
    {
        self.store.can_add_match()
    }

    /// Whether a match with this id exists.
    pub fn match_exists(&self, match_id: i32) -> (r: bool)
        ensures
            r == has_id(self@.matches, match_id as int),
    {
        self.store.match_exists(match_id)
    }

    /// An immutable snapshot of the match with this id, if any.
    pub fn get_match(&self, match_id: i32) -> (r: Option<Match>)
        requires
            self.wf(),
        ensures
            match r {
                Some(m) => has_id(self@.matches, match_id as int) && m@ == match_with_id(
                    self@.matches,
                    match_id as int,
                ) && m@.id == match_id as int && m@.wf(),
                None => !has_id(self@.matches, match_id as int),
            },
    {
        self.store.get_match(match_id)
    }

    /// Immutable snapshots of every match, in creation order.
    pub fn get_matches(&self) -> (r: Vec<Match>)
        ensures
            r@.len() == self@.matches.len(),
            forall|i: int|
                0 <= i < self@.matches.len() ==> (#[trigger] r@[i])@ == self@.matches[i],
    {
        self.store.get_matches()
    }

    /// Registers a connection watching the global list and hands back the
    /// current snapshot of every match, so the new observer starts in sync.
    pub fn connect_main(&mut self, conn_id: u64) -> (r: Vec<Match>)
        requires
            old(self).wf(),
        ensures
            final(self).wf(),
            final(self)@.matches == old(self)@.matches,
            (exists|i: int|
                0 <= i < old(self)@.clients.len() && (#[trigger] old(self)@.clients[i]).id
                    == conn_id) ==> final(self)@.clients == old(self)@.clients,
            !(exists|i: int|
                0 <= i < old(self)@.clients.len() && (#[trigger] old(self)@.clients[i]).id
                    == conn_id) ==> final(self)@.clients == old(self)@.clients.push(
                ConnectionView {
                    id: conn_id,
                    target: ClientView::MainPage,
                    outbox: Seq::<MessageView>::empty(),
                },
            ),
            r@.len() == old(self)@.matches.len(),
            forall|i: int|
                0 <= i < old(self)@.matches.len() ==> (#[trigger] r@[i])@
                    == old(self)@.matches[i],
    {
        self.registry.register(conn_id, ClientView::MainPage);
        self.store.get_matches()
    }

    /// Registers a connection watching one match's page and hands back that
    /// match's snapshot; an unknown match id registers nothing.
    pub fn connect_match(&mut self, conn_id: u64, match_id: i32) -> (r: Option<Match>)
        requires
            old(self).wf(),
        ensures
            final(self).wf(),
            final(self)@.matches == old(self)@.matches,
            match r {
                Some(m) => {
                    &&& has_id(old(self)@.matches, match_id as int)
                    &&& m@ == match_with_id(old(self)@.matches, match_id as int)
                    &&& ((exists|i: int|
                        0 <= i < old(self)@.clients.len()
                            && (#[trigger] old(self)@.clients[i]).id == conn_id)
                        ==> final(self)@.clients == old(self)@.clients)
                    &&& (!(exists|i: int|
                        0 <= i < old(self)@.clients.len()
                            && (#[trigger] old(self)@.clients[i]).id == conn_id)
                        ==> final(self)@.clients == old(self)@.clients.push(
                        ConnectionView {
                            id: conn_id,
                            target: ClientView::MatchPage(match_id),
                            outbox: Seq::<MessageView>::empty(),
                        },
                    ))
                },
                None => !has_id(old(self)@.matches, match_id as int) && final(self)@.clients
                    == old(self)@.clients,
            },
    {
        match self.store.get_match(match_id) {
            Some(m) => {
                self.registry.register(conn_id, ClientView::MatchPage(match_id));
                Some(m)
            },
            None => None,
        }
    }

    /// Removes a connection; safe to call when it is already gone.
    pub fn disconnect(&mut self, conn_id: u64) -> (removed: bool)
        requires
            old(self).wf(),
        ensures
            final(self).wf(),
            final(self)@.matches == old(self)@.matches,
            forall|j: int|
                0 <= j < final(self)@.clients.len()
                    ==> (#[trigger] final(self)@.clients[j]).id != conn_id,
            !removed ==> final(self)@.clients == old(self)@.clients,
    {
        self.registry.unregister(conn_id)
    }

    /// Hands back everything queued for this connection, leaving its queue
    /// empty. The transport layer sends each payload in this order.
    pub fn take_outbox(&mut self, conn_id: u64) -> (r: Vec<Message>)
        requires
            old(self).wf(),
        ensures
            final(self).wf(),
            final(self)@.matches == old(self)@.matches,
            final(self)@.clients.len() == old(self)@.clients.len(),
            forall|i: int|
                0 <= i < old(self)@.clients.len() && (#[trigger] old(self)@.clients[i]).id
                    != conn_id ==> final(self)@.clients[i] == old(self)@.clients[i],
            forall|i: int|
                0 <= i < old(self)@.clients.len() && (#[trigger] old(self)@.clients[i]).id
                    == conn_id ==> final(self)@.clients[i] == (ConnectionView {
                    outbox: Seq::<MessageView>::empty(),
                    ..old(self)@.clients[i]
                }) && msgs_of(r@) == old(self)@.clients[i].outbox,
    {
        self.registry.take_outbox(conn_id)
    }

    /// Creates a match and, on success, pushes the new entry to the global
    /// list subscribers. A rejected creation broadcasts nothing.
    pub fn add_match_action(
        &mut self,
        team_a_name: &str,
        team_b_name: &str,
        match_date: &str,
        now: i64,
    ) -> (r: Result<Match, MatchAddError>)
        requires
            old(self).wf(),
            old(self).can_accept_match(),
        ensures
            final(self).wf(),
            match r {
                Ok(m) => {
                    &&& creation_error(team_a_name@, team_b_name@, match_date@, now as int)
                        is None
                    &&& !has_id(old(self)@.matches, m@.id)
                    &&& final(self)@.matches == old(self)@.matches.push(m@)
                    &&& m@.wf()
                    &&& m@.team_a == trim_of(team_a_name@)
                    &&& m@.team_b == trim_of(team_b_name@)
                    &&& m@.status == MatchStatus::Planned
                    &&& final(self)@.clients == spec_broadcast(
                        old(self)@.clients,
                        ClientView::MainPage,
                        MessageView::EntryAdded(m@),
                    )
                },
                Err(e) => {
                    &&& creation_error(team_a_name@, team_b_name@, match_date@, now as int)
                        == Some(e)
                    &&& final(self)@.matches == old(self)@.matches
                    &&& final(self)@.clients == old(self)@.clients
                },
            },
    {
        match self.store.add_match(team_a_name, team_b_name, match_date, now) {
            Ok(m) => {
                let snapshot = m.clone();
                self.registry.send_to_clients(ClientView::MainPage, &Message::EntryAdded(m));
                Ok(snapshot)
            },
            Err(e) => Err(e),
        }
    }

    /// Deletes a match and, when a row was removed, tells the global list
    /// subscribers to drop the entry and the match's page subscribers that
    /// the page is gone.
    pub fn remove_match_action(&mut self, match_id: i32) -> (applied: bool)
        requires
            old(self).wf(),
        ensures
            final(self).wf(),
            applied == has_id(old(self)@.matches, match_id as int),
            applied ==> final(self)@.matches == old(self)@.matches.remove(
                id_index(old(self)@.matches, match_id as int),
            ),
            applied ==> final(self)@.clients == spec_broadcast(
                spec_broadcast(
                    old(self)@.clients,
                    ClientView::MainPage,
                    MessageView::EntryRemoved(match_id as int),
                ),
                ClientView::MatchPage(match_id),
                MessageView::PageRemoved,
            ),
            !applied ==> final(self)@.matches == old(self)@.matches && final(self)@.clients
                == old(self)@.clients,
    {
        let applied = self.store.remove_match(match_id);
        if applied {
            self.registry.send_to_clients(
                ClientView::MainPage,
                &Message::EntryRemoved(match_id),
            );
            self.registry.send_to_clients(
                ClientView::MatchPage(match_id),
                &Message::PageRemoved,
            );
        }
        applied
    }

    /// Toggles the display order of a live match and, when it applied,
    /// pushes the committed snapshot to that match's page subscribers.
    pub fn swap_teams_action(&mut self, match_id: i32) -> (applied: bool)
        requires
            old(self).wf(),
        ensures
            final(self).wf(),
            final(self)@.matches.len() == old(self)@.matches.len(),
            forall|i: int|
                0 <= i < old(self)@.matches.len() && (#[trigger] old(self)@.matches[i]).id
                    != match_id as int ==> final(self)@.matches[i] == old(self)@.matches[i],
            forall|i: int|
                0 <= i < old(self)@.matches.len() && (#[trigger] old(self)@.matches[i]).id
                    == match_id as int ==> final(self)@.matches[i] == spec_swap(
                    old(self)@.matches[i],
                ) && applied == swap_allowed(old(self)@.matches[i]),
            !has_id(old(self)@.matches, match_id as int) ==> !applied && final(self)@.matches
                == old(self)@.matches,
            applied ==> final(self)@.clients == spec_broadcast(
                old(self)@.clients,
                ClientView::MatchPage(match_id),
                MessageView::PageUpdated(match_with_id(final(self)@.matches, match_id as int)),
            ),
            !applied ==> final(self)@.clients == old(self)@.clients,
    {
        let applied = self.store.swap_teams(match_id);
        if applied {
            proof {
                let i = id_index(old(self)@.matches, match_id as int);
                assert(0 <= i < old(self)@.matches.len() && old(self)@.matches[i].id
                    == match_id as int);
                assert(self@.matches[i].id == match_id as int);
                assert(has_id(self@.matches, match_id as int));
            }
            if let Some(m) = self.store.get_match(match_id) {
                self.registry.send_to_clients(
                    ClientView::MatchPage(match_id),
                    &Message::PageUpdated(m),
                );
            }
        }
        applied
    }

    /// Adds a point for side A on a live match and, when it applied, pushes
    /// the committed snapshot to that match's page subscribers.
    pub fn add_point_a_action(&mut self, match_id: i32) -> (applied: bool)
        requires
            old(self).wf(),
        ensures
            final(self).wf(),
            final(self)@.matches.len() == old(self)@.matches.len(),
            forall|i: int|
                0 <= i < old(self)@.matches.len() && (#[trigger] old(self)@.matches[i]).id
                    != match_id as int ==> final(self)@.matches[i] == old(self)@.matches[i],
            forall|i: int|
                0 <= i < old(self)@.matches.len() && (#[trigger] old(self)@.matches[i]).id
                    == match_id as int ==> final(self)@.matches[i] == spec_add_point_a(
                    old(self)@.matches[i],
                ) && applied == can_add_point_a(old(self)@.matches[i]),
            !has_id(old(self)@.matches, match_id as int) ==> !applied && final(self)@.matches
                == old(self)@.matches,
            applied ==> final(self)@.clients == spec_broadcast(
                old(self)@.clients,
                ClientView::MatchPage(match_id),
                MessageView::PageUpdated(match_with_id(final(self)@.matches, match_id as int)),
            ),
            !applied ==> final(self)@.clients == old(self)@.clients,
    {
        let applied = self.store.add_set_point_a(match_id);
        if applied {
            proof {
                let i = id_index(old(self)@.matches, match_id as int);
                assert(0 <= i < old(self)@.matches.len() && old(self)@.matches[i].id
                    == match_id as int);
                assert(self@.matches[i].id == match_id as int);
                assert(has_id(self@.matches, match_id as int));
            }
            if let Some(m) = self.store.get_match(match_id) {
                self.registry.send_to_clients(
                    ClientView::MatchPage(match_id),
                    &Message::PageUpdated(m),
                );
            }
        }
        applied
    }

    /// Adds a point for side B on a live match and, when it applied, pushes
    /// the committed snapshot to that match's page subscribers.
    pub fn add_point_b_action(&mut self, match_id: i32) -> (applied: bool)
        requires
            old(self).wf(),
        ensures
            final(self).wf(),
            final(self)@.matches.len() == old(self)@.matches.len(),
            forall|i: int|
                0 <= i < old(self)@.matches.len() && (#[trigger] old(self)@.matches[i]).id
                    != match_id as int ==> final(self)@.matches[i] == old(self)@.matches[i],
            forall|i: int|
                0 <= i < old(self)@.matches.len() && (#[trigger] old(self)@.matches[i]).id
                    == match_id as int ==> final(self)@.matches[i] == spec_add_point_b(
                    old(self)@.matches[i],
                ) && applied == can_add_point_b(old(self)@.matches[i]),
            !has_id(old(self)@.matches, match_id as int) ==> !applied && final(self)@.matches
                == old(self)@.matches,
            applied ==> final(self)@.clients == spec_broadcast(
                old(self)@.clients,
                ClientView::MatchPage(match_id),
                MessageView::PageUpdated(match_with_id(final(self)@.matches, match_id as int)),
            ),
            !applied ==> final(self)@.clients == old(self)@.clients,
    {
        let applied = self.store.add_set_point_b(match_id);
        if applied {
            proof {
                let i = id_index(old(self)@.matches, match_id as int);
                assert(0 <= i < old(self)@.matches.len() && old(self)@.matches[i].id
                    == match_id as int);
                assert(self@.matches[i].id == match_id as int);
                assert(has_id(self@.matches, match_id as int));
            }
            if let Some(m) = self.store.get_match(match_id) {
                self.registry.send_to_clients(
                    ClientView::MatchPage(match_id),
                    &Message::PageUpdated(m),
                );
            }
        }
        applied
    }

    /// Removes a point from side A on a live match and, when it applied,
    /// pushes the committed snapshot to that match's page subscribers.
    pub fn remove_point_a_action(&mut self, match_id: i32) -> (applied: bool)
        requires
            old(self).wf(),
        ensures
            final(self).wf(),
            final(self)@.matches.len() == old(self)@.matches.len(),
            forall|i: int|
                0 <= i < old(self)@.matches.len() && (#[trigger] old(self)@.matches[i]).id
                    != match_id as int ==> final(self)@.matches[i] == old(self)@.matches[i],
            forall|i: int|
                0 <= i < old(self)@.matches.len() && (#[trigger] old(self)@.matches[i]).id
                    == match_id as int ==> final(self)@.matches[i] == spec_remove_point_a(
                    old(self)@.matches[i],
                ) && applied == can_remove_point_a(old(self)@.matches[i]),
            !has_id(old(self)@.matches, match_id as int) ==> !applied && final(self)@.matches
                == old(self)@.matches,
            applied ==> final(self)@.clients == spec_broadcast(
                old(self)@.clients,
                ClientView::MatchPage(match_id),
                MessageView::PageUpdated(match_with_id(final(self)@.matches, match_id as int)),
            ),
            !applied ==> final(self)@.clients == old(self)@.clients,
    {
        let applied = self.store.remove_set_point_a(match_id);
        if applied {
            proof {
                let i = id_index(old(self)@.matches, match_id as int);
                assert(0 <= i < old(self)@.matches.len() && old(self)@.matches[i].id
                    == match_id as int);
                assert(self@.matches[i].id == match_id as int);
                assert(has_id(self@.matches, match_id as int));
            }
            if let Some(m) = self.store.get_match(match_id) {
                self.registry.send_to_clients(
                    ClientView::MatchPage(match_id),
                    &Message::PageUpdated(m),
                );
            }
        }
        applied
    }

    /// Removes a point from side B on a live match and, when it applied,
    /// pushes the committed snapshot to that match's page subscribers.
    pub fn remove_point_b_action(&mut self, match_id: i32) -> (applied: bool)
        requires
            old(self).wf(),
        ensures
            final(self).wf(),
            final(self)@.matches.len() == old(self)@.matches.len(),
            forall|i: int|
                0 <= i < old(self)@.matches.len() && (#[trigger] old(self)@.matches[i]).id
                    != match_id as int ==> final(self)@.matches[i] == old(self)@.matches[i],
            forall|i: int|
                0 <= i < old(self)@.matches.len() && (#[trigger] old(self)@.matches[i]).id
                    == match_id as int ==> final(self)@.matches[i] == spec_remove_point_b(
                    old(self)@.matches[i],
                ) && applied == can_remove_point_b(old(self)@.matches[i]),
            !has_id(old(self)@.matches, match_id as int) ==> !applied && final(self)@.matches
                == old(self)@.matches,
            applied ==> final(self)@.clients == spec_broadcast(
                old(self)@.clients,
                ClientView::MatchPage(match_id),
                MessageView::PageUpdated(match_with_id(final(self)@.matches, match_id as int)),
            ),
            !applied ==> final(self)@.clients == old(self)@.clients,
    {
        let applied = self.store.remove_set_point_b(match_id);
        if applied {
            proof {
                let i = id_index(old(self)@.matches, match_id as int);
                assert(0 <= i < old(self)@.matches.len() && old(self)@.matches[i].id
                    == match_id as int);
                assert(self@.matches[i].id == match_id as int);
                assert(has_id(self@.matches, match_id as int));
            }
            if let Some(m) = self.store.get_match(match_id) {
                self.registry.send_to_clients(
                    ClientView::MatchPage(match_id),
                    &Message::PageUpdated(m),
                );
            }
        }
        applied
    }

    /// Ends the current unit of a match and, when it applied, pushes the
    /// committed snapshot to that match's page subscribers and the updated
    /// entry to the global list subscribers - in that order.
    pub fn end_set_action(&mut self, match_id: i32, now: i64) -> (applied: bool)
        requires
            old(self).wf(),
        ensures
            final(self).wf(),
            final(self)@.matches.len() == old(self)@.matches.len(),
            forall|i: int|
                0 <= i < old(self)@.matches.len() && (#[trigger] old(self)@.matches[i]).id
                    != match_id as int ==> final(self)@.matches[i] == old(self)@.matches[i],
            forall|i: int|
                0 <= i < old(self)@.matches.len() && (#[trigger] old(self)@.matches[i]).id
                    == match_id as int ==> final(self)@.matches[i] == spec_end(
                    old(self)@.matches[i],
                    now as int,
                ) && applied == end_allowed(old(self)@.matches[i]),
            !has_id(old(self)@.matches, match_id as int) ==> !applied && final(self)@.matches
                == old(self)@.matches,
            applied ==> ({
                let mv = match_with_id(final(self)@.matches, match_id as int);
                final(self)@.clients == spec_broadcast(
                    spec_broadcast(
                        old(self)@.clients,
                        ClientView::MatchPage(match_id),
                        MessageView::PageUpdated(mv),
                    ),
                    ClientView::MainPage,
                    MessageView::EntryUpdated(mv),
                )
            }),
            !applied ==> final(self)@.clients == old(self)@.clients,
    {
        let applied = self.store.end_set(match_id, now);
        if applied {
            proof {
                let i = id_index(old(self)@.matches, match_id as int);
                assert(0 <= i < old(self)@.matches.len() && old(self)@.matches[i].id
                    == match_id as int);
                assert(self@.matches[i].id == match_id as int);
                assert(has_id(self@.matches, match_id as int));
            }
            if let Some(m) = self.store.get_match(match_id) {
                let snapshot = m.clone();
                self.registry.send_to_clients(
                    ClientView::MatchPage(match_id),
                    &Message::PageUpdated(m),
                );
                self.registry.send_to_clients(
                    ClientView::MainPage,
                    &Message::EntryUpdated(snapshot),
                );
            }
        }
        applied
    }
}

} // verus!
