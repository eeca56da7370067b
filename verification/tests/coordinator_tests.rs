use volleyscore::coordinator::Coordinator;
use volleyscore::registry::Message;
use volleyscore::scoring::MatchStatus;
use volleyscore::store::MatchAddError;

#[test]
fn creation_broadcasts_to_the_list_and_removal_to_both_views() {
    let mut c = Coordinator::new();
    let list = c.connect_main(1);
    assert!(list.is_empty());
    let m = c.add_match_action("Eagles", "Hawks", "", 10).unwrap();
    let id = m.id;
    // the list subscriber saw the new entry
    let queued = c.take_outbox(1);
    assert_eq!(queued.len(), 1);
    match &queued[0] {
        Message::EntryAdded(entry) => assert_eq!(entry.id, id),
        other => panic!("expected an entry addition, got {:?}", message_kind(other)),
    }
    // a page subscriber joins with the current snapshot
    let page = c.connect_match(2, id).unwrap();
    assert_eq!(page.team_a, "Eagles");
    // removal reaches the list and the page
    assert!(c.remove_match_action(id));
    let for_list = c.take_outbox(1);
    assert_eq!(for_list.len(), 1);
    assert!(matches!(for_list[0], Message::EntryRemoved(i) if i == id));
    let for_page = c.take_outbox(2);
    assert_eq!(for_page.len(), 1);
    assert!(matches!(for_page[0], Message::PageRemoved));
}

fn message_kind(m: &Message) -> &'static str {
    match m {
        Message::EntryAdded(_) => "EntryAdded",
        Message::EntryUpdated(_) => "EntryUpdated",
        Message::EntryRemoved(_) => "EntryRemoved",
        Message::PageUpdated(_) => "PageUpdated",
        Message::PageRemoved => "PageRemoved",
    }
}

#[test]
fn point_actions_broadcast_committed_snapshots_to_the_page_only() {
    let mut c = Coordinator::new();
    c.connect_main(1);
    let id = c.add_match_action("Eagles", "Hawks", "", 10).unwrap().id;
    c.take_outbox(1);
    c.connect_match(2, id);
    // starting the match reaches the page and the list
    assert!(c.end_set_action(id, 20));
    let for_page = c.take_outbox(2);
    assert_eq!(for_page.len(), 1);
    match &for_page[0] {
        Message::PageUpdated(snap) => {
            assert_eq!(snap.status, MatchStatus::InProgress);
            assert_eq!(snap.set_results_a, vec![0]);
        },
        _ => panic!("expected a page update"),
    }
    let for_list = c.take_outbox(1);
    assert_eq!(for_list.len(), 1);
    assert!(matches!(for_list[0], Message::EntryUpdated(_)));
    // a point reaches only the page, with the committed value
    assert!(c.add_point_a_action(id));
    assert!(c.take_outbox(1).is_empty());
    let after_point = c.take_outbox(2);
    assert_eq!(after_point.len(), 1);
    match &after_point[0] {
        Message::PageUpdated(snap) => assert_eq!(snap.set_results_a, vec![1]),
        _ => panic!("expected a page update"),
    }
    // swap reaches only the page too
    assert!(c.swap_teams_action(id));
    assert!(c.take_outbox(1).is_empty());
    let after_swap = c.take_outbox(2);
    assert_eq!(after_swap.len(), 1);
    match &after_swap[0] {
        Message::PageUpdated(snap) => assert!(snap.swapped),
        _ => panic!("expected a page update"),
    }
}

#[test]
fn rejected_actions_broadcast_nothing() {
    let mut c = Coordinator::new();
    c.connect_main(1);
    let id = c.add_match_action("Eagles", "Hawks", "", 10).unwrap().id;
    c.take_outbox(1);
    c.connect_match(2, id);
    // the match is still planned: every point or swap action is a no-op
    assert!(!c.add_point_a_action(id));
    assert!(!c.add_point_b_action(id));
    assert!(!c.remove_point_a_action(id));
    assert!(!c.remove_point_b_action(id));
    assert!(!c.swap_teams_action(id));
    assert!(c.take_outbox(1).is_empty());
    assert!(c.take_outbox(2).is_empty());
    // a rejected creation broadcasts nothing either
    let err = c.add_match_action("Eagles", "Eagles", "", 10);
    assert_eq!(err.unwrap_err(), MatchAddError::DuplicateTeamName);
    assert!(c.take_outbox(1).is_empty());
}

#[test]
fn decrement_below_zero_is_rejected_through_the_coordinator() {
    let mut c = Coordinator::new();
    let id = c.add_match_action("Eagles", "Hawks", "", 10).unwrap().id;
    assert!(c.end_set_action(id, 20));
    assert!(!c.remove_point_a_action(id));
    assert!(c.add_point_a_action(id));
    assert!(c.remove_point_a_action(id));
    assert!(!c.remove_point_a_action(id));
}

#[test]
fn connect_match_with_unknown_id_registers_nothing() {
    let mut c = Coordinator::new();
    assert!(c.connect_match(3, 99).is_none());
    assert!(!c.disconnect(3));
}

#[test]
fn disconnected_clients_receive_nothing_further() {
    let mut c = Coordinator::new();
    c.connect_main(1);
    let id = c.add_match_action("Eagles", "Hawks", "", 10).unwrap().id;
    c.take_outbox(1);
    assert!(c.disconnect(1));
    assert!(c.remove_match_action(id));
    assert!(c.take_outbox(1).is_empty());
}

#[test]
fn snapshots_are_committed_state_only() {
    let mut c = Coordinator::new();
    let id = c.add_match_action("Eagles", "Hawks", "", 10).unwrap().id;
    assert!(c.end_set_action(id, 20));
    c.connect_match(2, id);
    for _ in 0..25 {
        assert!(c.add_point_a_action(id));
    }
    for _ in 0..23 {
        assert!(c.add_point_b_action(id));
    }
    c.take_outbox(2);
    assert!(c.end_set_action(id, 30));
    let queued = c.take_outbox(2);
    assert_eq!(queued.len(), 1);
    match &queued[0] {
        Message::PageUpdated(snap) => {
            assert_eq!(snap.result, vec![1, 0]);
            assert_eq!(snap.set_results_a, vec![25, 0]);
            assert_eq!(snap.set_results_b, vec![23, 0]);
        },
        _ => panic!("expected a page update"),
    }
    let current = c.get_match(id).unwrap();
    assert_eq!(current.result, vec![1, 0]);
}
