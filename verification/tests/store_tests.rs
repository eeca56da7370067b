use volleyscore::scoring::MatchStatus;
use volleyscore::store::{MatchAddError, MatchStore};

// 2030-01-01T00:00:00 UTC in unix seconds.
const FUTURE_DATE: &str = "2030-01-01T00:00:00";
const FUTURE_UNIX: i64 = 1893456000;

#[test]
fn add_match_creates_planned_with_trimmed_names() {
    let mut store = MatchStore::new();
    let m = store.add_match("  Eagles  ", "\tHawks\n", "", 50).unwrap();
    assert_eq!(m.team_a, "Eagles");
    assert_eq!(m.team_b, "Hawks");
    assert_eq!(m.status, MatchStatus::Planned);
    assert!(!m.swapped);
    assert_eq!(m.result, vec![0, 0]);
    assert!(m.set_results_a.is_empty());
    assert!(m.set_results_b.is_empty());
    assert_eq!(m.match_start, 50);
    assert_eq!(m.set_start, 50);
    assert!(store.match_exists(m.id));
}

#[test]
fn add_match_parses_future_schedule() {
    let mut store = MatchStore::new();
    let m = store.add_match("Eagles", "Hawks", FUTURE_DATE, 1000).unwrap();
    assert_eq!(m.match_start, FUTURE_UNIX);
    assert_eq!(m.set_start, FUTURE_UNIX);
    assert_eq!(m.status, MatchStatus::Planned);
}

#[test]
fn add_match_rejects_empty_name() {
    let mut store = MatchStore::new();
    let r = store.add_match("   ", "Hawks", "", 0);
    assert_eq!(r.unwrap_err(), MatchAddError::TeamNameEmpty);
    assert!(store.get_matches().is_empty());
}

#[test]
fn add_match_rejects_name_over_fifty_characters() {
    let mut store = MatchStore::new();
    let long = "x".repeat(51);
    let r = store.add_match(&long, "Hawks", "", 0);
    assert_eq!(r.unwrap_err(), MatchAddError::TeamNameTooLong);
    let ok = "y".repeat(50);
    assert!(store.add_match(&ok, "Hawks", "", 0).is_ok());
}

#[test]
fn add_match_rejects_duplicate_names() {
    let mut store = MatchStore::new();
    let r = store.add_match("Eagles", "  Eagles ", "", 0);
    assert_eq!(r.unwrap_err(), MatchAddError::DuplicateTeamName);
}

#[test]
fn add_match_rejects_past_date() {
    let mut store = MatchStore::new();
    let r = store.add_match("Eagles", "Hawks", FUTURE_DATE, FUTURE_UNIX + 10);
    assert_eq!(r.unwrap_err(), MatchAddError::PastDate);
}

#[test]
fn add_match_rejects_bad_date_format() {
    let mut store = MatchStore::new();
    let r = store.add_match("Eagles", "Hawks", "tomorrow at noon", 0);
    assert_eq!(r.unwrap_err(), MatchAddError::IncorrectDateFormat);
}

#[test]
fn error_messages_match_the_ui_text() {
    assert_eq!(MatchAddError::TeamNameEmpty.message(), "Team names cannot be empty");
    assert_eq!(MatchAddError::DuplicateTeamName.message(), "Team names cannot be the same");
    assert_eq!(MatchAddError::PastDate.message(), "Past dates are not allowed");
    assert_eq!(
        MatchAddError::IncorrectDateFormat.message(),
        "Incorrect date format. Date has to be a valid ISO8601 timestamp. Leave empty to use current time"
    );
    assert_eq!(
        MatchAddError::TeamNameTooLong.message(),
        "Team name can't be longer than 50 characters"
    );
}

#[test]
fn get_and_remove_match() {
    let mut store = MatchStore::new();
    let a = store.add_match("Eagles", "Hawks", "", 0).unwrap();
    let b = store.add_match("Lions", "Tigers", "", 0).unwrap();
    assert_ne!(a.id, b.id);
    assert_eq!(store.get_matches().len(), 2);
    let got = store.get_match(a.id).unwrap();
    assert_eq!(got.team_a, "Eagles");
    assert!(store.remove_match(a.id));
    assert!(!store.remove_match(a.id));
    assert!(store.get_match(a.id).is_none());
    assert_eq!(store.get_matches().len(), 1);
    assert!(store.match_exists(b.id));
}

#[test]
fn mutators_reject_unknown_ids() {
    let mut store = MatchStore::new();
    assert!(!store.swap_teams(42));
    assert!(!store.add_set_point_a(42));
    assert!(!store.add_set_point_b(42));
    assert!(!store.remove_set_point_a(42));
    assert!(!store.remove_set_point_b(42));
    assert!(!store.end_set(42, 0));
    assert!(!store.remove_match(42));
}

#[test]
fn scenario_new_match_first_set() {
    let mut store = MatchStore::new();
    // new match, no date: planned, empty point arrays
    let m = store.add_match("Eagles", "Hawks", "", 50).unwrap();
    assert_eq!(m.status, MatchStatus::Planned);
    assert!(m.set_results_a.is_empty());
    assert!(m.set_results_b.is_empty());
    let id = m.id;
    // end-current-unit on a planned match starts it
    assert!(store.end_set(id, 60));
    let started = store.get_match(id).unwrap();
    assert_eq!(started.status, MatchStatus::InProgress);
    assert_eq!(started.set_results_a, vec![0]);
    assert_eq!(started.set_results_b, vec![0]);
    // 25 points for A, 23 for B: threshold and margin met
    for _ in 0..25 {
        assert!(store.add_set_point_a(id));
    }
    for _ in 0..23 {
        assert!(store.add_set_point_b(id));
    }
    assert!(store.end_set(id, 70));
    let after = store.get_match(id).unwrap();
    assert_eq!(after.result, vec![1, 0]);
    assert_eq!(after.set_results_a, vec![25, 0]);
    assert_eq!(after.set_results_b, vec![23, 0]);
    assert_eq!(after.status, MatchStatus::InProgress);
    // a creation with identical names is rejected
    let dup = store.add_match("Eagles", "Eagles", "", 80);
    assert_eq!(dup.unwrap_err(), MatchAddError::DuplicateTeamName);
}

#[test]
fn end_set_rejected_below_margin_through_store() {
    let mut store = MatchStore::new();
    let id = store.add_match("Eagles", "Hawks", "", 0).unwrap().id;
    assert!(store.end_set(id, 1));
    for _ in 0..25 {
        assert!(store.add_set_point_a(id));
    }
    for _ in 0..24 {
        assert!(store.add_set_point_b(id));
    }
    // 25 to 24: margin below two
    assert!(!store.end_set(id, 2));
    assert!(store.add_set_point_a(id));
    // 26 to 24: closes
    assert!(store.end_set(id, 3));
    let m = store.get_match(id).unwrap();
    assert_eq!(m.result, vec![1, 0]);
}

#[test]
fn swap_teams_through_store() {
    let mut store = MatchStore::new();
    let id = store.add_match("Eagles", "Hawks", "", 0).unwrap().id;
    // planned: rejected
    assert!(!store.swap_teams(id));
    assert!(store.end_set(id, 1));
    assert!(store.swap_teams(id));
    assert!(store.get_match(id).unwrap().swapped);
}
