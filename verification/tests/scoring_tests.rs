use volleyscore::scoring::{ButtonStatus, Match, MatchStatus, button_status};

fn planned(id: i32) -> Match {
    Match {
        id,
        match_start: 0,
        set_start: 0,
        team_a: String::from("Alpha"),
        team_b: String::from("Beta"),
        swapped: false,
        result: vec![0, 0],
        set_results_a: vec![],
        set_results_b: vec![],
        status: MatchStatus::Planned,
    }
}

fn live(sets_a: i32, sets_b: i32, points_a: Vec<i32>, points_b: Vec<i32>) -> Match {
    Match {
        id: 7,
        match_start: 10,
        set_start: 20,
        team_a: String::from("Alpha"),
        team_b: String::from("Beta"),
        swapped: false,
        result: vec![sets_a, sets_b],
        set_results_a: points_a,
        set_results_b: points_b,
        status: MatchStatus::InProgress,
    }
}

#[test]
fn start_sets_clocks_and_opens_first_set() {
    let mut m = planned(1);
    assert!(m.start(100));
    assert_eq!(m.status, MatchStatus::InProgress);
    assert_eq!(m.match_start, 100);
    assert_eq!(m.set_start, 100);
    assert_eq!(m.set_results_a, vec![0]);
    assert_eq!(m.set_results_b, vec![0]);
    assert_eq!(m.result, vec![0, 0]);
}

#[test]
fn start_twice_second_is_noop() {
    let mut m = planned(2);
    assert!(m.start(100));
    let snap_a = m.set_results_a.clone();
    let snap_b = m.set_results_b.clone();
    assert!(!m.start(200));
    assert_eq!(m.status, MatchStatus::InProgress);
    assert_eq!(m.match_start, 100);
    assert_eq!(m.set_start, 100);
    assert_eq!(m.set_results_a, snap_a);
    assert_eq!(m.set_results_b, snap_b);
}

#[test]
fn add_and_remove_points_touch_only_last_entry() {
    let mut m = live(1, 0, vec![25, 3], vec![20, 4]);
    assert!(m.add_point_a());
    assert!(m.add_point_b());
    assert_eq!(m.set_results_a, vec![25, 4]);
    assert_eq!(m.set_results_b, vec![20, 5]);
    assert!(m.remove_point_b());
    assert_eq!(m.set_results_b, vec![20, 4]);
}

#[test]
fn remove_point_at_zero_is_noop() {
    let mut m = live(0, 0, vec![0], vec![5]);
    assert!(!m.remove_point_a());
    assert_eq!(m.set_results_a, vec![0]);
    assert!(m.remove_point_b());
    assert_eq!(m.set_results_b, vec![4]);
}

#[test]
fn add_point_at_ceiling_is_noop() {
    let mut m = live(0, 0, vec![i32::MAX], vec![3]);
    assert!(!m.add_point_a());
    assert_eq!(m.set_results_a, vec![i32::MAX]);
    assert!(m.add_point_b());
    assert_eq!(m.set_results_b, vec![4]);
}

#[test]
fn point_mutations_rejected_unless_in_progress() {
    let mut m = planned(3);
    assert!(!m.add_point_a());
    assert!(!m.add_point_b());
    assert!(!m.remove_point_a());
    assert!(!m.remove_point_b());
    assert!(!m.swap());
}

#[test]
fn point_lengths_stay_equal_after_every_transition() {
    let mut m = planned(4);
    assert_eq!(m.set_results_a.len(), m.set_results_b.len());
    m.start(5);
    assert_eq!(m.set_results_a.len(), m.set_results_b.len());
    for _ in 0..25 {
        m.add_point_a();
        assert_eq!(m.set_results_a.len(), m.set_results_b.len());
    }
    m.remove_point_b();
    assert_eq!(m.set_results_a.len(), m.set_results_b.len());
    m.end_current_unit(6);
    assert_eq!(m.set_results_a.len(), m.set_results_b.len());
}

#[test]
fn end_set_needs_threshold_and_margin() {
    // neither side at 25 yet
    let mut m = live(0, 0, vec![24], vec![22]);
    assert!(!m.end_current_unit(30));
    assert_eq!(m.status, MatchStatus::InProgress);
    // at 25 but margin below two
    let mut m2 = live(0, 0, vec![25], vec![24]);
    assert!(!m2.end_current_unit(30));
    // at 25 with margin two: the set closes and a fresh tally opens
    let mut m3 = live(0, 0, vec![25], vec![23]);
    assert!(m3.end_current_unit(30));
    assert_eq!(m3.result, vec![1, 0]);
    assert_eq!(m3.set_results_a, vec![25, 0]);
    assert_eq!(m3.set_results_b, vec![23, 0]);
    assert_eq!(m3.set_start, 30);
    assert_eq!(m3.status, MatchStatus::InProgress);
}

#[test]
fn deciding_set_ends_at_fifteen() {
    let mut m = live(2, 2, vec![25, 20, 20, 23, 14], vec![23, 25, 25, 25, 12]);
    assert!(!m.end_current_unit(40));
    let mut m2 = live(2, 2, vec![25, 20, 20, 23, 15], vec![23, 25, 25, 25, 14]);
    assert!(!m2.end_current_unit(40));
    let mut m3 = live(2, 2, vec![25, 20, 20, 23, 15], vec![23, 25, 25, 25, 13]);
    assert!(m3.end_current_unit(40));
    assert_eq!(m3.status, MatchStatus::Finished);
    assert_eq!(m3.result, vec![3, 2]);
}

#[test]
fn winning_third_set_finishes_and_clears_swap() {
    let mut m = live(2, 0, vec![25, 25, 25], vec![20, 20, 23]);
    m.swapped = true;
    assert!(m.end_current_unit(50));
    assert_eq!(m.status, MatchStatus::Finished);
    assert_eq!(m.result, vec![3, 0]);
    assert!(!m.swapped);
    // the point sequences are not extended on the closing set
    assert_eq!(m.set_results_a.len(), 3);
}

#[test]
fn finished_match_rejects_every_mutation() {
    let mut m = live(2, 0, vec![25, 25, 25], vec![20, 20, 23]);
    assert!(m.end_current_unit(50));
    let frozen_a = m.set_results_a.clone();
    let frozen_b = m.set_results_b.clone();
    assert!(!m.add_point_a());
    assert!(!m.add_point_b());
    assert!(!m.remove_point_a());
    assert!(!m.remove_point_b());
    assert!(!m.swap());
    assert!(!m.start(60));
    assert!(!m.end_current_unit(60));
    assert_eq!(m.set_results_a, frozen_a);
    assert_eq!(m.set_results_b, frozen_b);
    assert_eq!(m.result, vec![3, 0]);
    assert!(!m.swapped);
}

#[test]
fn swap_toggles_only_presentation() {
    let mut m = live(0, 0, vec![3], vec![4]);
    assert!(m.swap());
    assert!(m.swapped);
    assert_eq!(m.set_results_a, vec![3]);
    assert_eq!(m.set_results_b, vec![4]);
    assert!(m.swap());
    assert!(!m.swapped);
}

#[test]
fn button_status_follows_the_engine() {
    assert_eq!(button_status(&planned(9)), ButtonStatus::Start);
    let mut finished = live(2, 0, vec![25, 25, 25], vec![20, 20, 23]);
    finished.end_current_unit(50);
    assert_eq!(button_status(&finished), ButtonStatus::NoButton);
    assert_eq!(button_status(&live(0, 0, vec![24], vec![22])), ButtonStatus::NoButton);
    assert_eq!(button_status(&live(0, 0, vec![25], vec![23])), ButtonStatus::EndSet);
    assert_eq!(
        button_status(&live(2, 1, vec![25, 25, 20, 25], vec![20, 20, 25, 23])),
        ButtonStatus::EndMatch
    );
}
