//! The match scoring state machine: a pure engine over a match value.
//!
//! A match moves linearly through `Planned -> InProgress -> Finished`. Point
//! mutations touch only the last entry of the per-set point sequences, and
//! every transition is total: when its precondition does not hold it leaves
//! the match unchanged and reports that nothing was applied.

use vstd::prelude::*;

verus! {

/// Lifecycle of a match. The state machine is linear: no transition goes back.
#[derive(Clone, Copy, PartialEq, Eq, Structural, Debug)]
pub enum MatchStatus {
    Finished,
    Planned,
    InProgress,
}

/// A tracked volleyball match. `result` holds the sets won by each side
/// (`[sets_a, sets_b]`); `set_results_a`/`set_results_b` hold one point tally
/// per set played so far, the last entry being the set in progress.
/// Timestamps are unix seconds.
#[derive(Debug)]
pub struct Match {
    pub id: i32,
    pub match_start: i64,
    pub set_start: i64,
    pub team_a: String,
    pub team_b: String,
    pub swapped: bool,
    pub result: Vec<i32>,
    pub set_results_a: Vec<i32>,
    pub set_results_b: Vec<i32>,
    pub status: MatchStatus,
}

/// The mathematical model of a match: the same fields over `int` and `Seq`.
#[verifier::ext_equal]
pub ghost struct MatchView {
    pub id: int,
    pub match_start: int,
    pub set_start: int,
    pub team_a: Seq<char>,
    pub team_b: Seq<char>,
    pub swapped: bool,
    pub sets_won: Seq<int>,
    pub points_a: Seq<int>,
    pub points_b: Seq<int>,
    pub status: MatchStatus,
}

/// A `Seq<i32>` read as a sequence of mathematical integers.
pub open spec fn int_seq(v: Seq<i32>) -> Seq<int> {
    Seq::new(v.len(), |i: int| v[i] as int)
}

impl View for Match {
    type V = MatchView;

    open spec fn view(&self) -> MatchView {
        MatchView {
            id: self.id as int,
            match_start: self.match_start as int,
            set_start: self.set_start as int,
            team_a: self.team_a@,
            team_b: self.team_b@,
            swapped: self.swapped,
            sets_won: int_seq(self.result@),
            points_a: int_seq(self.set_results_a@),
            points_b: int_seq(self.set_results_b@),
            status: self.status,
        }
    }
}

impl MatchView {
    /// Points of side A in the set currently in progress.
    pub open spec fn last_a(self) -> int {
        self.points_a.last()
    }

    /// Points of side B in the set currently in progress.
    pub open spec fn last_b(self) -> int {
        self.points_b.last()
    }

    /// Structural invariant of a match, preserved by every transition:
    /// the point sequences stay in lockstep, sets won stay within best-of-5
    /// bounds, a planned match has no points yet, a live match has one tally
    /// per finished set plus the running one, and a finished match has its
    /// display order restored and a side with three sets won.
    pub open spec fn wf(self) -> bool {
        &&& self.sets_won.len() == 2
        &&& 0 <= self.sets_won[0]
        &&& 0 <= self.sets_won[1]
        &&& self.points_a.len() == self.points_b.len()
        &&& (forall|i: int| 0 <= i < self.points_a.len() ==> 0 <= #[trigger] self.points_a[i] <= i32::MAX)
        &&& (forall|i: int| 0 <= i < self.points_b.len() ==> 0 <= #[trigger] self.points_b[i] <= i32::MAX)
        &&& match self.status {
            MatchStatus::Planned => {
                &&& self.points_a.len() == 0
                &&& self.sets_won[0] == 0
                &&& self.sets_won[1] == 0
            },
            MatchStatus::InProgress => {
                &&& self.points_a.len() == self.sets_won[0] + self.sets_won[1] + 1
                &&& self.sets_won[0] <= 2
                &&& self.sets_won[1] <= 2
            },
            MatchStatus::Finished => {
                &&& self.points_a.len() == self.sets_won[0] + self.sets_won[1]
                &&& !self.swapped
                &&& (self.sets_won[0] == 3 || self.sets_won[1] == 3)
                &&& self.sets_won[0] <= 3
                &&& self.sets_won[1] <= 3
                &&& !(self.sets_won[0] == 3 && self.sets_won[1] == 3)
            },
        }
    }
}

/// `Start` applies only to a planned match.
pub open spec fn start_allowed(v: MatchView) -> bool {
    v.status == MatchStatus::Planned
}

/// `Start`: the match goes live, both clocks are set, and a first `0` tally
/// is opened on both sides. A no-op on any other status.
pub open spec fn spec_start(v: MatchView, now: int) -> MatchView {
    if start_allowed(v) {
        MatchView {
            status: MatchStatus::InProgress,
            match_start: now,
            set_start: now,
            points_a: v.points_a.push(0),
            points_b: v.points_b.push(0),
            ..v
        }
    } else {
        v
    }
}

/// A point may be added for side A while the match is live and the running
/// tally has not hit the integer ceiling.
pub open spec fn can_add_point_a(v: MatchView) -> bool {
    v.status == MatchStatus::InProgress && v.last_a() < i32::MAX
}

/// Adds one point to side A's running tally; a no-op otherwise.
pub open spec fn spec_add_point_a(v: MatchView) -> MatchView {
    if can_add_point_a(v) {
        MatchView { points_a: v.points_a.update(v.points_a.len() - 1, v.last_a() + 1), ..v }
    } else {
        v
    }
}

/// A point may be added for side B while the match is live and the running
/// tally has not hit the integer ceiling.
pub open spec fn can_add_point_b(v: MatchView) -> bool {
    v.status == MatchStatus::InProgress && v.last_b() < i32::MAX
}

/// Adds one point to side B's running tally; a no-op otherwise.
pub open spec fn spec_add_point_b(v: MatchView) -> MatchView {
    if can_add_point_b(v) {
        MatchView { points_b: v.points_b.update(v.points_b.len() - 1, v.last_b() + 1), ..v }
    } else {
        v
    }
}

/// A point may be removed from side A while the match is live and the running
/// tally is above zero.
pub open spec fn can_remove_point_a(v: MatchView) -> bool {
    v.status == MatchStatus::InProgress && v.last_a() > 0
}

/// Removes one point from side A's running tally; a no-op otherwise.
pub open spec fn spec_remove_point_a(v: MatchView) -> MatchView {
    if can_remove_point_a(v) {
        MatchView { points_a: v.points_a.update(v.points_a.len() - 1, v.last_a() - 1), ..v }
    } else {
        v
    }
}

/// A point may be removed from side B while the match is live and the running
/// tally is above zero.
pub open spec fn can_remove_point_b(v: MatchView) -> bool {
    v.status == MatchStatus::InProgress && v.last_b() > 0
}

/// Removes one point from side B's running tally; a no-op otherwise.
pub open spec fn spec_remove_point_b(v: MatchView) -> MatchView {
    if can_remove_point_b(v) {
        MatchView { points_b: v.points_b.update(v.points_b.len() - 1, v.last_b() - 1), ..v }
    } else {
        v
    }
}

/// The display order may be toggled only while the match is live.
pub open spec fn swap_allowed(v: MatchView) -> bool {
    v.status == MatchStatus::InProgress
}

/// Toggles the presentation order of the two sides; a no-op otherwise.
pub open spec fn spec_swap(v: MatchView) -> MatchView {
    if swap_allowed(v) {
        MatchView { swapped: !v.swapped, ..v }
    } else {
        v
    }
}

/// The 5th set is the deciding one: it is played to 15 points, not 25.
pub open spec fn deciding_set(v: MatchView) -> bool {
    v.sets_won[0] == 2 && v.sets_won[1] == 2
}

/// Points a side must reach before the running set can be closed.
pub open spec fn set_threshold(v: MatchView) -> int {
    if deciding_set(v) {
        15
    } else {
        25
    }
}

/// The running set can be closed once a side has reached the threshold and
/// leads by at least two points.
pub open spec fn set_endable(v: MatchView) -> bool {
    &&& v.status == MatchStatus::InProgress
    &&& (v.last_a() >= set_threshold(v) || v.last_b() >= set_threshold(v))
    &&& (v.last_a() - v.last_b() >= 2 || v.last_b() - v.last_a() >= 2)
}

/// Index into `sets_won` of the side that wins the endable set. The two-point
/// margin rules a tie out, so strictly-greater picks a side.
pub open spec fn set_winner(v: MatchView) -> int {
    if v.last_a() > v.last_b() {
        0int
    } else {
        1int
    }
}

/// Ending the current unit applies to a planned match (as `Start`) and to a
/// live match whose running set is endable.
pub open spec fn end_allowed(v: MatchView) -> bool {
    start_allowed(v) || set_endable(v)
}

/// Ends the current unit. On a planned match this is `Start`. On a live match
/// with an endable set, the winner's set count goes up by one; if the winner
/// already had two sets the match finishes (display order restored),
/// otherwise a fresh `0` tally opens on both sides and the set clock resets.
/// A no-op in every other case.
pub open spec fn spec_end(v: MatchView, now: int) -> MatchView {
    if start_allowed(v) {
        spec_start(v, now)
    } else if set_endable(v) {
        let w = set_winner(v);
        let sets = v.sets_won.update(w, v.sets_won[w] + 1);
        if v.sets_won[w] >= 2 {
            MatchView { status: MatchStatus::Finished, swapped: false, sets_won: sets, ..v }
        } else {
            MatchView {
                sets_won: sets,
                points_a: v.points_a.push(0),
                points_b: v.points_b.push(0),
                set_start: now,
                ..v
            }
        }
    } else {
        v
    }
}

proof fn lemma_int_seq_push(v: Seq<i32>, x: i32)
    ensures
        int_seq(v.push(x)) =~= int_seq(v).push(x as int),
{
}

proof fn lemma_int_seq_update(v: Seq<i32>, i: int, x: i32)
    requires
        0 <= i < v.len(),
    ensures
        int_seq(v.update(i, x)) =~= int_seq(v).update(i, x as int),
{
}

impl Match {
    /// Transition `Planned -> InProgress`: stamps both start times with `now`
    /// and appends the first `0` to both point sequences. Reports `false` and
    /// changes nothing when the match is already live or finished.
    pub fn start(&mut self, now: i64) -> (applied: bool)
        requires
            old(self)@.wf(),
        ensures
            final(self)@.wf(),
            final(self)@ == spec_start(old(self)@, now as int),
            applied == start_allowed(old(self)@),
    {
        if self.status == MatchStatus::Planned {
            self.status = MatchStatus::InProgress;
            self.match_start = now;
            self.set_start = now;
            self.set_results_a.push(0);
            self.set_results_b.push(0);
            proof {
                lemma_int_seq_push(old(self).set_results_a@, 0);
                lemma_int_seq_push(old(self).set_results_b@, 0);
                assert(self@ =~= spec_start(old(self)@, now as int));
            }
            true
        } else {
            false
        }
    }

    /// Adds one point for side A; rejected unless the match is live and the
    /// running tally is below the integer ceiling.
    pub fn add_point_a(&mut self) -> (applied: bool)
        requires
            old(self)@.wf(),
        ensures
            final(self)@.wf(),
            final(self)@ == spec_add_point_a(old(self)@),
            applied == can_add_point_a(old(self)@),
    {
        if self.status == MatchStatus::InProgress {
            let n = self.set_results_a.len();
            let cur = self.set_results_a[n - 1];
            if cur < i32::MAX {
                self.set_results_a[n - 1] = cur + 1;
                proof {
                    lemma_int_seq_update(old(self).set_results_a@, n - 1, (cur + 1) as i32);
                    assert(self@ =~= spec_add_point_a(old(self)@));
                }
                true
            } else {
                false
            }
        } else {
            false
        }
    }

    /// Adds one point for side B; rejected unless the match is live and the
    /// running tally is below the integer ceiling.
    pub fn add_point_b(&mut self) -> (applied: bool)
        requires
            old(self)@.wf(),
        ensures
            final(self)@.wf(),
            final(self)@ == spec_add_point_b(old(self)@),
            applied == can_add_point_b(old(self)@),
    {
        if self.status == MatchStatus::InProgress {
            let n = self.set_results_b.len();
            let cur = self.set_results_b[n - 1];
            if cur < i32::MAX {
                self.set_results_b[n - 1] = cur + 1;
                proof {
                    lemma_int_seq_update(old(self).set_results_b@, n - 1, (cur + 1) as i32);
                    assert(self@ =~= spec_add_point_b(old(self)@));
                }
                true
            } else {
                false
            }
        } else {
            false
        }
    }

    /// Removes one point from side A; rejected unless the match is live and
    /// the running tally is above zero.
    pub fn remove_point_a(&mut self) -> (applied: bool)
        requires
            old(self)@.wf(),
        ensures
            final(self)@.wf(),
            final(self)@ == spec_remove_point_a(old(self)@),
            applied == can_remove_point_a(old(self)@),
    {
        if self.status == MatchStatus::InProgress {
            let n = self.set_results_a.len();
            let cur = self.set_results_a[n - 1];
            if cur > 0 {
                self.set_results_a[n - 1] = cur - 1;
                proof {
                    lemma_int_seq_update(old(self).set_results_a@, n - 1, (cur - 1) as i32);
                    assert(self@ =~= spec_remove_point_a(old(self)@));
                }
                true
            } else {
                false
            }
        } else {
            false
        }
    }

    /// Removes one point from side B; rejected unless the match is live and
    /// the running tally is above zero.
    pub fn remove_point_b(&mut self) -> (applied: bool)
        requires
            old(self)@.wf(),
        ensures
            final(self)@.wf(),
            final(self)@ == spec_remove_point_b(old(self)@),
            applied == can_remove_point_b(old(self)@),
    {
        if self.status == MatchStatus::InProgress {
            let n = self.set_results_b.len();
            let cur = self.set_results_b[n - 1];
            if cur > 0 {
                self.set_results_b[n - 1] = cur - 1;
                proof {
                    lemma_int_seq_update(old(self).set_results_b@, n - 1, (cur - 1) as i32);
                    assert(self@ =~= spec_remove_point_b(old(self)@));
                }
                true
            } else {
                false
            }
        } else {
            false
        }
    }

    /// Toggles the display order of the two sides; rejected unless the match
    /// is live.
    pub fn swap(&mut self) -> (applied: bool)
        requires
            old(self)@.wf(),
        ensures
            final(self)@.wf(),
            final(self)@ == spec_swap(old(self)@),
            applied == swap_allowed(old(self)@),
    {
        if self.status == MatchStatus::InProgress {
            self.swapped = !self.swapped;
            proof {
                assert(self@ =~= spec_swap(old(self)@));
            }
            true
        } else {
            false
        }
    }

    /// Ends the current unit: starts a planned match, or closes the running
    /// set of a live match once a side has reached the threshold (25, or 15
    /// in the deciding set) with a lead of at least two. Winning a third set
    /// finishes the match. Rejected in every other case.
    pub fn end_current_unit(&mut self, now: i64) -> (applied: bool)
        requires
            old(self)@.wf(),
        ensures
            final(self)@.wf(),
            final(self)@ == spec_end(old(self)@, now as int),
            applied == end_allowed(old(self)@),
    {
        match self.status {
            MatchStatus::Finished => false,
            MatchStatus::Planned => self.start(now),
            MatchStatus::InProgress => {
                let n = self.set_results_a.len();
                let pa = self.set_results_a[n - 1];
                let pb = self.set_results_b[n - 1];
                let threshold: i32 = if self.result[0] == 2 && self.result[1] == 2 {
                    15
                } else {
                    25
                };
                let margin_ok = if pa > pb {
                    pa - pb >= 2
                } else {
                    pb - pa >= 2
                };
                if (pa < threshold && pb < threshold) || !margin_ok {
                    false
                } else {
                    let winner: usize = if pa > pb {
                        0
                    } else {
                        1
                    };
                    let won = self.result[winner];
                    self.result[winner] = won + 1;
                    proof {
                        lemma_int_seq_update(old(self).result@, winner as int, (won + 1) as i32);
                    }
                    if won >= 2 {
                        self.status = MatchStatus::Finished;
                        self.swapped = false;
                        proof {
                            assert(self@ =~= spec_end(old(self)@, now as int));
                        }
                    } else {
                        self.set_results_a.push(0);
                        self.set_results_b.push(0);
                        self.set_start = now;
                        proof {
                            lemma_int_seq_push(old(self).set_results_a@, 0);
                            lemma_int_seq_push(old(self).set_results_b@, 0);
                            assert(self@ =~= spec_end(old(self)@, now as int));
                        }
                    }
                    true
                }
            },
        }
    }
}

fn clone_points(v: &Vec<i32>) -> (r: Vec<i32>)
    ensures
        r@ == v@,
{
    let mut r: Vec<i32> = Vec::new();
    let mut i: usize = 0;
    while i < v.len()
        invariant
            i <= v.len(),
            r@ == v@.subrange(0, i as int),
        decreases v.len() - i,
    {
        r.push(v[i]);
        proof {
            assert(v@.subrange(0, i as int).push(v@[i as int]) =~= v@.subrange(0, i as int + 1));
        }
        i += 1;
    }
    proof {
        assert(v@.subrange(0, v@.len() as int) =~= v@);
    }
    r
}

impl Clone for Match {
    /// A field-for-field copy: the clone has the same model as the original.
    fn clone(&self) -> (r: Self)
        ensures
            r@ == self@,
    {
        let r = Match {
            id: self.id,
            match_start: self.match_start,
            set_start: self.set_start,
            team_a: self.team_a.clone(),
            team_b: self.team_b.clone(),
            swapped: self.swapped,
            result: clone_points(&self.result),
            set_results_a: clone_points(&self.set_results_a),
            set_results_b: clone_points(&self.set_results_b),
            status: self.status,
        };
        proof {
            assert(r@ =~= self@);
        }
        r
    }
}

/// Which action the single end-current-unit control offers for a match.
#[derive(Clone, Copy, PartialEq, Eq, Structural, Debug)]
pub enum ButtonStatus {
    Start,
    EndSet,
    EndMatch,
    NoButton,
}

/// The control a match's page shows: `Start` on a planned match, `EndSet` or
/// `EndMatch` on a live match whose running set is endable, nothing otherwise.
pub open spec fn spec_button_status(v: MatchView) -> ButtonStatus {
    if v.status == MatchStatus::Finished {
        ButtonStatus::NoButton
    } else if v.status == MatchStatus::Planned {
        ButtonStatus::Start
    } else if !set_endable(v) {
        ButtonStatus::NoButton
    } else if v.sets_won[set_winner(v)] >= 2 {
        ButtonStatus::EndMatch
    } else {
        ButtonStatus::EndSet
    }
}

/// Which action the end-current-unit control should offer for `match_info`.
pub fn button_status(match_info: &Match) -> (r: ButtonStatus)
    requires
        match_info@.wf(),
    ensures
        r == spec_button_status(match_info@),
{
    if match_info.status == MatchStatus::Finished {
        return ButtonStatus::NoButton;
    }
    if match_info.status == MatchStatus::Planned {
        return ButtonStatus::Start;
    }
    let n = match_info.set_results_a.len();
    let set_points_a = match_info.set_results_a[n - 1];
    let set_points_b = match_info.set_results_b[n - 1];
    let threshold: i32 = if match_info.result[0] == 2 && match_info.result[1] == 2 {
        15
    } else {
        25
    };
    let margin_ok = if set_points_a > set_points_b {
        set_points_a - set_points_b >= 2
    } else {
        set_points_b - set_points_a >= 2
    };
    if (set_points_a < threshold && set_points_b < threshold) || !margin_ok {
        return ButtonStatus::NoButton;
    }
    let result_index: usize = if set_points_a > set_points_b {
        0
    } else {
        1
    };
    if match_info.result[result_index] >= 2 {
        ButtonStatus::EndMatch
    } else {
        ButtonStatus::EndSet
    }
}

/// The control is shown exactly when ending the current unit would apply.
pub proof fn lemma_button_matches_engine(v: MatchView)
    requires
        v.wf(),
    ensures
        (spec_button_status(v) != ButtonStatus::NoButton) <==> end_allowed(v),
{
}

/// The two point sequences keep equal lengths across every transition.
pub proof fn lemma_transitions_keep_point_lengths_equal(v: MatchView, now: int)
    requires
        v.wf(),
    ensures
        spec_start(v, now).points_a.len() == spec_start(v, now).points_b.len(),
        spec_add_point_a(v).points_a.len() == spec_add_point_a(v).points_b.len(),
        spec_add_point_b(v).points_a.len() == spec_add_point_b(v).points_b.len(),
        spec_remove_point_a(v).points_a.len() == spec_remove_point_a(v).points_b.len(),
        spec_remove_point_b(v).points_a.len() == spec_remove_point_b(v).points_b.len(),
        spec_swap(v).points_a.len() == spec_swap(v).points_b.len(),
        spec_end(v, now).points_a.len() == spec_end(v, now).points_b.len(),
{
}

/// Every transition preserves the match invariant.
pub proof fn lemma_transitions_preserve_wf(v: MatchView, now: int)
    requires
        v.wf(),
    ensures
        spec_start(v, now).wf(),
        spec_add_point_a(v).wf(),
        spec_add_point_b(v).wf(),
        spec_remove_point_a(v).wf(),
        spec_remove_point_b(v).wf(),
        spec_swap(v).wf(),
        spec_end(v, now).wf(),
{
}

/// Removing a point from a zero tally is a no-op, and adding a point never
/// pushes a tally past the integer ceiling.
pub proof fn lemma_point_floor_and_ceiling(v: MatchView)
    requires
        v.wf(),
        v.points_a.len() > 0,
    ensures
        v.last_a() == 0 ==> spec_remove_point_a(v) == v,
        v.last_b() == 0 ==> spec_remove_point_b(v) == v,
        spec_add_point_a(v).last_a() <= i32::MAX,
        spec_add_point_b(v).last_b() <= i32::MAX,
{
}

/// The running set closes only once a side has reached the threshold - 15 in
/// the deciding set (sets won two-all), 25 in every other set - with a lead
/// of at least two points.
pub proof fn lemma_end_set_threshold(v: MatchView, now: int)
    requires
        v.wf(),
        v.status == MatchStatus::InProgress,
    ensures
        end_allowed(v) <==> {
            let threshold: int = if v.sets_won[0] == 2 && v.sets_won[1] == 2 {
                15
            } else {
                25
            };
            &&& (v.last_a() >= threshold || v.last_b() >= threshold)
            &&& (v.last_a() - v.last_b() >= 2 || v.last_b() - v.last_a() >= 2)
        },
        !end_allowed(v) ==> spec_end(v, now) == v,
{
}

/// A finished match is inert: its display order is restored and no further
/// transition changes it or reports success.
pub proof fn lemma_finished_is_terminal(v: MatchView, now: int)
    requires
        v.wf(),
        v.status == MatchStatus::Finished,
    ensures
        !v.swapped,
        !can_add_point_a(v) && spec_add_point_a(v) == v,
        !can_add_point_b(v) && spec_add_point_b(v) == v,
        !can_remove_point_a(v) && spec_remove_point_a(v) == v,
        !can_remove_point_b(v) && spec_remove_point_b(v) == v,
        !swap_allowed(v) && spec_swap(v) == v,
        !start_allowed(v) && spec_start(v, now) == v,
        !end_allowed(v) && spec_end(v, now) == v,
{
}

/// `Start` is idempotent: after one `Start` a second is a no-op.
pub proof fn lemma_start_idempotent(v: MatchView, now1: int, now2: int)
    requires
        v.wf(),
    ensures
        start_allowed(v) ==> !start_allowed(spec_start(v, now1)),
        spec_start(spec_start(v, now1), now2) == spec_start(v, now1),
{
}

/// How far along its lifecycle a match is.
pub open spec fn status_rank(s: MatchStatus) -> int {
    match s {
        MatchStatus::Planned => 0,
        MatchStatus::InProgress => 1,
        MatchStatus::Finished => 2,
    }
}

/// The lifecycle is linear: no transition ever moves a match back towards
/// `Planned`.
pub proof fn lemma_status_never_goes_back(v: MatchView, now: int)
    requires
        v.wf(),
    ensures
        status_rank(spec_start(v, now).status) >= status_rank(v.status),
        status_rank(spec_add_point_a(v).status) >= status_rank(v.status),
        status_rank(spec_add_point_b(v).status) >= status_rank(v.status),
        status_rank(spec_remove_point_a(v).status) >= status_rank(v.status),
        status_rank(spec_remove_point_b(v).status) >= status_rank(v.status),
        status_rank(spec_swap(v).status) >= status_rank(v.status),
        status_rank(spec_end(v, now).status) >= status_rank(v.status),
{
}

} // verus!
