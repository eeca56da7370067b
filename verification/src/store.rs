//! The match store: the single source of truth for match state.
//!
//! Every mutation is a conditional update: the precondition check and the
//! write happen in one call against the store, so a caller can never observe
//! a half-applied transition. Creation validates team names and the optional
//! schedule before any state exists.

use vstd::prelude::*;
use vstd::string::StrSliceExecFns;

use crate::scoring::{
    Match, MatchStatus, MatchView, can_add_point_a, can_add_point_b, can_remove_point_a,
    can_remove_point_b, end_allowed, spec_add_point_a, spec_add_point_b, spec_end,
    spec_remove_point_a, spec_remove_point_b, spec_swap, swap_allowed,
};

verus! {

/// Why a match could not be created.
#[derive(Clone, Copy, PartialEq, Eq, Structural, Debug)]
pub enum MatchAddError {
    TeamNameEmpty,
    TeamNameTooLong,
    DuplicateTeamName,
    PastDate,
    IncorrectDateFormat,
}

impl MatchAddError {
    /// The message shown to the user for this rejection.
    pub fn message(&self) -> (r: &'static str)
        ensures
            r@ == match *self {
                MatchAddError::TeamNameEmpty => "Team names cannot be empty"@,
                MatchAddError::DuplicateTeamName => "Team names cannot be the same"@,
                MatchAddError::PastDate => "Past dates are not allowed"@,
                MatchAddError::IncorrectDateFormat => "Incorrect date format. Date has to be a valid ISO8601 timestamp. Leave empty to use current time"@,
                MatchAddError::TeamNameTooLong => "Team name can't be longer than 50 characters"@,
            },
    {
        match *self {
            MatchAddError::TeamNameEmpty => "Team names cannot be empty",
            MatchAddError::DuplicateTeamName => "Team names cannot be the same",
            MatchAddError::PastDate => "Past dates are not allowed",
            MatchAddError::IncorrectDateFormat => "Incorrect date format. Date has to be a valid ISO8601 timestamp. Leave empty to use current time",
            MatchAddError::TeamNameTooLong => "Team name can't be longer than 50 characters",
        }
    }
}

/// The characters of a string with leading and trailing whitespace removed.
pub uninterp spec fn trim_of(s: Seq<char>) -> Seq<char>;

/// The UTC unix-second reading of a string as an ISO-8601 timestamp, or
/// `None` when the string is not one.
pub uninterp spec fn iso8601_unix_of(s: Seq<char>) -> Option<i64>;

/// Relies on str::trim: the input without leading and trailing whitespace,
/// a function of the characters alone.
#[verifier::external_body]
fn trim_str(s: &str) -> (r: String)
    ensures
        r@ == trim_of(s@),
        r@.len() <= s@.len(),
{
    s.trim().to_owned()
}

/// Relies on time's PrimitiveDateTime::parse with the well-known ISO-8601
/// format, read as UTC and taken to unix seconds; a function of the
/// characters alone.
#[verifier::external_body]
fn parse_iso8601_unix(s: &str) -> (r: Option<i64>)
    ensures
        r == iso8601_unix_of(s@),
{
    match time::PrimitiveDateTime::parse(s, &time::format_description::well_known::Iso8601::DEFAULT)
    {
        Ok(d) => Some(d.assume_utc().unix_timestamp()),
        Err(_) => None,
    }
}

/// The validation outcome for a creation request: the rejection it earns, or
/// `None` when a match may be created. Checks run in order: empty name, name
/// over 50 characters, identical names, then - only when a date was supplied -
/// date format and the strictly-in-the-future rule.
pub open spec fn creation_error(
    team_a: Seq<char>,
    team_b: Seq<char>,
    match_date: Seq<char>,
    now: int,
) -> Option<MatchAddError> {
    let ta = trim_of(team_a);
    let tb = trim_of(team_b);
    if ta.len() == 0 || tb.len() == 0 {
        Some(MatchAddError::TeamNameEmpty)
    } else if ta.len() > 50 || tb.len() > 50 {
        Some(MatchAddError::TeamNameTooLong)
    } else if ta == tb {
        Some(MatchAddError::DuplicateTeamName)
    } else if trim_of(match_date).len() == 0 {
        None
    } else {
        match iso8601_unix_of(match_date) {
            Some(t) => if t > now {
                None
            } else {
                Some(MatchAddError::PastDate)
            },
            None => Some(MatchAddError::IncorrectDateFormat),
        }
    }
}

/// There is an entry with this id.
pub open spec fn has_id(s: Seq<MatchView>, id: int) -> bool {
    exists|i: int| 0 <= i < s.len() && s[i].id == id
}

/// The position of the entry with this id (unique while ids are distinct).
pub open spec fn id_index(s: Seq<MatchView>, id: int) -> int {
    choose|i: int| 0 <= i < s.len() && s[i].id == id
}

/// The entry with this id.
pub open spec fn match_with_id(s: Seq<MatchView>, id: int) -> MatchView {
    s[id_index(s, id)]
}

/// No two entries share an id.
pub open spec fn distinct_ids(s: Seq<MatchView>) -> bool {
    forall|i: int, j: int| 0 <= i < j < s.len() ==> s[i].id != s[j].id
}

/// With distinct ids, any position holding the id is the one `id_index` picks.
pub proof fn lemma_id_index_is_unique(s: Seq<MatchView>, id: int, i: int)
    requires
        distinct_ids(s),
        0 <= i < s.len(),
        s[i].id == id,
    ensures
        id_index(s, id) == i,
        has_id(s, id),
{
    assert(has_id(s, id));
    let j = id_index(s, id);
    if j != i {
        if j < i {
            assert(s[j].id != s[i].id);
        } else {
            assert(s[i].id != s[j].id);
        }
    }
}

/// The models of a sequence of matches, in order.
spec fn views_of(v: Seq<Match>) -> Seq<MatchView> {
    Seq::new(v.len(), |i: int| v[i]@)
}

proof fn lemma_views_of_push(v: Seq<Match>, m: Match)
    ensures
        views_of(v.push(m)) =~= views_of(v).push(m@),
{
}

proof fn lemma_views_of_remove(v: Seq<Match>, i: int)
    requires
        0 <= i < v.len(),
    ensures
        views_of(v.remove(i)) =~= views_of(v).remove(i),
{
}

proof fn lemma_views_of_replace(v: Seq<Match>, i: int, m: Match)
    requires
        0 <= i < v.len(),
    ensures
        views_of(v.remove(i).insert(i, m)) =~= views_of(v).update(i, m@),
{
}

/// The durable collection of matches, keyed by id. Ids are assigned at
/// creation from a counter and never reused, so they stay distinct.
pub struct MatchStore {
    matches: Vec<Match>,
    next_id: i32,
}

impl View for MatchStore {
    type V = Seq<MatchView>;

    closed spec fn view(&self) -> Seq<MatchView> {
        views_of(self.matches@)
    }
}

impl MatchStore {
    /// Every entry satisfies the match invariant, ids are distinct, and the
    /// id counter is strictly above every assigned id.
    pub closed spec fn wf(&self) -> bool {
        &&& (forall|i: int| 0 <= i < self@.len() ==> (#[trigger] self@[i]).wf())
        &&& distinct_ids(self@)
        &&& (forall|i: int| 0 <= i < self@.len() ==> (#[trigger] self@[i]).id < self.next_id)
        &&& 1 <= self.next_id
    }

    /// A fresh id can still be assigned.
    pub closed spec fn can_assign_id(&self) -> bool {
        self.next_id < i32::MAX
    }

    /// An empty store.
    pub fn new() -> (s: MatchStore)
        ensures
            s.wf(),
            s@ == Seq::<MatchView>::empty(),
            s.can_assign_id(),
    {
        let s = MatchStore { matches: Vec::new(), next_id: 1 };
        proof {
            assert(s@ =~= Seq::<MatchView>::empty());
        }
        s
    }

    /// Whether a fresh id can still be assigned, so a creation may be tried.
    pub fn can_add_match(&self) -> (r: bool)
        ensures
            r == self.can_assign_id(),
    {
        self.next_id < i32::MAX
    }

    /// The position of the entry with this id, if any.
    fn find_index(&self, match_id: i32) -> (r: Option<usize>)
        ensures
            match r {
                Some(i) => i < self@.len() && self@[i as int].id == match_id as int,
                None => !has_id(self@, match_id as int),
            },
    {
        let mut i: usize = 0;
        while i < self.matches.len()
            invariant
                i <= self.matches.len(),
                self@.len() == self.matches@.len(),
                forall|j: int| 0 <= j < i ==> (#[trigger] self@[j]).id != match_id as int,
            decreases self.matches.len() - i,
        {
            if self.matches[i].id == match_id {
                return Some(i);
            }
            i += 1;
        }
        None
    }

    /// Whether a match with this id exists.
    pub fn match_exists(&self, match_id: i32) -> (r: bool)
        ensures
            r == has_id(self@, match_id as int),
    {
        match self.find_index(match_id) {
            Some(_) => {
                proof {
                    assert(has_id(self@, match_id as int));
                }
                true
            },
            None => false,
        }
    }

    /// An immutable snapshot of the match with this id, if any.
    pub fn get_match(&self, match_id: i32) -> (r: Option<Match>)
        requires
            self.wf(),
        ensures
            match r {
                Some(m) => has_id(self@, match_id as int) && m@ == match_with_id(
                    self@,
                    match_id as int,
                ) && m@.id == match_id as int && m@.wf(),
                None => !has_id(self@, match_id as int),
            },
    {
        match self.find_index(match_id) {
            Some(i) => {
                proof {
                    lemma_id_index_is_unique(self@, match_id as int, i as int);
                }
                Some(self.matches[i].clone())
            },
            None => None,
        }
    }

    /// Immutable snapshots of every match, in creation order.
    pub fn get_matches(&self) -> (r: Vec<Match>)
        ensures
            r@.len() == self@.len(),
            forall|i: int| 0 <= i < self@.len() ==> (#[trigger] r@[i])@ == self@[i],
    {
        let mut r: Vec<Match> = Vec::new();
        let mut i: usize = 0;
        while i < self.matches.len()
            invariant
                i <= self.matches.len(),
                self@.len() == self.matches@.len(),
                r@.len() == i,
                forall|j: int| 0 <= j < i ==> (#[trigger] r@[j])@ == self@[j],
            decreases self.matches.len() - i,
        {
            r.push(self.matches[i].clone());
            i += 1;
        }
        r
    }

    /// Validates a creation request and, when it passes, registers a planned
    /// match under a fresh id with the trimmed names. The supplied schedule
    /// must be a strictly future ISO-8601 timestamp; an empty date schedules
    /// nothing and the clocks are primed with `now`. On rejection the store
    /// is untouched. Returns a snapshot of the new match.
    pub fn add_match(
        &mut self,
        team_a_name: &str,
        team_b_name: &str,
        match_date: &str,
        now: i64,
    ) -> (r: Result<Match, MatchAddError>)
        requires
            old(self).wf(),
            old(self).can_assign_id(),
        ensures
            final(self).wf(),
            match r {
                Ok(m) => {
                    &&& creation_error(team_a_name@, team_b_name@, match_date@, now as int)
                        is None
                    &&& !has_id(old(self)@, m@.id)
                    &&& final(self)@ == old(self)@.push(m@)
                    &&& m@.wf()
                    &&& m@.team_a == trim_of(team_a_name@)
                    &&& m@.team_b == trim_of(team_b_name@)
                    &&& m@.status == MatchStatus::Planned
                    &&& m@.swapped == false
                    &&& m@.points_a == Seq::<int>::empty()
                    &&& m@.points_b == Seq::<int>::empty()
                    &&& m@.sets_won == seq![0int, 0int]
                    &&& m@.set_start == m@.match_start
                    &&& (trim_of(match_date@).len() == 0 ==> m@.match_start == now as int)
                    &&& (trim_of(match_date@).len() != 0 ==> (iso8601_unix_of(match_date@)
                        matches Some(t) && m@.match_start == t as int))
                },
                Err(e) => {
                    &&& creation_error(team_a_name@, team_b_name@, match_date@, now as int)
                        == Some(e)
                    &&& final(self)@ == old(self)@
                },
            },
    {
        let ta = trim_str(team_a_name);
        let tb = trim_str(team_b_name);
        if ta.as_str().unicode_len() == 0 || tb.as_str().unicode_len() == 0 {
            return Err(MatchAddError::TeamNameEmpty);
        }
        if ta.as_str().unicode_len() > 50 || tb.as_str().unicode_len() > 50 {
            return Err(MatchAddError::TeamNameTooLong);
        }
        if ta == tb {
            return Err(MatchAddError::DuplicateTeamName);
        }
        let td = trim_str(match_date);
        let start_time: i64;
        if td.as_str().unicode_len() == 0 {
            start_time = now;
        } else {
            match parse_iso8601_unix(match_date) {
                Some(t) => {
                    if t > now {
                        start_time = t;
                    } else {
                        return Err(MatchAddError::PastDate);
                    }
                },
                None => {
                    return Err(MatchAddError::IncorrectDateFormat);
                },
            }
        }
        let id = self.next_id;
        self.next_id = self.next_id + 1;
        let mut result: Vec<i32> = Vec::new();
        result.push(0);
        result.push(0);
        let m = Match {
            id,
            match_start: start_time,
            set_start: start_time,
            team_a: ta,
            team_b: tb,
            swapped: false,
            result,
            set_results_a: Vec::new(),
            set_results_b: Vec::new(),
            status: MatchStatus::Planned,
        };
        let snapshot = m.clone();
        proof {
            assert(m@.sets_won =~= seq![0int, 0int]);
            assert(m@.points_a =~= Seq::<int>::empty());
            assert(m@.points_b =~= Seq::<int>::empty());
            lemma_views_of_push(self.matches@, m);
        }
        self.matches.push(m);
        Ok(snapshot)
    }

    /// Deletes the match with this id, in any status. Reports whether a row
    /// was removed.
    pub fn remove_match(&mut self, match_id: i32) -> (applied: bool)
        requires
            old(self).wf(),
        ensures
            final(self).wf(),
            applied == has_id(old(self)@, match_id as int),
            applied ==> final(self)@ == old(self)@.remove(
                id_index(old(self)@, match_id as int),
            ),
            !applied ==> final(self)@ == old(self)@,
    {
        match self.find_index(match_id) {
            Some(i) => {
                proof {
                    lemma_id_index_is_unique(self@, match_id as int, i as int);
                    lemma_views_of_remove(self.matches@, i as int);
                }
                self.matches.remove(i);
                true
            },
            None => false,
        }
    }

    /// Toggles the display order of the match with this id; applied only
    /// while the match is live. The check and the write are one call.
    pub fn swap_teams(&mut self, match_id: i32) -> (applied: bool)
        requires
            old(self).wf(),
        ensures
            final(self).wf(),
            final(self)@.len() == old(self)@.len(),
            forall|i: int|
                0 <= i < old(self)@.len() && (#[trigger] old(self)@[i]).id != match_id as int
                    ==> final(self)@[i] == old(self)@[i],
            forall|i: int|
                0 <= i < old(self)@.len() && (#[trigger] old(self)@[i]).id == match_id as int
                    ==> final(self)@[i] == spec_swap(old(self)@[i]) && applied == swap_allowed(
                    old(self)@[i],
                ),
            !has_id(old(self)@, match_id as int) ==> !applied && final(self)@ == old(self)@,
    {
        match self.find_index(match_id) {
            Some(i) => {
                let mut m = self.matches.remove(i);
                let applied = m.swap();
                self.matches.insert(i, m);
                proof {
                    lemma_id_index_is_unique(old(self)@, match_id as int, i as int);
                    lemma_views_of_replace(old(self).matches@, i as int, m);
                    assert(self@ =~= old(self)@.update(
                        i as int,
                        spec_swap(old(self)@[i as int]),
                    ));
                }
                applied
            },
            None => false,
        }
    }

    /// Adds one point for side A on the match with this id; applied only
    /// while the match is live and below the ceiling. One atomic call.
    pub fn add_set_point_a(&mut self, match_id: i32) -> (applied: bool)
        requires
            old(self).wf(),
        ensures
            final(self).wf(),
            final(self)@.len() == old(self)@.len(),
            forall|i: int|
                0 <= i < old(self)@.len() && (#[trigger] old(self)@[i]).id != match_id as int
                    ==> final(self)@[i] == old(self)@[i],
            forall|i: int|
                0 <= i < old(self)@.len() && (#[trigger] old(self)@[i]).id == match_id as int
                    ==> final(self)@[i] == spec_add_point_a(old(self)@[i]) && applied
                    == can_add_point_a(old(self)@[i]),
            !has_id(old(self)@, match_id as int) ==> !applied && final(self)@ == old(self)@,
    {
        match self.find_index(match_id) {
            Some(i) => {
                let mut m = self.matches.remove(i);
                let applied = m.add_point_a();
                self.matches.insert(i, m);
                proof {
                    lemma_id_index_is_unique(old(self)@, match_id as int, i as int);
                    lemma_views_of_replace(old(self).matches@, i as int, m);
                    assert(self@ =~= old(self)@.update(
                        i as int,
                        spec_add_point_a(old(self)@[i as int]),
                    ));
                }
                applied
            },
            None => false,
        }
    }

    /// Adds one point for side B on the match with this id; applied only
    /// while the match is live and below the ceiling. One atomic call.
    pub fn add_set_point_b(&mut self, match_id: i32) -> (applied: bool)
        requires
            old(self).wf(),
        ensures
            final(self).wf(),
            final(self)@.len() == old(self)@.len(),
            forall|i: int|
                0 <= i < old(self)@.len() && (#[trigger] old(self)@[i]).id != match_id as int
                    ==> final(self)@[i] == old(self)@[i],
            forall|i: int|
                0 <= i < old(self)@.len() && (#[trigger] old(self)@[i]).id == match_id as int
                    ==> final(self)@[i] == spec_add_point_b(old(self)@[i]) && applied
                    == can_add_point_b(old(self)@[i]),
            !has_id(old(self)@, match_id as int) ==> !applied && final(self)@ == old(self)@,
    {
        match self.find_index(match_id) {
            Some(i) => {
                let mut m = self.matches.remove(i);
                let applied = m.add_point_b();
                self.matches.insert(i, m);
                proof {
                    lemma_id_index_is_unique(old(self)@, match_id as int, i as int);
                    lemma_views_of_replace(old(self).matches@, i as int, m);
                    assert(self@ =~= old(self)@.update(
                        i as int,
                        spec_add_point_b(old(self)@[i as int]),
                    ));
                }
                applied
            },
            None => false,
        }
    }

    /// Removes one point from side A on the match with this id; applied only
    /// while the match is live and the tally is above zero. One atomic call.
    pub fn remove_set_point_a(&mut self, match_id: i32) -> (applied: bool)
        requires
            old(self).wf(),
        ensures
            final(self).wf(),
            final(self)@.len() == old(self)@.len(),
            forall|i: int|
                0 <= i < old(self)@.len() && (#[trigger] old(self)@[i]).id != match_id as int
                    ==> final(self)@[i] == old(self)@[i],
            forall|i: int|
                0 <= i < old(self)@.len() && (#[trigger] old(self)@[i]).id == match_id as int
                    ==> final(self)@[i] == spec_remove_point_a(old(self)@[i]) && applied
                    == can_remove_point_a(old(self)@[i]),
            !has_id(old(self)@, match_id as int) ==> !applied && final(self)@ == old(self)@,
    {
        match self.find_index(match_id) {
            Some(i) => {
                let mut m = self.matches.remove(i);
                let applied = m.remove_point_a();
                self.matches.insert(i, m);
                proof {
                    lemma_id_index_is_unique(old(self)@, match_id as int, i as int);
                    lemma_views_of_replace(old(self).matches@, i as int, m);
                    assert(self@ =~= old(self)@.update(
                        i as int,
                        spec_remove_point_a(old(self)@[i as int]),
                    ));
                }
                applied
            },
            None => false,
        }
    }

    /// Removes one point from side B on the match with this id; applied only
    /// while the match is live and the tally is above zero. One atomic call.
    pub fn remove_set_point_b(&mut self, match_id: i32) -> (applied: bool)
        requires
            old(self).wf(),
        ensures
            final(self).wf(),
            final(self)@.len() == old(self)@.len(),
            forall|i: int|
                0 <= i < old(self)@.len() && (#[trigger] old(self)@[i]).id != match_id as int
                    ==> final(self)@[i] == old(self)@[i],
            forall|i: int|
                0 <= i < old(self)@.len() && (#[trigger] old(self)@[i]).id == match_id as int
                    ==> final(self)@[i] == spec_remove_point_b(old(self)@[i]) && applied
                    == can_remove_point_b(old(self)@[i]),
            !has_id(old(self)@, match_id as int) ==> !applied && final(self)@ == old(self)@,
    {
        match self.find_index(match_id) {
            Some(i) => {
                let mut m = self.matches.remove(i);
                let applied = m.remove_point_b();
                self.matches.insert(i, m);
                proof {
                    lemma_id_index_is_unique(old(self)@, match_id as int, i as int);
                    lemma_views_of_replace(old(self).matches@, i as int, m);
                    assert(self@ =~= old(self)@.update(
                        i as int,
                        spec_remove_point_b(old(self)@[i as int]),
                    ));
                }
                applied
            },
            None => false,
        }
    }

    /// Ends the current unit of the match with this id: starts a planned
    /// match, or closes an endable running set (and possibly the match). The
    /// threshold check and every resulting field update are one call against
    /// the store, so no point mutation can interleave.
    pub fn end_set(&mut self, match_id: i32, now: i64) -> (applied: bool)
        requires
            old(self).wf(),
        ensures
            final(self).wf(),
            final(self)@.len() == old(self)@.len(),
            forall|i: int|
                0 <= i < old(self)@.len() && (#[trigger] old(self)@[i]).id != match_id as int
                    ==> final(self)@[i] == old(self)@[i],
            forall|i: int|
                0 <= i < old(self)@.len() && (#[trigger] old(self)@[i]).id == match_id as int
                    ==> final(self)@[i] == spec_end(old(self)@[i], now as int) && applied
                    == end_allowed(old(self)@[i]),
            !has_id(old(self)@, match_id as int) ==> !applied && final(self)@ == old(self)@,
    {
        match self.find_index(match_id) {
            Some(i) => {
                let mut m = self.matches.remove(i);
                let applied = m.end_current_unit(now);
                self.matches.insert(i, m);
                proof {
                    lemma_id_index_is_unique(old(self)@, match_id as int, i as int);
                    lemma_views_of_replace(old(self).matches@, i as int, m);
                    assert(self@ =~= old(self)@.update(
                        i as int,
                        spec_end(old(self)@[i as int], now as int),
                    ));
                }
                applied
            },
            None => false,
        }
    }
}

} // verus!
