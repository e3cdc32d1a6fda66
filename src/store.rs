//! The store of all assignments: lookup by id, insertion with unique ids,
//! removal of free play, answers, and the daily homework schedule.

use vstd::prelude::*;
use vstd::set_lib::{lemma_int_range, lemma_len_subset, set_int_range};

use crate::assignment::Assignment;
use crate::date::Date;
use crate::id::{random_id, Id};
use crate::task::{Task, TaskBuilderMode};

verus! {

/// The number of correct answers that a daily assignment asks for.
pub const DAILY_TASKS: i32 = 100;

/// The id whose bits are `w`.
pub open spec fn id_of(w: int) -> Id {
    Id { value: w as u128 }
}

/// No two assignments of `s` share an id.
pub open spec fn ids_unique(s: Seq<Assignment>) -> bool {
    forall|i: int, j: int|
        0 <= i < s.len() && 0 <= j < s.len() && i != j ==> s[i].id != s[j].id
}

pub open spec fn has_id(s: Seq<Assignment>, id: Id) -> bool {
    exists|i: int| 0 <= i < s.len() && s[i].id == id
}

/// The position of the assignment with id `id`, where there is one.
pub open spec fn index_of(s: Seq<Assignment>, id: Id) -> int {
    choose|i: int| 0 <= i < s.len() && s[i].id == id
}

/// There is an assignment with id `id` and it has no due date.
pub open spec fn removable(s: Seq<Assignment>, id: Id) -> bool {
    has_id(s, id) && s[index_of(s, id)].due_date is None
}

/// The latest due day among the pending assignments of `s`, if any.
pub open spec fn latest_due(s: Seq<Assignment>) -> Option<int>
    decreases s.len(),
{
    if s.len() == 0 {
        None
    } else {
        let rest = latest_due(s.drop_last());
        let a = s.last();
        if a.pending() {
            let d = a.due_date.unwrap().day as int;
            match rest {
                None => Some(d),
                Some(l) => Some(
                    if d > l {
                        d
                    } else {
                        l
                    },
                ),
            }
        } else {
            rest
        }
    }
}

/// The days from `from` to `to`, both included, in order.
pub open spec fn day_range(from: int, to: int) -> Seq<int> {
    Seq::new(
        if from <= to {
            (to - from + 1) as nat
        } else {
            0
        },
        |k: int| from + k,
    )
}

/// The days that filling on day `today` schedules assignments for: today if
/// nothing is pending, else every day after the latest pending due day up
/// to today.
pub open spec fn fill_days(s: Seq<Assignment>, today: int) -> Seq<int> {
    match latest_due(s) {
        None => seq![today],
        Some(l) => day_range(l + 1, today),
    }
}

/// `after` is `before` followed by one fresh daily multiplication
/// assignment for each day of `fill_days(before, today)`, in that order.
pub open spec fn filled(before: Seq<Assignment>, after: Seq<Assignment>, today: int) -> bool {
    let days = fill_days(before, today);
    &&& after.len() == before.len() + days.len()
    &&& after.subrange(0, before.len() as int) == before
    &&& forall|k: int|
        before.len() <= k < after.len() ==> (#[trigger] after[k]).is_fresh_multiplication(
            DAILY_TASKS,
            Some(Date { day: days[k - before.len()] as i32 }),
        )
}

/// The ids of the assignments of `s` that are not done and have no due
/// date, in order.
pub open spec fn free_ids(s: Seq<Assignment>) -> Seq<Id>
    decreases s.len(),
{
    if s.len() == 0 {
        seq![]
    } else if !s.last().done() && s.last().due_date is None {
        free_ids(s.drop_last()).push(s.last().id)
    } else {
        free_ids(s.drop_last())
    }
}

/// The correct and wrong counts of the done assignments of `s` whose
/// builder has mode `mode`, in order.
pub open spec fn done_scores(s: Seq<Assignment>, mode: TaskBuilderMode) -> Seq<(usize, usize)>
    decreases s.len(),
{
    if s.len() == 0 {
        seq![]
    } else {
        let rest = done_scores(s.drop_last(), mode);
        let a = s.last();
        if a.done() && a.builder.mode == mode {
            rest.push((a.correct_count() as usize, a.wrong_count() as usize))
        } else {
            rest
        }
    }
}

/// `r` is what restoring `list` gives: a store of exactly those assignments
/// when their ids are unique and each is well formed, else nothing.
pub open spec fn restores(list: Seq<Assignment>, r: Option<Assignments>) -> bool {
    &&& r is Some <==> (ids_unique(list) && forall|i: int|
        0 <= i < list.len() ==> #[trigger] list[i].wf())
    &&& r matches Some(st) ==> st.assignments@ == list
}

proof fn lemma_index_of(s: Seq<Assignment>, id: Id, i: int)
    requires
        ids_unique(s),
        0 <= i < s.len(),
        s[i].id == id,
    ensures
        has_id(s, id),
        index_of(s, id) == i,
{
    assert(has_id(s, id));
}

/// Among the values `0..=s.len()` one is the id of no assignment of `s`.
proof fn lemma_unused_small_id(s: Seq<Assignment>)
    requires
        s.len() < u128::MAX,
    ensures
        exists|w: int| 0 <= w <= s.len() && !has_id(s, #[trigger] id_of(w)),
{
    if forall|w: int| 0 <= w <= s.len() ==> has_id(s, #[trigger] id_of(w)) {
        let vals = s.map_values(|a: Assignment| a.id.value as int);
        let used = vals.to_set();
        let small = set_int_range(0, s.len() as int + 1);
        lemma_int_range(0, s.len() as int + 1);
        vals.lemma_cardinality_of_set();
        assert(small.subset_of(used)) by {
            assert forall|w: int| small.contains(w) implies used.contains(w) by {
                assert(has_id(s, id_of(w)));
                let i = choose|i: int| 0 <= i < s.len() && s[i].id == Id { value: w as u128 };
                assert(vals[i] == w);
            }
        }
        broadcast use vstd::seq_lib::seq_to_set_is_finite;

        lemma_len_subset(small, used);
    }
}

/// All the assignments, with unique ids.
#[derive(Clone, Debug, PartialEq)]
pub struct Assignments {
    pub assignments: Vec<Assignment>,
}

impl Assignments {
    pub open spec fn wf(self) -> bool {
        &&& ids_unique(self.assignments@)
        &&& forall|i: int| 0 <= i < self.assignments@.len() ==> #[trigger] self.assignments@[i].wf()
    }

    /// An empty store.
    pub fn new() -> (r: Self)
        ensures
            r.wf(),
            r.assignments@.len() == 0,
    {
        Assignments { assignments: Vec::new() }
    }

    fn position(&self, id: Id) -> (r: Option<usize>)
        ensures
            r matches Some(i) ==> i < self.assignments@.len() && self.assignments@[i as int].id == id
                && forall|j: int| 0 <= j < i ==> self.assignments@[j].id != id,
            r is None ==> !has_id(self.assignments@, id),
    {
        let mut i: usize = 0;
        while i < self.assignments.len()
            invariant
                0 <= i <= self.assignments@.len(),
                forall|j: int| 0 <= j < i ==> self.assignments@[j].id != id,
            decreases self.assignments@.len() - i,
        {
            if self.assignments[i].id == id {
                return Some(i);
            }
            i = i + 1;
        }
        None
    }

    /// An id that no assignment of the store has.
    fn fresh_id(&self) -> (r: Id)
        ensures
            !has_id(self.assignments@, r),
    {
        let candidate = random_id();
        if self.position(candidate).is_none() {
            return candidate;
        }
        let n = self.assignments.len();
        let mut v: u128 = 0;
        while v <= n as u128
            invariant
                n == self.assignments@.len(),
                v <= n + 1,
                forall|w: int| 0 <= w < v ==> has_id(self.assignments@, #[trigger] id_of(w)),
            decreases n + 1 - v,
        {
            let id = Id { value: v };
            if self.position(id).is_none() {
                return id;
            }
            v = v + 1;
        }
        proof {
            lemma_unused_small_id(self.assignments@);
        }
        candidate
    }

    /// Checks the store's invariant on `assignments`, as loaded from a
    /// snapshot, and makes a store of them where it holds.
    pub fn restore(assignments: Vec<Assignment>) -> (r: Option<Self>)
        ensures
            restores(assignments@, r),
    {
        let st = Assignments { assignments };
        let mut i: usize = 0;
        while i < st.assignments.len()
            invariant
                0 <= i <= st.assignments@.len(),
                st.assignments@ == assignments@,
                forall|j: int| 0 <= j < i ==> #[trigger] st.assignments@[j].wf(),
                forall|a: int, b: int| 0 <= a < i && 0 <= b < i && a != b ==> st.assignments@[a].id
                    != st.assignments@[b].id,
            decreases st.assignments@.len() - i,
        {
            if !st.assignments[i].is_valid() {
                return None;
            }
            match st.position(st.assignments[i].id) {
                Some(p) => {
                    if p < i {
                        return None;
                    }
                },
                None => {},
            }
            i = i + 1;
        }
        Some(st)
    }

    /// The assignment with id `id`, if there is one.
    pub fn get(&self, id: Id) -> (r: Option<&Assignment>)
        requires
            self.wf(),
        ensures
            has_id(self.assignments@, id) ==> (r matches Some(a) && *a
                == self.assignments@[index_of(self.assignments@, id)]),
            !has_id(self.assignments@, id) ==> r is None,
    {
        match self.position(id) {
            Some(i) => {
                proof {
                    lemma_index_of(self.assignments@, id, i as int);
                }
                Some(&self.assignments[i])
            },
            None => None,
        }
    }

    /// Appends `a`; where its id is taken already, it gets a fresh one.
    pub fn push(&mut self, a: Assignment)
        requires
            old(self).wf(),
            a.wf(),
        ensures
            final(self).wf(),
            final(self).assignments@ == old(self).assignments@.push(
                final(self).assignments@.last(),
            ),
            final(self).assignments@.last() == a.with_id(final(self).assignments@.last().id),
            !has_id(old(self).assignments@, final(self).assignments@.last().id),
            !has_id(old(self).assignments@, a.id) ==> final(self).assignments@.last().id == a.id,
    {
        let mut a = a;
        if self.position(a.id).is_some() {
            a.id = self.fresh_id();
        }
        self.assignments.push(a);
        proof {
            let s = self.assignments@;
            assert forall|i: int| 0 <= i < s.len() implies #[trigger] s[i].wf() by {
                if i < s.len() - 1 {
                    assert(s[i] == old(self).assignments@[i]);
                }
            }
        }
    }

    /// Removes the assignment with id `id`, unless there is none or it has
    /// a due date: scheduled homework stays.
    pub fn remove(&mut self, id: Id)
        requires
            old(self).wf(),
        ensures
            final(self).wf(),
            removable(old(self).assignments@, id) ==> final(self).assignments@
                == old(self).assignments@.remove(index_of(old(self).assignments@, id)),
            !removable(old(self).assignments@, id) ==> final(self).assignments@
                == old(self).assignments@,
    {
        match self.position(id) {
            Some(i) => {
                proof {
                    lemma_index_of(self.assignments@, id, i as int);
                }
                if self.assignments[i].due_date.is_none() {
                    self.assignments.remove(i);
                    proof {
                        let s = self.assignments@;
                        let o = old(self).assignments@;
                        assert forall|j: int| 0 <= j < s.len() implies #[trigger] s[j].wf() by {
                            if j < i {
                                assert(s[j] == o[j]);
                            } else {
                                assert(s[j] == o[j + 1]);
                            }
                        }
                        assert forall|j: int, k: int|
                            0 <= j < s.len() && 0 <= k < s.len() && j != k implies s[j].id
                            != s[k].id by {
                            let oj = if j < i {
                                j
                            } else {
                                j + 1
                            };
                            let ok = if k < i {
                                k
                            } else {
                                k + 1
                            };
                            assert(s[j] == o[oj]);
                            assert(s[k] == o[ok]);
                        }
                    }
                }
            },
            None => {},
        }
    }

    /// Gives `answer` to the pending problem of the assignment with id `id`;
    /// without such an assignment nothing changes.
    pub fn submit(&mut self, id: Id, answer: Option<i32>)
        requires
            old(self).wf(),
        ensures
            final(self).wf(),
            !has_id(old(self).assignments@, id) ==> final(self).assignments@
                == old(self).assignments@,
            has_id(old(self).assignments@, id) ==> {
                let k = index_of(old(self).assignments@, id);
                &&& final(self).assignments@ == old(self).assignments@.update(
                    k,
                    final(self).assignments@[k],
                )
                &&& old(self).assignments@[k].submitted(final(self).assignments@[k], answer)
            },
    {
        match self.position(id) {
            Some(i) => {
                proof {
                    lemma_index_of(self.assignments@, id, i as int);
                }
                self.assignments[i].submit(answer);
                proof {
                    self.lemma_update_keeps_wf(old(self).assignments@, i as int);
                }
            },
            None => {},
        }
    }

    /// Logs `task` in the assignment with id `id`; without such an
    /// assignment nothing changes.
    pub fn submit_task(&mut self, id: Id, task: Task)
        requires
            old(self).wf(),
        ensures
            final(self).wf(),
            !has_id(old(self).assignments@, id) ==> final(self).assignments@
                == old(self).assignments@,
            has_id(old(self).assignments@, id) ==> {
                let k = index_of(old(self).assignments@, id);
                let (before, after) = (old(self).assignments@[k], final(self).assignments@[k]);
                &&& final(self).assignments@ == old(self).assignments@.update(k, after)
                &&& after.same_settings(before)
                &&& before.done() ==> after == before
                &&& !before.done() ==> after.tasks@ == before.tasks@.push(task)
            },
    {
        match self.position(id) {
            Some(i) => {
                proof {
                    lemma_index_of(self.assignments@, id, i as int);
                }
                self.assignments[i].submit_task(task);
                proof {
                    self.lemma_update_keeps_wf(old(self).assignments@, i as int);
                }
            },
            None => {},
        }
    }

    proof fn lemma_update_keeps_wf(self, o: Seq<Assignment>, i: int)
        requires
            0 <= i < o.len(),
            ids_unique(o),
            forall|j: int| 0 <= j < o.len() ==> #[trigger] o[j].wf(),
            self.assignments@ == o.update(i, self.assignments@[i]),
            self.assignments@[i].wf(),
            self.assignments@[i].id == o[i].id,
        ensures
            self.wf(),
    {
        let s = self.assignments@;
        assert forall|j: int| 0 <= j < s.len() implies #[trigger] s[j].wf() by {
            if j != i {
                assert(s[j] == o[j]);
            }
        }
        assert forall|j: int, k: int|
            0 <= j < s.len() && 0 <= k < s.len() && j != k implies s[j].id != s[k].id by {
            assert(s[j].id == o[j].id);
            assert(s[k].id == o[k].id);
        }
    }
}

impl Assignments {
    /// The latest due day among the pending assignments, if any.
    fn latest_due_day(&self) -> (r: Option<i32>)
        ensures
            r matches Some(d) ==> latest_due(self.assignments@) == Some(d as int),
            r is None ==> latest_due(self.assignments@) is None,
    {
        let mut latest: Option<i32> = None;
        let mut i: usize = 0;
        while i < self.assignments.len()
            invariant
                0 <= i <= self.assignments@.len(),
                latest matches Some(d) ==> latest_due(self.assignments@.subrange(0, i as int))
                    == Some(d as int),
                latest is None ==> latest_due(self.assignments@.subrange(0, i as int)) is None,
            decreases self.assignments@.len() - i,
        {
            proof {
                assert(self.assignments@.subrange(0, i + 1).drop_last()
                    =~= self.assignments@.subrange(0, i as int));
            }
            let a = &self.assignments[i];
            if !a.is_done() {
                match a.due_date {
                    Some(due) => {
                        latest = match latest {
                            None => Some(due.day),
                            Some(l) => Some(
                                if due.day > l {
                                    due.day
                                } else {
                                    l
                                },
                            ),
                        };
                    },
                    None => {},
                }
            }
            i = i + 1;
        }
        proof {
            assert(self.assignments@.subrange(0, i as int) =~= self.assignments@);
        }
        latest
    }

    /// Schedules homework up to `today`: with nothing pending, one daily
    /// multiplication assignment due today; otherwise one for each day after
    /// the latest pending due day, up to and including today.
    pub fn fill(&mut self, today: Date)
        requires
            old(self).wf(),
        ensures
            final(self).wf(),
            filled(old(self).assignments@, final(self).assignments@, today.day as int),
    {
        let ghost before = self.assignments@;
        match self.latest_due_day() {
            None => {
                self.push(Assignment::new_sd_sd_multiplication(DAILY_TASKS, Some(today)));
                proof {
                    assert(self.assignments@.subrange(0, before.len() as int) =~= before);
                }
            },
            Some(latest) => {
                let first: i64 = latest as i64 + 1;
                let mut day: i64 = first;
                proof {
                    assert(self.assignments@.subrange(0, before.len() as int) =~= before);
                }
                while day <= today.day as i64
                    invariant
                        first == latest + 1,
                        first <= day,
                        day <= today.day + 1 || day == first,
                        self.wf(),
                        self.assignments@.len() == before.len() + (day - first),
                        self.assignments@.subrange(0, before.len() as int) == before,
                        forall|k: int|
                            before.len() <= k < self.assignments@.len()
                                ==> #[trigger] self.assignments@[k].is_fresh_multiplication(
                                DAILY_TASKS,
                                Some(Date { day: (first + (k - before.len())) as i32 }),
                            ),
                    decreases today.day + 1 - day,
                {
                    let ghost prev = self.assignments@;
                    self.push(
                        Assignment::new_sd_sd_multiplication(
                            DAILY_TASKS,
                            Some(Date::from_day(day as i32)),
                        ),
                    );
                    proof {
                        let s = self.assignments@;
                        assert(s.subrange(0, before.len() as int) =~= before) by {
                            assert forall|j: int| 0 <= j < before.len() implies s[j] == before[j] by {
                                assert(s[j] == prev[j]);
                                assert(prev.subrange(0, before.len() as int)[j] == prev[j]);
                            }
                        }
                        assert forall|k: int| before.len() <= k < s.len()
                            implies #[trigger] s[k].is_fresh_multiplication(
                            DAILY_TASKS,
                            Some(Date { day: (first + (k - before.len())) as i32 }),
                        ) by {
                            if k < s.len() - 1 {
                                assert(s[k] == prev[k]);
                            }
                        }
                    }
                    day = day + 1;
                }
            },
        }
    }

    /// The correct and wrong counts of the done assignments of mode `mode`.
    pub fn done_scores(&self, mode: TaskBuilderMode) -> (r: Vec<(usize, usize)>)
        ensures
            r@ == done_scores(self.assignments@, mode),
    {
        let mut scores: Vec<(usize, usize)> = Vec::new();
        let mut i: usize = 0;
        while i < self.assignments.len()
            invariant
                0 <= i <= self.assignments@.len(),
                scores@ == done_scores(self.assignments@.subrange(0, i as int), mode),
            decreases self.assignments@.len() - i,
        {
            proof {
                assert(self.assignments@.subrange(0, i + 1).drop_last()
                    =~= self.assignments@.subrange(0, i as int));
            }
            let a = &self.assignments[i];
            if a.is_done() && a.builder.mode == mode {
                scores.push(a.score());
            }
            i = i + 1;
        }
        proof {
            assert(self.assignments@.subrange(0, i as int) =~= self.assignments@);
        }
        scores
    }

    /// The ids of the free play assignments still open: not done and without
    /// a due date, in order.
    pub fn free_play(&self) -> (r: Vec<Id>)
        ensures
            r@ == free_ids(self.assignments@),
    {
        let mut ids: Vec<Id> = Vec::new();
        let mut i: usize = 0;
        while i < self.assignments.len()
            invariant
                0 <= i <= self.assignments@.len(),
                ids@ == free_ids(self.assignments@.subrange(0, i as int)),
            decreases self.assignments@.len() - i,
        {
            proof {
                assert(self.assignments@.subrange(0, i + 1).drop_last()
                    =~= self.assignments@.subrange(0, i as int));
            }
            let a = &self.assignments[i];
            if !a.is_done() && a.due_date.is_none() {
                ids.push(a.id);
            }
            i = i + 1;
        }
        proof {
            assert(self.assignments@.subrange(0, i as int) =~= self.assignments@);
        }
        ids
    }
}

/// Restoring the assignments of a well-formed store gives back a store with
/// the same assignments: same ids, due dates, logs and builders.
pub proof fn lemma_snapshot_round_trip(s: Assignments, r: Option<Assignments>)
    requires
        s.wf(),
        restores(s.assignments@, r),
    ensures
        r matches Some(t) && t.assignments@ == s.assignments@,
{
}

/// Filling a second time on the same day schedules nothing more: the store
/// after two fills is the store after one.
pub proof fn lemma_fill_twice(
    before: Seq<Assignment>,
    once: Seq<Assignment>,
    twice: Seq<Assignment>,
    today: i32,
)
    requires
        filled(before, once, today as int),
        filled(once, twice, today as int),
    ensures
        twice == once,
{
    let days = fill_days(before, today as int);
    if days.len() > 0 {
        let last = once.len() - 1;
        assert(once[last].is_fresh_multiplication(
            DAILY_TASKS,
            Some(Date { day: days[last - before.len()] as i32 }),
        ));
        assert(days[days.len() - 1] == today);
        assert(once.drop_last().len() == once.len() - 1);
        match latest_due(once) {
            Some(l) => assert(l >= today),
            None => assert(false),
        }
    } else {
        assert(once =~= before);
    }
    assert(fill_days(once, today as int).len() == 0);
    assert(twice =~= twice.subrange(0, once.len() as int));
}

} // verus!
