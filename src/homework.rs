//! The index of homework still to do, grouped by due day.

use std::collections::BTreeMap;
use vstd::prelude::*;

use crate::assignment::Assignment;
use crate::date::Date;
use crate::id::Id;

verus! {

/// The ids of the pending assignments of `s` due on day `d`, in order.
pub open spec fn due_ids(s: Seq<Assignment>, d: int) -> Seq<Id>
    decreases s.len(),
{
    if s.len() == 0 {
        seq![]
    } else {
        let rest = due_ids(s.drop_last(), d);
        let a = s.last();
        if a.pending() && a.due_date.unwrap().day == d {
            rest.push(a.id)
        } else {
            rest
        }
    }
}

/// `m` maps each day to the ids of the pending assignments of `s` due that
/// day, and has no other keys.
pub open spec fn indexes_map(m: Map<i32, Vec<Id>>, s: Seq<Assignment>) -> bool {
    &&& forall|d: i32| #[trigger] m.contains_key(d) <==> due_ids(s, d as int).len() > 0
    &&& forall|d: i32| #[trigger] m.contains_key(d) ==> m[d]@ == due_ids(s, d as int)
}

/// The homework still to do: for each due day (a day number, see `Date`)
/// the ids of the assignments due that day and not done yet, in the
/// store's order. Days without such an assignment have no entry.
#[derive(Clone, Debug, PartialEq)]
pub struct Homework {
    pub homework: BTreeMap<i32, Vec<Id>>,
}

impl Homework {
    /// The index holds exactly the pending assignments of `s`.
    pub open spec fn indexes(self, s: Seq<Assignment>) -> bool {
        indexes_map(self.homework@, s)
    }

    /// Groups the pending assignments by due day.
    pub fn from_assignments(assignments: &Vec<Assignment>) -> (r: Homework)
        ensures
            r.indexes(assignments@),
    {
        broadcast use vstd::laws_cmp::group_laws_cmp;

        let mut map: BTreeMap<i32, Vec<Id>> = BTreeMap::new();
        let mut i: usize = 0;
        while i < assignments.len()
            invariant
                0 <= i <= assignments@.len(),
                indexes_map(map@, assignments@.subrange(0, i as int)),
            decreases assignments@.len() - i,
        {
            let ghost prefix = assignments@.subrange(0, i as int);
            let ghost next = assignments@.subrange(0, i + 1);
            proof {
                assert(next.drop_last() =~= prefix);
            }
            let a = &assignments[i];
            let ghost m0 = map@;
            proof {
                assert(next.last() == *a);
                assert forall|d: i32| #[trigger]
                    due_ids(next, d as int) == if a.pending() && a.due_date.unwrap().day == d {
                        due_ids(prefix, d as int).push(a.id)
                    } else {
                        due_ids(prefix, d as int)
                    } by {}
            }
            if !a.is_done() {
                match a.due_date {
                    Some(due) => {
                        let mut ids = match map.remove(&due.day) {
                            Some(v) => v,
                            None => Vec::new(),
                        };
                        proof {
                            assert(ids@ == due_ids(prefix, due.day as int)) by {
                                if !m0.contains_key(due.day) {
                                    assert(due_ids(prefix, due.day as int) =~= seq![]);
                                }
                            }
                        }
                        ids.push(a.id);
                        map.insert(due.day, ids);
                    },
                    None => {},
                }
            }
            i = i + 1;
        }
        proof {
            assert(assignments@.subrange(0, i as int) =~= assignments@);
        }
        Homework { homework: map }
    }
}

/// Where a due date stands against today.
#[derive(Clone, Copy, PartialEq, Eq, Structural, Debug)]
pub enum DueStatus {
    Upcoming,
    Today,
    Overdue,
}

/// Whether homework due on day `due_day` is for later, for today, or late.
pub fn due_status(due_day: i32, today: Date) -> (r: DueStatus)
    ensures
        due_day > today.day <==> r == DueStatus::Upcoming,
        due_day == today.day <==> r == DueStatus::Today,
        due_day < today.day <==> r == DueStatus::Overdue,
{
    if due_day > today.day {
        DueStatus::Upcoming
    } else if due_day == today.day {
        DueStatus::Today
    } else {
        DueStatus::Overdue
    }
}

} // verus!
