//! Practice sessions: a target of correct answers, a pending problem and
//! the log of every problem answered or skipped.

use vstd::prelude::*;

use crate::date::Date;
use crate::id::{random_id, Id};
use crate::task::{now_millis, IntRange, Task, TaskBuilder, TaskBuilderMode, TaskState};

verus! {

/// The number of tasks of `s` that are scored `st`.
pub open spec fn count_state(s: Seq<Task>, st: TaskState) -> nat
    decreases s.len(),
{
    if s.len() == 0 {
        0
    } else {
        count_state(s.drop_last(), st) + if s.last().spec_state() == st {
            1nat
        } else {
            0nat
        }
    }
}

proof fn lemma_count_push(s: Seq<Task>, t: Task, st: TaskState)
    ensures
        count_state(s.push(t), st) == count_state(s, st) + if t.spec_state() == st {
            1nat
        } else {
            0nat
        },
{
    assert(s.push(t).drop_last() =~= s);
}

/// Every logged task is counted once: as correct, as wrong, or as skipped.
pub proof fn lemma_counts_cover_log(s: Seq<Task>)
    ensures
        count_state(s, TaskState::Correct) + count_state(s, TaskState::Wrong) + count_state(
            s,
            TaskState::Skipped,
        ) == s.len(),
    decreases s.len(),
{
    if s.len() > 0 {
        lemma_counts_cover_log(s.drop_last());
    }
}

/// `c * 100 / n`, rounded to the nearest integer, halves upwards.
pub open spec fn rounded_percent(c: int, n: int) -> int {
    (200 * c + n) / (2 * n)
}

/// The decimal digit `d`.
pub open spec fn digit(d: int) -> char {
    seq!['0', '1', '2', '3', '4', '5', '6', '7', '8', '9'][d]
}

/// The decimal form of `n`, without sign or leading zeros.
pub open spec fn decimal(n: nat) -> Seq<char>
    decreases n,
{
    if n < 10 {
        seq![digit(n as int)]
    } else {
        decimal(n / 10).push(digit((n % 10) as int))
    }
}

/// An assignment's description followed by its score and its target.
pub open spec fn summary_text(description: Seq<char>, correct: nat, wrong: nat, total: nat) -> Seq<
    char,
> {
    description + " - [ "@ + decimal(correct) + " ✓ ] [ "@ + decimal(wrong) + " ✗ ] / [ "@
        + decimal(total) + " ]"@
}

/// Relies on std's `format!`, which writes a non-negative integer in
/// decimal, without sign or padding, for `{}`.
#[verifier::external_body]
fn summary(description: &String, correct: usize, wrong: usize, total: i32) -> (r: String)
    requires
        total >= 0,
    ensures
        r@ == summary_text(description@, correct as nat, wrong as nat, total as nat),
{
    format!("{} - [ {} ✓ ] [ {} ✗ ] / [ {} ]", description, correct, wrong, total)
}

/// The builder of multiplication assignments: both factors from 2 to 9.
pub open spec fn multiplication_builder() -> TaskBuilder {
    TaskBuilder {
        mode: TaskBuilderMode::Multiplication,
        xrange: IntRange { low: 2, high: 9 },
        yrange: IntRange { low: 2, high: 9 },
    }
}

/// The builder of addition and subtraction assignments: operands from 1 to 9.
pub open spec fn addition_builder() -> TaskBuilder {
    TaskBuilder {
        mode: TaskBuilderMode::AdditionAndSubtraction,
        xrange: IntRange { low: 1, high: 9 },
        yrange: IntRange { low: 1, high: 9 },
    }
}

/// A score and where it stands against the target.
#[derive(Clone, Copy, PartialEq, Eq, Structural, Debug)]
pub struct Progress {
    pub total: i32,
    pub correct: usize,
    pub wrong: usize,
    pub skipped: usize,
    pub percent_done: i32,
}

/// A practice session: problems are drawn from `builder` one at a time, the
/// pending one is `next`, and every answered or skipped one is appended to
/// `tasks`. It is done when `num_tasks` of the logged tasks are correct.
#[derive(Clone, Debug, PartialEq)]
pub struct Assignment {
    pub id: Id,
    pub due_date: Option<Date>,
    pub timed: bool,
    pub title: String,
    pub description: String,
    pub num_tasks: i32,
    pub tasks: Vec<Task>,
    pub next: Option<Task>,
    pub builder: TaskBuilder,
}

impl Assignment {
    pub open spec fn correct_count(self) -> nat {
        count_state(self.tasks@, TaskState::Correct)
    }

    pub open spec fn wrong_count(self) -> nat {
        count_state(self.tasks@, TaskState::Wrong)
    }

    pub open spec fn skipped_count(self) -> nat {
        count_state(self.tasks@, TaskState::Skipped)
    }

    /// Enough correct answers were logged.
    pub open spec fn done(self) -> bool {
        self.correct_count() == self.num_tasks
    }

    /// Not done and due on some date: homework still to do.
    pub open spec fn pending(self) -> bool {
        !self.done() && self.due_date is Some
    }

    /// A positive target that the correct answers never pass, a valid
    /// builder, and a pending problem, drawn from the builder, exactly while
    /// the assignment is not done.
    pub open spec fn wf(self) -> bool {
        &&& self.num_tasks > 0
        &&& self.builder.wf()
        &&& self.correct_count() <= self.num_tasks
        &&& (self.next is Some <==> !self.done())
        &&& (self.next matches Some(t) ==> self.builder.produces(t))
    }

    /// Everything but the log and the pending problem is the same.
    pub open spec fn same_settings(self, other: Self) -> bool {
        &&& self.id == other.id
        &&& self.due_date == other.due_date
        &&& self.timed == other.timed
        &&& self.title == other.title
        &&& self.description == other.description
        &&& self.num_tasks == other.num_tasks
        &&& self.builder == other.builder
    }

    /// The same assignment under id `id`.
    pub open spec fn with_id(self, id: Id) -> Self {
        Assignment { id, ..self }
    }

    /// A new, valid, timed assignment with an empty log.
    pub open spec fn is_fresh(self, num_tasks: i32, due_date: Option<Date>) -> bool {
        &&& self.wf()
        &&& self.num_tasks == num_tasks
        &&& self.due_date == due_date
        &&& self.timed
        &&& self.tasks@.len() == 0
    }

    /// A fresh multiplication assignment.
    pub open spec fn is_fresh_multiplication(self, num_tasks: i32, due_date: Option<Date>) -> bool {
        &&& self.is_fresh(num_tasks, due_date)
        &&& self.builder == multiplication_builder()
        &&& self.title@ == "Умножение"@
        &&& self.description@ == "едноцифрено по едноцифрено"@
    }

    /// A fresh addition and subtraction assignment.
    pub open spec fn is_fresh_addition(self, num_tasks: i32, due_date: Option<Date>) -> bool {
        &&& self.is_fresh(num_tasks, due_date)
        &&& self.builder == addition_builder()
        &&& self.title@ == "Събиране и Изваждане"@
        &&& self.description@ == "едноцифрено с едноцифрено"@
    }

    /// What `after` is once `answer` was given to the pending problem of
    /// `self`: the problem, with that answer and, when timed, a finish time,
    /// is appended to the log and a new one is drawn unless the assignment
    /// is done. Without a pending problem nothing changes.
    pub open spec fn submitted(self, after: Self, answer: Option<i32>) -> bool {
        match self.next {
            None => after == self,
            Some(p) => {
                let logged = after.tasks@.last();
                &&& after.tasks@ == self.tasks@.push(logged)
                &&& logged.x == p.x
                &&& logged.y == p.y
                &&& logged.op == p.op
                &&& logged.t_start == p.t_start
                &&& logged.answer == answer
                &&& (if self.timed {
                    logged.t_finish is Some
                } else {
                    logged.t_finish == p.t_finish
                })
                &&& after.same_settings(self)
            },
        }
    }
}

impl Assignment {
    fn count_of(&self, st: TaskState) -> (r: usize)
        ensures
            r == count_state(self.tasks@, st),
    {
        let mut n: usize = 0;
        let mut i: usize = 0;
        while i < self.tasks.len()
            invariant
                0 <= i <= self.tasks@.len(),
                n == count_state(self.tasks@.subrange(0, i as int), st),
                n <= i,
            decreases self.tasks@.len() - i,
        {
            proof {
                assert(self.tasks@.subrange(0, i + 1).drop_last() =~= self.tasks@.subrange(
                    0,
                    i as int,
                ));
            }
            if self.tasks[i].state() == st {
                n = n + 1;
            }
            i = i + 1;
        }
        proof {
            assert(self.tasks@.subrange(0, i as int) =~= self.tasks@);
        }
        n
    }

    /// Tells whether the assignment is well formed.
    pub fn is_valid(&self) -> (r: bool)
        ensures
            r == self.wf(),
    {
        if self.num_tasks <= 0 || self.builder.xrange.low > self.builder.xrange.high
            || self.builder.yrange.low > self.builder.yrange.high {
            return false;
        }
        let correct = self.count_of(TaskState::Correct);
        if correct > self.num_tasks as usize {
            return false;
        }
        let done = correct == self.num_tasks as usize;
        match self.next {
            Some(t) => !done && self.builder.can_produce(&t),
            None => done,
        }
    }

    /// A fresh multiplication assignment: both factors from 2 to 9.
    pub fn new_sd_sd_multiplication(num_tasks: i32, due_date: Option<Date>) -> (r: Self)
        requires
            num_tasks > 0,
        ensures
            r.is_fresh_multiplication(num_tasks, due_date),
    {
        let builder = TaskBuilder {
            mode: TaskBuilderMode::Multiplication,
            xrange: IntRange::inclusive(2, 9),
            yrange: IntRange::inclusive(2, 9),
        };
        let first = builder.build();
        Assignment {
            id: random_id(),
            due_date,
            timed: true,
            title: "Умножение".to_owned(),
            description: "едноцифрено по едноцифрено".to_owned(),
            num_tasks,
            tasks: Vec::new(),
            next: Some(first),
            builder,
        }
    }

    /// A fresh addition and subtraction assignment: operands from 1 to 9.
    pub fn new_sd_sd_addition(num_tasks: i32, due_date: Option<Date>) -> (r: Self)
        requires
            num_tasks > 0,
        ensures
            r.is_fresh_addition(num_tasks, due_date),
    {
        let builder = TaskBuilder {
            mode: TaskBuilderMode::AdditionAndSubtraction,
            xrange: IntRange::inclusive(1, 9),
            yrange: IntRange::inclusive(1, 9),
        };
        let first = builder.build();
        Assignment {
            id: random_id(),
            due_date,
            timed: true,
            title: "Събиране и Изваждане".to_owned(),
            description: "едноцифрено с едноцифрено".to_owned(),
            num_tasks,
            tasks: Vec::new(),
            next: Some(first),
            builder,
        }
    }

    pub fn title(&self) -> (r: String)
        ensures
            r@ == self.title@,
    {
        self.title.clone()
    }

    /// The description, the score so far and the target.
    pub fn description(&self) -> (r: String)
        requires
            self.wf(),
        ensures
            r@ == summary_text(
                self.description@,
                self.correct_count(),
                self.wrong_count(),
                self.num_tasks as nat,
            ),
    {
        let (correct, wrong) = self.score();
        summary(&self.description, correct, wrong, self.num_tasks)
    }

    /// The pending problem, if the assignment is not done.
    pub fn next(&self) -> (r: Option<Task>)
        ensures
            r == self.next,
    {
        self.next
    }

    /// A problem freshly drawn from the builder; it is not logged.
    pub fn task(&self) -> (r: Task)
        requires
            self.wf(),
        ensures
            self.builder.produces(r),
    {
        self.builder.build()
    }

    pub fn is_done(&self) -> (r: bool)
        ensures
            r == self.done(),
    {
        let correct = self.count_of(TaskState::Correct);
        self.num_tasks >= 0 && correct == self.num_tasks as usize
    }

    /// The numbers of correct and of wrong answers; skipped problems count
    /// in neither.
    pub fn score(&self) -> (r: (usize, usize))
        ensures
            r.0 == self.correct_count(),
            r.1 == self.wrong_count(),
    {
        (self.count_of(TaskState::Correct), self.count_of(TaskState::Wrong))
    }

    pub fn progress(&self) -> (r: Progress)
        requires
            self.wf(),
        ensures
            r.total == self.num_tasks,
            r.correct == self.correct_count(),
            r.wrong == self.wrong_count(),
            r.skipped == self.skipped_count(),
            r.percent_done == rounded_percent(self.correct_count() as int, self.num_tasks as int),
            r.correct + r.wrong + r.skipped == self.tasks@.len(),
            0 <= r.percent_done <= 100,
    {
        let correct = self.count_of(TaskState::Correct);
        let wrong = self.count_of(TaskState::Wrong);
        let skipped = self.count_of(TaskState::Skipped);
        proof {
            lemma_counts_cover_log(self.tasks@);
        }
        let c = correct as i64;
        let n = self.num_tasks as i64;
        assert(0 <= (200 * c + n) / (2 * n) <= 100) by (nonlinear_arith)
            requires
                0 <= c <= n,
                n > 0,
        ;
        let percent_done = ((200 * c + n) / (2 * n)) as i32;
        Progress { total: self.num_tasks, correct, wrong, skipped, percent_done }
    }

    /// Gives `answer` to the pending problem; when timed, the problem is
    /// marked finished at `finished`.
    pub fn submit_at(&mut self, answer: Option<i32>, finished: i64)
        requires
            old(self).wf(),
        ensures
            final(self).wf(),
            old(self).submitted(*final(self), answer),
            old(self).next is Some && old(self).timed ==> final(self).tasks@.last().t_finish == Some(
                finished,
            ),
    {
        match self.next {
            Some(pending) => {
                let mut task = pending;
                task.answer = answer;
                if self.timed {
                    task.t_finish = Some(finished);
                }
                proof {
                    lemma_count_push(self.tasks@, task, TaskState::Correct);
                }
                self.tasks.push(task);
                if self.is_done() {
                    self.next = None;
                } else {
                    self.next = Some(self.builder.build());
                }
            },
            None => {},
        }
    }

    /// Gives `answer` to the pending problem; when timed, the problem is
    /// marked finished now. Without a pending problem nothing changes.
    pub fn submit(&mut self, answer: Option<i32>)
        requires
            old(self).wf(),
        ensures
            final(self).wf(),
            old(self).submitted(*final(self), answer),
    {
        let finished = now_millis();
        self.submit_at(answer, finished);
    }

    /// Logs `task` unless the assignment is done; once done, no problem
    /// stays pending.
    pub fn submit_task(&mut self, task: Task)
        requires
            old(self).wf(),
        ensures
            final(self).wf(),
            final(self).same_settings(*old(self)),
            old(self).done() ==> *final(self) == *old(self),
            !old(self).done() ==> final(self).tasks@ == old(self).tasks@.push(task),
            !old(self).done() ==> final(self).next == if final(self).done() {
                None
            } else {
                old(self).next
            },
    {
        if !self.is_done() {
            proof {
                lemma_count_push(self.tasks@, task, TaskState::Correct);
            }
            self.tasks.push(task);
            if self.is_done() {
                self.next = None;
            }
        }
    }
}

/// An assignment is done exactly when as many correct answers as its target
/// were logged, and a done assignment has no pending problem.
pub proof fn lemma_done_iff_complete(a: Assignment)
    requires
        a.wf(),
    ensures
        a.done() <==> a.correct_count() == a.num_tasks,
        a.done() ==> a.next is None,
{
}

/// The counts of a progress record cover the log at most once, and count as
/// skipped exactly the tasks without an answer.
pub proof fn lemma_progress_within_log(a: Assignment)
    ensures
        a.correct_count() + a.wrong_count() + a.skipped_count() <= a.tasks@.len(),
        forall|i: int|
            0 <= i < a.tasks@.len() ==> (a.tasks@[i].spec_state() == TaskState::Skipped
                <==> a.tasks@[i].answer is None),
{
    lemma_counts_cover_log(a.tasks@);
}

} // verus!
