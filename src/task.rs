//! Arithmetic problems, how they are scored, and the builders that draw
//! them at random from operand ranges.

use rand::Rng;
use vstd::prelude::*;

verus! {

/// An arithmetic operator.
#[derive(Clone, Copy, PartialEq, Eq, Structural, Debug)]
pub enum Operation {
    Addition,
    Subtraction,
    Multiplication,
}

impl Operation {
    /// The exact value of `x op y`.
    pub open spec fn result(self, x: int, y: int) -> int {
        match self {
            Operation::Addition => x + y,
            Operation::Subtraction => x - y,
            Operation::Multiplication => x * y,
        }
    }

    /// Computes `x op y`; the result must fit in an `i32`.
    pub fn apply(&self, x: i32, y: i32) -> (r: i32)
        requires
            i32::MIN <= self.result(x as int, y as int) <= i32::MAX,
        ensures
            r == self.result(x as int, y as int),
    {
        match self {
            Operation::Addition => x + y,
            Operation::Subtraction => x - y,
            Operation::Multiplication => x * y,
        }
    }

    /// Computes `x op y` without any bound on the operands.
    fn apply_wide(&self, x: i32, y: i32) -> (r: i64)
        ensures
            r == self.result(x as int, y as int),
    {
        let a = x as i64;
        let b = y as i64;
        match self {
            Operation::Addition => a + b,
            Operation::Subtraction => a - b,
            Operation::Multiplication => {
                assert(-0x4000_0000_0000_0000 <= a * b <= 0x4000_0000_0000_0000) by (nonlinear_arith)
                    requires
                        -0x8000_0000 <= a <= 0x7fff_ffff,
                        -0x8000_0000 <= b <= 0x7fff_ffff,
                ;
                a * b
            },
        }
    }
}

/// How a logged task was scored.
#[derive(Clone, Copy, PartialEq, Eq, Structural, Debug)]
pub enum TaskState {
    Correct,
    Wrong,
    Skipped,
}

/// One arithmetic problem, with the answer given to it, if any, and the
/// times (in milliseconds) at which it was shown and answered.
#[derive(Clone, Copy, PartialEq, Eq, Structural, Debug)]
pub struct Task {
    pub x: i32,
    pub y: i32,
    pub op: Operation,
    pub answer: Option<i32>,
    pub t_start: Option<i64>,
    pub t_finish: Option<i64>,
}

impl Task {
    /// The exact value that the problem asks for.
    pub open spec fn expected(self) -> int {
        self.op.result(self.x as int, self.y as int)
    }

    /// An answer was given and it is the right one.
    pub open spec fn is_correct(self) -> bool {
        match self.answer {
            Some(a) => a as int == self.expected(),
            None => false,
        }
    }

    /// How the task is scored: skipped exactly when no answer was given.
    pub open spec fn spec_state(self) -> TaskState {
        match self.answer {
            Some(a) => if a as int == self.expected() {
                TaskState::Correct
            } else {
                TaskState::Wrong
            },
            None => TaskState::Skipped,
        }
    }

    pub fn correct(&self) -> (r: bool)
        ensures
            r == self.is_correct(),
    {
        match self.answer {
            Some(answer) => answer as i64 == self.op.apply_wide(self.x, self.y),
            None => false,
        }
    }

    pub fn state(&self) -> (r: TaskState)
        ensures
            r == self.spec_state(),
    {
        match self.answer {
            Some(answer) => {
                if answer as i64 == self.op.apply_wide(self.x, self.y) {
                    TaskState::Correct
                } else {
                    TaskState::Wrong
                }
            },
            None => TaskState::Skipped,
        }
    }
}


/// An inclusive range of operand values.
#[derive(Clone, Copy, PartialEq, Eq, Structural, Debug)]
pub struct IntRange {
    pub low: i32,
    pub high: i32,
}

impl IntRange {
    pub open spec fn wf(self) -> bool {
        self.low <= self.high
    }

    pub open spec fn contains(self, v: i32) -> bool {
        self.low <= v <= self.high
    }

    /// The values from `low` to `high`, both included.
    pub fn inclusive(low: i32, high: i32) -> (r: IntRange)
        requires
            low <= high,
        ensures
            r.low == low,
            r.high == high,
            r.wf(),
    {
        IntRange { low, high }
    }

    pub fn includes(&self, v: i32) -> (r: bool)
        ensures
            r == self.contains(v),
    {
        self.low <= v && v <= self.high
    }
}

/// Which kind of problem a builder draws.
#[derive(Clone, Copy, PartialEq, Eq, Structural, Debug)]
pub enum TaskBuilderMode {
    Multiplication,
    AdditionAndSubtraction,
}

/// Draws problems of one mode with operands from two ranges.
#[derive(Clone, Copy, PartialEq, Eq, Structural, Debug)]
pub struct TaskBuilder {
    pub mode: TaskBuilderMode,
    pub xrange: IntRange,
    pub yrange: IntRange,
}

/// Relies on rand's `Rng::gen_range` over an inclusive range (rand 0.8):
/// the value lies within the bounds; it panics only on an empty range.
#[verifier::external_body]
fn sample(r: IntRange) -> (v: i32)
    requires
        r.low <= r.high,
    ensures
        r.low <= v <= r.high,
{
    rand::thread_rng().gen_range(r.low..=r.high)
}

/// Relies on `rand::random::<bool>()`: a fair coin, so nothing is promised.
#[verifier::external_body]
fn coin() -> bool {
    rand::random::<bool>()
}

/// Relies on chrono's `Utc::now().timestamp_millis()`: the clock, so
/// nothing is promised.
#[verifier::external_body]
pub(crate) fn now_millis() -> i64 {
    chrono::Utc::now().timestamp_millis()
}

impl TaskBuilder {
    pub open spec fn wf(self) -> bool {
        self.xrange.wf() && self.yrange.wf()
    }

    /// The problems that this builder can hand out: unanswered, started,
    /// of its mode, with operands from its ranges; a subtraction has its
    /// operands ordered so that the result is not negative.
    pub open spec fn produces(self, t: Task) -> bool {
        &&& t.answer is None
        &&& t.t_finish is None
        &&& t.t_start is Some
        &&& match self.mode {
            TaskBuilderMode::Multiplication => {
                &&& t.op == Operation::Multiplication
                &&& self.xrange.contains(t.x)
                &&& self.yrange.contains(t.y)
            },
            TaskBuilderMode::AdditionAndSubtraction => {
                ||| (t.op == Operation::Addition && self.xrange.contains(t.x) && self.yrange.contains(
                    t.y,
                ))
                ||| (t.op == Operation::Subtraction && t.x >= t.y && ((self.xrange.contains(t.x)
                    && self.yrange.contains(t.y)) || (self.xrange.contains(t.y)
                    && self.yrange.contains(t.x))))
            },
        }
    }

    /// The multiplication problem `x * y`, started at `started`.
    pub fn multiplication_task(x: i32, y: i32, started: i64) -> (r: Task)
        ensures
            r == (Task {
                x,
                y,
                op: Operation::Multiplication,
                answer: None,
                t_start: Some(started),
                t_finish: None,
            }),
    {
        Task {
            x,
            y,
            op: Operation::Multiplication,
            answer: None,
            t_start: Some(started),
            t_finish: None,
        }
    }

    /// The problem `x + y` when `plus`, else the subtraction of the smaller
    /// of `x` and `y` from the larger, started at `started`.
    pub fn addsub_task(x: i32, y: i32, plus: bool, started: i64) -> (r: Task)
        ensures
            r.op == (if plus {
                Operation::Addition
            } else {
                Operation::Subtraction
            }),
            r.op == Operation::Subtraction ==> r.x >= r.y,
            (plus || x >= y) ==> r.x == x && r.y == y,
            (!plus && x < y) ==> r.x == y && r.y == x,
            r.answer is None,
            r.t_start == Some(started),
            r.t_finish is None,
    {
        let op = if plus {
            Operation::Addition
        } else {
            Operation::Subtraction
        };
        let (x, y) = if op == Operation::Subtraction && x < y {
            (y, x)
        } else {
            (x, y)
        };
        Task { x, y, op, answer: None, t_start: Some(started), t_finish: None }
    }

    /// Tells whether this builder can hand out `t`.
    pub fn can_produce(&self, t: &Task) -> (r: bool)
        ensures
            r == self.produces(*t),
    {
        if t.answer.is_some() || t.t_finish.is_some() || t.t_start.is_none() {
            return false;
        }
        match self.mode {
            TaskBuilderMode::Multiplication => t.op == Operation::Multiplication
                && self.xrange.includes(t.x) && self.yrange.includes(t.y),
            TaskBuilderMode::AdditionAndSubtraction => {
                (t.op == Operation::Addition && self.xrange.includes(t.x) && self.yrange.includes(
                    t.y,
                )) || (t.op == Operation::Subtraction && t.x >= t.y && ((self.xrange.includes(t.x)
                    && self.yrange.includes(t.y)) || (self.xrange.includes(t.y)
                    && self.yrange.includes(t.x))))
            },
        }
    }

    /// Draws a new problem of this builder's mode.
    pub fn build(&self) -> (r: Task)
        requires
            self.wf(),
        ensures
            self.produces(r),
            r.op == Operation::Subtraction ==> r.x >= r.y,
    {
        match self.mode {
            TaskBuilderMode::Multiplication => self.new_multiplication_task(),
            TaskBuilderMode::AdditionAndSubtraction => self.new_addsub_task(),
        }
    }

    fn new_multiplication_task(&self) -> (r: Task)
        requires
            self.wf(),
        ensures
            r.op == Operation::Multiplication,
            self.xrange.contains(r.x),
            self.yrange.contains(r.y),
            r.answer is None,
            r.t_start is Some,
            r.t_finish is None,
    {
        let x = sample(self.xrange);
        let y = sample(self.yrange);
        Self::multiplication_task(x, y, now_millis())
    }

    fn new_addsub_task(&self) -> (r: Task)
        requires
            self.wf(),
        ensures
            (r.op == Operation::Addition && self.xrange.contains(r.x) && self.yrange.contains(r.y))
                || (r.op == Operation::Subtraction && r.x >= r.y && ((self.xrange.contains(r.x)
                && self.yrange.contains(r.y)) || (self.xrange.contains(r.y)
                && self.yrange.contains(r.x)))),
            r.answer is None,
            r.t_start is Some,
            r.t_finish is None,
    {
        let plus = coin();
        let x = sample(self.xrange);
        let y = sample(self.yrange);
        Self::addsub_task(x, y, plus, now_millis())
    }
}

} // verus!
