use mathdrill::assignment::{Assignment, Progress};
use mathdrill::date::Date;
use mathdrill::task::{Operation, Task, TaskBuilderMode};

fn answer_of(t: &Task) -> i32 {
    t.op.apply(t.x, t.y)
}

#[test]
fn one_correct_answer_completes_target_of_one() {
    let mut a = Assignment::new_sd_sd_multiplication(1, None);
    assert!(!a.is_done());
    let t = a.next().unwrap();
    a.submit(Some(answer_of(&t)));
    assert!(a.is_done());
    assert!(a.next().is_none());
    assert_eq!(
        a.progress(),
        Progress { total: 1, correct: 1, wrong: 0, skipped: 0, percent_done: 100 }
    );
}

#[test]
fn wrong_and_skipped_answers_do_not_complete() {
    let mut a = Assignment::new_sd_sd_addition(2, None);
    let t = a.next().unwrap();
    a.submit(Some(answer_of(&t) + 1));
    a.submit(None);
    let t = a.next().unwrap();
    a.submit(Some(answer_of(&t)));
    assert!(!a.is_done());
    assert!(a.next().is_some());
    let p = a.progress();
    assert_eq!((p.correct, p.wrong, p.skipped, p.total, p.percent_done), (1, 1, 1, 2, 50));
    assert_eq!(a.score(), (1, 1));
    assert_eq!(a.tasks.len(), 3);
    assert_eq!(a.tasks[0].answer, Some(answer_of(&a.tasks[0]) + 1));
    assert_eq!(a.tasks[1].answer, None);
}

#[test]
fn submit_after_done_changes_nothing() {
    let mut a = Assignment::new_sd_sd_multiplication(1, None);
    let t = a.next().unwrap();
    a.submit(Some(answer_of(&t)));
    a.submit(Some(3));
    assert_eq!(a.tasks.len(), 1);
    assert!(a.is_done());
}

#[test]
fn timed_submission_records_finish_time() {
    let mut a = Assignment::new_sd_sd_multiplication(3, None);
    let t = a.next().unwrap();
    a.submit_at(Some(answer_of(&t)), 1234);
    let logged = a.tasks[0];
    assert_eq!((logged.x, logged.y, logged.op), (t.x, t.y, t.op));
    assert_eq!(logged.t_start, t.t_start);
    assert_eq!(logged.t_finish, Some(1234));
}

#[test]
fn percent_done_rounds_to_nearest() {
    let mut a = Assignment::new_sd_sd_multiplication(8, None);
    let t = a.next().unwrap();
    a.submit(Some(answer_of(&t)));
    assert_eq!(a.progress().percent_done, 13);
    let mut b = Assignment::new_sd_sd_multiplication(3, None);
    let t = b.next().unwrap();
    b.submit(Some(answer_of(&t)));
    assert_eq!(b.progress().percent_done, 33);
    let t = b.next().unwrap();
    b.submit(Some(answer_of(&t)));
    assert_eq!(b.progress().percent_done, 67);
}

#[test]
fn submit_task_logs_until_done() {
    let mut a = Assignment::new_sd_sd_multiplication(1, None);
    let wrong = Task { x: 2, y: 3, op: Operation::Multiplication, answer: Some(7), t_start: None, t_finish: None };
    let right = Task { answer: Some(6), ..wrong };
    a.submit_task(wrong);
    assert!(!a.is_done());
    assert!(a.next().is_some());
    a.submit_task(right);
    assert!(a.is_done());
    assert!(a.next().is_none());
    a.submit_task(right);
    assert_eq!(a.tasks.len(), 2);
}

#[test]
fn task_draws_without_logging() {
    let a = Assignment::new_sd_sd_addition(5, None);
    for _ in 0..50 {
        let t = a.task();
        if t.op == Operation::Subtraction {
            assert!(t.x >= t.y);
        }
    }
    assert_eq!(a.tasks.len(), 0);
}

#[test]
fn factories_configure_builders() {
    let m = Assignment::new_sd_sd_multiplication(100, Some(Date::from_day(5)));
    assert_eq!(m.builder.mode, TaskBuilderMode::Multiplication);
    assert_eq!((m.builder.xrange.low, m.builder.xrange.high), (2, 9));
    assert_eq!(m.title(), "Умножение");
    assert_eq!(m.due_date, Some(Date::from_day(5)));
    assert!(m.timed);
    let s = Assignment::new_sd_sd_addition(100, None);
    assert_eq!(s.builder.mode, TaskBuilderMode::AdditionAndSubtraction);
    assert_eq!((s.builder.yrange.low, s.builder.yrange.high), (1, 9));
    assert_eq!(s.title(), "Събиране и Изваждане");
    assert!(m.is_valid() && s.is_valid());
}

#[test]
fn description_shows_score_and_target() {
    let mut a = Assignment::new_sd_sd_multiplication(100, None);
    assert_eq!(a.description(), "едноцифрено по едноцифрено - [ 0 ✓ ] [ 0 ✗ ] / [ 100 ]");
    let t = a.next().unwrap();
    a.submit(Some(answer_of(&t)));
    let t = a.next().unwrap();
    a.submit(Some(answer_of(&t) - 1));
    a.submit(None);
    assert_eq!(a.description(), "едноцифрено по едноцифрено - [ 1 ✓ ] [ 1 ✗ ] / [ 100 ]");
}

#[test]
fn is_valid_rejects_broken_assignments() {
    let mut a = Assignment::new_sd_sd_multiplication(2, None);
    a.num_tasks = 0;
    assert!(!a.is_valid());
    let mut b = Assignment::new_sd_sd_multiplication(2, None);
    b.next = None;
    assert!(!b.is_valid());
}
