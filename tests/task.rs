use mathdrill::task::{IntRange, Operation, Task, TaskBuilder, TaskBuilderMode, TaskState};

fn task(x: i32, y: i32, op: Operation, answer: Option<i32>) -> Task {
    Task { x, y, op, answer, t_start: Some(0), t_finish: None }
}

#[test]
fn apply_gives_exact_results() {
    assert_eq!(Operation::Addition.apply(7, 5), 12);
    assert_eq!(Operation::Subtraction.apply(7, 5), 2);
    assert_eq!(Operation::Multiplication.apply(7, 5), 35);
    assert_eq!(Operation::Subtraction.apply(3, 9), -6);
}

#[test]
fn correct_compares_answer_with_result() {
    assert!(task(6, 7, Operation::Multiplication, Some(42)).correct());
    assert!(!task(6, 7, Operation::Multiplication, Some(43)).correct());
    assert!(!task(6, 7, Operation::Multiplication, None).correct());
    assert!(task(9, 4, Operation::Subtraction, Some(5)).correct());
    assert!(task(9, 4, Operation::Addition, Some(13)).correct());
}

#[test]
fn correct_handles_results_beyond_i32() {
    let big = task(i32::MAX, 2, Operation::Multiplication, Some(-2));
    assert!(!big.correct());
    assert_eq!(big.state(), TaskState::Wrong);
}

#[test]
fn state_tells_correct_wrong_and_skipped_apart() {
    assert_eq!(task(2, 3, Operation::Addition, Some(5)).state(), TaskState::Correct);
    assert_eq!(task(2, 3, Operation::Addition, Some(6)).state(), TaskState::Wrong);
    assert_eq!(task(2, 3, Operation::Addition, None).state(), TaskState::Skipped);
}

#[test]
fn addsub_task_orders_subtraction_operands() {
    let t = TaskBuilder::addsub_task(3, 7, false, 11);
    assert_eq!((t.x, t.y, t.op), (7, 3, Operation::Subtraction));
    assert_eq!(t.t_start, Some(11));
    assert_eq!(t.answer, None);
    let t = TaskBuilder::addsub_task(3, 7, true, 11);
    assert_eq!((t.x, t.y, t.op), (3, 7, Operation::Addition));
    let t = TaskBuilder::addsub_task(8, 2, false, 11);
    assert_eq!((t.x, t.y, t.op), (8, 2, Operation::Subtraction));
}

#[test]
fn multiplication_task_keeps_operands() {
    let t = TaskBuilder::multiplication_task(4, 9, 5);
    assert_eq!((t.x, t.y, t.op), (4, 9, Operation::Multiplication));
    assert_eq!((t.answer, t.t_start, t.t_finish), (None, Some(5), None));
}

#[test]
fn built_subtractions_are_never_negative() {
    let b = TaskBuilder {
        mode: TaskBuilderMode::AdditionAndSubtraction,
        xrange: IntRange::inclusive(1, 9),
        yrange: IntRange::inclusive(1, 9),
    };
    let mut saw_sub = false;
    for _ in 0..500 {
        let t = b.build();
        assert!(t.op == Operation::Addition || t.op == Operation::Subtraction);
        assert!((1..=9).contains(&t.x) && (1..=9).contains(&t.y));
        if t.op == Operation::Subtraction {
            saw_sub = true;
            assert!(t.x >= t.y);
        }
        assert_eq!(t.answer, None);
        assert!(t.t_start.is_some());
        assert_eq!(t.t_finish, None);
    }
    assert!(saw_sub);
}

#[test]
fn built_multiplications_stay_in_ranges() {
    let b = TaskBuilder {
        mode: TaskBuilderMode::Multiplication,
        xrange: IntRange::inclusive(2, 3),
        yrange: IntRange::inclusive(7, 7),
    };
    let mut seen = [false; 2];
    for _ in 0..200 {
        let t = b.build();
        assert_eq!(t.op, Operation::Multiplication);
        assert!(t.x == 2 || t.x == 3);
        assert_eq!(t.y, 7);
        seen[(t.x - 2) as usize] = true;
    }
    assert!(seen[0] && seen[1]);
}

#[test]
fn can_produce_checks_mode_and_ranges() {
    let b = TaskBuilder {
        mode: TaskBuilderMode::AdditionAndSubtraction,
        xrange: IntRange::inclusive(1, 5),
        yrange: IntRange::inclusive(1, 5),
    };
    assert!(b.can_produce(&task(5, 2, Operation::Subtraction, None)));
    assert!(!b.can_produce(&task(2, 5, Operation::Subtraction, None)));
    assert!(!b.can_produce(&task(2, 5, Operation::Multiplication, None)));
    assert!(!b.can_produce(&task(2, 6, Operation::Addition, None)));
    assert!(!b.can_produce(&task(2, 3, Operation::Addition, Some(5))));
}
