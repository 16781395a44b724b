use spider::builder::assignment_simplifier::AssignmentSimplifier;
use spider::tree::expression::{Local, Name};

fn fast(id: u32) -> Local {
    Local::Fast { name: Name { id } }
}

#[test]
fn plain_assignments_come_out_before_what_they_overwrite_is_read() {
    let mut simplifier = AssignmentSimplifier::new(vec![(fast(2), fast(3)), (fast(1), fast(2))]);

    assert_eq!(simplifier.find_all_assigns(), vec![(fast(1), fast(2)), (fast(2), fast(3))]);
    assert!(simplifier.find_all_swaps().is_empty());
}

#[test]
fn cycles_are_left_for_swaps() {
    let mut simplifier = AssignmentSimplifier::new(vec![
        (fast(3), fast(1)),
        (fast(4), fast(1)),
        (fast(1), fast(2)),
        (fast(2), fast(3)),
    ]);

    assert_eq!(simplifier.find_all_assigns(), vec![(fast(4), fast(1))]);
    assert_eq!(simplifier.find_all_swaps(), vec![vec![fast(1), fast(2), fast(3)]]);
}

#[test]
fn separate_cycles_come_out_one_by_one() {
    let slow = Local::Slow { offset: 0 };
    let mut simplifier = AssignmentSimplifier::new(vec![
        (slow, fast(7)),
        (fast(7), slow),
        (fast(2), fast(1)),
        (fast(1), fast(2)),
    ]);

    assert!(simplifier.find_all_assigns().is_empty());
    assert_eq!(
        simplifier.find_all_swaps(),
        vec![vec![fast(1), fast(2)], vec![fast(7), slow]]
    );
}
