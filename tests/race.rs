use starvation::race::{race, timer, Branch};
use starvation::timeline::earliest;

#[test]
fn two_tokio_sleeps_resolve_at_shorter() {
    let out = race(&vec![timer(500), timer(300)]);
    assert_eq!(out.winner, 1);
    assert_eq!(out.resolved_at_ms, 300);
    assert_eq!(out.completed, vec![false, true]);
}

#[test]
fn database_sleep_outlasts_shorter_timer() {
    let db = Branch { duration_ms: 500, yields: false };
    let out = race(&vec![db, timer(300)]);
    assert_eq!(out.winner, 0);
    assert_eq!(out.resolved_at_ms, 500);
    assert_eq!(out.completed, vec![true, false]);
}

#[test]
fn blocking_branch_polled_second_still_wins() {
    let db = Branch { duration_ms: 500, yields: false };
    let out = race(&vec![timer(300), db]);
    assert_eq!(out.winner, 1);
    assert_eq!(out.resolved_at_ms, 500);
    assert_eq!(out.completed, vec![false, true]);
}

#[test]
fn yielding_operation_loses_to_shorter_timer() {
    let op = Branch { duration_ms: 800, yields: true };
    let out = race(&vec![timer(200), op]);
    assert_eq!(out.winner, 0);
    assert_eq!(out.resolved_at_ms, 200);
    assert!(!out.completed[1]);
}

#[test]
fn equal_durations_go_to_first_branch() {
    let out = race(&vec![timer(300), timer(300), timer(300)]);
    assert_eq!(out.winner, 0);
    assert_eq!(out.completed, vec![true, false, false]);
}

#[test]
fn single_branch_wins() {
    let out = race(&vec![timer(7)]);
    assert_eq!(out.winner, 0);
    assert_eq!(out.resolved_at_ms, 7);
}

#[test]
fn earliest_picks_first_smallest() {
    assert_eq!(earliest(&vec![5, 3, 9, 3]), 1);
    assert_eq!(earliest(&vec![0]), 0);
    assert_eq!(earliest(&vec![4, 4, 4]), 0);
}
