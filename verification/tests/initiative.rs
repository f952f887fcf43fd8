use encounter::engine::initiative::InitiativeElement;
use encounter::engine::initiative::InitiativeTracker;
use encounter::engine::outcome::OutcomeTracker;

fn order_of(t: &InitiativeTracker) -> Vec<(usize, i32)> {
    t.entries().iter().map(|e| (e.actor_id, e.initiative)).collect()
}

fn tracker_of(entries: &[(usize, i32)]) -> InitiativeTracker {
    let mut t = InitiativeTracker::new();
    for (id, score) in entries {
        t.add_actor(*id, *score);
    }
    t
}

#[test]
fn new_tracker_is_empty() {
    let t = InitiativeTracker::new();
    assert_eq!(t.len(), 0);
    assert_eq!(t.cursor(), 0);
    assert_eq!(t.current_player(), None);
}

#[test]
fn insertion_is_stable_under_ties() {
    let mut t = InitiativeTracker::new();
    t.add_actor(2, 10);
    t.add_actor(5, 10);
    assert_eq!(order_of(&t), vec![(2, 10), (5, 10)]);
}

#[test]
fn insertion_sorts_by_descending_score() {
    let t = tracker_of(&[(0, 3), (1, 7), (2, 5), (3, 7), (4, -2), (5, 5), (6, 9)]);
    assert_eq!(
        order_of(&t),
        vec![(6, 9), (1, 7), (3, 7), (2, 5), (5, 5), (0, 3), (4, -2)]
    );
    assert_eq!(
        t.entries()[0],
        InitiativeElement { actor_id: 6, initiative: 9 }
    );
}

#[test]
fn insertion_keeps_the_current_actor() {
    let mut t = InitiativeTracker::new();
    t.add_actor(0, 10);
    assert_eq!(t.cursor(), 1);
    t.advance();
    assert_eq!(t.current_player(), Some(0));
    t.add_actor(1, 12);
    assert_eq!(t.current_player(), Some(0));
    assert_eq!(t.cursor(), 1);
    t.add_actor(2, 10);
    assert_eq!(t.current_player(), Some(0));
    assert_eq!(t.cursor(), 1);
    t.add_actor(3, 4);
    assert_eq!(t.current_player(), Some(0));
    t.add_actor(4, 11);
    assert_eq!(t.current_player(), Some(0));
    assert_eq!(t.cursor(), 2);
    assert_eq!(order_of(&t), vec![(1, 12), (4, 11), (0, 10), (2, 10), (3, 4)]);
}

#[test]
fn first_insertion_moves_the_cursor_behind_the_entry() {
    let mut t = InitiativeTracker::new();
    t.add_actor(9, 1);
    assert_eq!(t.cursor(), 1);
    assert_eq!(t.current_player(), None);
    t.advance();
    assert_eq!(t.cursor(), 0);
    assert_eq!(t.current_player(), Some(9));
}

#[test]
fn advance_is_cyclic() {
    let mut t = tracker_of(&[(0, 5), (1, 4), (2, 3), (3, 2)]);
    t.advance();
    for start in 0..4 {
        assert_eq!(t.cursor(), start);
        let who = t.current_player();
        for _ in 0..t.len() {
            t.advance();
        }
        assert_eq!(t.cursor(), start);
        assert_eq!(t.current_player(), who);
        t.advance();
    }
}

#[test]
fn advance_visits_every_entry_in_order() {
    let mut t = tracker_of(&[(7, 1), (8, 3), (9, 2)]);
    t.advance();
    assert_eq!(t.current_player(), Some(8));
    t.advance();
    assert_eq!(t.current_player(), Some(9));
    t.advance();
    assert_eq!(t.current_player(), Some(7));
    t.advance();
    assert_eq!(t.current_player(), Some(8));
}

#[test]
fn advance_on_one_entry_stays() {
    let mut t = tracker_of(&[(4, 0)]);
    t.advance();
    assert_eq!(t.current_player(), Some(4));
    t.advance();
    assert_eq!(t.current_player(), Some(4));
    assert_eq!(t.cursor(), 0);
}

#[test]
fn outcome_ids_count_up_from_zero() {
    let mut o = OutcomeTracker::new();
    assert_eq!(o.peek_next_id(), 0);
    assert_eq!(o.next_id(), 0);
    assert_eq!(o.next_id(), 1);
    assert_eq!(o.next_id(), 2);
    assert_eq!(o.peek_next_id(), 3);
}

#[test]
fn outcomes_are_recorded_by_id() {
    let mut o = OutcomeTracker::new();
    assert_eq!(o.get_outcome(0), None);
    o.set_outcome(0, true);
    o.set_outcome(4, false);
    assert_eq!(o.get_outcome(0), Some(true));
    assert_eq!(o.get_outcome(4), Some(false));
    assert_eq!(o.get_outcome(1), None);
    o.set_outcome(0, false);
    assert_eq!(o.get_outcome(0), Some(false));
}

#[test]
fn all_succeeded_asks_for_every_id() {
    let mut o = OutcomeTracker::new();
    o.set_outcome(1, true);
    o.set_outcome(2, true);
    o.set_outcome(3, false);
    assert!(o.all_succeeded(&vec![]));
    assert!(o.all_succeeded(&vec![1]));
    assert!(o.all_succeeded(&vec![2, 1, 2]));
    assert!(!o.all_succeeded(&vec![1, 3]));
    assert!(!o.all_succeeded(&vec![1, 9]));
}

#[test]
fn reset_starts_a_new_batch() {
    let mut o = OutcomeTracker::new();
    o.next_id();
    o.next_id();
    o.set_outcome(1, true);
    o.reset();
    assert_eq!(o.peek_next_id(), 0);
    assert_eq!(o.get_outcome(1), None);
    assert_eq!(o.next_id(), 0);
}
