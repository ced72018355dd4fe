use rand::SeedableRng;
use rand::rngs::StdRng;
use snake::Direction;
use snake::Pos;
use snake::Snake;
use snake::TickOutcome;
use snake::history::record_score;

#[test]
fn record_inserts_in_descending_order() {
    let mut v: Vec<usize> = vec![9, 7, 3];
    record_score(&mut v, 5);
    assert_eq!(v, vec![9, 7, 5, 3]);
    record_score(&mut v, 12);
    assert_eq!(v, vec![12, 9, 7, 5, 3]);
    record_score(&mut v, 3);
    assert_eq!(v, vec![12, 9, 7, 5, 3, 3]);
}

#[test]
fn record_into_empty_history() {
    let mut v: Vec<usize> = Vec::new();
    record_score(&mut v, 4);
    assert_eq!(v, vec![4]);
}

#[test]
fn record_truncates_to_ten() {
    let mut v: Vec<usize> = vec![20, 18, 16, 14, 12, 10, 8, 6, 4, 2];
    record_score(&mut v, 5);
    assert_eq!(v, vec![20, 18, 16, 14, 12, 10, 8, 6, 5, 4]);
    record_score(&mut v, 1);
    // too low for a full history: the insertion falls off the end
    assert_eq!(v, vec![20, 18, 16, 14, 12, 10, 8, 6, 5, 4]);
}

#[test]
fn lost_run_feeds_the_history() {
    // a snake of length 8 (score 5) about to hit the right wall
    let body: Vec<Pos> = (0..8).map(|i| Pos::new(9 - i, 5)).collect();
    let mut s = Snake::with_body(10, 10, body, Direction::Right);
    s.scores = vec![20, 18, 16, 14, 12, 10, 8, 6, 4, 2];
    let mut rng = StdRng::seed_from_u64(7);
    let out = s.tick(&mut rng);
    assert_eq!(out, TickOutcome::Lost(5));
    assert_eq!(s.scores, vec![20, 18, 16, 14, 12, 10, 8, 6, 5, 4]);
    assert_eq!(s.scores.len(), 10);
    assert!(s.scores[0] >= 5);
}
