use rand::SeedableRng;
use rand::rngs::StdRng;
use snake::CollisionKind;
use snake::Direction;
use snake::Grid;
use snake::Pos;
use snake::Snake;
use snake::TickOutcome;
use snake::collision::check;

fn straight_body(head_x: i16, y: i16, len: i16) -> Vec<Pos> {
    // head first, trailing cells to the left
    (0..len).map(|i| Pos::new(head_x - i, y)).collect()
}

#[test]
fn tick_moves_head_and_pops_tail() {
    let mut rng = StdRng::seed_from_u64(7);
    // board 10x10, snake [(5,5),(4,5),(3,5)] heading right, no apples
    let mut s = Snake::with_body(10, 10, straight_body(5, 5, 3), Direction::Right);
    let out = s.tick(&mut rng);
    assert_eq!(out, TickOutcome::Continued);
    assert_eq!(
        s.state.body,
        vec![Pos::new(6, 5), Pos::new(5, 5), Pos::new(4, 5)]
    );
    assert_eq!(s.score(), 0);
    // the vacated tail cell is exposed for renderers
    assert_eq!(s.state.last_tail_pos, Pos::new(3, 5));
    // the interval follows the hyperbolic curve: 200ms at score 0
    assert_eq!(s.state.update_interval_ms, 200);
    // the board was apple-less, so exactly one apple spawned
    assert_eq!(s.apple_count(), 1);
}

#[test]
fn tick_consumes_apple_and_grows() {
    let mut rng = StdRng::seed_from_u64(7);
    let mut s = Snake::with_body(10, 10, straight_body(5, 5, 3), Direction::Right);
    s.place_apple(Pos::new(6, 5));
    let out = s.tick(&mut rng);
    assert_eq!(out, TickOutcome::Continued);
    // tail NOT popped: the snake grew
    assert_eq!(
        s.state.body,
        vec![
            Pos::new(6, 5),
            Pos::new(5, 5),
            Pos::new(4, 5),
            Pos::new(3, 5)
        ]
    );
    assert_eq!(s.score(), 1);
    // the consumed apple is cleared from the apple set
    assert!(!s.has_apple(Pos::new(6, 5)));
    // score 1 speeds the game up: 4000 / 21 milliseconds
    assert_eq!(s.state.update_interval_ms, 190);
}

#[test]
fn wall_collision_loses_with_premove_score() {
    let mut rng = StdRng::seed_from_u64(7);
    // head at (9,5) moving right on a 10-wide board
    let mut s = Snake::with_body(10, 10, straight_body(9, 5, 3), Direction::Right);
    let out = s.tick(&mut rng);
    assert_eq!(out, TickOutcome::Lost(0));
    // a score of zero is not recorded in the history
    assert!(s.scores.is_empty());
    // the run state was reset, paused, keeping the finished score
    assert_eq!(s.state.last_score, Some(0));
    assert!(s.state.paused);
    assert_eq!(
        s.state.body,
        vec![Pos::new(4, 3), Pos::new(3, 3), Pos::new(2, 3)]
    );
    assert_eq!(s.apple_count(), 0);
    assert_eq!(s.state.tick, 1);
}

#[test]
fn wall_collision_with_positive_score_records_history() {
    let mut rng = StdRng::seed_from_u64(7);
    let mut s = Snake::with_body(10, 10, straight_body(9, 5, 4), Direction::Right);
    assert_eq!(s.score(), 1);
    let out = s.tick(&mut rng);
    assert_eq!(out, TickOutcome::Lost(1));
    assert_eq!(s.scores, vec![1]);
    assert_eq!(s.state.last_score, Some(1));
}

#[test]
fn move_onto_vacating_tail_is_legal() {
    let mut rng = StdRng::seed_from_u64(7);
    // a 2x2 loop: head (5,5), tail (4,5); heading up, then steered left,
    // the head moves exactly onto the cell the tail vacates this tick
    let body = vec![
        Pos::new(5, 5),
        Pos::new(5, 6),
        Pos::new(4, 6),
        Pos::new(4, 5),
    ];
    let mut s = Snake::with_body(10, 10, body, Direction::Up);
    s.steer(Direction::Left);
    let out = s.tick(&mut rng);
    assert_eq!(out, TickOutcome::Continued);
    assert_eq!(
        s.state.body,
        vec![
            Pos::new(4, 5),
            Pos::new(5, 5),
            Pos::new(5, 6),
            Pos::new(4, 6)
        ]
    );
}

#[test]
fn move_onto_staying_tail_loses() {
    let mut rng = StdRng::seed_from_u64(7);
    // the same loop, but with an apple on the tail cell: the tail stays put,
    // so the move is a self collision
    let body = vec![
        Pos::new(5, 5),
        Pos::new(5, 6),
        Pos::new(4, 6),
        Pos::new(4, 5),
    ];
    let mut s = Snake::with_body(10, 10, body, Direction::Up);
    s.place_apple(Pos::new(4, 5));
    s.steer(Direction::Left);
    let out = s.tick(&mut rng);
    // the tail was not popped, so the score at the collision is 1
    assert_eq!(out, TickOutcome::Lost(1));
    assert_eq!(s.scores, vec![1]);
}

#[test]
fn committed_directions_never_reverse() {
    let mut rng = StdRng::seed_from_u64(7);
    let mut s = Snake::with_body(10, 10, straight_body(5, 5, 3), Direction::Right);
    // a straight reversal is ignored outright
    s.steer(Direction::Left);
    assert_eq!(s.state.steering.queue, None);
    let _ = s.tick(&mut rng);
    assert_eq!(s.state.steering.direction, Direction::Right);
    // queueing up then down commits up, and never down right after
    s.steer(Direction::Up);
    s.steer(Direction::Down);
    let _ = s.tick(&mut rng);
    assert_eq!(s.state.steering.direction, Direction::Up);
    let _ = s.tick(&mut rng);
    assert_eq!(s.state.steering.direction, Direction::Up);
}

#[test]
fn invariants_hold_across_random_spawns() {
    let mut rng = StdRng::seed_from_u64(7);
    let mut s = Snake::default();
    // drive ten ticks straight ahead: far from every wall, so the run goes
    // on whatever the spawner does
    for _ in 0..10 {
        let out = s.tick(&mut rng);
        assert!(matches!(out, TickOutcome::Continued));
        assert!(s.apple_count() <= 10);
        assert_eq!(s.score(), s.state.body.len() - 3);
        for p in s.state.body.clone() {
            assert!(!s.has_apple(p));
        }
    }
}

#[test]
fn maybe_tick_respects_pause_and_interval() {
    let mut rng = StdRng::seed_from_u64(7);
    let mut s = Snake::with_body(10, 10, straight_body(5, 5, 3), Direction::Right);
    // a fresh run is paused: no amount of elapsed time ticks it
    assert!(s.maybe_tick(1000, &mut rng).is_none());
    assert_eq!(s.state.tick, 1);
    s.toggle_pause();
    // under the 200ms interval of a score-0 run: no tick
    assert!(s.maybe_tick(199, &mut rng).is_none());
    assert_eq!(s.state.tick, 1);
    // at the interval: exactly one tick
    let out = s.maybe_tick(200, &mut rng);
    assert_eq!(out, Some(TickOutcome::Continued));
    assert_eq!(s.state.tick, 2);
}

#[test]
fn default_game_matches_the_hosted_board() {
    let s = Snake::default();
    assert_eq!(s.state.grid.width, 64);
    assert_eq!(s.state.grid.height, 20);
    assert!(s.scores.is_empty());
    assert!(s.state.paused);
    assert_eq!(s.state.steering.direction, Direction::Right);
    assert_eq!(
        s.state.body,
        vec![Pos::new(4, 3), Pos::new(3, 3), Pos::new(2, 3)]
    );
    assert_eq!(s.state.last_tail_pos, Pos::new(1, 3));
    // the difficulty curve's interval at score 0
    assert_eq!(s.state.update_interval_ms, 200);
    assert_eq!(s.state.last_score, None);
}

#[test]
fn collision_check_classifies_each_kind() {
    let g = Grid {
        width: 10,
        height: 10,
    };
    let body = vec![Pos::new(5, 5), Pos::new(4, 5)];
    assert_eq!(check(Pos::new(10, 5), &body, &g), CollisionKind::Wall);
    assert_eq!(check(Pos::new(5, -1), &body, &g), CollisionKind::Wall);
    assert_eq!(check(Pos::new(4, 5), &body, &g), CollisionKind::SelfCollision);
    assert_eq!(check(Pos::new(6, 5), &body, &g), CollisionKind::NoCollision);
}

#[test]
fn toggle_pause_flips_the_flag_only() {
    let mut s = Snake::default();
    assert!(s.state.paused);
    s.toggle_pause();
    assert!(!s.state.paused);
    s.toggle_pause();
    assert!(s.state.paused);
    assert_eq!(s.state.tick, 1);
}
