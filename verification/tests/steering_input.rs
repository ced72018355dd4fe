use snake::Direction;
use snake::Pos;
use snake::Snake;

#[test]
fn opposites_pair_up() {
    assert_eq!(Direction::Up.opposite(), Direction::Down);
    assert_eq!(Direction::Down.opposite(), Direction::Up);
    assert_eq!(Direction::Left.opposite(), Direction::Right);
    assert_eq!(Direction::Right.opposite(), Direction::Left);
}

#[test]
fn positions_carry_their_coordinates() {
    let p = Pos::new(7, -2);
    assert_eq!(p.x, 7);
    assert_eq!(p.y, -2);
    assert_eq!(p, Pos::new(7, -2));
    assert_ne!(p, Pos::new(7, 2));
}

#[test]
fn first_queued_rejects_noop_and_reversal() {
    let mut s = Snake::default();
    // continuing straight is ignored
    s.steer(Direction::Right);
    assert_eq!(s.state.steering.queue, None);
    // an immediate reversal is ignored
    s.steer(Direction::Left);
    assert_eq!(s.state.steering.queue, None);
    // a turn is accepted
    s.steer(Direction::Up);
    assert_eq!(s.state.steering.queue, Some((Direction::Up, None)));
}

#[test]
fn second_queued_rejects_reversal_of_first() {
    // queue up then down while moving right: down reverses the first queued
    // direction and is dropped, leaving the queue at just "up"
    let mut s = Snake::default();
    s.steer(Direction::Up);
    s.steer(Direction::Down);
    assert_eq!(s.state.steering.queue, Some((Direction::Up, None)));
}

#[test]
fn second_queued_accepts_safe_turn_and_then_drops() {
    let mut s = Snake::default();
    s.steer(Direction::Up);
    s.steer(Direction::Left);
    assert_eq!(
        s.state.steering.queue,
        Some((Direction::Up, Some(Direction::Left)))
    );
    // both slots full: further requests are silently dropped
    s.steer(Direction::Down);
    assert_eq!(
        s.state.steering.queue,
        Some((Direction::Up, Some(Direction::Left)))
    );
}

#[test]
fn second_queued_may_repeat_the_first() {
    // "up, up" is allowed: only a reversal of the first slot is unsafe
    let mut s = Snake::default();
    s.steer(Direction::Up);
    s.steer(Direction::Up);
    assert_eq!(
        s.state.steering.queue,
        Some((Direction::Up, Some(Direction::Up)))
    );
}
