use snake::block::Block;
use snake::direction::Direction;
use snake::snake::Snake;

fn body(s: &Snake) -> Vec<Block> {
    let mut v = Vec::new();
    let mut i = 0;
    while let Some(b) = s.segment(i) {
        v.push(b);
        i += 1;
    }
    v
}

#[test]
fn new_snake_trails_behind_its_head() {
    let s = Snake::new(5, 5, Some(3), Some(Direction::Right));
    assert_eq!(s.len(), 3);
    assert_eq!(s.head_position(), Block::new(5, 5));
    assert_eq!(s.head_direction(), Direction::Right);
    assert_eq!(body(&s), vec![Block::new(5, 5), Block::new(4, 5), Block::new(3, 5)]);
}

#[test]
fn new_snake_defaults() {
    let s = Snake::new(2, 2, None, None);
    assert_eq!(s.len(), 3);
    assert_eq!(s.head_direction(), Direction::Right);
    let up = Snake::new(4, 4, Some(2), Some(Direction::Up));
    assert_eq!(body(&up), vec![Block::new(4, 4), Block::new(4, 5)]);
}

#[test]
fn next_head_and_move_forward_scenario() {
    let mut s = Snake::new(5, 5, Some(3), Some(Direction::Right));
    assert_eq!(s.next_head(None), Block::new(6, 5));
    s.move_forward(None);
    assert_eq!(s.head_position(), Block::new(6, 5));
    assert_eq!(s.len(), 3);
    assert_eq!(body(&s), vec![Block::new(6, 5), Block::new(5, 5), Block::new(4, 5)]);
}

#[test]
fn next_head_in_each_direction() {
    let s = Snake::new(5, 5, Some(1), Some(Direction::Right));
    assert_eq!(s.next_head(Some(Direction::Up)), Block::new(5, 4));
    assert_eq!(s.next_head(Some(Direction::Down)), Block::new(5, 6));
    assert_eq!(s.next_head(Some(Direction::Left)), Block::new(4, 5));
    assert_eq!(s.next_head(Some(Direction::Right)), Block::new(6, 5));
    assert_eq!(s.head_position(), Block::new(5, 5));
}

#[test]
fn move_forward_takes_the_given_direction() {
    let mut s = Snake::new(5, 5, Some(3), Some(Direction::Right));
    s.move_forward(Some(Direction::Down));
    assert_eq!(s.head_direction(), Direction::Down);
    assert_eq!(s.head_position(), Block::new(5, 6));
}

#[test]
fn restore_tail_grows_by_one() {
    let mut s = Snake::new(5, 5, Some(3), Some(Direction::Right));
    s.move_forward(None);
    s.restore_tail();
    assert_eq!(s.len(), 4);
    assert_eq!(body(&s), vec![Block::new(6, 5), Block::new(5, 5), Block::new(4, 5), Block::new(3, 5)]);
}

#[test]
fn restore_tail_without_move_changes_nothing() {
    let mut s = Snake::new(5, 5, Some(3), Some(Direction::Right));
    s.restore_tail();
    assert_eq!(s.len(), 3);
    s.move_forward(None);
    s.restore_tail();
    s.restore_tail();
    assert_eq!(s.len(), 4);
}

#[test]
fn overlap_tail_skips_the_last_cell() {
    let s = Snake::new(5, 5, Some(3), Some(Direction::Right));
    assert!(s.overlap_tail(Block::new(5, 5)));
    assert!(s.overlap_tail(Block::new(4, 5)));
    assert!(!s.overlap_tail(Block::new(3, 5)));
    assert!(!s.overlap_tail(Block::new(9, 9)));
}

#[test]
fn digestion_counters_age_each_move() {
    let mut s = Snake::new(5, 5, Some(3), Some(Direction::Right));
    let cell = Block::new(4, 5);
    assert_eq!(s.digestion(cell), None);
    s.digest(cell, 2);
    assert_eq!(s.digestion(cell), Some(2));
    s.move_forward(None);
    assert_eq!(s.digestion(cell), Some(1));
    s.move_forward(None);
    // A counter at zero stays for one more tick before it is dropped.
    assert_eq!(s.digestion(cell), Some(0));
    s.move_forward(None);
    assert_eq!(s.digestion(cell), None);
}

#[test]
fn digest_replaces_an_earlier_counter() {
    let mut s = Snake::new(5, 5, Some(3), Some(Direction::Right));
    let cell = Block::new(4, 5);
    s.digest(cell, 2);
    s.digest(Block::new(3, 5), 7);
    s.digest(cell, 5);
    assert_eq!(s.digestion(cell), Some(5));
    assert_eq!(s.digestion(Block::new(3, 5)), Some(7));
}

#[test]
fn segment_past_the_end_is_none() {
    let s = Snake::new(5, 5, Some(2), None);
    assert_eq!(s.segment(1), Some(Block::new(4, 5)));
    assert_eq!(s.segment(2), None);
}
