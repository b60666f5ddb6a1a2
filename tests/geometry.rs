use snake::block::Block;
use snake::direction::Direction;

#[test]
fn block_new_keeps_coordinates() {
    let b = Block::new(3, -4);
    assert_eq!(b.x, 3);
    assert_eq!(b.y, -4);
}

#[test]
fn out_of_bounds_reserves_the_outer_ring() {
    let xb = [0, 20];
    let yb = [0, 20];
    assert!(!Block::new(1, 1).out_of_bounds(xb, yb));
    assert!(!Block::new(18, 18).out_of_bounds(xb, yb));
    assert!(Block::new(0, 5).out_of_bounds(xb, yb));
    assert!(Block::new(19, 5).out_of_bounds(xb, yb));
    assert!(Block::new(5, 0).out_of_bounds(xb, yb));
    assert!(Block::new(5, 19).out_of_bounds(xb, yb));
    assert!(Block::new(-3, 5).out_of_bounds(xb, yb));
    assert!(Block::new(5, 40).out_of_bounds(xb, yb));
}

#[test]
fn out_of_bounds_with_extreme_bounds() {
    assert!(Block::new(0, 0).out_of_bounds([i32::MIN, i32::MIN], [0, 10]));
    assert!(!Block::new(5, 5).out_of_bounds([i32::MIN, i32::MAX], [i32::MIN, i32::MAX]));
}

#[test]
fn opposite_pairs() {
    assert_eq!(Direction::Up.opposite(), Direction::Down);
    assert_eq!(Direction::Down.opposite(), Direction::Up);
    assert_eq!(Direction::Left.opposite(), Direction::Right);
    assert_eq!(Direction::Right.opposite(), Direction::Left);
}

#[test]
fn opposite_twice_is_identity() {
    for d in [Direction::Up, Direction::Down, Direction::Left, Direction::Right] {
        assert_eq!(d.opposite().opposite(), d);
    }
}

#[test]
fn offsets_are_unit_vectors() {
    let offsets = Direction::offsets();
    assert_eq!(offsets[0], (Direction::Up, [0, -1]));
    assert_eq!(offsets[1], (Direction::Down, [0, 1]));
    assert_eq!(offsets[2], (Direction::Left, [-1, 0]));
    assert_eq!(offsets[3], (Direction::Right, [1, 0]));
}
