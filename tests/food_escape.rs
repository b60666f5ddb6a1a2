use snake::block::Block;
use snake::direction::Direction;
use snake::food::{
    best_escape_offsets, escape, escape_weight, evade_or_stay, get_escape_offset, squared_distance,
};
use snake::snake::Snake;

const CANDIDATES: [[i32; 2]; 5] = [[0, 0], [0, -1], [0, 1], [-1, 0], [1, 0]];

#[test]
fn squared_distance_values() {
    assert_eq!(squared_distance(Block::new(0, 0), Block::new(3, 4)), 25);
    assert_eq!(squared_distance(Block::new(-2, 7), Block::new(-2, 7)), 0);
    let far = squared_distance(Block::new(i32::MIN, i32::MIN), Block::new(i32::MAX, i32::MAX));
    assert_eq!(far, 2 * (u32::MAX as i128) * (u32::MAX as i128));
}

#[test]
fn best_offsets_from_a_corner() {
    let s = Snake::new(10, 10, Some(3), Some(Direction::Right));
    let mut best = best_escape_offsets(Block::new(2, 2), &s, [0, 20], [0, 20]);
    best.sort();
    assert_eq!(best, vec![[-1, 0], [0, -1]]);
}

#[test]
fn best_offsets_unique_direction() {
    // Head at (10, 10); food at (14, 10): moving right is the only farthest step.
    let s = Snake::new(10, 10, Some(3), Some(Direction::Right));
    assert_eq!(best_escape_offsets(Block::new(14, 10), &s, [0, 20], [0, 20]), vec![[1, 0]]);
    assert_eq!(get_escape_offset(Block::new(14, 10), &s, [0, 20], [0, 20]), [1, 0]);
}

#[test]
fn staying_put_when_every_step_is_blocked() {
    let s = Snake::new(10, 10, Some(3), Some(Direction::Right));
    assert_eq!(best_escape_offsets(Block::new(0, 0), &s, [0, 20], [0, 20]), vec![[0, 0]]);
    for _ in 0..200 {
        assert_eq!(escape(Block::new(0, 0), &s, [0, 20], [0, 20], 5), [0, 0]);
    }
}

#[test]
fn escape_avoids_the_body() {
    // Food right above the snake's second cell: stepping down would land on it.
    let s = Snake::new(10, 10, Some(3), Some(Direction::Right));
    let best = best_escape_offsets(Block::new(9, 9), &s, [0, 20], [0, 20]);
    assert!(!best.contains(&[0, 1]));
    for _ in 0..100 {
        let o = get_escape_offset(Block::new(9, 9), &s, [0, 20], [0, 20]);
        assert!(CANDIDATES.contains(&o));
        let dest = Block::new(9 + o[0], 9 + o[1]);
        assert!(!dest.out_of_bounds([0, 20], [0, 20]));
        assert!(!s.overlap_tail(dest));
    }
}

#[test]
fn escape_offset_is_always_a_candidate() {
    let s = Snake::new(6, 6, Some(4), Some(Direction::Down));
    for x in 1..12 {
        for y in 1..12 {
            let o = get_escape_offset(Block::new(x, y), &s, [0, 13], [0, 13]);
            assert!(CANDIDATES.contains(&o));
            let dest = Block::new(x + o[0], y + o[1]);
            if !Block::new(x, y).out_of_bounds([0, 13], [0, 13]) && !s.overlap_tail(Block::new(x, y)) {
                assert!(!dest.out_of_bounds([0, 13], [0, 13]));
                assert!(!s.overlap_tail(dest));
            }
        }
    }
}

#[test]
fn escape_weight_is_clamped() {
    assert_eq!(escape_weight(3, 5, 400), 15);
    assert_eq!(escape_weight(100, 5, 400), 400);
    assert_eq!(escape_weight(3, -5, 400), 0);
    assert_eq!(escape_weight(i32::MAX, i32::MAX, 400), 400);
}

#[test]
fn evade_or_stay_follows_the_draw() {
    assert_eq!(evade_or_stay([1, 0], 15, 15), [1, 0]);
    assert_eq!(evade_or_stay([1, 0], 0, 15), [1, 0]);
    assert_eq!(evade_or_stay([1, 0], 16, 15), [0, 0]);
}

#[test]
fn evasion_share_of_draws() {
    // Length 3, speed 5, board 20 × 20: draws 0..=15 of 0..400 evade.
    let weight = escape_weight(3, 5, 400);
    let evading = (0..400).filter(|d| evade_or_stay([0, -1], *d, weight) != [0, 0]).count();
    assert_eq!(evading, 16);
}

#[test]
fn evasion_rate_statistics() {
    let s = Snake::new(10, 10, Some(3), Some(Direction::Right));
    let trials = 20000;
    let mut moved = 0;
    for _ in 0..trials {
        let o = escape(Block::new(2, 2), &s, [0, 20], [0, 20], 5);
        if o != [0, 0] {
            assert!(o == [0, -1] || o == [-1, 0]);
            moved += 1;
        }
    }
    let rate = moved as f64 / trials as f64;
    let expected = (3.0f64 * 5.0).min(400.0) / 400.0;
    assert!((rate - expected).abs() < 0.015, "rate {rate}");
}

#[test]
fn evasion_is_certain_once_the_weight_fills_the_board() {
    // Board 5 × 5 (area 25), length 5 and speed 5: weight 25, every draw evades.
    let s = Snake::new(2, 2, Some(5), Some(Direction::Right));
    assert_eq!(escape_weight(5, 5, 25), 25);
    for _ in 0..200 {
        let o = escape(Block::new(3, 2), &s, [0, 5], [0, 5], 5);
        assert!(o == [0, -1] || o == [0, 1], "{o:?}");
    }
}
