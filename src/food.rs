use crate::block::{outside, Block};
use crate::direction::{direction_at, dx, dy, Direction};
use crate::random::{choose_offset, random_range};
use crate::snake::{Snake, SnakeView};
use vstd::prelude::*;

verus! {

/// Speed parameter of the evasion while a game runs.
pub const FOOD_SPEED_INCREASE: i32 = 5;

/// Squared Euclidean distance from (x, y) to `b`.
pub open spec fn sq_dist(x: int, y: int, b: Block) -> int {
    (x - b.x) * (x - b.x) + (y - b.y) * (y - b.y)
}

pub open spec fn is_unit(ox: int, oy: int) -> bool {
    ||| ox == 0 && (oy == 1 || oy == -1)
    ||| oy == 0 && (ox == 1 || ox == -1)
}

/// The cell `f` moved by (ox, oy).
pub open spec fn moved(f: Block, ox: int, oy: int) -> Block {
    Block { x: (f.x + ox) as i32, y: (f.y + oy) as i32 }
}

/// A food cell whose four neighbours have coordinates that fit an `i32`.
pub open spec fn inner_cell(f: Block) -> bool {
    i32::MIN < f.x < i32::MAX && i32::MIN < f.y < i32::MAX
}

/// The food at `f` may move by (ox, oy): staying put always; a unit step when
/// it lands inside the board and on no body cell but the snake's last one.
pub open spec fn admissible(
    f: Block,
    s: SnakeView,
    x_bounds: [i32; 2],
    y_bounds: [i32; 2],
    ox: int,
    oy: int,
) -> bool {
    ||| ox == 0 && oy == 0
    ||| is_unit(ox, oy) && !outside(moved(f, ox, oy), x_bounds, y_bounds) && !s.overlaps(
        moved(f, ox, oy),
    )
}

/// An admissible move of the food that takes it as far from the snake's head
/// as any admissible move does.
pub open spec fn optimal(
    f: Block,
    s: SnakeView,
    x_bounds: [i32; 2],
    y_bounds: [i32; 2],
    ox: int,
    oy: int,
) -> bool {
    &&& admissible(f, s, x_bounds, y_bounds, ox, oy)
    &&& forall|px: int, py: int|
        #[trigger] admissible(f, s, x_bounds, y_bounds, px, py) ==> sq_dist(
            f.x + px,
            f.y + py,
            s.head(),
        ) <= sq_dist(f.x + ox, f.y + oy, s.head())
}

/// The weight of evasion: `len × speed`, clamped to `[0, area]`.
pub open spec fn clamped_weight(len: int, speed: int, area: int) -> int {
    if len * speed < 0 {
        0
    } else if len * speed > area {
        area
    } else {
        len * speed
    }
}

/// Number of cells of the board `[x_low, x_high) × [y_low, y_high)`.
pub open spec fn board_area(x_bounds: [i32; 2], y_bounds: [i32; 2]) -> int {
    (x_bounds[1] - x_bounds[0]) * (y_bounds[1] - y_bounds[0])
}

/// The squared Euclidean distance between two cells.
pub fn squared_distance(a: Block, b: Block) -> (r: i128)
    ensures
        r == sq_dist(a.x as int, a.y as int, b),
{
    let ddx: i128 = a.x as i128 - b.x as i128;
    let ddy: i128 = a.y as i128 - b.y as i128;
    assert(ddx * ddx <= 0x1_0000_0000_0000_0000) by (nonlinear_arith)
        requires
            -0x1_0000_0000 <= ddx <= 0x1_0000_0000,
    ;
    assert(ddy * ddy <= 0x1_0000_0000_0000_0000) by (nonlinear_arith)
        requires
            -0x1_0000_0000 <= ddy <= 0x1_0000_0000,
    ;
    assert(ddx * ddx >= 0 && ddy * ddy >= 0) by (nonlinear_arith);
    ddx * ddx + ddy * ddy
}

spec fn adm_arr(f: Block, s: SnakeView, x_bounds: [i32; 2], y_bounds: [i32; 2], o: [i32; 2]) -> bool {
    admissible(f, s, x_bounds, y_bounds, o[0] as int, o[1] as int)
}

spec fn dist_arr(f: Block, s: SnakeView, o: [i32; 2]) -> int {
    sq_dist(f.x + o[0], f.y + o[1], s.head())
}

/// Every move of the food that is as good as any: staying put or a unit step
/// within the board and off the body, farthest from the snake's head.
pub fn best_escape_offsets(block: Block, snake: &Snake, x_bounds: [i32; 2], y_bounds: [i32; 2]) -> (r:
    Vec<[i32; 2]>)
    requires
        snake@.wf(),
        inner_cell(block),
    ensures
        r@.len() >= 1,
        forall|i: int|
            0 <= i < r@.len() ==> optimal(
                block,
                snake@,
                x_bounds,
                y_bounds,
                #[trigger] r@[i][0] as int,
                r@[i][1] as int,
            ),
        forall|ox: int, oy: int|
            #[trigger] optimal(block, snake@, x_bounds, y_bounds, ox, oy) ==> exists|i: int|
                0 <= i < r@.len() && r@[i][0] == ox && r@[i][1] == oy,
{
    let ghost s = snake@;
    let head = snake.head_position();
    let zero: [i32; 2] = [0, 0];
    let mut best = squared_distance(block, head);
    let mut best_offsets: Vec<[i32; 2]> = Vec::new();
    best_offsets.push(zero);
    let offsets = Direction::offsets();
    assert(best_offsets@[0] == zero);
    let mut k: usize = 0;
    while k < 4
        invariant
            k <= 4,
            s == snake@,
            s.wf(),
            inner_cell(block),
            head == s.head(),
            zero[0] == 0 && zero[1] == 0,
            forall|j: int|
                0 <= j < 4 ==> {
                    &&& (#[trigger] offsets[j]).1[0] == dx(direction_at(j))
                    &&& offsets[j].1[1] == dy(direction_at(j))
                },
            best_offsets@.len() >= 1,
            forall|i: int|
                0 <= i < best_offsets@.len() ==> adm_arr(
                    block,
                    s,
                    x_bounds,
                    y_bounds,
                    #[trigger] best_offsets@[i],
                ) && dist_arr(block, s, best_offsets@[i]) == best,
            dist_arr(block, s, zero) <= best,
            dist_arr(block, s, zero) == best ==> best_offsets@.contains(zero),
            forall|j: int|
                0 <= j < k && adm_arr(block, s, x_bounds, y_bounds, #[trigger] offsets[j].1)
                    ==> dist_arr(block, s, offsets[j].1) <= best,
            forall|j: int|
                0 <= j < k && adm_arr(block, s, x_bounds, y_bounds, #[trigger] offsets[j].1)
                    && dist_arr(block, s, offsets[j].1) == best ==> best_offsets@.contains(
                    offsets[j].1,
                ),
        decreases 4 - k,
    {
        let off = offsets[k].1;
        let destination = Block::new(block.x + off[0], block.y + off[1]);
        assert(destination == moved(block, off[0] as int, off[1] as int));
        if !(destination.out_of_bounds(x_bounds, y_bounds) || snake.overlap_tail(destination)) {
            let current = squared_distance(destination, head);
            assert(adm_arr(block, s, x_bounds, y_bounds, off));
            assert(current == dist_arr(block, s, off));
            let ghost prev = best_offsets@;
            if current > best {
                best = current;
                best_offsets.clear();
                best_offsets.push(off);
                assert(best_offsets@[0] == off);
            } else if current == best {
                best_offsets.push(off);
                assert(best_offsets@[prev.len() as int] == off);
                assert forall|o: [i32; 2]| prev.contains(o) implies best_offsets@.contains(o) by {
                    let i = choose|i: int| 0 <= i < prev.len() && prev[i] == o;
                    assert(best_offsets@[i] == o);
                }
            }
        }
        k += 1;
    }
    proof {
        assert(offsets[0].1[0] == 0 && offsets[0].1[1] == -1);
        assert(offsets[1].1[0] == 0 && offsets[1].1[1] == 1);
        assert(offsets[2].1[0] == -1 && offsets[2].1[1] == 0);
        assert(offsets[3].1[0] == 1 && offsets[3].1[1] == 0);
        let v = best_offsets@;
        // Any admissible move is one of the five candidates, none farther than `best`.
        assert forall|px: int, py: int| #[trigger]
            admissible(block, s, x_bounds, y_bounds, px, py) implies sq_dist(
            block.x + px,
            block.y + py,
            s.head(),
        ) <= best by {
            if px == 0 && py == 0 {
            } else if px == 0 && py == -1 {
                assert(adm_arr(block, s, x_bounds, y_bounds, offsets[0].1));
            } else if px == 0 && py == 1 {
                assert(adm_arr(block, s, x_bounds, y_bounds, offsets[1].1));
            } else if px == -1 && py == 0 {
                assert(adm_arr(block, s, x_bounds, y_bounds, offsets[2].1));
            } else {
                assert(adm_arr(block, s, x_bounds, y_bounds, offsets[3].1));
            }
        }
        assert forall|i: int| 0 <= i < v.len() implies optimal(
            block,
            s,
            x_bounds,
            y_bounds,
            #[trigger] v[i][0] as int,
            v[i][1] as int,
        ) by {
            assert(adm_arr(block, s, x_bounds, y_bounds, v[i]));
        }
        assert forall|ox: int, oy: int| #[trigger]
            optimal(block, s, x_bounds, y_bounds, ox, oy) implies exists|i: int|
            0 <= i < v.len() && v[i][0] == ox && v[i][1] == oy by {
            assert(adm_arr(block, s, x_bounds, y_bounds, v[0]));
            assert(admissible(block, s, x_bounds, y_bounds, v[0][0] as int, v[0][1] as int));
            let a = if ox == 0 && oy == 0 {
                zero
            } else if ox == 0 && oy == -1 {
                offsets[0].1
            } else if ox == 0 && oy == 1 {
                offsets[1].1
            } else if ox == -1 && oy == 0 {
                offsets[2].1
            } else {
                offsets[3].1
            };
            assert(adm_arr(block, s, x_bounds, y_bounds, a));
            assert(v.contains(a));
            let i = choose|i: int| 0 <= i < v.len() && v[i] == a;
            assert(v[i][0] == ox && v[i][1] == oy);
        }
    }
    best_offsets
}

/// An offset that takes the food as far from the snake's head as it can go in
/// one step (staying put included); between equally good ones chance decides.
pub fn get_escape_offset(block: Block, snake: &Snake, x_bounds: [i32; 2], y_bounds: [i32; 2]) -> (r:
    [i32; 2])
    requires
        snake@.wf(),
        inner_cell(block),
    ensures
        optimal(block, snake@, x_bounds, y_bounds, r[0] as int, r[1] as int),
        r[0] == 0 && r[1] == 0 || is_unit(r[0] as int, r[1] as int),
        r[0] == 0 && r[1] == 0 || !outside(moved(block, r[0] as int, r[1] as int), x_bounds, y_bounds)
            && !snake@.overlaps(moved(block, r[0] as int, r[1] as int)),
{
    let best_offsets = best_escape_offsets(block, snake, x_bounds, y_bounds);
    match choose_offset(&best_offsets) {
        Some(o) => {
            proof {
                let i = choose|i: int| 0 <= i < best_offsets@.len() && best_offsets@[i] == o;
                assert(best_offsets@[i] == o);
            }
            o
        },
        None => best_offsets[0],
    }
}

/// A move the food may be handed is one of the five candidates, and, when the
/// food's own cell is inside the board and off the body, it leads to such a
/// cell again.
pub proof fn escape_offset_is_safe(
    f: Block,
    s: SnakeView,
    x_bounds: [i32; 2],
    y_bounds: [i32; 2],
    ox: int,
    oy: int,
)
    requires
        optimal(f, s, x_bounds, y_bounds, ox, oy),
    ensures
        ox == 0 && oy == 0 || is_unit(ox, oy),
        !outside(f, x_bounds, y_bounds) && !s.overlaps(f) ==> !outside(
            moved(f, ox, oy),
            x_bounds,
            y_bounds,
        ) && !s.overlaps(moved(f, ox, oy)),
{
    if ox == 0 && oy == 0 {
        assert(moved(f, ox, oy) == f);
    }
}

/// The weight of evasion, `len × speed` clamped to `[0, area]`.
pub fn escape_weight(len: i32, speed: i32, area: i128) -> (r: i128)
    requires
        area >= 0,
    ensures
        r == clamped_weight(len as int, speed as int, area as int),
{
    let l: i128 = len as i128;
    let v: i128 = speed as i128;
    assert(-0x1_0000_0000_0000_0000 <= l * v <= 0x1_0000_0000_0000_0000) by (nonlinear_arith)
        requires
            -0x8000_0000 <= l <= 0x8000_0000,
            -0x8000_0000 <= v <= 0x8000_0000,
    ;
    let w: i128 = l * v;
    if w < 0 {
        0
    } else if w > area {
        area
    } else {
        w
    }
}

/// The step the food takes given a uniform draw from `[0, area)`: the evasive
/// `offset` when the draw is at most `weight`, else none.
pub fn evade_or_stay(offset: [i32; 2], draw: i128, weight: i128) -> (r: [i32; 2])
    ensures
        draw <= weight ==> r == offset,
        draw > weight ==> r[0] == 0 && r[1] == 0,
{
    if draw <= weight {
        offset
    } else {
        [0, 0]
    }
}

/// With a chance that grows with the snake's length and `speed`, the optimal
/// escape offset; otherwise the food stays put. A draw is uniform in
/// `[0, area)` and the food evades when it is at most the weight, so once the
/// weight reaches `area - 1` the food always evades.
pub fn escape(block: Block, snake: &Snake, x_bounds: [i32; 2], y_bounds: [i32; 2], speed: i32) -> (r:
    [i32; 2])
    requires
        snake@.wf(),
        inner_cell(block),
        x_bounds[0] < x_bounds[1],
        y_bounds[0] < y_bounds[1],
    ensures
        r[0] == 0 && r[1] == 0 || optimal(block, snake@, x_bounds, y_bounds, r[0] as int, r[1] as int),
        clamped_weight(snake@.len(), speed as int, board_area(x_bounds, y_bounds)) >= board_area(
            x_bounds,
            y_bounds,
        ) - 1 ==> optimal(block, snake@, x_bounds, y_bounds, r[0] as int, r[1] as int),
{
    let escape = get_escape_offset(block, snake, x_bounds, y_bounds);
    let width: i128 = x_bounds[1] as i128 - x_bounds[0] as i128;
    let height: i128 = y_bounds[1] as i128 - y_bounds[0] as i128;
    assert(1 <= width * height <= 0x1_0000_0000 * 0x1_0000_0000) by (nonlinear_arith)
        requires
            1 <= width <= 0x1_0000_0000,
            1 <= height <= 0x1_0000_0000,
    ;
    let area = width * height;
    assert(area == board_area(x_bounds, y_bounds));
    let weight = escape_weight(snake.len(), speed, area);
    let draw = random_range(0, area);
    evade_or_stay(escape, draw, weight)
}

} // verus!
