use crate::block::Block;
use crate::direction::{dx, dy, Direction};
use std::collections::VecDeque;
use vstd::prelude::*;

verus! {

broadcast use vstd::std_specs::vecdeque::group_vec_dequeue_axioms;

/// Length of a snake made without an explicit length.
pub const SNAKE_STARTING_LENGTH: i32 = 3;

pub open spec fn fits_i32(v: int) -> bool {
    i32::MIN <= v <= i32::MAX
}

/// The cell one unit step away from `b` in direction `d`.
pub open spec fn step(b: Block, d: Direction) -> Block {
    Block { x: (b.x + dx(d)) as i32, y: (b.y + dy(d)) as i32 }
}

/// The step from `b` in direction `d` stays within the range of `i32`.
pub open spec fn step_fits(b: Block, d: Direction) -> bool {
    fits_i32(b.x + dx(d)) && fits_i32(b.y + dy(d))
}

/// Two cells at Manhattan distance one.
pub open spec fn adjacent(a: Block, b: Block) -> bool {
    ||| a.x == b.x && (a.y - b.y == 1 || b.y - a.y == 1)
    ||| a.y == b.y && (a.x - b.x == 1 || b.x - a.x == 1)
}

/// Digestion counters one tick later: entries below one are dropped, the others
/// count down by one.
pub open spec fn aged(s: Seq<(Block, i32)>) -> Seq<(Block, i32)>
    decreases s.len(),
{
    if s.len() == 0 {
        Seq::empty()
    } else {
        let rest = aged(s.drop_last());
        let e = s.last();
        if e.1 >= 1 {
            rest.push((e.0, (e.1 - 1) as i32))
        } else {
            rest
        }
    }
}

/// The entries for cells other than `b`, in their order.
pub open spec fn without(s: Seq<(Block, i32)>, b: Block) -> Seq<(Block, i32)>
    decreases s.len(),
{
    if s.len() == 0 {
        Seq::empty()
    } else {
        let rest = without(s.drop_last(), b);
        if s.last().0 == b {
            rest
        } else {
            rest.push(s.last())
        }
    }
}

/// The counter recorded for `b`; of several entries the latest one counts.
pub open spec fn counter_of(s: Seq<(Block, i32)>, b: Block) -> Option<i32>
    decreases s.len(),
{
    if s.len() == 0 {
        None
    } else if s.last().0 == b {
        Some(s.last().1)
    } else {
        counter_of(s.drop_last(), b)
    }
}

/// At most one entry per cell.
pub open spec fn keys_unique(s: Seq<(Block, i32)>) -> bool {
    forall|i: int, j: int| 0 <= i < j < s.len() ==> s[i].0 != s[j].0
}

/// Some entry is for cell `b`.
pub open spec fn has_key(s: Seq<(Block, i32)>, b: Block) -> bool {
    exists|i: int| 0 <= i < s.len() && #[trigger] s[i].0 == b
}

proof fn lemma_aged_keys(s: Seq<(Block, i32)>)
    requires
        keys_unique(s),
    ensures
        keys_unique(aged(s)),
        forall|b: Block| #[trigger] has_key(aged(s), b) ==> has_key(s, b),
    decreases s.len(),
{
    if s.len() > 0 {
        let p = s.drop_last();
        assert(keys_unique(p));
        lemma_aged_keys(p);
        let e = s.last();
        assert forall|b: Block| has_key(p, b) implies has_key(s, b) by {
            let i = choose|i: int| 0 <= i < p.len() && #[trigger] p[i].0 == b;
            assert(s[i].0 == b);
        }
        assert(!has_key(p, e.0)) by {
            if has_key(p, e.0) {
                let i = choose|i: int| 0 <= i < p.len() && #[trigger] p[i].0 == e.0;
                assert(s[i].0 == s[s.len() - 1].0);
            }
        }
        if e.1 >= 1 {
            let a = aged(p).push((e.0, (e.1 - 1) as i32));
            assert forall|i: int, j: int| 0 <= i < j < a.len() implies a[i].0 != a[j].0 by {
                if j == a.len() - 1 {
                    assert(a[i] == aged(p)[i]);
                    assert(has_key(aged(p), aged(p)[i].0));
                }
            }
            assert forall|b: Block| #[trigger] has_key(a, b) implies has_key(s, b) by {
                let i = choose|i: int| 0 <= i < a.len() && #[trigger] a[i].0 == b;
                if i < a.len() - 1 {
                    assert(aged(p)[i].0 == b);
                    assert(has_key(aged(p), b));
                } else {
                    assert(s[s.len() - 1].0 == b);
                }
            }
        }
    }
}

proof fn lemma_without_keys(s: Seq<(Block, i32)>, b: Block)
    requires
        keys_unique(s),
    ensures
        keys_unique(without(s, b)),
        !has_key(without(s, b), b),
        forall|k: Block| #[trigger] has_key(without(s, b), k) ==> has_key(s, k),
    decreases s.len(),
{
    if s.len() > 0 {
        let p = s.drop_last();
        assert(keys_unique(p));
        lemma_without_keys(p, b);
        let e = s.last();
        assert forall|k: Block| has_key(p, k) implies has_key(s, k) by {
            let i = choose|i: int| 0 <= i < p.len() && #[trigger] p[i].0 == k;
            assert(s[i].0 == k);
        }
        assert(!has_key(p, e.0)) by {
            if has_key(p, e.0) {
                let i = choose|i: int| 0 <= i < p.len() && #[trigger] p[i].0 == e.0;
                assert(s[i].0 == s[s.len() - 1].0);
            }
        }
        if e.0 != b {
            let w = without(p, b);
            let a = w.push(e);
            assert forall|i: int, j: int| 0 <= i < j < a.len() implies a[i].0 != a[j].0 by {
                if j == a.len() - 1 {
                    assert(a[i] == w[i]);
                    assert(has_key(w, w[i].0));
                }
            }
            assert forall|k: Block| #[trigger] has_key(a, k) implies has_key(s, k) && k != b by {
                let i = choose|i: int| 0 <= i < a.len() && #[trigger] a[i].0 == k;
                if i < a.len() - 1 {
                    assert(w[i].0 == k);
                    assert(has_key(w, k));
                } else {
                    assert(s[s.len() - 1].0 == k);
                }
            }
        }
    }
}

/// Abstract state of a snake: its cells from head to tail, its direction, the
/// cell given up by the last move and the digestion counters.
pub struct SnakeView {
    pub body: Seq<Block>,
    pub direction: Direction,
    pub tail: Option<Block>,
    pub digesting: Seq<(Block, i32)>,
}

impl SnakeView {
    pub open spec fn head(self) -> Block {
        self.body[0]
    }

    pub open spec fn len(self) -> int {
        self.body.len() as int
    }

    /// The direction of the next move: the given one, else the current one.
    pub open spec fn heading(self, direction: Option<Direction>) -> Direction {
        match direction {
            Some(d) => d,
            None => self.direction,
        }
    }

    pub open spec fn next_head(self, direction: Option<Direction>) -> Block {
        step(self.head(), self.heading(direction))
    }

    /// `b` is a body cell other than the last one, which a move vacates.
    pub open spec fn overlaps(self, b: Block) -> bool {
        exists|i: int| 0 <= i < self.body.len() - 1 && self.body[i] == b
    }

    /// The state after one move: a new head in front, the last cell kept aside.
    pub open spec fn advanced(self, direction: Option<Direction>) -> SnakeView {
        SnakeView {
            body: seq![self.next_head(direction)] + self.body.drop_last(),
            direction: self.heading(direction),
            tail: Some(self.body.last()),
            digesting: aged(self.digesting),
        }
    }

    /// The state after the cell kept aside is added back at the end.
    pub open spec fn restored(self) -> SnakeView {
        match self.tail {
            Some(t) => SnakeView { body: self.body.push(t), tail: None, ..self },
            None => self,
        }
    }

    pub open spec fn with_digestion(self, b: Block, count: i32) -> SnakeView {
        SnakeView { digesting: without(self.digesting, b).push((b, count)), ..self }
    }

    /// A body that is never empty, whose length fits an `i32`, and whose
    /// consecutive cells, as well as the last cell and the one kept aside, are
    /// neighbours; at most one digestion counter per cell.
    pub open spec fn wf(self) -> bool {
        &&& 1 <= self.body.len() <= i32::MAX
        &&& forall|i: int|
            0 <= i < self.body.len() - 1 ==> adjacent(#[trigger] self.body[i], self.body[i + 1])
        &&& (self.tail matches Some(t) ==> adjacent(self.body.last(), t))
        &&& keys_unique(self.digesting)
    }
}

pub open spec fn start_length(length: Option<i32>) -> int {
    match length {
        Some(l) => l as int,
        None => SNAKE_STARTING_LENGTH as int,
    }
}

pub open spec fn start_direction(direction: Option<Direction>) -> Direction {
    match direction {
        Some(d) => d,
        None => Direction::Right,
    }
}

/// A body of `len` cells with its head at (x, y), trailing away from `d`.
pub open spec fn start_body(x: i32, y: i32, len: int, d: Direction) -> Seq<Block> {
    Seq::new(len as nat, |i: int| Block { x: (x - i * dx(d)) as i32, y: (y - i * dy(d)) as i32 })
}

/// A snake can be laid out from (x, y): it has at least one cell and its last
/// cell has coordinates that fit an `i32`.
pub open spec fn can_start(x: i32, y: i32, length: Option<i32>, direction: Option<Direction>) -> bool {
    let l = start_length(length);
    let d = start_direction(direction);
    &&& 1 <= l
    &&& fits_i32(x - (l - 1) * dx(d))
    &&& fits_i32(y - (l - 1) * dy(d))
}

pub open spec fn start_view(x: i32, y: i32, length: Option<i32>, direction: Option<Direction>) -> SnakeView {
    SnakeView {
        body: start_body(x, y, start_length(length), start_direction(direction)),
        direction: start_direction(direction),
        tail: None,
        digesting: Seq::empty(),
    }
}

proof fn lemma_between(v: int, l: int, d: int, i: int)
    requires
        -1 <= d <= 1,
        0 <= i < l,
        fits_i32(v),
        fits_i32(v - (l - 1) * d),
    ensures
        fits_i32(v - i * d),
{
    if d == 1 {
        assert(i * d == i && (l - 1) * d == l - 1) by (nonlinear_arith)
            requires
                d == 1,
        ;
    } else if d == -1 {
        assert(i * d == -i && (l - 1) * d == 1 - l) by (nonlinear_arith)
            requires
                d == -1,
        ;
    } else {
        assert(i * d == 0) by (nonlinear_arith)
            requires
                d == 0,
        ;
    }
}

/// A snake on the grid.
pub struct Snake {
    current_direction: Direction,
    tail: Option<Block>,
    body: VecDeque<Block>,
    digesting: Vec<(Block, i32)>,
}

impl View for Snake {
    type V = SnakeView;

    closed spec fn view(&self) -> SnakeView {
        SnakeView {
            body: self.body@,
            direction: self.current_direction,
            tail: self.tail,
            digesting: self.digesting@,
        }
    }
}

fn aged_counters(v: &Vec<(Block, i32)>) -> (r: Vec<(Block, i32)>)
    ensures
        r@ == aged(v@),
{
    let mut r: Vec<(Block, i32)> = Vec::new();
    let mut i: usize = 0;
    while i < v.len()
        invariant
            i <= v@.len(),
            r@ == aged(v@.take(i as int)),
        decreases v@.len() - i,
    {
        let (b, c) = v[i];
        assert(v@.take(i + 1).drop_last() =~= v@.take(i as int));
        if c >= 1 {
            r.push((b, c - 1));
        }
        i += 1;
    }
    assert(v@.take(i as int) =~= v@);
    r
}

fn counters_without(v: &Vec<(Block, i32)>, b: Block) -> (r: Vec<(Block, i32)>)
    ensures
        r@ == without(v@, b),
{
    let mut r: Vec<(Block, i32)> = Vec::new();
    let mut i: usize = 0;
    while i < v.len()
        invariant
            i <= v@.len(),
            r@ == without(v@.take(i as int), b),
        decreases v@.len() - i,
    {
        let e = v[i];
        assert(v@.take(i + 1).drop_last() =~= v@.take(i as int));
        if e.0 != b {
            r.push(e);
        }
        i += 1;
    }
    assert(v@.take(i as int) =~= v@);
    r
}

/// The counter recorded for `b` in `v`, the latest entry counting.
fn lookup_counter(v: &Vec<(Block, i32)>, b: Block) -> (r: Option<i32>)
    ensures
        r == counter_of(v@, b),
{
    let mut i: usize = v.len();
    assert(v@.take(i as int) =~= v@);
    while i > 0
        invariant
            i <= v@.len(),
            counter_of(v@, b) == counter_of(v@.take(i as int), b),
        decreases i,
    {
        assert(v@.take(i as int).drop_last() =~= v@.take(i - 1));
        if v[i - 1].0 == b {
            return Some(v[i - 1].1);
        }
        i -= 1;
    }
    None
}

impl Snake {
    /// A snake whose head is at (x, y), `length` cells long (three by default),
    /// heading in `direction` (right by default), its body trailing behind.
    pub fn new(x: i32, y: i32, length: Option<i32>, direction: Option<Direction>) -> (r: Snake)
        requires
            can_start(x, y, length, direction),
        ensures
            r@ == start_view(x, y, length, direction),
            r@.wf(),
    {
        let d = match direction {
            Some(d) => d,
            None => Direction::Right,
        };
        let (step_x, step_y): (i32, i32) = match d {
            Direction::Up => (0, -1),
            Direction::Down => (0, 1),
            Direction::Left => (-1, 0),
            Direction::Right => (1, 0),
        };
        let length = match length {
            Some(l) => l,
            None => SNAKE_STARTING_LENGTH,
        };
        let ghost l = length as int;
        let mut body: VecDeque<Block> = VecDeque::new();
        let mut cx: i32 = x;
        let mut cy: i32 = y;
        let mut i: i32 = 0;
        while i < length
            invariant
                0 <= i <= length,
                l == length,
                step_x == dx(d),
                step_y == dy(d),
                d == start_direction(direction),
                can_start(x, y, Some(length), Some(d)),
                i < length ==> cx == x - i * dx(d) && cy == y - i * dy(d),
                body@ =~= start_body(x, y, i as int, d),
            decreases length - i,
        {
            body.push_back(Block { x: cx, y: cy });
            assert(body@ =~= start_body(x, y, i + 1, d));
            if i + 1 < length {
                proof {
                    lemma_between(x as int, l, dx(d), i + 1);
                    lemma_between(y as int, l, dy(d), i + 1);
                    assert((i + 1) * dx(d) == i * dx(d) + dx(d)) by (nonlinear_arith);
                    assert((i + 1) * dy(d) == i * dy(d) + dy(d)) by (nonlinear_arith);
                }
                cx = cx - step_x;
                cy = cy - step_y;
            }
            i += 1;
        }
        let r = Snake { current_direction: d, body, tail: None, digesting: Vec::new() };
        assert forall|k: int| 0 <= k < r@.body.len() - 1 implies adjacent(
            #[trigger] r@.body[k],
            r@.body[k + 1],
        ) by {
            lemma_between(x as int, l, dx(d), k);
            lemma_between(y as int, l, dy(d), k);
            lemma_between(x as int, l, dx(d), k + 1);
            lemma_between(y as int, l, dy(d), k + 1);
            assert((k + 1) * dx(d) == k * dx(d) + dx(d)) by (nonlinear_arith);
            assert((k + 1) * dy(d) == k * dy(d) + dy(d)) by (nonlinear_arith);
        }
        r
    }

    /// Number of cells of the body.
    pub fn len(&self) -> (r: i32)
        requires
            self@.wf(),
        ensures
            r == self@.len(),
    {
        self.body.len() as i32
    }

    /// The cell at position `i` of the body, counted from the head.
    pub fn segment(&self, i: usize) -> (r: Option<Block>)
        ensures
            i < self@.len() ==> r == Some(self@.body[i as int]),
            i >= self@.len() ==> r is None,
    {
        if i < self.body.len() {
            Some(self.body[i])
        } else {
            None
        }
    }

    pub fn head_position(&self) -> (r: Block)
        requires
            self@.wf(),
        ensures
            r == self@.head(),
    {
        self.body[0]
    }

    pub fn head_direction(&self) -> (r: Direction)
        ensures
            r == self@.direction,
    {
        self.current_direction
    }

    /// The cell the head would reach with one step in `direction`, or in the
    /// current direction when none is given. The snake is left as it is.
    pub fn next_head(&self, direction: Option<Direction>) -> (r: Block)
        requires
            self@.wf(),
            step_fits(self@.head(), self@.heading(direction)),
        ensures
            r == self@.next_head(direction),
    {
        let head = self.head_position();
        let moving_direction = match direction {
            Some(dir) => dir,
            None => self.current_direction,
        };
        match moving_direction {
            Direction::Up => Block { x: head.x, y: head.y - 1 },
            Direction::Down => Block { x: head.x, y: head.y + 1 },
            Direction::Left => Block { x: head.x - 1, y: head.y },
            Direction::Right => Block { x: head.x + 1, y: head.y },
        }
    }

    /// One move: the direction is taken over when given, the digestion counters
    /// age by one tick, a new head is put in front and the last cell is taken
    /// off and kept aside.
    pub fn move_forward(&mut self, direction: Option<Direction>)
        requires
            old(self)@.wf(),
            step_fits(old(self)@.head(), old(self)@.heading(direction)),
        ensures
            final(self)@ == old(self)@.advanced(direction),
            final(self)@.wf(),
    {
        let new_block = self.next_head(direction);
        if let Some(dir) = direction {
            self.current_direction = dir;
        }
        proof {
            lemma_aged_keys(self.digesting@);
        }
        self.digesting = aged_counters(&self.digesting);
        let ghost before = self.body@;
        self.body.push_front(new_block);
        self.tail = self.body.pop_back();
        proof {
            assert(self.body@ =~= seq![new_block] + before.drop_last());
            assert(self.tail == Some(before.last()));
            let v = old(self)@;
            let n = v.advanced(direction);
            assert(n.body =~= seq![new_block] + before.drop_last());
            assert forall|k: int| 0 <= k < n.body.len() - 1 implies adjacent(
                #[trigger] n.body[k],
                n.body[k + 1],
            ) by {
                if k > 0 {
                    assert(n.body[k] == before[k - 1]);
                    assert(n.body[k + 1] == before[k]);
                }
            }
            if before.len() >= 2 {
                assert(n.body.last() == before[before.len() - 2]);
            }
        }
    }

    /// Adds the cell kept aside by the last move back at the end of the body,
    /// which makes the snake one cell longer. Without such a cell nothing
    /// changes; the cell is used up either way.
    pub fn restore_tail(&mut self)
        requires
            old(self)@.wf(),
            old(self)@.len() < i32::MAX,
        ensures
            final(self)@ == old(self)@.restored(),
            final(self)@.wf(),
    {
        if let Some(t) = self.tail {
            self.body.push_back(t);
            self.tail = None;
        }
    }

    /// Whether `block` is a body cell other than the last one.
    pub fn overlap_tail(&self, block: Block) -> (r: bool)
        requires
            self@.wf(),
        ensures
            r == self@.overlaps(block),
    {
        let n = self.body.len();
        let mut i: usize = 0;
        while i + 1 < n
            invariant
                n == self@.len(),
                i < n,
                forall|k: int| 0 <= k < i ==> self@.body[k] != block,
            decreases n - i,
        {
            if self.body[i] == block {
                return true;
            }
            i += 1;
        }
        false
    }

    /// The digestion counter of `block`, if it has one.
    pub fn digestion(&self, block: Block) -> (r: Option<i32>)
        ensures
            r == counter_of(self@.digesting, block),
    {
        lookup_counter(&self.digesting, block)
    }

    /// Records `block` as digesting, with `count` ticks to go; an earlier
    /// counter of the same cell is replaced.
    pub fn digest(&mut self, block: Block, count: i32)
        requires
            old(self)@.wf(),
        ensures
            final(self)@ == old(self)@.with_digestion(block, count),
            final(self)@.wf(),
    {
        let mut kept = counters_without(&self.digesting, block);
        proof {
            lemma_without_keys(self.digesting@, block);
        }
        kept.push((block, count));
        proof {
            let w = without(self.digesting@, block);
            let a = kept@;
            assert forall|i: int, j: int| 0 <= i < j < a.len() implies a[i].0 != a[j].0 by {
                if j == a.len() - 1 {
                    assert(a[i] == w[i]);
                    assert(has_key(w, w[i].0));
                }
            }
        }
        self.digesting = kept;
    }
}

} // verus!

verus! {

/// A move leaves the length of a snake as it is; adding back the cell it gave
/// up makes the snake exactly one cell longer.
pub proof fn move_keeps_length(s: SnakeView, direction: Option<Direction>)
    requires
        s.wf(),
    ensures
        s.advanced(direction).len() == s.len(),
        s.advanced(direction).restored().len() == s.len() + 1,
{
}

/// The last cell of the body is never reported as overlapping, as long as the
/// body does not pass through that cell a second time.
pub proof fn tail_cell_is_free(s: SnakeView)
    requires
        s.wf(),
        forall|i: int| 0 <= i < s.len() - 1 ==> s.body[i] != s.body.last(),
    ensures
        !s.overlaps(s.body.last()),
{
}

} // verus!
