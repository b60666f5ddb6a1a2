use crate::block::{outside, Block};
use crate::direction::{opposite_of, Direction};
use crate::food::{clamped_weight, escape, inner_cell, moved, optimal, FOOD_SPEED_INCREASE};
use crate::random::random_range;
use crate::score::{
    create_empty_name, is_rank, pop_char, push_char, record_score, recorded_at, sorted_desc, Score,
    MAX_NAME_LENGTH,
};
use crate::snake::{can_start, counter_of, start_view, without, Snake, SnakeView};
use vstd::prelude::*;
use vstd::string::StrSliceExecFns;

verus! {

/// Rows below the board that hold the score line.
pub const SCORE_BORDER_WIDTH: i32 = 1;

/// Foods to eat before the game speeds up by one level.
pub const FOODS_PER_SPEED_INCREASE: i32 = 5;

/// Where a new snake's head starts.
pub const START_X: i32 = 2;

pub const START_Y: i32 = 2;

/// Where the first food of a game lies.
pub const FOOD_START_X: i32 = 6;

pub const FOOD_START_Y: i32 = 4;

/// Speed parameter of the food's evasion: none after a game over.
pub open spec fn escape_speed(game_over: bool) -> i32 {
    if game_over {
        0
    } else {
        FOOD_SPEED_INCREASE
    }
}

/// A key press, as far as the game reads it.
#[derive(Clone, Copy, Debug, PartialEq, Eq, Structural)]
pub enum Key {
    Up,
    Down,
    Left,
    Right,
    Space,
    Backspace,
    Return,
    Letter(char),
    Other,
}

/// The direction a key asks for; keys without one keep the current direction.
pub open spec fn key_direction(key: Key, current: Direction) -> Direction {
    match key {
        Key::Up => Direction::Up,
        Key::Down => Direction::Down,
        Key::Left => Direction::Left,
        Key::Right => Direction::Right,
        _ => current,
    }
}

/// A cell strictly inside a board of `width × height` cells, off its walls.
pub open spec fn interior(b: Block, width: i32, height: i32) -> bool {
    !outside(b, [0i32, width], [0i32, height])
}

/// Abstract state of a game.
pub struct GameView {
    pub snake: SnakeView,
    pub food: Option<Block>,
    pub queue: Seq<Option<Direction>>,
    pub width: i32,
    pub height: i32,
    pub game_over: bool,
    pub score: i32,
    pub high_score: bool,
    pub score_written: bool,
    pub name: Seq<char>,
}

/// A game can be made on a board of at least three by three playing cells
/// (the score line comes on top) with a snake that can be laid out.
pub open spec fn can_create(
    width: i32,
    height: i32,
    length: Option<i32>,
    direction: Option<Direction>,
) -> bool {
    &&& width >= 3
    &&& height >= 4
    &&& can_start(START_X, START_Y, length, direction)
}

/// A game at its start on a board `width × board_height` cells large.
pub open spec fn fresh(
    width: i32,
    board_height: i32,
    length: Option<i32>,
    direction: Option<Direction>,
) -> GameView {
    GameView {
        snake: start_view(START_X, START_Y, length, direction),
        food: Some(Block { x: FOOD_START_X, y: FOOD_START_Y }),
        queue: Seq::empty(),
        width,
        height: board_height,
        game_over: false,
        score: 0,
        high_score: false,
        score_written: false,
        name: Seq::empty(),
    }
}

/// A new game in a window `width × height` cells large, the score line
/// taken off the board.
pub open spec fn initial(
    width: i32,
    height: i32,
    length: Option<i32>,
    direction: Option<Direction>,
) -> GameView {
    fresh(width, (height - SCORE_BORDER_WIDTH) as i32, length, direction)
}

impl GameView {
    /// The snake's head lies on the board, the food's neighbours have
    /// coordinates that fit an `i32`, the score is not negative and the name
    /// is no longer than `MAX_NAME_LENGTH`.
    pub open spec fn wf(self) -> bool {
        &&& self.snake.wf()
        &&& self.width >= 3
        &&& self.height >= 3
        &&& 0 <= self.snake.head().x < self.width
        &&& 0 <= self.snake.head().y < self.height
        &&& (self.food matches Some(f) ==> inner_cell(f))
        &&& 0 <= self.score
        &&& self.name.len() <= MAX_NAME_LENGTH
    }

    /// The same board with everything else as at the start, with a snake of
    /// the default length and direction.
    pub open spec fn restarted(self) -> GameView {
        fresh(self.width, self.height, None, None)
    }

    /// The state after a key press: during a game over only the space bar
    /// counts, and it restarts the game first; a direction that reverses the
    /// snake is dropped, any other is queued.
    pub open spec fn pressed(self, key: Key) -> GameView {
        if self.game_over && key != Key::Space {
            self
        } else {
            let g = if self.game_over {
                self.restarted()
            } else {
                self
            };
            let d = key_direction(key, g.snake.direction);
            if d == opposite_of(g.snake.direction) {
                g
            } else {
                GameView { queue: g.queue.push(Some(d)), ..g }
            }
        }
    }

    /// The snake survives a move in `direction`: its new head lands inside the
    /// board and on no body cell but the last one.
    pub open spec fn alive(self, direction: Option<Direction>) -> bool {
        let n = self.snake.next_head(direction);
        !self.snake.overlaps(n) && interior(n, self.width, self.height)
    }

    /// The state after the head was checked against the food: on it, the
    /// food is gone, the snake gets its last cell back, that cell digests for
    /// as many ticks as the snake is now long, and the score goes up by one.
    /// A snake as long, or a score as high, as an `i32` can count no longer
    /// grows.
    pub open spec fn eaten(self) -> GameView {
        if self.food == Some(self.snake.head()) && self.snake.len() < i32::MAX && self.score < i32::MAX {
            let s = self.snake.restored();
            GameView {
                snake: s.with_digestion(s.body.last(), s.len() as i32),
                food: None,
                score: (self.score + 1) as i32,
                ..self
            }
        } else {
            self
        }
    }

    /// The direction of the next tick: the latest queued one, else the current.
    pub open spec fn next_direction(self) -> Option<Direction> {
        if self.queue.len() > 0 {
            self.queue.last()
        } else {
            Some(self.snake.direction)
        }
    }

    /// The state after one tick of the snake: it moves and eats when it
    /// survives the move, else the game is over; the queue is emptied.
    pub open spec fn ticked(self) -> GameView {
        let d = self.next_direction();
        let g = if self.alive(d) {
            GameView { snake: self.snake.advanced(d), ..self }.eaten()
        } else {
            GameView { game_over: true, ..self }
        };
        GameView { queue: Seq::empty(), ..g }
    }

    /// A cell where food may appear.
    pub open spec fn free_cell(self, b: Block) -> bool {
        interior(b, self.width, self.height) && !self.snake.overlaps(b)
    }

    /// No cell is left for the food.
    pub open spec fn board_full(self) -> bool {
        forall|b: Block| !#[trigger] self.free_cell(b)
    }

    /// `after` is this state with the food put on the free cell `f`.
    pub open spec fn food_put(self, after: GameView, f: Block) -> bool {
        self.free_cell(f) && after == GameView { food: Some(f), ..self }
    }

    /// `after` is this state with the food moved by (ox, oy), which is no
    /// move or an optimal escape from the snake.
    pub open spec fn food_moved(self, after: GameView, f: Block, ox: int, oy: int) -> bool {
        &&& ox == 0 && oy == 0 || optimal(
            f,
            self.snake,
            [0i32, self.width],
            [0i32, self.height],
            ox,
            oy,
        )
        &&& after == GameView { food: Some(moved(f, ox, oy)), ..self }
    }

    /// What a food update may lead to.
    pub open spec fn escaped(self, after: GameView) -> bool {
        match self.food {
            None => after == self,
            Some(f) => exists|ox: int, oy: int| #[trigger] self.food_moved(after, f, ox, oy),
        }
    }

    /// The weight of evasion reaches `area - 1`, so that every draw evades.
    pub open spec fn evasion_certain(self) -> bool {
        self.food is Some && clamped_weight(
            self.snake.len(),
            escape_speed(self.game_over) as int,
            self.width * self.height,
        ) >= self.width * self.height - 1
    }

    /// `after` has the food moved by an optimal escape from the snake.
    pub open spec fn escaped_optimally(self, after: GameView) -> bool {
        match self.food {
            None => false,
            Some(f) => exists|ox: int, oy: int|
                optimal(f, self.snake, [0i32, self.width], [0i32, self.height], ox, oy)
                    && after.food == Some(#[trigger] moved(f, ox, oy)),
        }
    }

    /// What a respawn may lead to: the food on a free cell, or, on a full
    /// board, nothing changed.
    pub open spec fn respawned(self, after: GameView) -> bool {
        ||| after == self && self.board_full()
        ||| exists|f: Block| #[trigger] self.food_put(after, f)
    }

    /// What one frame may lead to: a missing food is respawned, then, when a
    /// tick is due, the food escapes and the snake ticks.
    pub open spec fn updated(
        self,
        spawned: GameView,
        escaped: GameView,
        after: GameView,
        tick_due: bool,
    ) -> bool {
        &&& if self.food is Some {
            spawned == self
        } else {
            self.respawned(spawned)
        }
        &&& tick_due ==> spawned.escaped(escaped) && after == escaped.ticked()
        &&& !tick_due ==> after == spawned
    }

    /// Name entry is open after a game over with a high score not yet written.
    pub open spec fn naming(self) -> bool {
        self.game_over && self.high_score && !self.score_written
    }

    /// The state after a key press during name entry: a capital letter is
    /// added while the name is short enough, backspace removes the last
    /// letter, return marks the score as written.
    pub open spec fn named(self, key: Key) -> GameView {
        if !self.naming() {
            self
        } else {
            match key {
                Key::Letter(c) => if 'A' <= c <= 'Z' && self.name.len() < MAX_NAME_LENGTH {
                    GameView { name: self.name.push(c), ..self }
                } else {
                    self
                },
                Key::Backspace => if self.name.len() > 0 {
                    GameView { name: self.name.drop_last(), ..self }
                } else {
                    self
                },
                Key::Return => GameView { score_written: true, ..self },
                _ => self,
            }
        }
    }
}

/// When the head has just moved onto the food, eating clears the food, adds
/// one to the score and one cell to the snake, and the restored last cell
/// digests for as many ticks as the snake is now long. Length and score must
/// still be able to grow within an `i32`.
pub proof fn eating_registers_digestion(g: GameView)
    requires
        g.wf(),
        g.food == Some(g.snake.head()),
        g.snake.tail is Some,
        g.snake.len() < i32::MAX,
        g.score < i32::MAX,
    ensures
        g.eaten().food is None,
        g.eaten().score == g.score + 1,
        g.eaten().snake.len() == g.snake.len() + 1,
        counter_of(g.eaten().snake.digesting, g.eaten().snake.body.last()) == Some(
            g.eaten().snake.len() as i32,
        ),
{
    let s = g.snake.restored();
    let d = without(s.digesting, s.body.last()).push((s.body.last(), s.len() as i32));
    assert(d.drop_last() == without(s.digesting, s.body.last()));
}

/// Every cell of the board off the snake (the last cell counting as free),
/// column by column.
fn free_cells(snake: &Snake, width: i32, height: i32) -> (r: Vec<Block>)
    requires
        snake@.wf(),
        width >= 3,
        height >= 3,
    ensures
        forall|i: int|
            0 <= i < r@.len() ==> interior(#[trigger] r@[i], width, height) && !snake@.overlaps(
                r@[i],
            ),
        forall|b: Block|
            interior(b, width, height) && !snake@.overlaps(b) ==> #[trigger] r@.contains(b),
{
    let mut cells: Vec<Block> = Vec::new();
    let mut x: i32 = 1;
    while x < width - 1
        invariant
            snake@.wf(),
            width >= 3,
            height >= 3,
            1 <= x <= width - 1,
            forall|i: int|
                0 <= i < cells@.len() ==> interior(#[trigger] cells@[i], width, height)
                    && !snake@.overlaps(cells@[i]),
            forall|b: Block|
                interior(b, width, height) && b.x < x && !snake@.overlaps(b) ==> #[trigger] cells@.contains(b),
        decreases width - x,
    {
        let mut y: i32 = 1;
        while y < height - 1
            invariant
                snake@.wf(),
                width >= 3,
                height >= 3,
                1 <= x < width - 1,
                1 <= y <= height - 1,
                forall|i: int|
                    0 <= i < cells@.len() ==> interior(#[trigger] cells@[i], width, height)
                        && !snake@.overlaps(cells@[i]),
                forall|b: Block|
                    interior(b, width, height) && b.x < x && !snake@.overlaps(b)
                        ==> #[trigger] cells@.contains(b),
                forall|b: Block|
                    interior(b, width, height) && b.x == x && b.y < y && !snake@.overlaps(b)
                        ==> #[trigger] cells@.contains(b),
            decreases height - y,
        {
            let b = Block::new(x, y);
            if !snake.overlap_tail(b) {
                let ghost before = cells@;
                cells.push(b);
                proof {
                    assert(cells@[before.len() as int] == b);
                    assert forall|c: Block|
                        interior(c, width, height) && (c.x < x || c.x == x && c.y <= y)
                            && !snake@.overlaps(c) implies #[trigger] cells@.contains(c) by {
                        if c != b {
                            assert(before.contains(c));
                            let i = choose|i: int| 0 <= i < before.len() && before[i] == c;
                            assert(cells@[i] == c);
                        }
                    }
                }
            }
            y += 1;
        }
        x += 1;
    }
    cells
}

/// A game: the snake, the food, the queued directions, the board and the
/// score, with the name entered for the high-score table.
pub struct Game {
    snake: Snake,
    food: Option<Block>,
    direction_queue: Vec<Option<Direction>>,
    width: i32,
    height: i32,
    game_over: bool,
    score: i32,
    pub high_score: bool,
    pub score_written: bool,
    score_name: String,
}

impl View for Game {
    type V = GameView;

    closed spec fn view(&self) -> GameView {
        GameView {
            snake: self.snake@,
            food: self.food,
            queue: self.direction_queue@,
            width: self.width,
            height: self.height,
            game_over: self.game_over,
            score: self.score,
            high_score: self.high_score,
            score_written: self.score_written,
            name: self.score_name@,
        }
    }
}

impl Game {
    /// A new game in a window `width × height` cells large; the bottom row
    /// holds the score line. The snake starts at (2, 2), the food at (6, 4).
    pub fn new(
        width: i32,
        height: i32,
        starting_length: Option<i32>,
        starting_direction: Option<Direction>,
    ) -> (r: Game)
        requires
            can_create(width, height, starting_length, starting_direction),
        ensures
            r@ == initial(width, height, starting_length, starting_direction),
            r@.wf(),
    {
        let snake = Snake::new(START_X, START_Y, starting_length, starting_direction);
        let r = Game {
            snake,
            food: Some(Block::new(FOOD_START_X, FOOD_START_Y)),
            direction_queue: Vec::new(),
            width,
            height: height - SCORE_BORDER_WIDTH,
            game_over: false,
            score: 0,
            high_score: false,
            score_written: false,
            score_name: create_empty_name(),
        };
        assert(r@.name =~= Seq::<char>::empty());
        r
    }

    /// Reacts to a key press: during a game over only the space bar counts,
    /// and it starts a new game; a direction that would reverse the snake is
    /// dropped, any other is queued for the next tick.
    pub fn key_pressed(&mut self, key: Key)
        requires
            old(self)@.wf(),
        ensures
            final(self)@ == old(self)@.pressed(key),
            final(self)@.wf(),
            !old(self)@.game_over && key_direction(key, old(self)@.snake.direction) == opposite_of(
                old(self)@.snake.direction,
            ) ==> final(self)@.queue == old(self)@.queue,
    {
        if self.game_over {
            match key {
                Key::Space => self.restart(),
                _ => return,
            }
        }
        let current = self.snake.head_direction();
        let direction = match key {
            Key::Up => Direction::Up,
            Key::Down => Direction::Down,
            Key::Left => Direction::Left,
            Key::Right => Direction::Right,
            _ => current,
        };
        if direction == current.opposite() {
            return;
        }
        self.direction_queue.push(Some(direction));
    }

    /// Name entry for the high-score table, open after a game over with a
    /// high score: capital letters are added up to the longest name allowed,
    /// backspace removes one, return enters the score into `scores`. Whether
    /// `scores` changed and is to be stored again.
    pub fn ask_name(&mut self, key: Key, scores: &mut Vec<Score>) -> (r: bool)
        requires
            old(self)@.wf(),
        ensures
            final(self)@ == old(self)@.named(key),
            final(self)@.wf(),
            !(old(self)@.naming() && key == Key::Return) ==> !r && final(scores)@ == old(scores)@,
            old(self)@.naming() && key == Key::Return ==> {
                &&& !r ==> final(scores)@ == old(scores)@
                &&& sorted_desc(old(scores)@) ==> (r <==> !is_rank(
                    old(scores)@,
                    old(self)@.score,
                    old(scores)@.len() as int,
                ))
                &&& r ==> exists|rank: int, entry: Score|
                    #[trigger] recorded_at(
                        old(scores)@,
                        final(scores)@,
                        old(self)@.name,
                        old(self)@.score,
                        rank,
                        entry,
                    )
            },
    {
        if !(self.game_over && self.high_score && !self.score_written) {
            return false;
        }
        match key {
            Key::Letter(c) => {
                if 'A' <= c && c <= 'Z' && self.score_name.as_str().unicode_len() < MAX_NAME_LENGTH {
                    push_char(&mut self.score_name, c);
                }
                false
            },
            Key::Backspace => {
                pop_char(&mut self.score_name);
                false
            },
            Key::Return => {
                let changed = record_score(scores, self.score_name.as_str(), self.score);
                self.score_written = true;
                changed
            },
            _ => false,
        }
    }

    /// One tick of the snake: it moves in the latest queued direction (or on
    /// in its own) and eats when the move is survivable, else the game is
    /// over. The queue is emptied either way.
    pub fn update_snake(&mut self)
        requires
            old(self)@.wf(),
        ensures
            final(self)@ == old(self)@.ticked(),
            final(self)@.wf(),
    {
        let direction = match self.direction_queue.last() {
            Some(dir) => *dir,
            None => Some(self.snake.head_direction()),
        };
        if self.check_snake_alive(direction) {
            self.snake.move_forward(direction);
            self.check_eaten();
        } else {
            self.game_over = true;
        }
        self.direction_queue.clear();
    }

    /// Lets the food try to escape from the snake; after a game over it only
    /// moves on the luckiest draw.
    pub fn update_food(&mut self)
        requires
            old(self)@.wf(),
        ensures
            old(self)@.escaped(final(self)@),
            final(self)@.wf(),
            old(self)@.evasion_certain() ==> old(self)@.escaped_optimally(final(self)@),
    {
        let speed = if self.game_over {
            0
        } else {
            FOOD_SPEED_INCREASE
        };
        if let Some(food) = self.food {
            let offset = escape(food, &self.snake, [0, self.width], [0, self.height], speed);
            self.food = Some(Block::new(food.x + offset[0], food.y + offset[1]));
            assert(old(self)@.food_moved(self@, food, offset[0] as int, offset[1] as int));
        }
    }

    /// One frame: a missing food is respawned; when `tick_due`, the food
    /// escapes and the snake ticks.
    pub fn update(&mut self, tick_due: bool)
        requires
            old(self)@.wf(),
        ensures
            exists|spawned: GameView, escaped: GameView|
                #[trigger] old(self)@.updated(spawned, escaped, final(self)@, tick_due),
            final(self)@.wf(),
    {
        if self.food.is_none() {
            self.add_food();
        }
        let ghost spawned = self@;
        if tick_due {
            self.update_food();
        }
        let ghost escaped = self@;
        if tick_due {
            self.update_snake();
        }
        assert(old(self)@.updated(spawned, escaped, self@, tick_due));
    }

    /// Starts over on the same board, with a snake of the default length.
    pub fn restart(&mut self)
        requires
            old(self)@.wf(),
        ensures
            final(self)@ == old(self)@.restarted(),
            final(self)@.wf(),
    {
        self.snake = Snake::new(START_X, START_Y, None, None);
        self.direction_queue = Vec::new();
        self.food = Some(Block::new(FOOD_START_X, FOOD_START_Y));
        self.game_over = false;
        self.score = 0;
        self.high_score = false;
        self.score_written = false;
        self.score_name = create_empty_name();
        assert(self@.name =~= Seq::<char>::empty());
    }

    /// Puts the food on a free cell of the board, each free cell equally
    /// likely. A full board leaves the game as it is and gives `false`.
    pub fn add_food(&mut self) -> (r: bool)
        requires
            old(self)@.wf(),
        ensures
            r ==> exists|f: Block| #[trigger] old(self)@.food_put(final(self)@, f),
            !r ==> final(self)@ == old(self)@ && old(self)@.board_full(),
            final(self)@.wf(),
    {
        let cells = free_cells(&self.snake, self.width, self.height);
        if cells.len() == 0 {
            assert forall|b: Block| !#[trigger] self@.free_cell(b) by {
                if self@.free_cell(b) {
                    assert(cells@.contains(b));
                }
            }
            false
        } else {
            let i = random_range(0, cells.len() as i128) as usize;
            let b = cells[i];
            self.food = Some(b);
            assert(old(self)@.food_put(self@, b));
            true
        }
    }

    /// When the head is on the food: the food is gone, the snake gets its last
    /// cell back, that cell digests for as many ticks as the snake is now
    /// long, and the score goes up by one.
    pub fn check_eaten(&mut self)
        requires
            old(self)@.wf(),
        ensures
            final(self)@ == old(self)@.eaten(),
            final(self)@.wf(),
    {
        let head = self.snake.head_position();
        let on_food = match self.food {
            Some(f) => f == head,
            None => false,
        };
        if on_food && self.snake.len() < i32::MAX && self.score < i32::MAX {
            self.food = None;
            self.snake.restore_tail();
            let n = self.snake.len();
            let last = match self.snake.segment((n - 1) as usize) {
                Some(b) => b,
                None => head,
            };
            self.snake.digest(last, n);
            self.score = self.score + 1;
        }
    }

    /// Whether the snake survives a move in `direction` (or on in its own):
    /// the new head must stay inside the board and off the body, the last
    /// cell excepted.
    pub fn check_snake_alive(&self, direction: Option<Direction>) -> (r: bool)
        requires
            self@.wf(),
        ensures
            r == self@.alive(direction),
    {
        let destination = self.snake.next_head(direction);
        !self.snake.overlap_tail(destination) && !destination.out_of_bounds(
            [0, self.width],
            [0, self.height],
        )
    }

    pub fn game_over(&self) -> (r: bool)
        ensures
            r == self@.game_over,
    {
        self.game_over
    }

    pub fn score(&self) -> (r: i32)
        ensures
            r == self@.score,
    {
        self.score
    }

    /// The speed level shown to the player: one more for every
    /// `FOODS_PER_SPEED_INCREASE` foods eaten.
    pub fn speed_level(&self) -> (r: i32)
        requires
            self@.wf(),
        ensures
            r == 1 + self@.score as int / FOODS_PER_SPEED_INCREASE as int,
    {
        1 + self.score / FOODS_PER_SPEED_INCREASE
    }

    pub fn food(&self) -> (r: Option<Block>)
        ensures
            r == self@.food,
    {
        self.food
    }

    pub fn snake(&self) -> (r: &Snake)
        ensures
            r@ == self@.snake,
    {
        &self.snake
    }

    /// Width of the board in cells.
    pub fn width(&self) -> (r: i32)
        ensures
            r == self@.width,
    {
        self.width
    }

    /// Height of the board in cells, the score line not counted.
    pub fn height(&self) -> (r: i32)
        ensures
            r == self@.height,
    {
        self.height
    }

    /// The name entered so far.
    pub fn score_name(&self) -> (r: &str)
        ensures
            r@ == self@.name,
    {
        self.score_name.as_str()
    }
}

} // verus!
