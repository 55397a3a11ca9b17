//! The snake game: a snake on a board that wraps around at its edges, food,
//! and the score.

use vstd::prelude::*;

verus! {

/// A cell of the board.
#[derive(Debug, Clone, Copy, PartialEq, Eq, Structural)]
pub struct Position {
    pub x: u16,
    pub y: u16,
}

/// The direction in which the snake moves.
#[derive(Debug, Clone, Copy, PartialEq, Eq, Structural)]
pub enum SnakeDirection {
    Up,
    Down,
    Left,
    Right,
}

/// The most food that lies on the board at once.
pub const MAX_FOODS: usize = 6;

/// The points for one piece of food.
pub const FOOD_SCORE: u32 = 10;

/// `rand::random_range` on a half-open range from 0: a number below the
/// bound, whichever the generator yields.
#[verifier::external_body]
fn random_below(bound: u16) -> (r: u16)
    requires
        bound > 0,
    ensures
        r < bound,
{
    rand::random_range(0..bound)
}

/// `rand::random` for a byte: any byte.
#[verifier::external_body]
fn random_byte() -> (r: u8) {
    rand::random::<u8>()
}

/// Whether two directions are opposite.
pub open spec fn opposite(a: SnakeDirection, b: SnakeDirection) -> bool {
    match (a, b) {
        (SnakeDirection::Up, SnakeDirection::Down) => true,
        (SnakeDirection::Down, SnakeDirection::Up) => true,
        (SnakeDirection::Left, SnakeDirection::Right) => true,
        (SnakeDirection::Right, SnakeDirection::Left) => true,
        _ => false,
    }
}

/// The cell next to `head` in a direction, on a board that wraps around.
pub open spec fn next_cell(head: Position, direction: SnakeDirection, width: u16, height: u16) -> Position {
    match direction {
        SnakeDirection::Up => Position {
            x: head.x,
            y: if head.y == 0 {
                (height - 1) as u16
            } else {
                (head.y - 1) as u16
            },
        },
        SnakeDirection::Down => Position { x: head.x, y: ((head.y + 1) % (height as int)) as u16 },
        SnakeDirection::Left => Position {
            x: if head.x == 0 {
                (width - 1) as u16
            } else {
                (head.x - 1) as u16
            },
            y: head.y,
        },
        SnakeDirection::Right => Position { x: ((head.x + 1) % (width as int)) as u16, y: head.y },
    }
}

/// Whether a cell is among the cells.
pub fn contains_cell(cells: &Vec<Position>, pos: Position) -> (r: bool)
    ensures
        r == cells@.contains(pos),
{
    let mut i: usize = 0;
    while i < cells.len()
        invariant
            i <= cells.len(),
            forall|k: int| 0 <= k < i ==> cells@[k] != pos,
        decreases cells.len() - i,
    {
        if cells[i] == pos {
            return true;
        }
        i = i + 1;
    }
    false
}

/// The index of the first cell that equals `pos`, if there is one.
pub fn cell_index(cells: &Vec<Position>, pos: Position) -> (r: Option<usize>)
    ensures
        r is None <==> !cells@.contains(pos),
        r matches Some(i) ==> i < cells@.len() && cells@[i as int] == pos && forall|k: int|
            0 <= k < i ==> cells@[k] != pos,
{
    let mut i: usize = 0;
    while i < cells.len()
        invariant
            i <= cells.len(),
            forall|k: int| 0 <= k < i ==> cells@[k] != pos,
        decreases cells.len() - i,
    {
        if cells[i] == pos {
            return Some(i);
        }
        i = i + 1;
    }
    None
}

/// The snake: its cells from head to tail, its direction, and whether it
/// grows by one cell with its next move.
#[derive(Debug)]
pub struct Snake {
    pub body: Vec<Position>,
    pub direction: SnakeDirection,
    pub growing: bool,
}

impl Snake {
    /// A snake has a head.
    pub open spec fn wf(self) -> bool {
        self.body@.len() >= 1
    }

    /// The snake fits the board: its head lies on it.
    pub open spec fn on_board(self, width: u16, height: u16) -> bool {
        self.wf() && self.body@[0].x < width && self.body@[0].y < height
    }

    /// The snake can take a step: it has a head, the board has a cell in the
    /// direction of the step, and the coordinate that grows stays a
    /// coordinate.
    pub open spec fn can_step(self, width: u16, height: u16) -> bool {
        &&& self.wf()
        &&& match self.direction {
            SnakeDirection::Up => self.body@[0].y == 0 ==> height >= 1,
            SnakeDirection::Down => height >= 1 && self.body@[0].y < u16::MAX,
            SnakeDirection::Left => self.body@[0].x == 0 ==> width >= 1,
            SnakeDirection::Right => width >= 1 && self.body@[0].x < u16::MAX,
        }
    }

    /// A snake of three cells that looks to the right, its head at the
    /// start cell and its body to the left of it.
    pub fn new(start_x: u16, start_y: u16) -> (s: Self)
        requires
            start_x >= 2,
        ensures
            s.body@ == seq![
                Position { x: start_x, y: start_y },
                Position { x: (start_x - 1) as u16, y: start_y },
                Position { x: (start_x - 2) as u16, y: start_y },
            ],
            s.direction == SnakeDirection::Right,
            !s.growing,
            s.wf(),
    {
        let mut body: Vec<Position> = Vec::new();
        body.push(Position { x: start_x, y: start_y });
        body.push(Position { x: start_x - 1, y: start_y });
        body.push(Position { x: start_x - 2, y: start_y });
        assert(body@ =~= seq![
            Position { x: start_x, y: start_y },
            Position { x: (start_x - 1) as u16, y: start_y },
            Position { x: (start_x - 2) as u16, y: start_y },
        ]);
        Snake { body, direction: SnakeDirection::Right, growing: false }
    }

    /// The head.
    pub fn head(&self) -> (p: Position)
        requires
            self.wf(),
        ensures
            p == self.body@[0],
    {
        self.body[0]
    }

    /// Turns the snake, unless that would turn it right round.
    pub fn change_direction(&mut self, new_direction: SnakeDirection)
        ensures
            final(self).direction == if opposite(old(self).direction, new_direction) {
                old(self).direction
            } else {
                new_direction
            },
            final(self).body == old(self).body,
            final(self).growing == old(self).growing,
    {
        let valid = match (self.direction, new_direction) {
            (SnakeDirection::Up, SnakeDirection::Down) => false,
            (SnakeDirection::Down, SnakeDirection::Up) => false,
            (SnakeDirection::Left, SnakeDirection::Right) => false,
            (SnakeDirection::Right, SnakeDirection::Left) => false,
            _ => true,
        };
        if valid {
            self.direction = new_direction;
        }
    }

    /// The body after a move to `new_head`: the new head in front, and the
    /// tail dropped unless the snake grows.
    pub open spec fn moved_body(self, new_head: Position) -> Seq<Position> {
        if self.growing {
            seq![new_head] + self.body@
        } else {
            seq![new_head] + self.body@.drop_last()
        }
    }

    /// Moves the snake by one cell on a board that wraps around. If the
    /// cell ahead is one of its own, the snake stays as it is and the result
    /// is `false`.
    pub fn move_forward(&mut self, width: u16, height: u16) -> (moved: bool)
        requires
            old(self).can_step(width, height),
        ensures
            moved == !old(self).body@.contains(
                next_cell(old(self).body@[0], old(self).direction, width, height),
            ),
            final(self).direction == old(self).direction,
            moved ==> final(self).body@ == old(self).moved_body(
                next_cell(old(self).body@[0], old(self).direction, width, height),
            ) && !final(self).growing,
            !moved ==> *final(self) == *old(self),
            final(self).wf(),
            old(self).on_board(width, height) ==> final(self).on_board(width, height),
    {
        let head = self.head();
        let new_head = match self.direction {
            SnakeDirection::Up => Position {
                x: head.x,
                y: if head.y == 0 {
                    height - 1
                } else {
                    head.y - 1
                },
            },
            SnakeDirection::Down => Position { x: head.x, y: (head.y + 1) % height },
            SnakeDirection::Left => Position {
                x: if head.x == 0 {
                    width - 1
                } else {
                    head.x - 1
                },
                y: head.y,
            },
            SnakeDirection::Right => Position { x: (head.x + 1) % width, y: head.y },
        };
        if contains_cell(&self.body, new_head) {
            return false;
        }
        self.body.insert(0, new_head);
        if !self.growing {
            let _ = self.body.pop();
        } else {
            self.growing = false;
        }
        assert(self.body@ =~= old(self).moved_body(new_head));
        true
    }

    /// Lets the snake grow by one cell with its next move.
    pub fn grow(&mut self)
        ensures
            final(self).growing,
            final(self).body == old(self).body,
            final(self).direction == old(self).direction,
    {
        self.growing = true;
    }

    /// Whether the snake lies on a cell.
    pub fn collides_with(&self, pos: Position) -> (r: bool)
        ensures
            r == self.body@.contains(pos),
    {
        contains_cell(&self.body, pos)
    }
}

/// The size of the board on a terminal of that size: the terminal without
/// the frame around the board, and at least 20 by 10 cells.
pub fn board_size(terminal_width: u16, terminal_height: u16) -> (size: (u16, u16))
    ensures
        size.0 == if terminal_width >= 24 {
            (terminal_width - 4) as u16
        } else {
            20u16
        },
        size.1 == if terminal_height >= 16 {
            (terminal_height - 6) as u16
        } else {
            10u16
        },
        size.0 >= 20,
        size.1 >= 10,
{
    let width: u16 = if terminal_width >= 24 {
        terminal_width - 4
    } else {
        20
    };
    let height: u16 = if terminal_height >= 16 {
        terminal_height - 6
    } else {
        10
    };
    (width, height)
}

/// Whether food may be put on a cell: fewer than six pieces lie on the
/// board, and the cell is free of snake and food.
pub open spec fn accepts(foods: Seq<Position>, snake: Seq<Position>, pos: Position) -> bool {
    &&& foods.len() < MAX_FOODS
    &&& !snake.contains(pos)
    &&& !foods.contains(pos)
}

/// What one try to put food on the board leaves behind: the foods as they
/// were, or with one more piece on a cell of the board that accepted it.
pub open spec fn fed(
    before: Seq<Position>,
    after: Seq<Position>,
    snake: Seq<Position>,
    width: u16,
    height: u16,
) -> bool {
    after == before || exists|pos: Position|
        pos.x < width && pos.y < height && #[trigger] accepts(before, snake, pos) && after
            == before.push(pos)
}

/// What the food after a meal leaves behind: one try to put food on the
/// board, and where fewer than three pieces lie there after it, at most one
/// more try.
pub open spec fn replenished(
    before: Seq<Position>,
    after: Seq<Position>,
    snake: Seq<Position>,
    width: u16,
    height: u16,
) -> bool {
    exists|mid: Seq<Position>| #[trigger]
        fed(before, mid, snake, width, height) && (after == mid || (mid.len() < 3 && fed(
            mid,
            after,
            snake,
            width,
            height,
        )))
}

/// What a tick did.
#[derive(Debug, Clone, Copy, PartialEq, Eq, Structural)]
pub enum Tick {
    /// The game is over or paused: nothing moved.
    Still,
    /// The snake ran into itself: the game is over.
    Crashed,
    /// The snake moved.
    Moved,
    /// The snake moved onto food and ate it.
    Ate,
}

/// The game.
#[derive(Debug)]
pub struct Game {
    pub snake: Snake,
    pub foods: Vec<Position>,
    pub score: u32,
    pub game_over: bool,
    pub paused: bool,
    pub width: u16,
    pub height: u16,
}

impl Game {
    /// The board has cells and the snake's head lies on it.
    pub open spec fn wf(self) -> bool {
        &&& self.width >= 1
        &&& self.height >= 1
        &&& self.snake.on_board(self.width, self.height)
    }

    /// Whether food may be put on a cell: fewer than six pieces lie on the
    /// board, and the cell is free of snake and food.
    pub open spec fn accepts_food(self, pos: Position) -> bool {
        accepts(self.foods@, self.snake.body@, pos)
    }

    /// Whether every cell of the board accepts food, so that the first cell
    /// drawn is sure to take it.
    pub open spec fn every_cell_accepts(self) -> bool {
        forall|pos: Position|
            pos.x < self.width && pos.y < self.height ==> #[trigger] self.accepts_food(pos)
    }

    /// The cell that the snake's head moves to with the next step.
    pub open spec fn ahead(self) -> Position {
        next_cell(self.snake.body@[0], self.snake.direction, self.width, self.height)
    }

    /// A game without food on a board of that size, the snake in its middle.
    pub fn empty_board(width: u16, height: u16) -> (g: Self)
        requires
            width >= 4,
            height >= 1,
        ensures
            g.wf(),
            g.width == width,
            g.height == height,
            g.foods@ == Seq::<Position>::empty(),
            g.score == 0,
            !g.game_over,
            !g.paused,
            g.snake.body@ == seq![
                Position { x: width / 2, y: height / 2 },
                Position { x: (width / 2 - 1) as u16, y: height / 2 },
                Position { x: (width / 2 - 2) as u16, y: height / 2 },
            ],
            g.snake.direction == SnakeDirection::Right,
            !g.snake.growing,
    {
        Game {
            snake: Snake::new(width / 2, height / 2),
            foods: Vec::new(),
            score: 0,
            game_over: false,
            paused: false,
            width,
            height,
        }
    }

    /// A new game: the snake in the middle of the board and one piece of
    /// food on a free cell.
    pub fn new(width: u16, height: u16) -> (g: Self)
        requires
            width >= 4,
            height >= 1,
        ensures
            g.wf(),
            g.width == width,
            g.height == height,
            g.score == 0,
            !g.game_over,
            !g.paused,
            g.foods@.len() <= 1,
            forall|i: int|
                0 <= i < g.foods@.len() ==> !g.snake.body@.contains(#[trigger] g.foods@[i]),
            g.snake.body@ == seq![
                Position { x: width / 2, y: height / 2 },
                Position { x: (width / 2 - 1) as u16, y: height / 2 },
                Position { x: (width / 2 - 2) as u16, y: height / 2 },
            ],
    {
        let mut game = Self::empty_board(width, height);
        game.spawn_food();
        game
    }

    /// Puts food on a cell if the game accepts it there, and says whether it
    /// did.
    pub fn place_food(&mut self, pos: Position) -> (placed: bool)
        ensures
            placed == old(self).accepts_food(pos),
            placed ==> final(self).foods@ == old(self).foods@.push(pos),
            !placed ==> final(self).foods@ == old(self).foods@,
            final(self).snake == old(self).snake,
            final(self).score == old(self).score,
            final(self).game_over == old(self).game_over,
            final(self).paused == old(self).paused,
            final(self).width == old(self).width,
            final(self).height == old(self).height,
    {
        if self.foods.len() < MAX_FOODS && !self.snake.collides_with(pos) && !contains_cell(
            &self.foods,
            pos,
        ) {
            self.foods.push(pos);
            true
        } else {
            false
        }
    }

    /// Puts one piece of food on a random free cell, unless six pieces lie
    /// on the board already. Cells are drawn until one is free.
    pub fn spawn_food(&mut self)
        requires
            old(self).width >= 1,
            old(self).height >= 1,
        ensures
            final(self).snake == old(self).snake,
            final(self).score == old(self).score,
            final(self).game_over == old(self).game_over,
            final(self).paused == old(self).paused,
            final(self).width == old(self).width,
            final(self).height == old(self).height,
            fed(
                old(self).foods@,
                final(self).foods@,
                old(self).snake.body@,
                old(self).width,
                old(self).height,
            ),
            old(self).foods@.len() >= MAX_FOODS ==> final(self).foods@ == old(self).foods@,
            old(self).every_cell_accepts() ==> final(self).foods@.len() == old(self).foods@.len()
                + 1,
    {
        if self.foods.len() >= MAX_FOODS {
            assert(!old(self).accepts_food(Position { x: 0, y: 0 }));
            return ;
        }
        let mut attempts: u64 = u64::MAX;
        while attempts > 0
            invariant
                old(self).every_cell_accepts() ==> attempts == u64::MAX,
                self.snake == old(self).snake,
                self.foods@ == old(self).foods@,
                self.score == old(self).score,
                self.game_over == old(self).game_over,
                self.paused == old(self).paused,
                self.width == old(self).width,
                self.height == old(self).height,
                self.width >= 1,
                self.height >= 1,
            decreases attempts,
        {
            let pos = Position { x: random_below(self.width), y: random_below(self.height) };
            if self.place_food(pos) {
                assert(accepts(old(self).foods@, old(self).snake.body@, pos));
                assert(self.foods@ == old(self).foods@.push(pos));
                return ;
            }
            assert(!old(self).accepts_food(pos));
            attempts = attempts - 1;
        }
    }

    /// One tick of the game, up to the food that follows a meal: the snake
    /// moves; if it runs into itself the game is over; if its head comes to
    /// lie on food it eats the first such piece, scores and will grow.
    pub fn advance(&mut self) -> (tick: Tick)
        requires
            old(self).wf(),
            old(self).score <= u32::MAX - FOOD_SCORE,
        ensures
            final(self).wf(),
            final(self).width == old(self).width,
            final(self).height == old(self).height,
            final(self).paused == old(self).paused,
            old(self).game_over || old(self).paused ==> tick == Tick::Still && *final(self) == *old(self),
            !(old(self).game_over || old(self).paused) ==> {
                let ahead = next_cell(
                    old(self).snake.body@[0],
                    old(self).snake.direction,
                    old(self).width,
                    old(self).height,
                );
                if old(self).snake.body@.contains(ahead) {
                    &&& tick == Tick::Crashed
                    &&& final(self).game_over
                    &&& final(self).snake == old(self).snake
                    &&& final(self).foods == old(self).foods
                    &&& final(self).score == old(self).score
                } else {
                    &&& !final(self).game_over
                    &&& final(self).snake.body@ == old(self).snake.moved_body(ahead)
                    &&& final(self).snake.direction == old(self).snake.direction
                    &&& if old(self).foods@.contains(ahead) {
                        &&& tick == Tick::Ate
                        &&& final(self).snake.growing
                        &&& final(self).score == old(self).score + FOOD_SCORE
                        &&& exists|i: int|
                            0 <= i < old(self).foods@.len() && old(self).foods@[i] == ahead && (
                            forall|k: int| 0 <= k < i ==> old(self).foods@[k] != ahead) && final(self).foods@ == old(self).foods@.remove(i)
                    } else {
                        &&& tick == Tick::Moved
                        &&& !final(self).snake.growing
                        &&& final(self).score == old(self).score
                        &&& final(self).foods == old(self).foods
                    }
                }
            },
    {
        if self.game_over || self.paused {
            return Tick::Still;
        }
        if !self.snake.move_forward(self.width, self.height) {
            self.game_over = true;
            return Tick::Crashed;
        }
        let head = self.snake.head();
        match cell_index(&self.foods, head) {
            Some(index) => {
                self.snake.grow();
                self.score = self.score + FOOD_SCORE;
                let _ = self.foods.remove(index);
                Tick::Ate
            },
            None => Tick::Moved,
        }
    }

    /// One tick of the game. After a meal new food is put on the board, and
    /// now and then, while fewer than three pieces lie there, one more.
    pub fn update(&mut self)
        requires
            old(self).wf(),
            old(self).score <= u32::MAX - FOOD_SCORE,
        ensures
            final(self).wf(),
            final(self).width == old(self).width,
            final(self).height == old(self).height,
            final(self).paused == old(self).paused,
            old(self).game_over || old(self).paused ==> *final(self) == *old(self),
            !(old(self).game_over || old(self).paused) ==> {
                let ahead = old(self).ahead();
                if old(self).snake.body@.contains(ahead) {
                    &&& final(self).game_over
                    &&& final(self).snake == old(self).snake
                    &&& final(self).foods@ == old(self).foods@
                    &&& final(self).score == old(self).score
                } else {
                    &&& !final(self).game_over
                    &&& final(self).snake.body@ == old(self).snake.moved_body(ahead)
                    &&& final(self).snake.direction == old(self).snake.direction
                    &&& if old(self).foods@.contains(ahead) {
                        &&& final(self).snake.growing
                        &&& final(self).score == old(self).score + FOOD_SCORE
                        &&& exists|i: int|
                            0 <= i < old(self).foods@.len() && old(self).foods@[i] == ahead && (
                            forall|k: int| 0 <= k < i ==> old(self).foods@[k] != ahead)
                                && #[trigger] replenished(
                                old(self).foods@.remove(i),
                                final(self).foods@,
                                final(self).snake.body@,
                                old(self).width,
                                old(self).height,
                            )
                    } else {
                        &&& !final(self).snake.growing
                        &&& final(self).score == old(self).score
                        &&& final(self).foods@ == old(self).foods@
                    }
                }
            },
            old(self).game_over ==> final(self).game_over,
            final(self).score == old(self).score || final(self).score == old(self).score
                + FOOD_SCORE,
            final(self).foods@.len() <= old(self).foods@.len() + 1,
    {
        let ghost ahead = self.ahead();
        match self.advance() {
            Tick::Ate => {
                let ghost rest = self.foods@;
                let ghost body = self.snake.body@;
                let ghost eaten = choose|i: int|
                    0 <= i < old(self).foods@.len() && old(self).foods@[i] == ahead
                        && (forall|k: int| 0 <= k < i ==> old(self).foods@[k] != ahead)
                        && rest == old(self).foods@.remove(i);
                self.spawn_food();
                let ghost mid = self.foods@;
                assert(fed(rest, mid, body, self.width, self.height));
                if self.foods.len() < 3 && random_byte() % 3 == 0 {
                    self.spawn_food();
                    assert(fed(mid, self.foods@, body, self.width, self.height));
                }
                assert(replenished(rest, self.foods@, body, self.width, self.height));
                assert(rest == old(self).foods@.remove(eaten));
            },
            _ => {},
        }
    }

    /// Pauses the game or takes it up again, unless it is over.
    pub fn toggle_pause(&mut self)
        ensures
            final(self).paused == if old(self).game_over {
                old(self).paused
            } else {
                !old(self).paused
            },
            final(self).snake == old(self).snake,
            final(self).foods == old(self).foods,
            final(self).score == old(self).score,
            final(self).game_over == old(self).game_over,
            final(self).width == old(self).width,
            final(self).height == old(self).height,
    {
        if !self.game_over {
            self.paused = !self.paused;
        }
    }

    /// Starts the game anew on the same board.
    pub fn reset(&mut self)
        requires
            old(self).width >= 4,
            old(self).height >= 1,
        ensures
            final(self).wf(),
            final(self).width == old(self).width,
            final(self).height == old(self).height,
            final(self).score == 0,
            !final(self).game_over,
            !final(self).paused,
            final(self).foods@.len() <= 1,
            final(self).snake.body@ == seq![
                Position { x: old(self).width / 2, y: old(self).height / 2 },
                Position { x: (old(self).width / 2 - 1) as u16, y: old(self).height / 2 },
                Position { x: (old(self).width / 2 - 2) as u16, y: old(self).height / 2 },
            ],
    {
        self.snake = Snake::new(self.width / 2, self.height / 2);
        self.foods.clear();
        self.score = 0;
        self.game_over = false;
        self.paused = false;
        self.spawn_food();
    }
}

} // verus!
