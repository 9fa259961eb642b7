//! The snake game on the 8 by 8 display.

use vstd::prelude::*;

use crate::geometry::{dir_dx, dir_dy, Direction, Gd, Point};
use crate::rng::CubeRng;

verus! {

/// Side of the board.
pub const BOARD: i32 = 8;

/// Colour of the snake (white).
pub const SNAKE_COLOR: u32 = 0xFFFFFF;

/// Colour of the food (CSS red).
pub const FOOD_COLOR: u32 = 0xFF0000;

/// Milliseconds between two moves.
pub const SNAKE_TICK_MS: u64 = 600;

/// Random draws made for the food before falling back to a scan.
pub const FOOD_RETRIES: u32 = 64;

/// `p` lies on the board.
pub open spec fn on_board(p: Point) -> bool {
    0 <= p.x < BOARD && 0 <= p.y < BOARD
}

/// `p` moved one unit in direction `d`.
pub open spec fn moved(p: Point, d: Direction) -> Point {
    Point { x: (p.x + dir_dx(d)) as i32, y: (p.y + dir_dy(d)) as i32 }
}

/// `p` is one of the points of `body`.
pub open spec fn in_body(body: Seq<Point>, p: Point) -> bool {
    exists|i: int| 0 <= i < body.len() && body[i] == p
}

/// The travel direction a tilt asks for, if any.
pub open spec fn wanted(gd: Gd) -> Option<Direction> {
    match gd {
        Gd::Up => Some(Direction::Up),
        Gd::Right => Some(Direction::Right),
        Gd::Down => Some(Direction::Down),
        Gd::Left => Some(Direction::Left),
        Gd::Flat => None,
    }
}

/// The direction opposite to `d`.
pub open spec fn reverse(d: Direction) -> Direction {
    match d {
        Direction::Up => Direction::Down,
        Direction::Right => Direction::Left,
        Direction::Down => Direction::Up,
        Direction::Left => Direction::Right,
    }
}

/// Food on the board.
#[derive(Debug, Clone, Copy, PartialEq, Eq)]
pub struct Food {
    pub pos: Point,
    pub color: u32,
}

impl Food {
    /// Food at a position drawn from `rng`.
    pub fn random(width: i32, height: i32, rng: &mut CubeRng) -> (r: Food)
        requires
            0 < width,
            0 < height,
        ensures
            0 <= r.pos.x < width,
            0 <= r.pos.y < height,
            r.color == FOOD_COLOR,
    {
        let x = rng.random(0, width as u32) as i32;
        let y = rng.random(0, height as u32) as i32;
        Food { pos: Point { x, y }, color: FOOD_COLOR }
    }

    /// Food on a board cell that `body` does not cover: first by up to
    /// `FOOD_RETRIES` random draws, then by scanning the rows. `None` exactly
    /// when the body covers the whole board.
    pub fn create_food(width: i32, height: i32, body: &Vec<Point>, rng: &mut CubeRng) -> (r: Option<Food>)
        requires
            0 < width,
            0 < height,
        ensures
            r is Some ==> {
                let f = r->Some_0;
                &&& 0 <= f.pos.x < width
                &&& 0 <= f.pos.y < height
                &&& !in_body(body@, f.pos)
                &&& f.color == FOOD_COLOR
            },
            r is None <==> forall|p: Point| 0 <= p.x < width && 0 <= p.y < height ==> in_body(body@, p),
    {
        let mut tries: u32 = 0;
        while tries < FOOD_RETRIES
            invariant
                0 < width,
                0 < height,
            decreases FOOD_RETRIES - tries,
        {
            let f = Food::random(width, height, rng);
            if !covers(body, f.pos) {
                return Some(f);
            }
            tries = tries + 1;
        }
        let mut y: i32 = 0;
        while y < height
            invariant
                0 <= y <= height,
                0 < width,
                forall|p: Point| 0 <= p.x < width && 0 <= p.y < y ==> in_body(body@, p),
            decreases height - y,
        {
            let mut x: i32 = 0;
            while x < width
                invariant
                    0 <= x <= width,
                    0 <= y < height,
                    forall|p: Point| 0 <= p.x < width && (0 <= p.y < y || (p.y == y && 0 <= p.x < x)) ==> in_body(body@, p),
                decreases width - x,
            {
                let p = Point { x, y };
                if !covers(body, p) {
                    return Some(Food { pos: p, color: FOOD_COLOR });
                }
                x = x + 1;
            }
            y = y + 1;
        }
        None
    }
}

/// Whether `p` is one of the points of `body`.
fn covers(body: &Vec<Point>, p: Point) -> (r: bool)
    ensures
        r == in_body(body@, p),
{
    let mut i: usize = 0;
    while i < body.len()
        invariant
            i <= body@.len(),
            forall|j: int| 0 <= j < i ==> body@[j] != p,
        decreases body@.len() - i,
    {
        if body[i] == p {
            return true;
        }
        i = i + 1;
    }
    false
}

/// The snake: where it heads, and its body from head to tail.
#[derive(Debug)]
pub struct Snake {
    pub direction: Direction,
    pub head: Point,
    pub body: Vec<Point>,
}

impl Snake {
    /// A snake of two points heading up, its head at `head`.
    pub fn new(head: Point) -> (r: Snake)
        requires
            head.y < i32::MAX,
        ensures
            r.direction == Direction::Up,
            r.head == head,
            r.body@ == seq![head, Point { x: head.x, y: (head.y + 1) as i32 }],
    {
        let mut body: Vec<Point> = Vec::new();
        body.push(head);
        body.push(Point { x: head.x, y: head.y + 1 });
        assert(body@ =~= seq![head, Point { x: head.x, y: (head.y + 1) as i32 }]);
        Snake { direction: Direction::Up, head, body }
    }

    /// Turns to `dir`, unless that would reverse the snake onto itself.
    pub fn set_direction(&mut self, dir: Direction)
        ensures
            final(self).direction == if dir == reverse(old(self).direction) { old(self).direction } else { dir },
            final(self).head == old(self).head,
            final(self).body == old(self).body,
    {
        if dir == self.direction.opposite() {
            return;
        }
        self.direction = dir;
    }

    /// Where the head goes next.
    pub fn next_head_pos(&self) -> (r: Point)
        requires
            i32::MIN < self.head.x < i32::MAX,
            i32::MIN < self.head.y < i32::MAX,
        ensures
            r == moved(self.head, self.direction),
    {
        let mut pos = self.head;
        match self.direction {
            Direction::Up => pos.y = pos.y - 1,
            Direction::Right => pos.x = pos.x + 1,
            Direction::Down => pos.y = pos.y + 1,
            Direction::Left => pos.x = pos.x - 1,
        }
        pos
    }

    /// Eats the food at `food`: the food becomes the new head.
    pub fn grow(&mut self, food: Point)
        ensures
            final(self).head == food,
            final(self).direction == old(self).direction,
            final(self).body@ == seq![food] + old(self).body@,
    {
        self.head = food;
        self.body.insert(0, food);
        assert(self.body@ =~= seq![food] + old(self).body@);
    }

    /// Moves one unit on: a new head in front, the tail end dropped.
    pub fn advance(&mut self)
        requires
            i32::MIN < old(self).head.x < i32::MAX,
            i32::MIN < old(self).head.y < i32::MAX,
            old(self).body@.len() > 0,
        ensures
            final(self).head == moved(old(self).head, old(self).direction),
            final(self).direction == old(self).direction,
            final(self).body@ == seq![final(self).head] + old(self).body@.drop_last(),
    {
        let nh = self.next_head_pos();
        self.body.insert(0, nh);
        self.body.pop();
        self.head = nh;
        assert(self.body@ =~= seq![nh] + old(self).body@.drop_last());
    }

    /// The head lies on another point of the body.
    pub fn overlapping(&self) -> (r: bool)
        ensures
            r == exists|i: int| 1 <= i < self.body@.len() && self.body@[i] == self.head,
    {
        let mut i: usize = 1;
        while i < self.body.len()
            invariant
                1 <= i,
                forall|j: int| 1 <= j < i && j < self.body@.len() ==> self.body@[j] != self.head,
            decreases self.body@.len() - i,
        {
            if self.body[i] == self.head {
                return true;
            }
            i = i + 1;
        }
        false
    }
}

/// What one move of the snake did.
#[derive(Debug, Clone, Copy, PartialEq, Eq, Structural)]
pub enum SnakeEvent {
    /// It ate the food and grew.
    Ate,
    /// It moved on.
    Moved,
    /// It left the board or bit itself: the game is over.
    Died,
}

/// A snake session.
#[derive(Debug)]
pub struct SnakeGame {
    pub width: i32,
    pub height: i32,
    pub snake: Snake,
    pub food: Food,
    /// Milliseconds between two moves.
    pub waiting_time: u64,
    pub score: u8,
    pub highest: u8,
    pub game_over: bool,
}

impl SnakeGame {
    /// The session's invariant: an 8 by 8 board, a snake whose head is the
    /// first point of its body and lies on the board, and food on the board.
    pub open spec fn wf(&self) -> bool {
        &&& self.width == BOARD
        &&& self.height == BOARD
        &&& self.snake.body@.len() > 0
        &&& self.snake.body@[0] == self.snake.head
        &&& on_board(self.snake.head)
        &&& on_board(self.food.pos)
    }

    /// A new session: a snake of two heading up from `(5, 5)`, food drawn from `rng`.
    pub fn new(rng: &mut CubeRng) -> (r: SnakeGame)
        ensures
            r.wf(),
            r.snake.head == (Point { x: 5, y: 5 }),
            on_board(r.food.pos),
            r.score == 0,
            r.highest == 0,
            !r.game_over,
            r.waiting_time == SNAKE_TICK_MS,
    {
        SnakeGame {
            width: BOARD,
            height: BOARD,
            snake: Snake::new(Point { x: 5, y: 5 }),
            food: Food::random(BOARD, BOARD, rng),
            waiting_time: SNAKE_TICK_MS,
            score: 0,
            highest: 0,
            game_over: false,
        }
    }

    /// `p` lies off the board.
    pub fn outside(&self, p: Point) -> (r: bool)
        ensures
            r == !(0 <= p.x < self.width && 0 <= p.y < self.height),
    {
        p.x < 0 || p.y < 0 || p.x >= self.width || p.y >= self.height
    }

    /// One move: the snake turns as the tilt asks (never back onto itself);
    /// if its next head is the food it grows there, scores, and new food is
    /// placed off its body (no room left ends the game); if the next head
    /// leaves the board, or the head already lies on the body, the game is
    /// over; otherwise it moves on.
    pub fn tick(&mut self, gd: Gd, rng: &mut CubeRng) -> (r: SnakeEvent)
        requires
            old(self).wf(),
        ensures
            final(self).wf(),
            final(self).snake.direction == match wanted(gd) {
                Some(d) => if d == reverse(old(self).snake.direction) { old(self).snake.direction } else { d },
                None => old(self).snake.direction,
            },
            ({
                let nh = moved(old(self).snake.head, final(self).snake.direction);
                if nh == old(self).food.pos {
                    &&& r == SnakeEvent::Ate
                    &&& final(self).snake.body@ == seq![nh] + old(self).snake.body@
                    &&& final(self).score == if old(self).score < 255 { old(self).score + 1 } else { 255 }
                } else if !on_board(nh) || exists|i: int| 1 <= i < old(self).snake.body@.len() && old(self).snake.body@[i] == old(self).snake.head {
                    &&& r == SnakeEvent::Died
                    &&& final(self).game_over
                    &&& final(self).snake.body == old(self).snake.body
                } else {
                    &&& r == SnakeEvent::Moved
                    &&& final(self).snake.body@ == seq![nh] + old(self).snake.body@.drop_last()
                    &&& final(self).food == old(self).food
                }
            }),
    {
        match gd {
            Gd::Up => self.snake.set_direction(Direction::Up),
            Gd::Right => self.snake.set_direction(Direction::Right),
            Gd::Down => self.snake.set_direction(Direction::Down),
            Gd::Left => self.snake.set_direction(Direction::Left),
            Gd::Flat => {},
        }
        let next_head = self.snake.next_head_pos();
        if next_head == self.food.pos {
            self.snake.grow(next_head);
            match Food::create_food(self.width, self.height, &self.snake.body, rng) {
                Some(f) => self.food = f,
                None => self.game_over = true,
            }
            if self.score < 255 {
                self.score = self.score + 1;
            }
            SnakeEvent::Ate
        } else if self.outside(next_head) || self.snake.overlapping() {
            self.game_over = true;
            SnakeEvent::Died
        } else {
            self.snake.advance();
            SnakeEvent::Moved
        }
    }

    /// What the display shows: the body from head to tail, then the food.
    pub fn frame(&self) -> (r: Vec<(Point, u32)>)
        ensures
            r@.len() == self.snake.body@.len() + 1,
            forall|i: int| 0 <= i < self.snake.body@.len() ==> #[trigger] r@[i] == (self.snake.body@[i], SNAKE_COLOR),
            r@[self.snake.body@.len() as int] == (self.food.pos, self.food.color),
    {
        let mut pixels: Vec<(Point, u32)> = Vec::new();
        let mut i: usize = 0;
        while i < self.snake.body.len()
            invariant
                i <= self.snake.body@.len(),
                pixels@.len() == i,
                forall|j: int| 0 <= j < i ==> #[trigger] pixels@[j] == (self.snake.body@[j], SNAKE_COLOR),
            decreases self.snake.body@.len() - i,
        {
            pixels.push((self.snake.body[i], SNAKE_COLOR));
            i = i + 1;
        }
        pixels.push((self.food.pos, self.food.color));
        pixels
    }
}

} // verus!
