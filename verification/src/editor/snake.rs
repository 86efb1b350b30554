//! The snake game hidden in the editor: the board, the snake, its food and
//! the rules of one move. How often the snake moves is left to the caller.

use vstd::prelude::*;
use std::collections::VecDeque;
use rand::Rng;

verus! {

/// Where the snake is heading.
#[derive(Debug, Clone, Copy, PartialEq, Eq, Structural)]
pub enum Direction {
    Up,
    Down,
    Left,
    Right,
}

/// Whether the game goes on, was lost or was won.
#[derive(Debug, Clone, Copy, PartialEq, Eq, Structural)]
pub enum GameState {
    Playing,
    GameOver,
    Won,
}

/// A cell of the board.
#[derive(Debug, Clone, Copy, PartialEq, Eq, Structural)]
pub struct Position {
    pub x: usize,
    pub y: usize,
}

impl Position {
    pub fn new(x: usize, y: usize) -> (p: Self)
        ensures
            p == (Position { x, y }),
    {
        Position { x, y }
    }
}

/// `rand::thread_rng().gen_range(0..n)`: a random number below `n`, each
/// equally likely. The contract states only the range.
#[verifier::external_body]
fn random_below(n: usize) -> (r: usize)
    requires
        n > 0,
    ensures
        r < n,
{
    rand::thread_rng().gen_range(0..n)
}

/// Whether `p` lies on the board.
pub open spec fn on_board(p: Position, width: int, height: int) -> bool {
    p.x < width && p.y < height
}

/// Whether `p` lies inside the border of the board, where food may be put.
pub open spec fn interior(p: Position, width: int, height: int) -> bool {
    1 <= p.x < width - 1 && 1 <= p.y < height - 1
}

/// The score that wins: a quarter of the cells.
pub open spec fn winning_score(width: int, height: int) -> int {
    width * height / 4
}

/// Whether the inside of the board always has a free cell for food: it holds
/// more cells than the longest snake that still needs food.
pub open spec fn room(width: int, height: int) -> bool {
    (width - 2) * (height - 2) > 2 + winning_score(width, height)
}

/// The cell next to `p` in direction `d` (coordinates do not go below 0).
pub open spec fn next_cell(p: Position, d: Direction) -> Position {
    match d {
        Direction::Up => Position { x: p.x, y: if p.y > 0 { (p.y - 1) as usize } else { 0 } },
        Direction::Down => Position { x: p.x, y: (p.y + 1) as usize },
        Direction::Left => Position { x: if p.x > 0 { (p.x - 1) as usize } else { 0 }, y: p.y },
        Direction::Right => Position { x: (p.x + 1) as usize, y: p.y },
    }
}

/// Whether `p` is a cell of the snake other than its tail.
pub open spec fn hits_body(p: Position, body: Seq<Position>) -> bool {
    exists|i: int| 0 <= i < body.len() - 1 && body[i] == p
}

/// Whether turning from `from` to `to` reverses the snake.
pub open spec fn reverses(from: Direction, to: Direction) -> bool {
    ||| from == Direction::Up && to == Direction::Down
    ||| from == Direction::Down && to == Direction::Up
    ||| from == Direction::Left && to == Direction::Right
    ||| from == Direction::Right && to == Direction::Left
}

/// The abstract state of a [`Snake`] game.
pub struct SnakeModel {
    /// The snake's cells, head first.
    pub body: Seq<Position>,
    pub direction: Direction,
    pub food: Position,
    pub state: GameState,
    pub width: usize,
    pub height: usize,
    pub score: usize,
    pub max_score: usize,
}

/// A snake game on a `width` × `height` board.
pub struct Snake {
    body: VecDeque<Position>,
    direction: Direction,
    food: Position,
    state: GameState,
    width: usize,
    height: usize,
    score: usize,
    max_score: usize,
}

impl View for Snake {
    type V = SnakeModel;

    closed spec fn view(&self) -> SnakeModel {
        SnakeModel {
            body: self.body@,
            direction: self.direction,
            food: self.food,
            state: self.state,
            width: self.width,
            height: self.height,
            score: self.score,
            max_score: self.max_score,
        }
    }
}

/// Whether `body` holds `p`.
fn holds(body: &VecDeque<Position>, p: Position) -> (r: bool)
    ensures
        r == body@.contains(p),
{
    let mut i: usize = 0;
    while i < body.len()
        invariant
            i <= body@.len(),
            forall|k: int| 0 <= k < i ==> body@[k] != p,
        decreases body.len() - i,
    {
        if body[i] == p {
            return true;
        }
        i += 1;
    }
    false
}

/// Whether `p` is a cell of `body` other than its last.
fn hits(body: &VecDeque<Position>, p: Position) -> (r: bool)
    requires
        body@.len() > 0,
    ensures
        r == hits_body(p, body@),
{
    let n = body.len();
    let mut i: usize = 0;
    while i < n - 1
        invariant
            n == body@.len(),
            n > 0,
            i <= n - 1,
            forall|k: int| 0 <= k < i ==> body@[k] != p,
        decreases n - 1 - i,
    {
        if body[i] == p {
            return true;
        }
        i += 1;
    }
    false
}

/// The cells inside the border not covered by `body`, row by row; there is
/// one at least when the inside holds more cells than `body` has.
fn free_cells(body: &VecDeque<Position>, width: usize, height: usize) -> (r: Vec<Position>)
    requires
        2 <= width,
        2 <= height,
    ensures
        forall|i: int|
            0 <= i < r@.len() ==> interior(#[trigger] r@[i], width as int, height as int)
                && !body@.contains(r@[i]),
        (width - 2) * (height - 2) > body@.len() ==> r@.len() > 0,
{
    let mut r: Vec<Position> = Vec::new();
    let ghost mut all: Seq<Position> = Seq::empty();
    let mut y: usize = 1;
    while y + 1 < height
        invariant
            2 <= width,
            2 <= height,
            1 <= y <= height - 1,
            all.len() == (y - 1) * (width - 2),
            all.no_duplicates(),
            forall|k: int| 0 <= k < all.len() ==> (#[trigger] all[k]).y < y && interior(all[k], width as int, height as int),
            forall|q: Position| all.contains(q) ==> r@.contains(q) || body@.contains(q),
            forall|i: int|
                0 <= i < r@.len() ==> interior(#[trigger] r@[i], width as int, height as int)
                    && !body@.contains(r@[i]),
        decreases height - y,
    {
        let mut x: usize = 1;
        while x + 1 < width
            invariant
                2 <= width,
                2 <= height,
                1 <= y < height - 1,
                1 <= x <= width - 1,
                all.len() == (y - 1) * (width - 2) + (x - 1),
                all.no_duplicates(),
                forall|k: int|
                    0 <= k < all.len() ==> ((#[trigger] all[k]).y < y || (all[k].y == y && all[k].x < x))
                        && interior(all[k], width as int, height as int),
                forall|q: Position| all.contains(q) ==> r@.contains(q) || body@.contains(q),
                forall|i: int|
                    0 <= i < r@.len() ==> interior(#[trigger] r@[i], width as int, height as int)
                        && !body@.contains(r@[i]),
            decreases width - x,
        {
            let p = Position { x, y };
            let ghost r0 = r@;
            let covered = holds(body, p);
            if !covered {
                r.push(p);
                assert(r@[r@.len() - 1] == p);
            }
            proof {
                assert(!all.contains(p));
                let all0 = all;
                all = all.push(p);
                assert forall|q: Position| all.contains(q) implies r@.contains(q) || body@.contains(q) by {
                    if q != p {
                        assert(all0.contains(q));
                        if r0.contains(q) {
                            let j = choose|j: int| 0 <= j < r0.len() && r0[j] == q;
                            assert(r@[j] == q);
                        }
                    }
                }
            }
            x += 1;
        }
        proof {
            assert((y - 1) * (width - 2) + (width - 2) == y * (width - 2)) by (nonlinear_arith);
        }
        y += 1;
    }
    proof {
        assert(all.len() == (height - 2) * (width - 2));
        assert((height - 2) * (width - 2) == (width - 2) * (height - 2)) by (nonlinear_arith);
        if r@.len() == 0 {
            assert(all.to_set().subset_of(body@.to_set())) by {
                assert forall|q: Position| all.to_set().contains(q) implies body@.to_set().contains(q) by {
                    assert(all.contains(q));
                    if r@.contains(q) {
                        assert(false);
                    }
                }
            }
            all.unique_seq_to_set();
            body@.lemma_cardinality_of_set();
            vstd::set_lib::lemma_len_subset(all.to_set(), body@.to_set());
        }
    }
    r
}

impl Snake {
    /// The invariant of a game: a board with room for food, a snake of three
    /// cells more than the score on the board, food inside the border, and a
    /// score below the winning one while the game goes on.
    pub closed spec fn wf(&self) -> bool {
        &&& 8 <= self.width
        &&& 3 <= self.height
        &&& self.width * self.height <= usize::MAX
        &&& room(self.width as int, self.height as int)
        &&& self.max_score == winning_score(self.width as int, self.height as int)
        &&& self.body@.len() == 3 + self.score
        &&& self.score <= self.max_score
        &&& self.state == GameState::Playing ==> self.score < self.max_score
        &&& forall|i: int|
            0 <= i < self.body@.len() ==> on_board(
                #[trigger] self.body@[i],
                self.width as int,
                self.height as int,
            )
        &&& interior(self.food, self.width as int, self.height as int)
    }

    /// A new game: a snake of three cells heading right from a quarter of the
    /// width on the middle row, the food on a random free cell inside the border.
    /// Boards too small to always hold food are left out.
    pub fn new(width: usize, height: usize) -> (s: Self)
        requires
            8 <= width,
            3 <= height,
            width * height <= usize::MAX,
            room(width as int, height as int),
        ensures
            s.wf(),
            s@.body == seq![
                Position { x: (width / 4) as usize, y: (height / 2) as usize },
                Position { x: (width / 4 - 1) as usize, y: (height / 2) as usize },
                Position { x: (width / 4 - 2) as usize, y: (height / 2) as usize },
            ],
            s@.direction == Direction::Right,
            s@.state == GameState::Playing,
            s@.width == width,
            s@.height == height,
            s@.score == 0,
            s@.max_score == winning_score(width as int, height as int),
            !s@.body.contains(s@.food),
    {
        let start_x = width / 4;
        let start_y = height / 2;
        let mut body: VecDeque<Position> = VecDeque::new();
        body.push_back(Position::new(start_x, start_y));
        body.push_back(Position::new(start_x - 1, start_y));
        body.push_back(Position::new(start_x - 2, start_y));
        proof {
            assert(winning_score(width as int, height as int) >= 6) by (nonlinear_arith)
                requires
                    8 <= width,
                    3 <= height,
            ;
        }
        let free = free_cells(&body, width, height);
        let k = random_below(free.len());
        let food = free[k];
        let s = Snake {
            body,
            direction: Direction::Right,
            food,
            state: GameState::Playing,
            width,
            height,
            score: 0,
            max_score: width * height / 4,
        };
        assert(s@.body =~= seq![
            Position { x: (width / 4) as usize, y: (height / 2) as usize },
            Position { x: (width / 4 - 1) as usize, y: (height / 2) as usize },
            Position { x: (width / 4 - 2) as usize, y: (height / 2) as usize },
        ]);
        s
    }

    /// Turns the snake, unless that would reverse it.
    pub fn change_direction(&mut self, direction: Direction)
        ensures
            final(self)@.direction == (if reverses(old(self)@.direction, direction) {
                old(self)@.direction
            } else {
                direction
            }),
            final(self)@.body == old(self)@.body,
            final(self)@.food == old(self)@.food,
            final(self)@.state == old(self)@.state,
            final(self)@.width == old(self)@.width,
            final(self)@.height == old(self)@.height,
            final(self)@.score == old(self)@.score,
            final(self)@.max_score == old(self)@.max_score,
            final(self).wf() == old(self).wf(),
    {
        let invalid_turn = match (self.direction, direction) {
            (Direction::Up, Direction::Down) => true,
            (Direction::Down, Direction::Up) => true,
            (Direction::Left, Direction::Right) => true,
            (Direction::Right, Direction::Left) => true,
            _ => false,
        };
        if !invalid_turn {
            self.direction = direction;
        }
    }

    /// One move of the game. A finished game does not move and `false` is
    /// returned; otherwise the head moves one cell on. Leaving the board or
    /// running into the body (its tail excepted) ends the game. Reaching the
    /// food grows the snake and scores; at the winning score the game is won,
    /// else new food appears on a random free cell inside the border. Any
    /// other move drops the tail.
    pub fn advance(&mut self) -> (moved: bool)
        requires
            old(self).wf(),
        ensures
            final(self).wf(),
            moved == (old(self)@.state == GameState::Playing),
            final(self)@.direction == old(self)@.direction,
            final(self)@.width == old(self)@.width,
            final(self)@.height == old(self)@.height,
            final(self)@.max_score == old(self)@.max_score,
            old(self)@.state != GameState::Playing ==> final(self)@ == old(self)@,
            old(self)@.state == GameState::Playing ==> {
                let head = next_cell(old(self)@.body[0], old(self)@.direction);
                if head.x >= old(self)@.width || head.y >= old(self)@.height || hits_body(
                    head,
                    old(self)@.body,
                ) {
                    &&& final(self)@.state == GameState::GameOver
                    &&& final(self)@.body == old(self)@.body
                    &&& final(self)@.food == old(self)@.food
                    &&& final(self)@.score == old(self)@.score
                } else if head == old(self)@.food {
                    &&& final(self)@.body == seq![head] + old(self)@.body
                    &&& final(self)@.score == old(self)@.score + 1
                    &&& if old(self)@.score + 1 >= old(self)@.max_score {
                        final(self)@.state == GameState::Won && final(self)@.food == old(self)@.food
                    } else {
                        &&& final(self)@.state == GameState::Playing
                        &&& !final(self)@.body.contains(final(self)@.food)
                    }
                } else {
                    &&& final(self)@.body == (seq![head] + old(self)@.body).drop_last()
                    &&& final(self)@.state == GameState::Playing
                    &&& final(self)@.food == old(self)@.food
                    &&& final(self)@.score == old(self)@.score
                }
            },
    {
        if self.state != GameState::Playing {
            return false;
        }
        let head = self.body[0];
        let new_head = match self.direction {
            Direction::Up => Position::new(head.x, if head.y > 0 { head.y - 1 } else { 0 }),
            Direction::Down => Position::new(head.x, head.y + 1),
            Direction::Left => Position::new(if head.x > 0 { head.x - 1 } else { 0 }, head.y),
            Direction::Right => Position::new(head.x + 1, head.y),
        };
        assert(new_head == next_cell(self@.body[0], self@.direction));
        if new_head.x >= self.width || new_head.y >= self.height {
            self.state = GameState::GameOver;
            return true;
        }
        if hits(&self.body, new_head) {
            self.state = GameState::GameOver;
            return true;
        }
        let ghost old_body = self.body@;
        self.body.push_front(new_head);
        if new_head == self.food {
            self.score += 1;
            if self.score >= self.max_score {
                self.state = GameState::Won;
                return true;
            }
            proof {
                assert(winning_score(self.width as int, self.height as int) + 2 < (self.width - 2) * (
                self.height - 2));
            }
            let free = free_cells(&self.body, self.width, self.height);
            let k = random_below(free.len());
            self.food = free[k];
        } else {
            self.body.pop_back();
            assert(self.body@ =~= (seq![new_head] + old_body).drop_last());
        }
        true
    }

    /// The snake's cells, head first.
    pub fn body(&self) -> (r: &VecDeque<Position>)
        ensures
            r@ == self@.body,
    {
        &self.body
    }

    pub fn food(&self) -> (r: Position)
        ensures
            r == self@.food,
    {
        self.food
    }

    pub fn score(&self) -> (r: usize)
        ensures
            r == self@.score,
    {
        self.score
    }

    pub fn state(&self) -> (r: GameState)
        ensures
            r == self@.state,
    {
        self.state
    }

    pub fn width(&self) -> (r: usize)
        ensures
            r == self@.width,
    {
        self.width
    }

    pub fn height(&self) -> (r: usize)
        ensures
            r == self@.height,
    {
        self.height
    }

    /// Starts a new game on the same board.
    pub fn reset(&mut self)
        requires
            old(self).wf(),
        ensures
            final(self).wf(),
            final(self)@.width == old(self)@.width,
            final(self)@.height == old(self)@.height,
            final(self)@.direction == Direction::Right,
            final(self)@.state == GameState::Playing,
            final(self)@.score == 0,
            final(self)@.body == seq![
                Position { x: (old(self)@.width / 4) as usize, y: (old(self)@.height / 2) as usize },
                Position { x: (old(self)@.width / 4 - 1) as usize, y: (old(self)@.height / 2) as usize },
                Position { x: (old(self)@.width / 4 - 2) as usize, y: (old(self)@.height / 2) as usize },
            ],
            !final(self)@.body.contains(final(self)@.food),
    {
        *self = Snake::new(self.width, self.height);
    }
}

} // verus!
