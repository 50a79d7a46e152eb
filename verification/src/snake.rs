//! The snake: an ordered list of cells with a heading, a move timer and a
//! terminal dead state.

use crate::direction::Direction;
use std::collections::VecDeque;
use vstd::prelude::*;

verus! {

/// Which part of the snake occupies a cell.
#[derive(Clone, Copy, Debug, PartialEq, Eq, Structural)]
pub enum SnakeCollision {
    Head,
    Tail,
}

/// The snake. `body` runs from the head, at index 0, to the tail.
/// `direction` is the heading that the next move will take and
/// `prev_direction` the heading of the last move made.
pub struct Snake {
    pub body: VecDeque<(u32, u32)>,
    pub prev_direction: Direction,
    pub direction: Direction,
    pub period: u32,
    pub tick: u32,
    pub score: u32,
    pub dead: bool,
}

/// The mathematical value of a `Snake`.
pub struct SnakeView {
    pub body: Seq<(u32, u32)>,
    pub prev_direction: Direction,
    pub direction: Direction,
    pub period: u32,
    pub tick: u32,
    pub score: u32,
    pub dead: bool,
}

impl View for Snake {
    type V = SnakeView;

    open spec fn view(&self) -> SnakeView {
        SnakeView {
            body: self.body@,
            prev_direction: self.prev_direction,
            direction: self.direction,
            period: self.period,
            tick: self.tick,
            score: self.score,
            dead: self.dead,
        }
    }
}

/// The body that a new snake starts with: eight cells in a row, head to the right.
pub open spec fn initial_body() -> Seq<(u32, u32)> {
    seq![
        (10u32, 3u32),
        (9u32, 3u32),
        (8u32, 3u32),
        (7u32, 3u32),
        (6u32, 3u32),
        (5u32, 3u32),
        (4u32, 3u32),
        (3u32, 3u32),
    ]
}

impl SnakeView {
    /// A snake always has a head.
    pub open spec fn wf(self) -> bool {
        self.body.len() > 0
    }

    /// The first cell of the body.
    pub open spec fn head(self) -> (u32, u32) {
        self.body[0]
    }

    /// The last cell of the body.
    pub open spec fn tail(self) -> (u32, u32) {
        self.body[self.body.len() - 1]
    }

    /// The cell one step from the head along the pending heading. It may lie
    /// outside the representable grid.
    pub open spec fn candidate(self) -> (int, int) {
        let (x, y) = self.head();
        match self.direction {
            Direction::Up => (x as int, y - 1),
            Direction::Right => (x + 1, y as int),
            Direction::Down => (x as int, y + 1),
            Direction::Left => (x - 1, y as int),
        }
    }

    /// What of the snake lies on `(x, y)`: the head where the head is there,
    /// else the tail where any later segment is there.
    pub open spec fn collision(self, x: u32, y: u32) -> Option<SnakeCollision> {
        if self.body.len() > 0 && self.body[0] == (x, y) {
            Some(SnakeCollision::Head)
        } else if self.body.contains((x, y)) {
            Some(SnakeCollision::Tail)
        } else {
            None
        }
    }

    /// A segment behind the head lies on `(x, y)`.
    pub open spec fn behind_head(self, x: u32, y: u32) -> bool {
        self.body.len() > 0 && self.body.skip(1).contains((x, y))
    }

    /// The snake after `n` copies of its tail cell were appended.
    pub open spec fn grow(self, n: nat) -> SnakeView {
        let t = self.tail();
        SnakeView { body: self.body + Seq::new(n, |i: int| t), ..self }
    }

    /// The snake after a request to head for `d`: a live snake takes the
    /// request unless `d` is opposite to the heading of the last move; a
    /// dead one takes none.
    pub open spec fn turn(self, d: Direction) -> SnakeView {
        if self.dead || self.prev_direction.spec_is_opposite(d) {
            self
        } else {
            SnakeView { direction: d, ..self }
        }
    }
}

impl Snake {
    /// The snake has a head.
    pub open spec fn wf(&self) -> bool {
        self@.wf()
    }

    /// A live snake of eight cells on row 3, its head at column 10, heading
    /// right, that moves once every 25 ticks.
    pub fn new() -> (r: Snake)
        ensures
            r@ == (SnakeView {
                body: initial_body(),
                prev_direction: Direction::Right,
                direction: Direction::Right,
                period: 24,
                tick: 0,
                score: 0,
                dead: false,
            }),
            r.wf(),
    {
        let mut body: VecDeque<(u32, u32)> = VecDeque::new();
        body.push_back((10, 3));
        body.push_back((9, 3));
        body.push_back((8, 3));
        body.push_back((7, 3));
        body.push_back((6, 3));
        body.push_back((5, 3));
        body.push_back((4, 3));
        body.push_back((3, 3));
        assert(body@ =~= initial_body());
        Snake {
            body,
            prev_direction: Direction::Right,
            direction: Direction::Right,
            period: 24,
            tick: 0,
            score: 0,
            dead: false,
        }
    }

    /// Tells which part of the snake, if any, lies on `(x, y)`.
    pub fn is_collision(&self, x: u32, y: u32) -> (r: Option<SnakeCollision>)
        ensures
            r == self@.collision(x, y),
    {
        let n: usize = self.body.len();
        let mut i: usize = 0;
        while i < n
            invariant
                n == self.body@.len(),
                i <= n,
                forall|j: int| 0 <= j < i ==> self.body@[j] != (x, y),
            decreases n - i,
        {
            let p: (u32, u32) = self.body[i];
            if p.0 == x && p.1 == y {
                if i == 0 {
                    return Some(SnakeCollision::Head);
                }
                return Some(SnakeCollision::Tail);
            }
            i = i + 1;
        }
        None
    }

    /// Tells whether a segment behind the head lies on `(x, y)`.
    pub fn is_behind_head(&self, x: u32, y: u32) -> (r: bool)
        ensures
            r == self@.behind_head(x, y),
    {
        let n: usize = self.body.len();
        let mut i: usize = 1;
        while i < n
            invariant
                n == self.body@.len(),
                1 <= i,
                forall|j: int| 1 <= j < i && j < n ==> self.body@[j] != (x, y),
            decreases n - i,
        {
            let p: (u32, u32) = self.body[i];
            if p.0 == x && p.1 == y {
                assert(self.body@.skip(1)[i - 1] == (x, y));
                return true;
            }
            i = i + 1;
        }
        proof {
            if n > 0 && self.body@.skip(1).contains((x, y)) {
                let j = choose|j: int|
                    0 <= j < self.body@.skip(1).len() && self.body@.skip(1)[j] == (x, y);
                assert(self.body@[j + 1] == (x, y));
            }
        }
        false
    }

    /// Appends `n` copies of the tail cell. They unfold one by one as the
    /// snake moves on.
    pub fn grow(&mut self, n: u32)
        requires
            old(self).wf(),
        ensures
            final(self)@ == old(self)@.grow(n as nat),
            final(self).wf(),
    {
        let last: usize = self.body.len() - 1;
        let back: (u32, u32) = self.body[last];
        let mut i: u32 = 0;
        while i < n
            invariant
                i <= n,
                back == old(self)@.tail(),
                self@ == (SnakeView {
                    body: old(self)@.body + Seq::new(i as nat, |k: int| back),
                    ..old(self)@
                }),
            decreases n - i,
        {
            self.body.push_back(back);
            i = i + 1;
            assert(self.body@ =~= old(self)@.body + Seq::new(i as nat, |k: int| back));
        }
    }

    /// Asks the snake to head for `d` from its next move on. A request to
    /// reverse is ignored, and so is any request to a dead snake; of
    /// several requests before a move the last one taken counts.
    pub fn request_direction(&mut self, d: Direction)
        ensures
            final(self)@ == old(self)@.turn(d),
    {
        if !self.dead && !self.prev_direction.is_opposite(d) {
            self.direction = d;
        }
    }

    /// Asks the snake to head up.
    pub fn move_up(&mut self)
        ensures
            final(self)@ == old(self)@.turn(Direction::Up),
    {
        self.request_direction(Direction::Up);
    }

    /// Asks the snake to head right.
    pub fn move_right(&mut self)
        ensures
            final(self)@ == old(self)@.turn(Direction::Right),
    {
        self.request_direction(Direction::Right);
    }

    /// Asks the snake to head down.
    pub fn move_down(&mut self)
        ensures
            final(self)@ == old(self)@.turn(Direction::Down),
    {
        self.request_direction(Direction::Down);
    }

    /// Asks the snake to head left.
    pub fn move_left(&mut self)
        ensures
            final(self)@ == old(self)@.turn(Direction::Left),
    {
        self.request_direction(Direction::Left);
    }
}

/// A request to reverse the heading of the last move leaves a live snake
/// as it is; any other request becomes its pending heading and changes
/// nothing else.
pub proof fn lemma_turn_rule(s: SnakeView, d: Direction)
    requires
        !s.dead,
    ensures
        d == s.prev_direction.spec_cw().spec_cw() ==> s.turn(d) == s,
        d != s.prev_direction.spec_cw().spec_cw() ==> s.turn(d) == (SnakeView {
            direction: d,
            ..s
        }),
{
}

/// Of two requests in a row the later one decides, where it is taken.
pub proof fn lemma_last_taken_turn_wins(s: SnakeView, d1: Direction, d2: Direction)
    requires
        !s.dead,
        !s.prev_direction.spec_is_opposite(d2),
    ensures
        s.turn(d1).turn(d2) == s.turn(d2),
        s.turn(d1).turn(d2).direction == d2,
{
}

/// No turn request changes a dead snake.
pub proof fn lemma_dead_snake_takes_no_turn(s: SnakeView, d: Direction)
    requires
        s.dead,
    ensures
        s.turn(d) == s,
{
}

/// Growing adds exactly `n` cells, all equal to the old tail, behind the
/// old body.
pub proof fn lemma_grow_shape(s: SnakeView, n: nat)
    requires
        s.wf(),
    ensures
        s.grow(n).body.len() == s.body.len() + n,
        s.grow(n).body.subrange(0, s.body.len() as int) == s.body,
        forall|i: int| s.body.len() <= i < s.body.len() + n ==> s.grow(n).body[i] == s.tail(),
        s.grow(n).tail() == s.tail(),
{
    assert(s.grow(n).body.subrange(0, s.body.len() as int) =~= s.body);
}

} // verus!
