//! The world: one snake, one play area, one piece of food, and the rules
//! for what a cell collides with.

use crate::apple::{free_cell, Apple};
use crate::direction::Direction;
use crate::level::LevelBounds;
use crate::snake::{Snake, SnakeCollision, SnakeView};
use vstd::prelude::*;

verus! {

/// The kinds of object that a cell can collide with, and that can ask.
#[derive(Clone, Copy, Debug, PartialEq, Eq, Structural)]
pub enum ObjectId {
    SnakeHead,
    SnakeTail,
    LevelBound,
    Apple,
}

/// What one tick does to the snake.
pub enum Step {
    /// The snake is dead: nothing happens.
    Idle,
    /// The move timer has not run out: it counts one tick.
    Waited,
    /// The cell ahead is not inside the wall: the snake dies where it is.
    HitWall,
    /// The cell ahead holds a segment behind the head: the snake dies where it is.
    HitSelf,
    /// The cell ahead holds the food: the snake moves and is one cell longer.
    Ate,
    /// The cell ahead is free: the snake moves.
    Moved,
}

/// The snake, the play area it lives in and the food.
pub struct World {
    pub snake: Snake,
    pub level_bounds: LevelBounds,
    pub apple: Apple,
}

/// The mathematical value of a `World`.
pub struct WorldView {
    pub snake: SnakeView,
    pub level_bounds: LevelBounds,
    pub apple: Option<(u32, u32)>,
}

impl View for World {
    type V = WorldView;

    open spec fn view(&self) -> WorldView {
        WorldView { snake: self.snake@, level_bounds: self.level_bounds, apple: self.apple.pos }
    }
}

/// A score one higher, held at the largest representable value.
pub open spec fn score_after_eating(score: u32) -> u32 {
    if score < u32::MAX {
        (score + 1) as u32
    } else {
        score
    }
}

impl WorldView {
    /// The snake has a head and the play area ends on representable coordinates.
    pub open spec fn wf(self) -> bool {
        self.snake.wf() && self.level_bounds.fits()
    }

    /// The first match decides: the wall, the head, a segment behind the
    /// head, the food. A kind never collides with itself: its own rule is
    /// passed over and the later ones still apply.
    pub open spec fn check_collision(self, id: ObjectId, x: u32, y: u32) -> Option<ObjectId> {
        if id != ObjectId::LevelBound && !self.level_bounds.spec_is_inside(x as int, y as int) {
            Some(ObjectId::LevelBound)
        } else if id != ObjectId::SnakeHead && self.snake.body.len() > 0 && self.snake.head() == (
            x,
            y,
        ) {
            Some(ObjectId::SnakeHead)
        } else if id != ObjectId::SnakeTail && self.snake.behind_head(x, y) {
            Some(ObjectId::SnakeTail)
        } else if id != ObjectId::Apple && self.apple == Some((x, y)) {
            Some(ObjectId::Apple)
        } else {
            None
        }
    }

    /// The cell ahead of the head, as a grid cell. Meaningful where that
    /// cell is inside the wall.
    pub open spec fn ahead(self) -> (u32, u32) {
        let c = self.snake.candidate();
        (c.0 as u32, c.1 as u32)
    }

    /// What the next tick does to the snake.
    pub open spec fn step(self) -> Step {
        let c = self.snake.candidate();
        if self.snake.dead {
            Step::Idle
        } else if self.snake.tick < self.snake.period {
            Step::Waited
        } else if !self.level_bounds.spec_is_inside(c.0, c.1) {
            Step::HitWall
        } else if self.snake.behind_head(self.ahead().0, self.ahead().1) {
            Step::HitSelf
        } else if self.apple == Some(self.ahead()) {
            Step::Ate
        } else {
            Step::Moved
        }
    }

    /// The world after one tick of the snake.
    pub open spec fn advance(self) -> WorldView {
        let s = self.snake;
        let snake = match self.step() {
            Step::Idle => s,
            Step::Waited => SnakeView { tick: (s.tick + 1) as u32, ..s },
            Step::HitWall | Step::HitSelf => SnakeView { tick: 0, dead: true, ..s },
            Step::Ate => SnakeView {
                tick: 0,
                body: seq![self.ahead()] + s.body,
                prev_direction: s.direction,
                score: score_after_eating(s.score),
                ..s
            },
            Step::Moved => SnakeView {
                tick: 0,
                body: seq![self.ahead()] + s.body.drop_last(),
                prev_direction: s.direction,
                ..s
            },
        };
        WorldView { snake, ..self }
    }

    /// The food is placed and need not be placed anew.
    pub open spec fn apple_stays(self) -> bool {
        match self.apple {
            Some(p) => self.check_collision(ObjectId::Apple, p.0, p.1) != Some(
                ObjectId::SnakeHead,
            ),
            None => false,
        }
    }

    /// `p` is inside the wall and no segment of the snake lies on it.
    pub open spec fn is_free(self, p: (u32, u32)) -> bool {
        free_cell(self.snake, self.level_bounds, p)
    }

    /// The world after `n` ticks of the snake.
    pub open spec fn advance_by(self, n: nat) -> WorldView
        decreases n,
    {
        if n == 0 {
            self
        } else {
            self.advance_by((n - 1) as nat).advance()
        }
    }

    /// Every segment of the snake lies inside the wall.
    pub open spec fn snake_inside(self) -> bool {
        forall|i: int|
            0 <= i < self.snake.body.len() ==> self.level_bounds.spec_is_inside(
                (#[trigger] self.snake.body[i]).0 as int,
                self.snake.body[i].1 as int,
            )
    }

    /// The world with `n` tail cells added to its snake.
    pub open spec fn grow_snake(self, n: nat) -> WorldView {
        WorldView { snake: self.snake.grow(n), ..self }
    }
}

impl World {
    /// The snake has a head and the play area ends on representable coordinates.
    pub open spec fn wf(&self) -> bool {
        self@.wf()
    }

    /// A world with no food placed yet.
    pub fn new(snake: Snake, level_bounds: LevelBounds) -> (r: World)
        ensures
            r@ == (WorldView { snake: snake@, level_bounds, apple: None }),
    {
        let apple = Apple::new();
        World { snake, level_bounds, apple }
    }

    /// Tells what the cell `(x, y)` collides with when `id` asks.
    pub fn check_collision(&self, id: ObjectId, x: u32, y: u32) -> (r: Option<ObjectId>)
        ensures
            r == self@.check_collision(id, x, y),
    {
        if id != ObjectId::LevelBound && !self.level_bounds.is_inside(x, y) {
            return Some(ObjectId::LevelBound);
        }
        match self.snake.is_collision(x, y) {
            Some(SnakeCollision::Head) => {
                if id != ObjectId::SnakeHead {
                    return Some(ObjectId::SnakeHead);
                }
                if self.snake.is_behind_head(x, y) {
                    return Some(ObjectId::SnakeTail);
                }
            },
            Some(SnakeCollision::Tail) => {
                proof {
                    lemma_contains_behind_head(self.snake@.body, (x, y));
                }
                if id != ObjectId::SnakeTail {
                    return Some(ObjectId::SnakeTail);
                }
            },
            None => {
                proof {
                    if self.snake@.body.len() > 0 {
                        lemma_contains_behind_head(self.snake@.body, (x, y));
                    }
                }
            },
        }
        if id != ObjectId::Apple {
            match self.apple.pos {
                Some(p) => {
                    if p.0 == x && p.1 == y {
                        return Some(ObjectId::Apple);
                    }
                },
                None => {},
            }
        }
        None
    }
}

/// A cell that differs from the head lies on the snake exactly when it lies
/// on a segment behind the head.
pub proof fn lemma_contains_behind_head(body: Seq<(u32, u32)>, p: (u32, u32))
    requires
        body.len() > 0,
        body[0] != p,
    ensures
        body.contains(p) == body.skip(1).contains(p),
{
    if body.contains(p) {
        let i = choose|i: int| 0 <= i < body.len() && body[i] == p;
        assert(body.skip(1)[i - 1] == p);
    }
    if body.skip(1).contains(p) {
        let i = choose|i: int| 0 <= i < body.skip(1).len() && body.skip(1)[i] == p;
        assert(body[i + 1] == p);
    }
}

impl Snake {
    /// One tick of the snake in its world. A dead snake stays as it is. A
    /// live one counts the tick and, when the timer has passed its period,
    /// steps towards its pending heading: into the wall or into itself it
    /// dies without moving, onto the food it moves and keeps its tail cell,
    /// elsewhere it moves.
    pub fn update(world: &mut World)
        requires
            old(world).wf(),
        ensures
            final(world)@ == old(world)@.advance(),
            final(world).wf(),
    {
        if world.snake.dead {
            return ;
        }
        if world.snake.tick < world.snake.period {
            world.snake.tick = world.snake.tick + 1;
            return ;
        }
        world.snake.tick = 0;
        let head: (u32, u32) = world.snake.body[0];
        let x: u32 = head.0;
        let y: u32 = head.1;
        let target: Option<(u32, u32)> = match world.snake.direction {
            Direction::Up => if y > 0 {
                Some((x, y - 1))
            } else {
                None
            },
            Direction::Right => if x < u32::MAX {
                Some((x + 1, y))
            } else {
                None
            },
            Direction::Down => if y < u32::MAX {
                Some((x, y + 1))
            } else {
                None
            },
            Direction::Left => if x > 0 {
                Some((x - 1, y))
            } else {
                None
            },
        };
        let object_id: Option<ObjectId> = match target {
            Some(t) => world.check_collision(ObjectId::SnakeHead, t.0, t.1),
            None => Some(ObjectId::LevelBound),
        };
        match (object_id, target) {
            (Some(ObjectId::LevelBound), _) | (Some(ObjectId::SnakeTail), _) | (_, None) => {
                world.snake.dead = true;
            },
            (other, Some(t)) => {
                if other == Some(ObjectId::Apple) {
                    world.snake.grow(1);
                    if world.snake.score < u32::MAX {
                        world.snake.score = world.snake.score + 1;
                    }
                }
                world.snake.body.push_front(t);
                world.snake.body.pop_back();
                world.snake.prev_direction = world.snake.direction;
                assert(world.snake.body@ =~= old(world)@.advance().snake.body);
            },
        }
    }
}

/// A move to a cell that is not inside the wall kills the snake and leaves
/// its body as it was.
pub proof fn lemma_wall_is_fatal(w: WorldView)
    requires
        !w.snake.dead,
        w.snake.tick >= w.snake.period,
        !w.level_bounds.spec_is_inside(w.snake.candidate().0, w.snake.candidate().1),
    ensures
        w.advance().snake.dead,
        w.advance().snake.body == w.snake.body,
{
}

/// A move to a cell that holds a segment behind the head kills the snake
/// and leaves its body as it was.
pub proof fn lemma_self_collision_is_fatal(w: WorldView, i: int)
    requires
        !w.snake.dead,
        w.snake.tick >= w.snake.period,
        1 <= i < w.snake.body.len(),
        w.snake.body[i].0 == w.snake.candidate().0,
        w.snake.body[i].1 == w.snake.candidate().1,
    ensures
        w.advance().snake.dead,
        w.advance().snake.body == w.snake.body,
{
    assert(w.snake.body.skip(1)[i - 1] == w.ahead());
}

/// Death is final: a tick changes nothing in a world whose snake is dead,
/// and a snake that dies on a tick is dead after every later one.
pub proof fn lemma_dead_is_terminal(w: WorldView)
    ensures
        w.snake.dead ==> w.advance() == w,
        w.advance().snake.dead ==> w.advance().advance() == w.advance(),
{
}

/// A tick never touches the play area or the food, and a move that does not
/// kill commits the pending heading.
pub proof fn lemma_advance_frame(w: WorldView)
    ensures
        w.advance().level_bounds == w.level_bounds,
        w.advance().apple == w.apple,
        w.advance().snake.direction == w.snake.direction,
        w.advance().snake.period == w.snake.period,
        (w.step() is Moved || w.step() is Ate) ==> w.advance().snake.prev_direction
            == w.snake.direction,
        !(w.step() is Moved || w.step() is Ate) ==> w.advance().snake.body == w.snake.body,
{
}

/// A plain move puts the head on the cell ahead, shifts every segment one
/// place back and keeps the length.
pub proof fn lemma_move_shifts_body(w: WorldView)
    requires
        w.snake.wf(),
        w.step() is Moved,
    ensures
        w.advance().snake.body.len() == w.snake.body.len(),
        w.advance().snake.head() == w.ahead(),
        forall|i: int| 1 <= i < w.snake.body.len() ==> w.advance().snake.body[i] == w.snake.body[i - 1],
{
}

/// After growing by one cell, a tick that does not eat leaves the body
/// exactly one cell longer than before the growth, and its last cell is the
/// tail cell from before the growth.
pub proof fn lemma_grow_then_advance(w: WorldView)
    requires
        w.snake.wf(),
        !(w.grow_snake(1).step() is Ate),
    ensures
        w.grow_snake(1).advance().snake.body.len() == w.snake.body.len() + 1,
        w.grow_snake(1).advance().snake.tail() == w.snake.tail(),
{
}

/// Where the move after it is a plain one, the cell added by growing stays
/// on the old tail cell for that one move: the segment before it has caught
/// up with it, and the next plain move takes it along.
pub proof fn lemma_grown_cell_unfolds(w: WorldView)
    requires
        w.snake.wf(),
        w.grow_snake(1).step() is Moved,
    ensures
        w.grow_snake(1).advance().snake.body == seq![w.grow_snake(1).ahead()] + w.snake.body,
{
    let g = w.grow_snake(1);
    assert(g.snake.body =~= w.snake.body.push(w.snake.tail()));
    assert(g.snake.body.drop_last() =~= w.snake.body);
}

/// After growing by one cell and two plain moves, the tail has left the
/// old tail cell for the cell of the segment that was before it.
pub proof fn lemma_grown_cell_moves_on(w: WorldView)
    requires
        w.snake.body.len() >= 2,
        w.grow_snake(1).step() is Moved,
        w.grow_snake(1).advance().step() is Moved,
    ensures
        w.grow_snake(1).advance().advance().snake.body.len() == w.snake.body.len() + 1,
        w.grow_snake(1).advance().advance().snake.tail() == w.snake.body[w.snake.body.len() - 2],
{
    lemma_grown_cell_unfolds(w);
}

/// A live snake rests while its timer runs up to its period: after `k`
/// ticks that fit into what is left of the period, only the timer has
/// changed. The tick after the timer has reached the period is the one on
/// which the snake tries to move, so a move comes every `period + 1` ticks.
pub proof fn lemma_rest_between_moves(w: WorldView, k: nat)
    requires
        !w.snake.dead,
        w.snake.tick + k <= w.snake.period,
    ensures
        w.advance_by(k) == (WorldView {
            snake: SnakeView { tick: (w.snake.tick + k) as u32, ..w.snake },
            ..w
        }),
        w.snake.tick + k == w.snake.period ==> !(w.advance_by(k).step() is Waited) && !(
        w.advance_by(k).step() is Idle) && w.advance_by(k).advance().snake.tick == 0,
    decreases k,
{
    if k > 0 {
        lemma_rest_between_moves(w, (k - 1) as nat);
    }
}

/// A snake that lies inside the wall still does after a tick, and after
/// growing.
pub proof fn lemma_snake_stays_inside(w: WorldView, n: nat)
    requires
        w.wf(),
        w.snake_inside(),
    ensures
        w.advance().snake_inside(),
        w.grow_snake(n).snake_inside(),
{
    let a = w.advance();
    assert forall|i: int| 0 <= i < a.snake.body.len() implies a.level_bounds.spec_is_inside(
        (#[trigger] a.snake.body[i]).0 as int,
        a.snake.body[i].1 as int,
    ) by {
        if w.step() is Ate || w.step() is Moved {
            if i > 0 {
                assert(a.snake.body[i] == w.snake.body[i - 1]);
            }
        }
    }
    let g = w.grow_snake(n);
    assert forall|i: int| 0 <= i < g.snake.body.len() implies g.level_bounds.spec_is_inside(
        (#[trigger] g.snake.body[i]).0 as int,
        g.snake.body[i].1 as int,
    ) by {
        if i >= w.snake.body.len() {
            assert(g.snake.body[i] == w.snake.body[w.snake.body.len() - 1]);
        } else {
            assert(g.snake.body[i] == w.snake.body[i]);
        }
    }
}

/// The answer to a collision query depends on the world's value and the
/// query alone: worlds of equal value answer alike.
pub proof fn lemma_check_collision_is_a_function(a: World, b: World, id: ObjectId, x: u32, y: u32)
    requires
        a@ == b@,
    ensures
        a@.check_collision(id, x, y) == b@.check_collision(id, x, y),
{
}

/// The order of precedence: a cell outside the wall is reported as the wall
/// whatever else lies there, and food is reported to the head only on a
/// cell inside the wall that no segment behind the head covers.
pub proof fn lemma_collision_precedence(w: WorldView, id: ObjectId, x: u32, y: u32)
    ensures
        id != ObjectId::LevelBound && !w.level_bounds.spec_is_inside(x as int, y as int)
            ==> w.check_collision(id, x, y) == Some(ObjectId::LevelBound),
        w.check_collision(id, x, y) != Some(id),
        w.check_collision(ObjectId::SnakeHead, x, y) == Some(ObjectId::Apple) ==> w.apple == Some(
            (x, y),
        ) && w.level_bounds.spec_is_inside(x as int, y as int) && !w.snake.behind_head(x, y),
{
}

/// The head's own cell does not stop the head, but a segment behind the
/// head that lies on it does: inside the wall, the head's query on a cell
/// that such a segment covers is answered with the tail.
pub proof fn lemma_head_meets_segment_under_it(w: WorldView, i: int)
    requires
        1 <= i < w.snake.body.len(),
        w.level_bounds.spec_is_inside(w.snake.body[i].0 as int, w.snake.body[i].1 as int),
    ensures
        w.check_collision(ObjectId::SnakeHead, w.snake.body[i].0, w.snake.body[i].1) == Some(
            ObjectId::SnakeTail,
        ),
{
    assert(w.snake.body.skip(1)[i - 1] == w.snake.body[i]);
}

} // verus!
