//! The food: at most one cell, placed at random on a free cell inside the wall.

use crate::level::LevelBounds;
use crate::snake::{Snake, SnakeView};
use crate::world::{ObjectId, World};
use rand::Rng;
use vstd::prelude::*;

verus! {

/// How many random cells one placement tries before it gives up until the
/// next tick.
pub const PLACEMENT_ATTEMPTS: u32 = 4096;

/// The food: the cell it lies on, or none while it is not placed.
pub struct Apple {
    pub pos: Option<(u32, u32)>,
}

/// `rand::rngs::ThreadRng`, the handle that `rand::thread_rng` gives out.
/// Its state is hidden: a value of it is only carried to `gen_range`.
#[verifier::external_type_specification]
#[verifier::external_body]
pub struct ExThreadRng(rand::rngs::ThreadRng);

/// `rand::thread_rng`: a handle to this thread's random number generator.
/// Nothing is claimed of it. It gives up only where the system has no
/// entropy to seed the generator with.
#[verifier::external_body]
fn thread_rng() -> (rng: rand::rngs::ThreadRng) {
    rand::thread_rng()
}

/// `rand::Rng::gen_range` on `u32`: some value from `low` up to, but not
/// including, `high`. It panics where `low >= high`, which the precondition
/// rules out. Which value comes is not stated.
#[verifier::external_body]
fn gen_range(rng: &mut rand::rngs::ThreadRng, low: u32, high: u32) -> (r: u32)
    requires
        low < high,
    ensures
        low <= r < high,
{
    rng.gen_range(low, high)
}

/// What a placement decides on one draw.
#[derive(Clone, Copy, Debug, PartialEq, Eq)]
pub enum Placement {
    /// The cell drawn is free: the food goes there.
    Found((u32, u32)),
    /// The cell drawn is not free: draw again.
    Retry,
    /// The cell drawn is not free and it was the last attempt.
    GiveUp,
}

/// Food may lie on `p`: the cell is inside the wall and no segment of the
/// snake lies on it.
pub open spec fn free_cell(snake: SnakeView, level_bounds: LevelBounds, p: (u32, u32)) -> bool {
    level_bounds.spec_is_inside(p.0 as int, p.1 as int) && !snake.body.contains(p)
}

/// What a placement decides on the cell `(x, y)`, drawn on attempt number
/// `attempt`, counted from zero.
pub open spec fn judged(
    snake: SnakeView,
    level_bounds: LevelBounds,
    attempt: u32,
    x: u32,
    y: u32,
) -> Placement {
    if free_cell(snake, level_bounds, (x, y)) {
        Placement::Found((x, y))
    } else if attempt + 1 < PLACEMENT_ATTEMPTS {
        Placement::Retry
    } else {
        Placement::GiveUp
    }
}

/// What a placement gives whose draws, from attempt number `attempt` on,
/// come out as `draws`: each draw is judged in turn until one is found or
/// the placement gives up.
pub open spec fn placed(
    snake: SnakeView,
    level_bounds: LevelBounds,
    draws: Seq<(u32, u32)>,
    attempt: nat,
) -> Option<(u32, u32)>
    decreases draws.len(),
{
    if draws.len() == 0 || attempt >= PLACEMENT_ATTEMPTS {
        None
    } else {
        match judged(snake, level_bounds, attempt as u32, draws[0].0, draws[0].1) {
            Placement::Found(p) => Some(p),
            Placement::Retry => placed(snake, level_bounds, draws.skip(1), attempt + 1),
            Placement::GiveUp => None,
        }
    }
}

/// The first free draw wins: where draw `k` is the first one that food may
/// lie on, and it comes within the attempts allowed, the placement gives
/// that cell, whatever was drawn after it.
pub proof fn lemma_first_free_draw_wins(
    snake: SnakeView,
    level_bounds: LevelBounds,
    draws: Seq<(u32, u32)>,
    attempt: nat,
    k: int,
)
    requires
        0 <= k < draws.len(),
        attempt + k < PLACEMENT_ATTEMPTS,
        free_cell(snake, level_bounds, draws[k]),
        forall|j: int| 0 <= j < k ==> !free_cell(snake, level_bounds, #[trigger] draws[j]),
    ensures
        placed(snake, level_bounds, draws, attempt) == Some(draws[k]),
    decreases k,
{
    if k > 0 {
        let rest = draws.skip(1);
        assert(rest[k - 1] == draws[k]);
        assert forall|j: int| 0 <= j < k - 1 implies !free_cell(
            snake,
            level_bounds,
            #[trigger] rest[j],
        ) by {
            assert(rest[j] == draws[j + 1]);
        }
        lemma_first_free_draw_wins(snake, level_bounds, rest, attempt + 1, k - 1);
    }
}

/// A placement gives nothing only for want of a free draw: where none of
/// the draws within the attempts allowed is a cell that food may lie on,
/// nothing is placed, and a cell that is placed is one of the draws and free.
pub proof fn lemma_placed_is_a_free_draw(
    snake: SnakeView,
    level_bounds: LevelBounds,
    draws: Seq<(u32, u32)>,
    attempt: nat,
)
    ensures
        match placed(snake, level_bounds, draws, attempt) {
            Some(p) => free_cell(snake, level_bounds, p) && draws.contains(p),
            None => forall|j: int|
                0 <= j < draws.len() && attempt + j < PLACEMENT_ATTEMPTS ==> !free_cell(
                    snake,
                    level_bounds,
                    #[trigger] draws[j],
                ),
        },
    decreases draws.len(),
{
    if draws.len() > 0 && attempt < PLACEMENT_ATTEMPTS {
        let rest = draws.skip(1);
        lemma_placed_is_a_free_draw(snake, level_bounds, rest, attempt + 1);
        match placed(snake, level_bounds, draws, attempt) {
            Some(p) => {
                if free_cell(snake, level_bounds, draws[0]) {
                    assert(draws[0] == p);
                } else {
                    let i = choose|i: int| 0 <= i < rest.len() && rest[i] == p;
                    assert(draws[i + 1] == p);
                }
            },
            None => {
                assert forall|j: int|
                    0 <= j < draws.len() && attempt + j < PLACEMENT_ATTEMPTS implies !free_cell(
                    snake,
                    level_bounds,
                    #[trigger] draws[j],
                ) by {
                    if j > 0 {
                        assert(rest[j - 1] == draws[j]);
                    }
                }
            },
        }
    }
}

/// No segment of the snake lies inside the wall.
pub open spec fn interior_clear(snake: &Snake, level_bounds: &LevelBounds) -> bool {
    forall|x: u32, y: u32|
        level_bounds.spec_is_inside(x as int, y as int) ==> !(#[trigger] snake@.body.contains(
            (x, y),
        ))
}

impl Apple {
    /// No food placed.
    pub fn new() -> (r: Apple)
        ensures
            r.pos is None,
    {
        Apple { pos: None }
    }

    /// Tells whether food may lie on `(x, y)`: the cell is inside the wall
    /// and no segment of the snake lies on it.
    pub fn accepts(snake: &Snake, level_bounds: &LevelBounds, x: u32, y: u32) -> (r: bool)
        ensures
            r == free_cell(snake@, *level_bounds, (x, y)),
    {
        level_bounds.is_inside(x, y) && snake.is_collision(x, y).is_none()
    }

    /// Decides on the cell `(x, y)` that attempt number `attempt` has
    /// drawn: a cell that food may lie on is taken; after any other, the
    /// placement draws again, unless this was its last attempt.
    pub fn judge_draw(
        snake: &Snake,
        level_bounds: &LevelBounds,
        attempt: u32,
        x: u32,
        y: u32,
    ) -> (r: Placement)
        requires
            attempt < PLACEMENT_ATTEMPTS,
        ensures
            r == judged(snake@, *level_bounds, attempt, x, y),
    {
        if Apple::accepts(snake, level_bounds, x, y) {
            Placement::Found((x, y))
        } else if attempt + 1 < PLACEMENT_ATTEMPTS {
            Placement::Retry
        } else {
            Placement::GiveUp
        }
    }

    /// Draws random cells inside the wall, each from the play area's
    /// interior ranges, and lets `judge_draw` decide on each in turn: the
    /// first cell that is free of the snake comes back, and none after
    /// `PLACEMENT_ATTEMPTS` draws that were not. Whatever is drawn, a cell
    /// that comes back is inside the wall and off the snake; where the wall
    /// encloses no cell, none comes back; where it encloses cells and the
    /// snake lies on none of them, one comes back.
    pub fn gen_pos(snake: &Snake, level_bounds: &LevelBounds) -> (r: Option<(u32, u32)>)
        requires
            level_bounds.fits(),
        ensures
            match r {
                Some(p) => level_bounds.spec_is_inside(p.0 as int, p.1 as int)
                    && !snake@.body.contains(p),
                None => true,
            },
            !level_bounds.has_interior() ==> r is None,
            level_bounds.has_interior() && interior_clear(snake, level_bounds) ==> r is Some,
    {
        if level_bounds.width < 3 || level_bounds.height < 3 {
            return None;
        }
        let ranges: ((u32, u32), (u32, u32)) = level_bounds.interior_ranges();
        let mut rng = thread_rng();
        let mut attempt: u32 = 0;
        loop
            invariant
                attempt < PLACEMENT_ATTEMPTS,
                level_bounds.fits(),
                level_bounds.has_interior(),
                ranges.0.0 == level_bounds.x + 1,
                ranges.0.1 == level_bounds.x + level_bounds.width - 1,
                ranges.1.0 == level_bounds.y + 1,
                ranges.1.1 == level_bounds.y + level_bounds.height - 1,
                interior_clear(snake, level_bounds) ==> attempt == 0,
            decreases PLACEMENT_ATTEMPTS - attempt,
        {
            let x: u32 = gen_range(&mut rng, ranges.0.0, ranges.0.1);
            let y: u32 = gen_range(&mut rng, ranges.1.0, ranges.1.1);
            match Apple::judge_draw(snake, level_bounds, attempt, x, y) {
                Placement::Found(p) => {
                    return Some(p);
                },
                Placement::Retry => {
                    attempt = attempt + 1;
                },
                Placement::GiveUp => {
                    return None;
                },
            }
        }
    }

    /// Places the food where none is placed, and places it anew where the
    /// snake's head has come to lie on it. The snake and the play area stay
    /// as they are. Food that is placed and not under the head stays; food
    /// placed by this call lies inside the wall and off the snake. A
    /// placement that found no free cell leaves the food unplaced, and the
    /// next call tries again.
    pub fn update(world: &mut World)
        requires
            old(world).wf(),
        ensures
            final(world)@.snake == old(world)@.snake,
            final(world)@.level_bounds == old(world)@.level_bounds,
            final(world).wf(),
            old(world)@.apple_stays() ==> final(world)@.apple == old(world)@.apple,
            !old(world)@.apple_stays() ==> match final(world)@.apple {
                Some(p) => old(world)@.is_free(p),
                None => true,
            },
            !old(world)@.level_bounds.has_interior() && !old(world)@.apple_stays() ==> final(world)@.apple
                is None,
            old(world)@.level_bounds.has_interior() && interior_clear(
                &old(world).snake,
                &old(world).level_bounds,
            ) ==> final(world)@.apple is Some,
    {
        if world.apple.pos.is_none() {
            world.apple.pos = Apple::gen_pos(&world.snake, &world.level_bounds);
        }
        match world.apple.pos {
            Some(p) => {
                let object_id: Option<ObjectId> = world.check_collision(ObjectId::Apple, p.0, p.1);
                if object_id == Some(ObjectId::SnakeHead) {
                    world.apple.pos = Apple::gen_pos(&world.snake, &world.level_bounds);
                }
            },
            None => {},
        }
    }
}

} // verus!
