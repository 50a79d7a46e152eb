//! Drawing the world into a screen buffer, one glyph per cell.

use crate::apple::Apple;
use crate::game::GameState;
use crate::level::LevelBounds;
use crate::screen::{lemma_offset_in_range, plot, print, ScreenBuffer};
use crate::snake::{Snake, SnakeCollision};
use crate::world::{lemma_contains_behind_head, World};
use vstd::prelude::*;

verus! {

/// The glyph of an empty cell.
pub const BLANK_GLYPH: u8 = 0;

/// The glyph of a wall cell.
pub const WALL_GLYPH: u8 = 0xb1;

/// The glyph of the snake's head, the letter `O`.
pub const HEAD_GLYPH: u8 = 79;

/// The glyph of a segment behind the head, the sign `#`.
pub const BODY_GLYPH: u8 = 35;

/// The glyph of the food, the sign `$`.
pub const FOOD_GLYPH: u8 = 36;

/// The text shown when the game is over: `Game over!`.
pub open spec fn banner() -> Seq<u8> {
    seq![71u8, 97u8, 109u8, 101u8, 32u8, 111u8, 118u8, 101u8, 114u8, 33u8]
}

impl LevelBounds {
    /// The rectangle lies on the screen.
    pub open spec fn on_screen(&self, screen: &ScreenBuffer) -> bool {
        self.x + self.width <= screen.width && self.y + self.height <= screen.height
    }

    /// The cell `(x, y)` belongs to the part of the wall made up of the top
    /// row left of column `a`, the left column above row `b`, the bottom
    /// row left of column `c` and the right column above row `d`.
    pub open spec fn painted(&self, a: int, b: int, c: int, d: int, x: int, y: int) -> bool {
        ||| (y == self.y && self.x <= x < a)
        ||| (x == self.x && self.y <= y < b)
        ||| (y == self.y + self.height - 1 && self.x <= x < c)
        ||| (x == self.x + self.width - 1 && self.y <= y < d)
    }

    /// Draws the wall: every wall cell gets the wall glyph, every other
    /// cell keeps its glyph.
    pub fn draw(&self, screen_buffer: &mut ScreenBuffer)
        requires
            old(screen_buffer).wf(),
            self.on_screen(old(screen_buffer)),
        ensures
            final(screen_buffer).wf(),
            final(screen_buffer).same_size(old(screen_buffer)),
            forall|cx: u32, cy: u32|
                old(screen_buffer).has_cell(cx, cy) ==> #[trigger] final(screen_buffer).glyph(cx, cy)
                    == if self.spec_is_wall(cx as int, cy as int) {
                    WALL_GLYPH
                } else {
                    old(screen_buffer).glyph(cx, cy)
                },
    {
        if self.width == 0 || self.height == 0 {
            return ;
        }
        let wall: Vec<u8> = vec![WALL_GLYPH];
        let x0: u32 = self.x;
        let y0: u32 = self.y;
        let x1: u32 = self.x + self.width;
        let y1: u32 = self.y + self.height;
        let mut x: u32 = x0;
        while x < x1
            invariant
                x0 <= x <= x1,
                x0 == self.x,
                y0 == self.y,
                x1 == self.x + self.width,
                y1 == self.y + self.height,
                y0 < y1,
                wall@.len() == 1,
                wall@[0] == WALL_GLYPH,
                self.on_screen(old(screen_buffer)),
                screen_buffer.wf(),
                screen_buffer.same_size(old(screen_buffer)),
                forall|cx: u32, cy: u32|
                    old(screen_buffer).has_cell(cx, cy) ==> #[trigger] screen_buffer.glyph(cx, cy)
                        == if self.painted(
                        x as int,
                        y0 as int,
                        x0 as int,
                        y0 as int,
                        cx as int,
                        cy as int,
                    ) {
                        WALL_GLYPH
                    } else {
                        old(screen_buffer).glyph(cx, cy)
                    },
            decreases x1 - x,
        {
            plot(screen_buffer, x, y0, wall.as_slice());
            x = x + 1;
        }
        let mut y: u32 = y0;
        while y < y1
            invariant
                y0 <= y <= y1,
                x0 == self.x,
                y0 == self.y,
                x1 == self.x + self.width,
                y1 == self.y + self.height,
                x0 < x1,
                wall@.len() == 1,
                wall@[0] == WALL_GLYPH,
                self.on_screen(old(screen_buffer)),
                screen_buffer.wf(),
                screen_buffer.same_size(old(screen_buffer)),
                forall|cx: u32, cy: u32|
                    old(screen_buffer).has_cell(cx, cy) ==> #[trigger] screen_buffer.glyph(cx, cy)
                        == if self.painted(
                        x1 as int,
                        y as int,
                        x0 as int,
                        y0 as int,
                        cx as int,
                        cy as int,
                    ) {
                        WALL_GLYPH
                    } else {
                        old(screen_buffer).glyph(cx, cy)
                    },
            decreases y1 - y,
        {
            plot(screen_buffer, x0, y, wall.as_slice());
            y = y + 1;
        }
        x = x0;
        while x < x1
            invariant
                x0 <= x <= x1,
                x0 == self.x,
                y0 == self.y,
                x1 == self.x + self.width,
                y1 == self.y + self.height,
                y0 < y1,
                wall@.len() == 1,
                wall@[0] == WALL_GLYPH,
                self.on_screen(old(screen_buffer)),
                screen_buffer.wf(),
                screen_buffer.same_size(old(screen_buffer)),
                forall|cx: u32, cy: u32|
                    old(screen_buffer).has_cell(cx, cy) ==> #[trigger] screen_buffer.glyph(cx, cy)
                        == if self.painted(
                        x1 as int,
                        y1 as int,
                        x as int,
                        y0 as int,
                        cx as int,
                        cy as int,
                    ) {
                        WALL_GLYPH
                    } else {
                        old(screen_buffer).glyph(cx, cy)
                    },
            decreases x1 - x,
        {
            plot(screen_buffer, x, y1 - 1, wall.as_slice());
            x = x + 1;
        }
        y = y0;
        while y < y1
            invariant
                y0 <= y <= y1,
                x0 == self.x,
                y0 == self.y,
                x1 == self.x + self.width,
                y1 == self.y + self.height,
                x0 < x1,
                wall@.len() == 1,
                wall@[0] == WALL_GLYPH,
                self.on_screen(old(screen_buffer)),
                screen_buffer.wf(),
                screen_buffer.same_size(old(screen_buffer)),
                forall|cx: u32, cy: u32|
                    old(screen_buffer).has_cell(cx, cy) ==> #[trigger] screen_buffer.glyph(cx, cy)
                        == if self.painted(
                        x1 as int,
                        y1 as int,
                        x1 as int,
                        y as int,
                        cx as int,
                        cy as int,
                    ) {
                        WALL_GLYPH
                    } else {
                        old(screen_buffer).glyph(cx, cy)
                    },
            decreases y1 - y,
        {
            plot(screen_buffer, x1 - 1, y, wall.as_slice());
            y = y + 1;
        }
    }
}

/// A cell lies on one of the segments at places 1 to `i` exactly when it
/// lies on one of those before place `i` or on the one at place `i`.
pub proof fn lemma_segments_step(body: Seq<(u32, u32)>, i: int, c: (u32, u32))
    requires
        1 <= i < body.len(),
    ensures
        body.subrange(1, i + 1).contains(c) <==> body.subrange(1, i).contains(c) || body[i] == c,
{
    let longer = body.subrange(1, i + 1);
    let shorter = body.subrange(1, i);
    if longer.contains(c) {
        let j = choose|j: int| 0 <= j < longer.len() && longer[j] == c;
        if j < i - 1 {
            assert(shorter[j] == c);
        }
    }
    if shorter.contains(c) {
        let j = choose|j: int| 0 <= j < shorter.len() && shorter[j] == c;
        assert(longer[j] == c);
    }
    if body[i] == c {
        assert(longer[i - 1] == c);
    }
}

impl Snake {
    /// Every segment lies on the screen.
    pub open spec fn on_screen(&self, screen: &ScreenBuffer) -> bool {
        forall|i: int|
            0 <= i < self@.body.len() ==> screen.has_cell(
                (#[trigger] self@.body[i]).0,
                self@.body[i].1,
            )
    }

    /// Draws the snake: the head's cell gets the head glyph, the cells of
    /// the other segments the body glyph, every other cell keeps its glyph.
    pub fn draw(&self, screen_buffer: &mut ScreenBuffer)
        requires
            self.wf(),
            old(screen_buffer).wf(),
            self.on_screen(old(screen_buffer)),
        ensures
            final(screen_buffer).wf(),
            final(screen_buffer).same_size(old(screen_buffer)),
            forall|cx: u32, cy: u32|
                old(screen_buffer).has_cell(cx, cy) ==> #[trigger] final(screen_buffer).glyph(cx, cy)
                    == match self@.collision(cx, cy) {
                    Some(SnakeCollision::Head) => HEAD_GLYPH,
                    Some(SnakeCollision::Tail) => BODY_GLYPH,
                    None => old(screen_buffer).glyph(cx, cy),
                },
    {
        let body_glyph: Vec<u8> = vec![BODY_GLYPH];
        let head_glyph: Vec<u8> = vec![HEAD_GLYPH];
        let n: usize = self.body.len();
        let mut i: usize = 1;
        while i < n
            invariant
                1 <= i <= n,
                n == self@.body.len(),
                body_glyph@.len() == 1,
                body_glyph@[0] == BODY_GLYPH,
                self.on_screen(old(screen_buffer)),
                screen_buffer.wf(),
                screen_buffer.same_size(old(screen_buffer)),
                forall|cx: u32, cy: u32|
                    old(screen_buffer).has_cell(cx, cy) ==> #[trigger] screen_buffer.glyph(cx, cy)
                        == if self@.body.subrange(1, i as int).contains((cx, cy)) {
                        BODY_GLYPH
                    } else {
                        old(screen_buffer).glyph(cx, cy)
                    },
            decreases n - i,
        {
            let p: (u32, u32) = self.body[i];
            plot(screen_buffer, p.0, p.1, body_glyph.as_slice());
            proof {
                assert forall|cx: u32, cy: u32| old(screen_buffer).has_cell(cx, cy) implies (
                #[trigger] screen_buffer.glyph(cx, cy)) == if self@.body.subrange(
                    1,
                    i + 1,
                ).contains((cx, cy)) {
                    BODY_GLYPH
                } else {
                    old(screen_buffer).glyph(cx, cy)
                } by {
                    lemma_segments_step(self@.body, i as int, (cx, cy));
                    assert(self@.body[i as int] == p);
                    assert((p == (cx, cy)) == (cx == p.0 && cy == p.1));
                }
            }
            i = i + 1;
        }
        let head: (u32, u32) = self.body[0];
        plot(screen_buffer, head.0, head.1, head_glyph.as_slice());
        proof {
            assert(self@.body.subrange(1, n as int) =~= self@.body.skip(1));
            assert forall|cx: u32, cy: u32| (cx, cy) != self@.body[0] implies self@.body.contains(
                (cx, cy),
            ) == self@.body.skip(1).contains((cx, cy)) by {
                lemma_contains_behind_head(self@.body, (cx, cy));
            }
        }
    }
}

impl Apple {
    /// The food, where it is placed, lies on the screen.
    pub open spec fn on_screen(&self, screen: &ScreenBuffer) -> bool {
        match self.pos {
            Some(p) => screen.has_cell(p.0, p.1),
            None => true,
        }
    }

    /// Draws the food: its cell gets the food glyph, every other cell keeps
    /// its glyph. Food that is not placed draws nothing.
    pub fn draw(&self, screen_buffer: &mut ScreenBuffer)
        requires
            old(screen_buffer).wf(),
            self.on_screen(old(screen_buffer)),
        ensures
            final(screen_buffer).wf(),
            final(screen_buffer).same_size(old(screen_buffer)),
            forall|cx: u32, cy: u32|
                old(screen_buffer).has_cell(cx, cy) ==> #[trigger] final(screen_buffer).glyph(cx, cy)
                    == if self.pos == Some((cx, cy)) {
                    FOOD_GLYPH
                } else {
                    old(screen_buffer).glyph(cx, cy)
                },
    {
        match self.pos {
            Some(p) => {
                let food: Vec<u8> = vec![FOOD_GLYPH];
                plot(screen_buffer, p.0, p.1, food.as_slice());
            },
            None => {},
        }
    }
}

/// The glyph that a frame shows in cell `(x, y)` during play: the snake
/// covers the food, and the food covers the wall.
pub open spec fn scene_glyph(world: &World, x: u32, y: u32) -> u8 {
    match world@.snake.collision(x, y) {
        Some(SnakeCollision::Head) => HEAD_GLYPH,
        Some(SnakeCollision::Tail) => BODY_GLYPH,
        None => if world@.apple == Some((x, y)) {
            FOOD_GLYPH
        } else if world.level_bounds.spec_is_wall(x as int, y as int) {
            WALL_GLYPH
        } else {
            BLANK_GLYPH
        },
    }
}

/// Everything in the world lies on the screen.
pub open spec fn scene_on_screen(world: &World, screen: &ScreenBuffer) -> bool {
    &&& world.snake.wf()
    &&& world.level_bounds.on_screen(screen)
    &&& world.snake.on_screen(screen)
    &&& world.apple.on_screen(screen)
}

/// Draws one frame. During play it shows the wall, the food and the snake
/// on a blank ground; when the game is over it shows the banner at the
/// start of a blank buffer; in every other state it is blank.
pub fn draw_frame(state: GameState, world: &World, screen_buffer: &mut ScreenBuffer)
    requires
        old(screen_buffer).wf(),
        state == GameState::Play ==> scene_on_screen(world, old(screen_buffer)),
        state == GameState::GameOver ==> old(screen_buffer).chars@.len() >= banner().len(),
    ensures
        final(screen_buffer).wf(),
        final(screen_buffer).same_size(old(screen_buffer)),
        state == GameState::Play ==> forall|cx: u32, cy: u32|
            old(screen_buffer).has_cell(cx, cy) ==> #[trigger] final(screen_buffer).glyph(cx, cy)
                == scene_glyph(world, cx, cy),
        state == GameState::GameOver ==> final(screen_buffer).chars@ == banner() + Seq::new(
            (old(screen_buffer).chars@.len() - banner().len()) as nat,
            |i: int| BLANK_GLYPH,
        ),
        state != GameState::Play && state != GameState::GameOver ==> final(screen_buffer).chars@
            == Seq::new(old(screen_buffer).chars@.len(), |i: int| BLANK_GLYPH),
{
    screen_buffer.clear();
    if state == GameState::Play {
        proof {
            assert forall|cx: u32, cy: u32| screen_buffer.has_cell(cx, cy) implies (
            #[trigger] screen_buffer.glyph(cx, cy)) == BLANK_GLYPH by {
                lemma_offset_in_range(
                    screen_buffer.width as int,
                    screen_buffer.height as int,
                    cx as int,
                    cy as int,
                );
            }
        }
        world.level_bounds.draw(screen_buffer);
        world.apple.draw(screen_buffer);
        world.snake.draw(screen_buffer);
    }
    if state == GameState::GameOver {
        let text: Vec<u8> = vec![71u8, 97u8, 109u8, 101u8, 32u8, 111u8, 118u8, 101u8, 114u8, 33u8];
        proof {
            if screen_buffer.width == 0 || screen_buffer.height == 0 {
                assert(screen_buffer.width * screen_buffer.height == 0) by (nonlinear_arith)
                    requires
                        screen_buffer.width == 0 || screen_buffer.height == 0,
                ;
            }
        }
        print(screen_buffer, 0, 0, text.as_slice());
        assert(screen_buffer.chars@ =~= banner() + Seq::new(
            (old(screen_buffer).chars@.len() - banner().len()) as nat,
            |i: int| BLANK_GLYPH,
        ));
    }
}

} // verus!
