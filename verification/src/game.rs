//! The states of a game and what one logic tick does in each.

use crate::apple::Apple;
use crate::direction::Direction;
use crate::latch::Input;
use crate::snake::{Snake, SnakeView};
use crate::world::{World, WorldView};
use vstd::prelude::*;

verus! {

/// The state of the game. A game starts in `Play`, is over when the snake
/// has died, and ends in `Quit`.
#[derive(Clone, Copy, Debug, PartialEq, Eq, Structural)]
pub enum GameState {
    Menu,
    Play,
    Pause,
    GameOver,
    Quit,
}

/// The snake after the turn requests of this tick: one for each arrow
/// button that went down, in the order up, right, down, left.
pub open spec fn steer(s: SnakeView, input: Input) -> SnakeView {
    let s1 = if input.key_up.spec_front_edge() {
        s.turn(Direction::Up)
    } else {
        s
    };
    let s2 = if input.key_right.spec_front_edge() {
        s1.turn(Direction::Right)
    } else {
        s1
    };
    let s3 = if input.key_down.spec_front_edge() {
        s2.turn(Direction::Down)
    } else {
        s2
    };
    if input.key_left.spec_front_edge() {
        s3.turn(Direction::Left)
    } else {
        s3
    }
}

/// The world after this tick's turn requests and the snake's tick, before
/// the food is looked after.
pub open spec fn played(w: WorldView, input: Input) -> WorldView {
    (WorldView { snake: steer(w.snake, input), ..w }).advance()
}

impl GameState {
    /// The state after a logic tick in which the world came out as `after`
    /// from play, or was left alone in the other states.
    pub open spec fn next(self, quit: bool, input: Input, after: WorldView) -> GameState {
        if quit {
            GameState::Quit
        } else {
            match self {
                GameState::Play => if after.snake.dead {
                    GameState::GameOver
                } else {
                    GameState::Play
                },
                GameState::GameOver => if input.key_escape.spec_front_edge() {
                    GameState::Quit
                } else {
                    GameState::GameOver
                },
                other => other,
            }
        }
    }

    /// One logic tick. `quit` says that the player asked to leave; the
    /// buttons' states were recorded in `input` beforehand.
    ///
    /// A request to leave ends the game at once. In play the snake takes
    /// this tick's turn requests and ticks; if it died the game is over,
    /// else the food is looked after. When the game is over, the escape
    /// button going down ends it. In the other states nothing happens.
    /// In every case the tick ends for all buttons.
    pub fn tick(self, quit: bool, input: &mut Input, world: &mut World) -> (next: GameState)
        requires
            self == GameState::Play && !quit ==> old(world).wf(),
        ensures
            *final(input) == old(input).spec_tick(),
            next == self.next(quit, *old(input), played(old(world)@, *old(input))),
            self != GameState::Play || quit ==> final(world)@ == old(world)@,
            self == GameState::Play && !quit ==> {
                let after = played(old(world)@, *old(input));
                &&& final(world).wf()
                &&& final(world)@.snake == after.snake
                &&& final(world)@.level_bounds == after.level_bounds
                &&& after.snake.dead || after.apple_stays() ==> final(world)@.apple == after.apple
                &&& !after.snake.dead && !after.apple_stays() ==> match final(world)@.apple {
                    Some(p) => after.is_free(p),
                    None => true,
                }
            },
    {
        let mut next: GameState = self;
        if quit {
            next = GameState::Quit;
        } else if self == GameState::Play {
            if input.key_up.front_edge() {
                world.snake.move_up();
            }
            if input.key_right.front_edge() {
                world.snake.move_right();
            }
            if input.key_down.front_edge() {
                world.snake.move_down();
            }
            if input.key_left.front_edge() {
                world.snake.move_left();
            }
            Snake::update(world);
            if world.snake.dead {
                next = GameState::GameOver;
            } else {
                Apple::update(world);
            }
        } else if self == GameState::GameOver {
            if input.key_escape.front_edge() {
                next = GameState::Quit;
            }
        }
        input.tick();
        next
    }
}

/// Once the game has ended it stays ended, and a game that is over can
/// only stay over or end.
pub proof fn lemma_game_states(s: GameState, quit: bool, input: Input, after: WorldView)
    ensures
        s == GameState::Quit ==> s.next(quit, input, after) == GameState::Quit,
        s == GameState::GameOver ==> s.next(quit, input, after) == GameState::GameOver || s.next(
            quit,
            input,
            after,
        ) == GameState::Quit,
        quit ==> s.next(quit, input, after) == GameState::Quit,
{
}

} // verus!
