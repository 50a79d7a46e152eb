use snake_core::apple::Apple;
use snake_core::direction::Direction;
use snake_core::game::GameState;
use snake_core::latch::Input;
use snake_core::level::LevelBounds;
use snake_core::snake::Snake;
use snake_core::world::World;

fn quick_world() -> World {
    let mut world = World::new(Snake::new(), LevelBounds::new(0, 0, 30, 20));
    world.snake.period = 0;
    world
}

#[test]
fn quit_request_ends_the_game_in_every_state() {
    for state in [
        GameState::Menu,
        GameState::Play,
        GameState::Pause,
        GameState::GameOver,
        GameState::Quit,
    ] {
        let mut world = quick_world();
        let mut input = Input::new();
        input.key_up.set(true);
        assert_eq!(state.tick(true, &mut input, &mut world), GameState::Quit);
        assert_eq!(world.snake.body[0], (10, 3));
        assert_eq!(world.snake.direction, Direction::Right);
        assert_eq!(world.apple.pos, None);
        assert!(input.key_up.prev);
    }
}

#[test]
fn play_moves_the_snake_and_places_food() {
    let mut world = quick_world();
    let mut input = Input::new();
    let next = GameState::Play.tick(false, &mut input, &mut world);
    assert_eq!(next, GameState::Play);
    assert_eq!(world.snake.body[0], (11, 3));
    let p = world.apple.pos.expect("a sparse board has free cells");
    assert!(world.level_bounds.is_inside(p.0, p.1));
    assert!(!world.snake.body.iter().any(|c| *c == p));
}

#[test]
fn play_takes_turns_from_button_edges() {
    let mut world = quick_world();
    let mut input = Input::new();
    input.key_down.set(true);
    assert_eq!(GameState::Play.tick(false, &mut input, &mut world), GameState::Play);
    assert_eq!(world.snake.body[0], (10, 4));
    assert_eq!(world.snake.prev_direction, Direction::Down);
    // Still held: no new edge, the snake goes on downwards.
    input.key_down.set(true);
    assert_eq!(GameState::Play.tick(false, &mut input, &mut world), GameState::Play);
    assert_eq!(world.snake.body[0], (10, 5));
    // A request to reverse is ignored.
    input.key_down.set(false);
    input.key_up.set(true);
    assert_eq!(GameState::Play.tick(false, &mut input, &mut world), GameState::Play);
    assert_eq!(world.snake.body[0], (10, 6));
    assert_eq!(world.snake.direction, Direction::Down);
}

#[test]
fn buttons_are_read_in_order() {
    let mut world = quick_world();
    let mut input = Input::new();
    input.key_up.set(true);
    input.key_down.set(true);
    input.key_left.set(true);
    assert_eq!(GameState::Play.tick(false, &mut input, &mut world), GameState::Play);
    // Up, then down, are both legal after a move to the right; left is not.
    assert_eq!(world.snake.body[0], (10, 4));
}

#[test]
fn death_ends_play() {
    let mut world = quick_world();
    world.apple = Apple { pos: Some((1, 1)) };
    let mut input = Input::new();
    let mut state = GameState::Play;
    let mut ticks: u32 = 0;
    while state == GameState::Play {
        state = state.tick(false, &mut input, &mut world);
        ticks += 1;
        assert!(ticks < 100);
    }
    assert_eq!(state, GameState::GameOver);
    assert_eq!(ticks, 19);
    assert!(world.snake.dead);
    assert_eq!(world.snake.body[0], (28, 3));
    assert_eq!(world.apple.pos, Some((1, 1)));
}

#[test]
fn escape_leaves_the_finished_game() {
    let mut world = quick_world();
    world.snake.dead = true;
    let mut input = Input::new();
    assert_eq!(GameState::GameOver.tick(false, &mut input, &mut world), GameState::GameOver);
    input.key_enter.set(true);
    assert_eq!(GameState::GameOver.tick(false, &mut input, &mut world), GameState::GameOver);
    input.key_escape.set(true);
    assert_eq!(GameState::GameOver.tick(false, &mut input, &mut world), GameState::Quit);
    assert_eq!(world.snake.body[0], (10, 3));
}

#[test]
fn held_escape_does_not_leave() {
    let mut world = quick_world();
    let mut input = Input::new();
    input.key_escape.set(true);
    input.tick();
    input.key_escape.set(true);
    assert_eq!(GameState::GameOver.tick(false, &mut input, &mut world), GameState::GameOver);
}

#[test]
fn idle_states_do_nothing() {
    for state in [GameState::Menu, GameState::Pause, GameState::Quit] {
        let mut world = quick_world();
        let mut input = Input::new();
        input.key_up.set(true);
        input.key_escape.set(true);
        assert_eq!(state.tick(false, &mut input, &mut world), state);
        assert_eq!(world.snake.body[0], (10, 3));
        assert_eq!(world.snake.direction, Direction::Right);
        assert_eq!(world.apple.pos, None);
        assert!(input.key_up.prev && input.key_escape.prev);
    }
}
