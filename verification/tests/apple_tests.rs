use snake_core::apple::{Apple, Placement, PLACEMENT_ATTEMPTS};
use snake_core::level::LevelBounds;
use snake_core::snake::Snake;
use snake_core::world::World;

fn on_snake(snake: &Snake, p: (u32, u32)) -> bool {
    snake.body.iter().any(|c| *c == p)
}

#[test]
fn new_apple_is_not_placed() {
    assert_eq!(Apple::new().pos, None);
}

#[test]
fn accepts_free_interior_cells_only() {
    let snake = Snake::new();
    let bounds = LevelBounds::new(0, 0, 30, 20);
    assert!(Apple::accepts(&snake, &bounds, 15, 10));
    assert!(Apple::accepts(&snake, &bounds, 1, 1));
    assert!(Apple::accepts(&snake, &bounds, 28, 18));
    assert!(!Apple::accepts(&snake, &bounds, 10, 3));
    assert!(!Apple::accepts(&snake, &bounds, 3, 3));
    assert!(!Apple::accepts(&snake, &bounds, 0, 10));
    assert!(!Apple::accepts(&snake, &bounds, 29, 10));
    assert!(!Apple::accepts(&snake, &bounds, 10, 0));
    assert!(!Apple::accepts(&snake, &bounds, 10, 19));
}

#[test]
fn generated_cells_are_free_and_inside() {
    let snake = Snake::new();
    let bounds = LevelBounds::new(0, 0, 30, 20);
    for _ in 0..2000 {
        let p = Apple::gen_pos(&snake, &bounds).expect("a sparse board has free cells");
        assert!(bounds.is_inside(p.0, p.1));
        assert!(!on_snake(&snake, p));
        assert!(1 <= p.0 && p.0 <= 28);
        assert!(1 <= p.1 && p.1 <= 18);
    }
}

#[test]
fn generated_cells_vary() {
    let mut snake = Snake::new();
    // The lowest cell of the interior is taken: a generator that always
    // answered with the low end of its range would never find a free cell.
    snake.body.push_back((1, 1));
    let bounds = LevelBounds::new(0, 0, 30, 20);
    let first = Apple::gen_pos(&snake, &bounds).expect("a sparse board has free cells");
    assert_ne!(first, (1, 1));
    let mut other = false;
    for _ in 0..200 {
        let p = Apple::gen_pos(&snake, &bounds).expect("a sparse board has free cells");
        if p != first {
            other = true;
        }
    }
    assert!(other);
}

#[test]
fn single_free_cell_is_found() {
    let snake = Snake::new();
    let bounds = LevelBounds::new(20, 10, 3, 3);
    assert_eq!(Apple::gen_pos(&snake, &bounds), Some((21, 11)));
}

#[test]
fn full_board_gives_nothing() {
    let mut snake = Snake::new();
    snake.body.push_back((21, 11));
    let bounds = LevelBounds::new(20, 10, 3, 3);
    assert_eq!(Apple::gen_pos(&snake, &bounds), None);
}

#[test]
fn no_interior_gives_nothing() {
    let snake = Snake::new();
    assert_eq!(Apple::gen_pos(&snake, &LevelBounds::new(0, 0, 2, 20)), None);
    assert_eq!(Apple::gen_pos(&snake, &LevelBounds::new(0, 0, 30, 2)), None);
    assert_eq!(Apple::gen_pos(&snake, &LevelBounds::new(0, 0, 0, 0)), None);
}

#[test]
fn update_places_food_on_the_first_tick() {
    let mut world = World::new(Snake::new(), LevelBounds::new(0, 0, 30, 20));
    Apple::update(&mut world);
    let p = world.apple.pos.expect("a sparse board has free cells");
    assert!(world.level_bounds.is_inside(p.0, p.1));
    assert!(!on_snake(&world.snake, p));
    assert_eq!(world.snake.body.len(), 8);
}

#[test]
fn placed_food_stays() {
    let mut world = World::new(Snake::new(), LevelBounds::new(0, 0, 30, 20));
    world.apple = Apple { pos: Some((15, 10)) };
    for _ in 0..100 {
        Apple::update(&mut world);
        assert_eq!(world.apple.pos, Some((15, 10)));
    }
    // Food under a segment behind the head is left alone too.
    world.apple = Apple { pos: Some((5, 3)) };
    Apple::update(&mut world);
    assert_eq!(world.apple.pos, Some((5, 3)));
}

#[test]
fn food_under_the_head_is_placed_anew() {
    for _ in 0..200 {
        let mut world = World::new(Snake::new(), LevelBounds::new(0, 0, 30, 20));
        world.apple = Apple { pos: Some((10, 3)) };
        Apple::update(&mut world);
        let p = world.apple.pos.expect("a sparse board has free cells");
        assert_ne!(p, (10, 3));
        assert!(world.level_bounds.is_inside(p.0, p.1));
        assert!(!on_snake(&world.snake, p));
    }
}

#[test]
fn food_stays_unplaced_on_a_full_board() {
    let mut snake = Snake::new();
    snake.body.push_back((21, 11));
    let mut world = World::new(snake, LevelBounds::new(20, 10, 3, 3));
    Apple::update(&mut world);
    assert_eq!(world.apple.pos, None);
}

#[test]
fn free_draw_is_found_on_any_attempt() {
    let snake = Snake::new();
    let bounds = LevelBounds::new(0, 0, 30, 20);
    for attempt in [0u32, 1, 100, PLACEMENT_ATTEMPTS - 2, PLACEMENT_ATTEMPTS - 1] {
        assert_eq!(
            Apple::judge_draw(&snake, &bounds, attempt, 15, 10),
            Placement::Found((15, 10))
        );
    }
}

#[test]
fn taken_draw_is_drawn_again_until_the_last_attempt() {
    let snake = Snake::new();
    let bounds = LevelBounds::new(0, 0, 30, 20);
    assert_eq!(PLACEMENT_ATTEMPTS, 4096);
    // On the snake, and on the wall.
    for (x, y) in [(10u32, 3u32), (3, 3), (0, 0), (29, 5), (5, 19)] {
        assert_eq!(Apple::judge_draw(&snake, &bounds, 0, x, y), Placement::Retry);
        assert_eq!(Apple::judge_draw(&snake, &bounds, 4094, x, y), Placement::Retry);
        assert_eq!(Apple::judge_draw(&snake, &bounds, 4095, x, y), Placement::GiveUp);
    }
}
