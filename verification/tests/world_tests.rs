use snake_core::apple::Apple;
use snake_core::level::LevelBounds;
use snake_core::snake::Snake;
use snake_core::world::{ObjectId, World};

const IDS: [ObjectId; 4] =
    [ObjectId::SnakeHead, ObjectId::SnakeTail, ObjectId::LevelBound, ObjectId::Apple];

fn world_with_apple(pos: (u32, u32)) -> World {
    let mut world = World::new(Snake::new(), LevelBounds::new(0, 0, 30, 20));
    world.apple = Apple { pos: Some(pos) };
    world
}

#[test]
fn new_world_has_no_food() {
    let world = World::new(Snake::new(), LevelBounds::new(0, 0, 30, 20));
    assert_eq!(world.apple.pos, None);
    assert_eq!(world.level_bounds, LevelBounds { x: 0, y: 0, width: 30, height: 20 });
    assert_eq!(world.snake.body.len(), 8);
}

#[test]
fn wall_comes_first() {
    let world = world_with_apple((0, 0));
    assert_eq!(world.check_collision(ObjectId::SnakeHead, 0, 0), Some(ObjectId::LevelBound));
    assert_eq!(world.check_collision(ObjectId::SnakeTail, 29, 19), Some(ObjectId::LevelBound));
    assert_eq!(world.check_collision(ObjectId::Apple, 40, 40), Some(ObjectId::LevelBound));
    // The wall does not collide with itself: the food behind it shows.
    assert_eq!(world.check_collision(ObjectId::LevelBound, 0, 0), Some(ObjectId::Apple));
    assert_eq!(world.check_collision(ObjectId::LevelBound, 29, 19), None);
}

#[test]
fn head_then_tail_then_food() {
    let world = world_with_apple((9, 3));
    assert_eq!(world.check_collision(ObjectId::Apple, 10, 3), Some(ObjectId::SnakeHead));
    assert_eq!(world.check_collision(ObjectId::SnakeTail, 10, 3), Some(ObjectId::SnakeHead));
    assert_eq!(world.check_collision(ObjectId::SnakeHead, 10, 3), None);
    assert_eq!(world.check_collision(ObjectId::SnakeHead, 9, 3), Some(ObjectId::SnakeTail));
    assert_eq!(world.check_collision(ObjectId::Apple, 9, 3), Some(ObjectId::SnakeTail));
    // The tail does not collide with itself: the food under it shows.
    assert_eq!(world.check_collision(ObjectId::SnakeTail, 9, 3), Some(ObjectId::Apple));
    assert_eq!(world.check_collision(ObjectId::SnakeTail, 8, 3), None);
}

#[test]
fn food_is_found_on_a_free_cell() {
    let world = world_with_apple((15, 10));
    assert_eq!(world.check_collision(ObjectId::SnakeHead, 15, 10), Some(ObjectId::Apple));
    assert_eq!(world.check_collision(ObjectId::SnakeTail, 15, 10), Some(ObjectId::Apple));
    assert_eq!(world.check_collision(ObjectId::LevelBound, 15, 10), Some(ObjectId::Apple));
    assert_eq!(world.check_collision(ObjectId::Apple, 15, 10), None);
    assert_eq!(world.check_collision(ObjectId::SnakeHead, 15, 11), None);
}

#[test]
fn head_on_food_shows_food_to_the_head() {
    let world = world_with_apple((10, 3));
    assert_eq!(world.check_collision(ObjectId::SnakeHead, 10, 3), Some(ObjectId::Apple));
    assert_eq!(world.check_collision(ObjectId::Apple, 10, 3), Some(ObjectId::SnakeHead));
}

#[test]
fn nothing_collides_with_itself() {
    let world = world_with_apple((15, 10));
    for id in IDS {
        for x in 0..32u32 {
            for y in 0..22u32 {
                assert_ne!(world.check_collision(id, x, y), Some(id));
            }
        }
    }
}

#[test]
fn same_query_same_answer() {
    let world = world_with_apple((15, 10));
    for id in IDS {
        for x in 0..32u32 {
            for y in 0..22u32 {
                let first = world.check_collision(id, x, y);
                let second = world.check_collision(id, x, y);
                assert_eq!(first, second);
            }
        }
    }
}

#[test]
fn head_meets_a_segment_under_it() {
    let mut snake = Snake::new();
    snake.body.push_back((10, 3));
    let mut world = World::new(snake, LevelBounds::new(0, 0, 30, 20));
    world.apple = Apple { pos: Some((10, 3)) };
    assert_eq!(world.check_collision(ObjectId::SnakeHead, 10, 3), Some(ObjectId::SnakeTail));
    assert_eq!(world.check_collision(ObjectId::SnakeTail, 10, 3), Some(ObjectId::SnakeHead));
    assert_eq!(world.check_collision(ObjectId::Apple, 10, 3), Some(ObjectId::SnakeHead));
    assert_eq!(world.check_collision(ObjectId::LevelBound, 10, 3), Some(ObjectId::SnakeHead));
}

#[test]
fn one_cell_snake_that_grew_lies_under_its_head() {
    let mut snake = Snake::new();
    snake.body.clear();
    snake.body.push_back((5, 5));
    let mut world = World::new(snake, LevelBounds::new(0, 0, 30, 20));
    assert_eq!(world.check_collision(ObjectId::SnakeHead, 5, 5), None);
    world.snake.grow(1);
    assert_eq!(world.check_collision(ObjectId::SnakeHead, 5, 5), Some(ObjectId::SnakeTail));
}
