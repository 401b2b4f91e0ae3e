use snake_core::board::Board;
use snake_core::snake::Snake;
use snake_core::{Direction, GameObject, Key};

#[test]
fn snake_initializes_correctly() {
    let snake = Snake::new(5, 5);
    assert_eq!(snake.body.len(), 1);
    assert_eq!(snake.body[0], (5, 5));
    assert_eq!(snake.direction, Direction::Right);
}

#[test]
fn snake_head_position_is_correct() {
    let snake = Snake::new(3, 4);
    assert_eq!(snake.get_head_pos(), (3, 4));
}

#[test]
fn snake_changes_direction_correctly() {
    let mut snake = Snake::new(5, 5);
    snake.change_direction(Key::ArrowUp);
    assert_eq!(snake.direction, Direction::Up);
    snake.change_direction(Key::ArrowDown);
    assert_eq!(snake.direction, Direction::Up);

    snake.change_direction(Key::ArrowLeft);
    assert_eq!(snake.direction, Direction::Left);
    snake.change_direction(Key::ArrowRight);
    assert_eq!(snake.direction, Direction::Left);

    snake.change_direction(Key::ArrowDown);
    assert_eq!(snake.direction, Direction::Down);
    snake.change_direction(Key::ArrowUp);
    assert_eq!(snake.direction, Direction::Down);

    snake.change_direction(Key::ArrowRight);
    assert_eq!(snake.direction, Direction::Right);
    snake.change_direction(Key::ArrowLeft);
    assert_eq!(snake.direction, Direction::Right);
}

#[test]
fn snake_moves_forward_correctly() {
    let board = Board::new(10, 10, 1, 1);
    let mut snake = Snake::new(5, 5);
    snake.speed = 5000; // 5 blocks per second
    snake.move_forward(&board, 200); // 200 ms
    assert_eq!(snake.body[0], (6, 5));

    snake.change_direction(Key::ArrowDown);
    snake.move_forward(&board, 200); // 200 ms
    assert_eq!(snake.body[0], (6, 6));

    snake.change_direction(Key::ArrowLeft);
    snake.move_forward(&board, 400); // 400 ms
    assert_eq!(snake.body[0], (4, 6));

    snake.change_direction(Key::ArrowUp);
    snake.move_forward(&board, 1000); // 1 second
    assert_eq!(snake.body[0], (4, 1));
}

#[test]
fn snake_head_show_up_on_the_opposite_side_if_leave_board() {
    let board = Board::new(10, 10, 1, 1);
    let mut snake = Snake::new(9, 0);
    snake.speed = 5000; // 5 blocks per second
    snake.move_forward(&board, 200);
    assert_eq!(snake.body[0], (0, 0));

    snake.change_direction(Key::ArrowUp);
    snake.move_forward(&board, 200);
    assert_eq!(snake.body[0], (0, 9));

    snake.change_direction(Key::ArrowLeft);
    snake.move_forward(&board, 200);
    assert_eq!(snake.body[0], (9, 9));

    snake.change_direction(Key::ArrowDown);
    snake.move_forward(&board, 200);
    assert_eq!(snake.body[0], (9, 0));
}

#[test]
fn snake_grows_correctly() {
    let mut snake = Snake::new(5, 5);
    snake.speed = 5000;
    snake.grow(3);

    assert_eq!(snake.grow_pending, 3);

    let board = Board::new(10, 10, 1, 1);
    snake.move_forward(&board, 1000); // Move 5 blocks
    assert_eq!(snake.body.len(), 4); // Initial + 3 grown
}

#[test]
fn snake_detects_wall_collision() {
    let mut board = Board::new(5, 5, 1, 1);
    let level_data = b"#####\n#   #\n# # #\n#   #\n#####";
    board.set_level_data(level_data).unwrap();

    let mut snake = Snake::new(1, 1);
    snake.speed = 5000; // 5 blocks per second
    assert!(snake.move_forward(&board, 200));
    snake.change_direction(Key::ArrowDown);
    assert!(!snake.move_forward(&board, 200));
}

#[test]
fn snake_renders_to_board_correctly() {
    let mut snake = Snake::new(2, 2);
    snake.speed = 2000;
    snake.grow(2);
    let mut board = Board::new(10, 10, 1, 1);
    snake.move_forward(&board, 1000);
    snake.render_to_board(&mut board);
    assert_eq!(board.get_cell(4, 2), Some(GameObject::Snake));
    assert_eq!(board.get_cell(3, 2), Some(GameObject::Snake));
    assert_eq!(board.get_cell(2, 2), Some(GameObject::Snake));
}

#[test]
fn snake_detects_its_own_body_correctly() {
    let mut snake = Snake::new(5, 5);
    snake.speed = 3000;
    snake.grow(3);
    let board = Board::new(10, 10, 1, 1);
    snake.move_forward(&board, 1000);

    assert!(snake.is_snake_at(6, 5));
    assert!(snake.is_snake_at(7, 5));
    assert!(snake.is_snake_at(8, 5));
    assert!(snake.is_snake_at(5, 5));
    assert!(!snake.is_snake_at(4, 5));
}

/// Steers the snake through a U-turn so that its next step lands on its
/// own body, and checks the move is rejected with and without growth
/// pending.
#[test]
fn snake_rejects_moving_into_its_own_body() {
    for grow_at_collision in [0usize, 3] {
        let board = Board::new(10, 10, 1, 1);
        let mut snake = Snake::new(2, 5);
        snake.speed = 1000; // one cell per second
        snake.grow(4);
        for _ in 0..4 {
            assert!(snake.move_forward(&board, 1000));
        }
        // Body now occupies (6,5) back to (2,5).
        snake.change_direction(Key::ArrowDown);
        assert!(snake.move_forward(&board, 1000));
        snake.change_direction(Key::ArrowLeft);
        assert!(snake.move_forward(&board, 1000));
        snake.change_direction(Key::ArrowUp);
        // The candidate cell (5,5) is part of the body in both policies.
        snake.grow_pending = grow_at_collision;
        assert!(!snake.move_forward(&board, 1000));
    }
}

/// Growth arrives one segment per successful step, never all at once.
#[test]
fn snake_growth_is_gradual() {
    let board = Board::new(10, 10, 1, 1);
    let mut snake = Snake::new(0, 0);
    snake.speed = 5000;
    snake.grow(3);
    assert_eq!(snake.body.len(), 1);
    for expected_len in [2, 3, 4, 4, 4] {
        assert!(snake.move_forward(&board, 200)); // exactly one step
        assert_eq!(snake.body.len(), expected_len);
    }
}

/// The accumulator converts wall-clock deltas into whole steps and keeps
/// the fractional residue across calls.
#[test]
fn snake_accumulator_steps_and_residue() {
    let board = Board::new(10, 10, 1, 1);
    let mut snake = Snake::new(0, 0);
    snake.speed = 5000; // 5 cells per second

    assert!(snake.move_forward(&board, 200));
    assert_eq!(snake.body[0], (1, 0)); // exactly one step
    assert_eq!(snake.movement_accumulator, 0);

    assert!(snake.move_forward(&board, 1000));
    assert_eq!(snake.body[0], (6, 0)); // exactly five steps
    assert_eq!(snake.movement_accumulator, 0);

    // Three consecutive 150 ms deltas step 0, 1 and 1 cells.
    assert!(snake.move_forward(&board, 150));
    assert_eq!(snake.body[0], (6, 0));
    assert_eq!(snake.movement_accumulator, 750);

    assert!(snake.move_forward(&board, 150));
    assert_eq!(snake.body[0], (7, 0));
    assert_eq!(snake.movement_accumulator, 500);

    assert!(snake.move_forward(&board, 150));
    assert_eq!(snake.body[0], (8, 0));
    assert_eq!(snake.movement_accumulator, 250);
}

/// A browser key name decodes to the matching key, and anything else to
/// the ignored key.
#[test]
fn snake_key_names_decode_correctly() {
    assert_eq!(Key::from("ArrowUp"), Key::ArrowUp);
    assert_eq!(Key::from("ArrowDown"), Key::ArrowDown);
    assert_eq!(Key::from("ArrowLeft"), Key::ArrowLeft);
    assert_eq!(Key::from("ArrowRight"), Key::ArrowRight);
    assert_eq!(Key::from("Space"), Key::Space);
    assert_eq!(Key::from("Escape"), Key::Invalid);
    assert_eq!(Key::from(""), Key::Invalid);
}
