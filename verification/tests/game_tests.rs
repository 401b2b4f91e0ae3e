use snake_core::board::Board;
use snake_core::game::Game;
use snake_core::snake::Snake;
use snake_core::{GameEvent, GameState};

/// A 10x10 toroidal board with a ring wall that leaves one row open: an
/// actor of length five moving right for one second at five cells per
/// second advances its head exactly five cells, wrapping at the boundary,
/// and the rendered buffer's actor-coloured region matches the body
/// exactly.
#[test]
fn end_to_end_wraparound_run_and_render() {
    let mut board = Board::new(10, 10, 1, 1);
    let mut level: Vec<u8> = Vec::new();
    for y in 0..10u8 {
        for x in 0..10u8 {
            let on_ring = x == 0 || x == 9 || y == 0 || y == 9;
            if on_ring && y != 5 {
                level.push(b'#');
            } else {
                level.push(b' ');
            }
        }
    }
    board.set_level_data(&level).unwrap();

    let mut snake = Snake::new(5, 5);
    snake.speed = 5000;
    snake.grow(4);
    assert!(snake.move_forward(&board, 1000));

    // Head advanced five cells from (5,5), wrapping past column nine.
    assert_eq!(snake.get_head_pos(), (0, 5));
    let expected_body = [(0usize, 5usize), (9, 5), (8, 5), (7, 5), (6, 5)];
    assert_eq!(snake.body.len(), 5);
    for (i, p) in expected_body.iter().enumerate() {
        assert_eq!(snake.body[i], *p);
    }

    board.draw_level();
    snake.render_to_board(&mut board);
    let mut buffer = vec![0u8; 10 * 10 * 4];
    board.render_to_buffer(&mut buffer);

    for y in 0..10usize {
        for x in 0..10usize {
            let index = (y * 10 + x) * 4;
            let pixel = (buffer[index], buffer[index + 1], buffer[index + 2], buffer[index + 3]);
            let is_actor = expected_body.contains(&(x, y));
            if is_actor {
                assert_eq!(pixel, (0, 255, 0, 255));
            } else {
                assert_ne!(pixel, (0, 255, 0, 255));
            }
        }
    }
}

fn open_level() -> Vec<u8> {
    vec![b' '; 100 * 100]
}

#[test]
fn game_rejects_a_level_of_the_wrong_size() {
    let level = vec![b' '; 99];
    assert!(Game::new(500, 500, &level).is_err());
}

#[test]
fn game_starts_paused_and_space_toggles() {
    let mut game = Game::new(500, 500, &open_level()).unwrap();
    assert_eq!(game.get_game_state(), GameState::Paused);
    assert_eq!(game.get_score(), 0);
    assert_eq!(game.get_board_width(), 100);
    assert_eq!(game.get_board_height(), 100);

    game.key_down("Space");
    assert_eq!(game.get_game_state(), GameState::Running);
    game.key_down("Space");
    assert_eq!(game.get_game_state(), GameState::Paused);
    let events = game.take_events();
    assert_eq!(events, vec![GameEvent::GameStart, GameEvent::GamePause]);
    assert_eq!(game.take_events().len(), 0);
}

#[test]
fn game_ignores_updates_while_paused() {
    let mut game = Game::new(500, 500, &open_level()).unwrap();
    let head_before = game.snake.get_head_pos();
    game.update(1000);
    assert_eq!(game.snake.get_head_pos(), head_before);
    assert_eq!(game.take_events().len(), 0);
}

#[test]
fn game_ends_on_wall_collision_and_space_restarts() {
    let mut level = open_level();
    level[50 * 100 + 53] = b'#'; // a wall three cells right of the spawn
    let mut game = Game::new(500, 500, &level).unwrap();
    game.key_down("Space");
    game.update(1000); // three cells at the initial speed: into the wall
    assert_eq!(game.get_game_state(), GameState::GameOver);
    let events = game.take_events();
    assert_eq!(events, vec![GameEvent::GameStart, GameEvent::GameOver]);

    game.key_down("Space");
    assert_eq!(game.get_game_state(), GameState::Running);
    assert_eq!(game.get_score(), 0);
    assert_eq!(game.snake.get_head_pos(), (50, 50));
    assert_eq!(game.snake.grow_pending, 8);
    assert_eq!(game.take_events(), vec![GameEvent::GameStart]);
}

/// With exactly two clear cells the one item must sit on the only free
/// one, so eating it is deterministic: the score, growth, speed and event
/// effects of a consumption can all be checked.
#[test]
fn game_eating_raises_score_growth_and_speed() {
    let mut level = vec![b'#'; 100 * 100];
    level[50 * 100 + 50] = b' '; // the spawn cell
    level[50 * 100 + 51] = b' '; // the only free cell: the item must sit there
    let mut game = Game::new(500, 500, &level).unwrap();
    assert_eq!(game.food_manager.foods.len(), 1);
    assert!(game.food_manager.is_food_at(51, 50));

    game.key_down("Space");
    game.snake.speed = 1000; // one cell per second
    let speed_before = game.snake.speed;
    let grow_before = game.snake.grow_pending;
    game.update(1000); // one step onto the item
    assert_eq!(game.get_game_state(), GameState::Running);
    assert_eq!(game.snake.get_head_pos(), (51, 50));
    assert_eq!(game.get_score(), 10);
    assert_eq!(game.snake.grow_pending, grow_before - 1 + 2);
    assert_eq!(game.snake.speed, speed_before + 50);
    assert_eq!(game.take_events(), vec![GameEvent::GameStart, GameEvent::EatFood]);
    // Both clear cells are now under the actor, so no new item fits.
    assert_eq!(game.food_manager.foods.len(), 0);
}

#[test]
fn game_renders_the_actor_into_its_buffer() {
    let mut game = Game::new(100, 100, &open_level()).unwrap();
    game.render();
    let buffer = game.get_screen_buffer();
    assert_eq!(buffer.len(), 100 * 100 * 4);
    let index = (50 * 100 + 50) * 4;
    assert_eq!(buffer[index], 0);
    assert_eq!(buffer[index + 1], 255);
    assert_eq!(buffer[index + 2], 0);
    assert_eq!(buffer[index + 3], 255);
}
