//! Tests of the simulation engine: spawning, ticks, turns, growth,
//! collision, the win at a full board, and the random sources.

use snake_engine::Direction;
use snake_engine::GameState;
use snake_engine::RandomSource;
use snake_engine::ScriptedSource;
use snake_engine::Snake;
use snake_engine::SnakeCell;
use snake_engine::World;
use snake_engine::XorShiftSource;

fn cells_of(world: &World<ScriptedSource>) -> Vec<usize> {
    world.snake_cells().iter().map(|c| c.0).collect()
}

#[test]
fn spawn_lays_the_body_backward() {
    let w = World::new(8, 10, ScriptedSource::new(vec![20]));
    assert_eq!(w.width(), 8);
    assert_eq!(w.size(), 64);
    assert_eq!(w.snake_length(), 3);
    assert_eq!(w.snake_head(), 10);
    assert_eq!(cells_of(&w), vec![10, 9, 8]);
    assert_eq!(w.score(), 0);
    assert_eq!(w.game_state(), None);
    assert_eq!(w.game_state_text(), "Waiting...");
    assert_eq!(w.reward_cell(), Some(20));
}

#[test]
fn first_step_starts_and_advances() {
    let mut w = World::new(8, 10, ScriptedSource::new(vec![20]));
    w.step();
    // facing down: the head drops one row, the body follows
    assert_eq!(w.snake_head(), 18);
    assert_eq!(cells_of(&w), vec![18, 10, 9]);
    assert_eq!(w.game_state(), Some(GameState::Playing));
    assert_eq!(w.game_state_text(), "Playing");
}

#[test]
fn start_game_does_not_advance() {
    let mut w = World::new(8, 10, ScriptedSource::new(vec![20]));
    w.start_game();
    assert_eq!(w.game_state(), Some(GameState::Playing));
    assert_eq!(cells_of(&w), vec![10, 9, 8]);
}

#[test]
fn eating_grows_and_relocates_the_reward() {
    let mut w = World::new(8, 10, ScriptedSource::new(vec![18, 0]));
    assert_eq!(w.reward_cell(), Some(18));
    w.step();
    // the head lands on the reward: the tail grows by one segment, a copy
    // of the old second segment, and the reward moves to a free cell
    assert_eq!(cells_of(&w), vec![18, 10, 9, 9]);
    assert_eq!(w.snake_length(), 4);
    assert_eq!(w.score(), 1);
    assert_eq!(w.reward_cell(), Some(0));
    assert_eq!(w.game_state(), Some(GameState::Playing));
}

#[test]
fn reward_generation_rejects_occupied_cells() {
    // the first three draws land on the body and are rejected
    let w = World::new(8, 10, ScriptedSource::new(vec![10, 9, 8, 20]));
    assert_eq!(w.reward_cell(), Some(20));
}

#[test]
fn reversal_turn_is_rejected() {
    let mut w = World::new(8, 10, ScriptedSource::new(vec![20]));
    // left from head 10 is cell 9, the body's second segment: rejected
    w.change_snake_direction(Direction::Left);
    assert!(w.next_cell.is_none());
    assert_eq!(w.snake.direction, Direction::Down);
    // the next tick keeps moving down
    w.step();
    assert_eq!(w.snake_head(), 18);
}

#[test]
fn accepted_turn_is_applied_once() {
    let mut w = World::new(8, 10, ScriptedSource::new(vec![20]));
    w.change_snake_direction(Direction::Up);
    w.step();
    assert_eq!(w.snake_head(), 2);
    // the pending cell was consumed; the snake keeps moving up
    w.step();
    assert_eq!(w.snake_head(), 58);
}

#[test]
fn opposite_turn_keeps_the_earlier_pending_turn() {
    let mut w = World::new(8, 18, ScriptedSource::new(vec![0]));
    w.change_snake_direction(Direction::Up);
    w.step();
    w.step();
    // the snake now runs upward: body [2, 10, 18]
    assert_eq!(cells_of(&w), vec![2, 10, 18]);
    w.change_snake_direction(Direction::Up);
    // turning down would land on cell 10, the neck: rejected, the earlier
    // up turn stays pending
    w.change_snake_direction(Direction::Down);
    assert_eq!(w.snake.direction, Direction::Up);
    assert_eq!(w.next_cell, Some(SnakeCell(58)));
    w.step();
    assert_eq!(w.snake_head(), 58);
}

#[test]
fn running_into_the_body_loses() {
    let mut w = World::new(2, 3, ScriptedSource::new(vec![0]));
    w.step();
    assert_eq!(cells_of(&w), vec![1, 3, 2]);
    w.step();
    // moving down from cell 1 wraps to cell 3, held by the body
    assert_eq!(w.game_state(), Some(GameState::Lost));
    assert_eq!(w.game_state_text(), "Lost");
}

#[test]
fn terminal_state_freezes_the_world() {
    let mut w = World::new(2, 3, ScriptedSource::new(vec![0]));
    w.step();
    w.step();
    assert_eq!(w.game_state(), Some(GameState::Lost));
    let body = cells_of(&w);
    let reward = w.reward_cell();
    w.step();
    w.step();
    assert_eq!(w.game_state(), Some(GameState::Lost));
    assert_eq!(cells_of(&w), body);
    assert_eq!(w.reward_cell(), reward);
}

#[test]
fn filling_the_board_wins() {
    // an 8 x 8 board where the snake holds every cell but cell 2, with the
    // last free cell turned reward; the head at cell 1 faces it
    let mut body = vec![SnakeCell(1), SnakeCell(0)];
    for i in 3..64 {
        body.push(SnakeCell(i));
    }
    // the tail still overlaps one segment from the last growth
    body.push(SnakeCell(63));
    let mut w: World<ScriptedSource> = World {
        width: 8,
        size: 64,
        snake: Snake { body, direction: Direction::Right },
        next_cell: None,
        reward_cell: Some(2),
        initial_length: 3,
        game_state: Some(GameState::Playing),
        rng: ScriptedSource::new(vec![]),
    };
    assert_eq!(w.snake_length(), 64);
    w.step();
    assert_eq!(w.game_state(), Some(GameState::Won));
    assert_eq!(w.game_state_text(), "Won");
    assert_eq!(w.reward_cell(), None);
    assert_eq!(w.snake_head(), 2);
    assert_eq!(w.snake_length(), 64);
    // the win is terminal
    w.step();
    assert_eq!(w.game_state(), Some(GameState::Won));
    assert_eq!(w.reward_cell(), None);
    assert_eq!(w.snake_head(), 2);
}

#[test]
fn body_never_shrinks() {
    let mut w = World::new(8, 36, XorShiftSource::new(7));
    let mut previous = w.snake_length();
    for _ in 0..300 {
        w.step();
        assert!(w.snake_length() >= previous);
        previous = w.snake_length();
    }
}

#[test]
fn score_is_growth_since_spawn() {
    let mut w = World::new(8, 36, XorShiftSource::new(7));
    for _ in 0..300 {
        w.step();
        assert_eq!(w.score(), w.snake_length() - 3);
    }
}

#[test]
fn reward_never_sits_on_the_body() {
    let mut w = World::new(8, 36, XorShiftSource::new(11));
    for _ in 0..300 {
        w.step();
        if let Some(reward) = w.reward_cell() {
            for cell in w.snake_cells() {
                assert_ne!(cell.0, reward);
            }
        }
    }
}

#[test]
fn snake_builds_backward_from_spawn() {
    let snake = Snake::new(9, 4);
    assert_eq!(snake.body.len(), 4);
    assert_eq!(snake.body[0], SnakeCell(9));
    assert_eq!(snake.body[3], SnakeCell(6));
    assert_eq!(snake.direction, Direction::Down);
}

#[test]
fn scripted_source_replays_and_cycles() {
    let mut source = ScriptedSource::new(vec![5, 7]);
    assert_eq!(source.draw_uniform(100), 5);
    assert_eq!(source.draw_uniform(100), 7);
    assert_eq!(source.draw_uniform(100), 5);
    // values are reduced modulo the bound
    assert_eq!(source.draw_uniform(4), 3);
    let mut empty = ScriptedSource::new(vec![]);
    assert_eq!(empty.draw_uniform(10), 0);
}

#[test]
fn xorshift_source_is_seeded_and_bounded() {
    let mut a = XorShiftSource::new(42);
    let mut b = XorShiftSource::new(42);
    for _ in 0..100 {
        let x = a.draw_uniform(17);
        assert!(x < 17);
        assert_eq!(x, b.draw_uniform(17));
    }
}
