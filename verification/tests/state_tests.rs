use snake::game::consts::{
    EPSILON, FOOD_HALF_SIZE, FOOD_SIZE, MILLIS_PER_INPUT_UPDATE, SCREEN_HEIGHT, SCREEN_WIDTH,
    SNAKE_HALF_WIDTH, SPEED,
};
use snake::game::coords::Coords;
use snake::game::direction::Direction;
use snake::game::food::Food;
use snake::game::line::Line;
use snake::game::rect::Rect;
use snake::game::snake::Snake;
use snake::game::state::{GameData, GameState, Reaction};

fn far_food() -> Coords {
    Coords::new(5000, 5000)
}

fn game_with_inputs(inputs: &[Direction]) -> GameData {
    let mut data = GameData::new(far_food());
    for dir in inputs {
        data.inputs.push_back(*dir);
    }
    data
}

fn queued(data: &GameData) -> Vec<Direction> {
    data.inputs.iter().copied().collect()
}

fn start_line() -> Line {
    Line {
        beg: Coords::new(SCREEN_WIDTH / 2, SCREEN_HEIGHT / 2),
        end: Coords::new(SCREEN_WIDTH / 2 + EPSILON, SCREEN_HEIGHT / 2),
        dir: Direction::RIGHT,
    }
}

#[test]
fn a_new_game_waits_with_the_snake_in_the_middle() {
    let data = GameData::new(far_food());
    assert_eq!(data.snake.len(), 1);
    assert_eq!(data.snake.head(), start_line());
    assert_eq!(data.food, Food::new(far_food()));
    assert!(data.inputs.is_empty());
    assert_eq!(data.input_timer, 0);
    assert_eq!(data.score, 0);
    assert_eq!(data.state, GameState::PreGame);
}

#[test]
fn food_has_a_box_around_its_position() {
    let food = Food::new(Coords::new(5000, 7000));
    assert_eq!(food.pos, Coords::new(5000, 7000));
    assert_eq!(
        food.bbox,
        Rect::new(5000 - FOOD_HALF_SIZE, 7000 - FOOD_HALF_SIZE, FOOD_SIZE, FOOD_SIZE)
    );
    assert_eq!(FOOD_SIZE, 2 * FOOD_HALF_SIZE);
}

#[test]
fn field_bounds_are_the_screen() {
    assert_eq!(GameData::field_bounds(), Rect::new(0, 0, SCREEN_WIDTH, SCREEN_HEIGHT));
}

#[test]
fn input_filtering_takes_the_newest_real_turn() {
    // heading right; RIGHT, UP, LEFT, DOWN arrived in this order
    let mut data = game_with_inputs(&[
        Direction::RIGHT,
        Direction::UP,
        Direction::LEFT,
        Direction::DOWN,
    ]);
    assert_eq!(data.snake.dir(), Direction::RIGHT);
    data.update_input(MILLIS_PER_INPUT_UPDATE as u32);
    assert_eq!(data.snake.dir(), Direction::DOWN);
    assert_eq!(data.snake.len(), 2);
    // the entries older than the one taken wait for the next round
    assert_eq!(queued(&data), vec![Direction::RIGHT, Direction::UP, Direction::LEFT]);
    assert_eq!(data.input_timer, 0);
}

#[test]
fn input_filtering_drops_newer_inputs_on_the_axis_of_travel() {
    let mut data = game_with_inputs(&[
        Direction::UP,
        Direction::DOWN,
        Direction::LEFT,
        Direction::RIGHT,
    ]);
    data.update_input(MILLIS_PER_INPUT_UPDATE as u32);
    assert_eq!(data.snake.dir(), Direction::DOWN);
    assert_eq!(queued(&data), vec![Direction::UP]);
    assert_eq!(data.input_timer, 0);
    assert_eq!(
        data.snake.head(),
        Line {
            beg: start_line().end,
            end: Coords::new(start_line().end.x, start_line().end.y + EPSILON),
            dir: Direction::DOWN,
        }
    );
}

#[test]
fn input_filtering_takes_the_oldest_if_it_is_the_only_turn() {
    let mut data = game_with_inputs(&[Direction::UP, Direction::LEFT, Direction::RIGHT]);
    data.update_input(MILLIS_PER_INPUT_UPDATE as u32);
    assert_eq!(data.snake.dir(), Direction::UP);
    assert!(data.inputs.is_empty());
}

#[test]
fn inputs_that_are_no_turn_are_dropped() {
    let mut data = game_with_inputs(&[Direction::RIGHT, Direction::LEFT, Direction::RIGHT]);
    data.update_input(MILLIS_PER_INPUT_UPDATE as u32);
    assert_eq!(data.snake.dir(), Direction::RIGHT);
    assert_eq!(data.snake.len(), 1);
    assert!(data.inputs.is_empty());
    // the timer runs on, so that the next input is looked at without delay
    assert_eq!(data.input_timer, MILLIS_PER_INPUT_UPDATE);
}

#[test]
fn an_empty_queue_stays_empty() {
    let mut data = GameData::new(far_food());
    data.update_input(250);
    assert!(data.inputs.is_empty());
    assert_eq!(data.snake.len(), 1);
    assert_eq!(data.input_timer, 250);
}

#[test]
fn inputs_wait_until_the_timer_is_due() {
    let mut data = game_with_inputs(&[Direction::UP]);
    data.update_input(40);
    assert_eq!(data.input_timer, 40);
    assert_eq!(queued(&data), vec![Direction::UP]);
    assert_eq!(data.snake.dir(), Direction::RIGHT);
    data.update_input(59);
    assert_eq!(data.input_timer, 99);
    assert_eq!(data.snake.dir(), Direction::RIGHT);
    data.update_input(1);
    assert_eq!(data.input_timer, 0);
    assert_eq!(data.snake.dir(), Direction::UP);
    assert!(data.inputs.is_empty());
}

#[test]
fn one_turn_per_round() {
    let mut data = game_with_inputs(&[Direction::UP, Direction::LEFT, Direction::DOWN]);
    data.update_input(100);
    assert_eq!(data.snake.dir(), Direction::DOWN);
    assert_eq!(queued(&data), vec![Direction::UP, Direction::LEFT]);
    // too early for the next
    data.update_input(99);
    assert_eq!(data.snake.dir(), Direction::DOWN);
    assert_eq!(queued(&data), vec![Direction::UP, Direction::LEFT]);
    data.update_input(1);
    assert_eq!(data.snake.dir(), Direction::LEFT);
    assert_eq!(queued(&data), vec![Direction::UP]);
    data.update_input(100);
    assert_eq!(data.snake.dir(), Direction::UP);
    assert!(data.inputs.is_empty());
    assert_eq!(data.snake.len(), 4);
}

#[test]
fn a_frame_without_collision_moves_the_snake() {
    let mut data = GameData::new(far_food());
    data.state = GameState::Game;
    assert_eq!(data.update_snake(16), Reaction::Moved);
    let dist: i64 = 16 * SPEED;
    assert_eq!(dist, 320);
    assert_eq!(
        data.snake.head(),
        Line {
            beg: Coords::new(start_line().beg.x + dist, start_line().beg.y),
            end: Coords::new(start_line().end.x + dist, start_line().end.y),
            dir: Direction::RIGHT,
        }
    );
    assert_eq!(data.snake.length(), EPSILON as i128);
    assert_eq!(data.score, 0);
    assert_eq!(data.state, GameState::Game);
    assert_eq!(data.food, Food::new(far_food()));
}

#[test]
fn a_frame_on_the_food_grows_the_snake_and_scores() {
    let mut data = GameData::new(Coords::new(SCREEN_WIDTH / 2, SCREEN_HEIGHT / 2));
    data.state = GameState::Game;
    data.inputs.push_back(Direction::UP);
    assert_eq!(data.update_snake(16), Reaction::Ate);
    assert_eq!(data.score, 1);
    assert_eq!(data.snake.len(), 1);
    assert_eq!(data.snake.length(), (EPSILON + FOOD_SIZE) as i128);
    // grown at the head, not moved
    assert_eq!(data.snake.head().beg, start_line().beg);
    assert_eq!(data.snake.head().end, Coords::new(start_line().end.x + FOOD_SIZE, SCREEN_HEIGHT / 2));
    assert_eq!(data.state, GameState::Game);
    assert_eq!(queued(&data), vec![Direction::UP]);
}

#[test]
fn eating_comes_before_crashing() {
    // the head is out of the field and on the food
    let mut data = GameData::new(Coords::new(SCREEN_WIDTH, 3000));
    data.snake = Snake::from_lines(&vec![Line {
        beg: Coords::new(70000, 3000),
        end: Coords::new(SCREEN_WIDTH + 1, 3000),
        dir: Direction::RIGHT,
    }])
    .expect("a valid body");
    assert!(data.snake.wall_collide(&GameData::field_bounds()));
    assert_eq!(data.update_snake(16), Reaction::Ate);
    assert_eq!(data.score, 1);
}

#[test]
fn a_frame_at_the_wall_resets_the_game() {
    let mut data = GameData::new(far_food());
    data.state = GameState::Game;
    data.score = 7;
    data.input_timer = 30;
    // 2000 ms at full speed take the head just past the right edge
    assert_eq!(data.update_snake(2000), Reaction::Moved);
    assert_eq!(data.snake.head().end.x, SCREEN_WIDTH + EPSILON);
    data.inputs.push_back(Direction::UP);
    assert_eq!(data.update_snake(16), Reaction::Reset);
    assert_eq!(data.snake.len(), 1);
    assert_eq!(data.snake.head(), start_line());
    assert!(data.inputs.is_empty());
    assert_eq!(data.score, 0);
    assert_eq!(data.state, GameState::PreGame);
    assert_eq!(data.input_timer, 30);
}

#[test]
fn a_frame_on_the_own_body_resets_the_game() {
    let mut data = GameData::new(Coords::new(70000, 50000));
    data.state = GameState::Game;
    data.score = 3;
    data.snake = Snake::from_lines(&vec![
        Line { beg: Coords::new(10000, 10000), end: Coords::new(20000, 10000), dir: Direction::RIGHT },
        Line { beg: Coords::new(20000, 10000), end: Coords::new(20000, 15000), dir: Direction::DOWN },
        Line { beg: Coords::new(20000, 15000), end: Coords::new(15000, 15000), dir: Direction::LEFT },
        Line { beg: Coords::new(15000, 15000), end: Coords::new(15000, 10500), dir: Direction::UP },
    ])
    .expect("a valid body");
    assert!(data.snake.self_collide());
    assert_eq!(data.update_snake(16), Reaction::Reset);
    assert_eq!(data.snake.head(), start_line());
    assert_eq!(data.score, 0);
    assert_eq!(data.state, GameState::PreGame);
}

#[test]
fn food_is_not_placed_on_the_snake() {
    let mut data = GameData::new(far_food());
    data.snake.grow(10000);
    let before = data.food;
    // on the head
    assert!(!data.relocate_food(Coords::new(45000, 30000)));
    assert_eq!(data.food, before);
    // the boxes overlap by one tick
    let edge: i64 = SCREEN_HEIGHT / 2 + SNAKE_HALF_WIDTH + FOOD_HALF_SIZE;
    assert!(!data.relocate_food(Coords::new(45000, edge - 1)));
    assert_eq!(data.food, before);
}

#[test]
fn food_is_placed_beside_the_snake() {
    let mut data = GameData::new(far_food());
    data.snake.grow(10000);
    // the boxes share an edge
    let edge: i64 = SCREEN_HEIGHT / 2 + SNAKE_HALF_WIDTH + FOOD_HALF_SIZE;
    assert!(data.relocate_food(Coords::new(45000, edge)));
    assert_eq!(data.food, Food::new(Coords::new(45000, edge)));
    assert!(!data.snake.collide(&data.food.bbox));
    assert!(data.relocate_food(Coords::new(100, 100)));
    assert_eq!(data.food.pos, Coords::new(100, 100));
    assert!(!data.snake.collide(&data.food.bbox));
}

#[test]
fn after_eating_the_food_is_placed_anew() {
    let mut data = GameData::new(Coords::new(SCREEN_WIDTH / 2, SCREEN_HEIGHT / 2));
    assert_eq!(data.update_snake(16), Reaction::Ate);
    // candidates on the snake are refused, the first free one is taken
    let candidates = [
        Coords::new(SCREEN_WIDTH / 2, SCREEN_HEIGHT / 2),
        Coords::new(SCREEN_WIDTH / 2 + 1500, SCREEN_HEIGHT / 2 + 500),
        Coords::new(20000, 20000),
        Coords::new(60000, 10000),
    ];
    let mut taken: Option<Coords> = None;
    for pos in candidates {
        if data.relocate_food(pos) {
            taken = Some(pos);
            break;
        }
    }
    assert_eq!(taken, Some(Coords::new(20000, 20000)));
    assert_eq!(data.food, Food::new(Coords::new(20000, 20000)));
    assert_eq!(data.update_snake(16), Reaction::Moved);
    assert_eq!(data.score, 1);
}

#[test]
fn a_game_played_frame_by_frame() {
    let mut data = GameData::new(Coords::new(SCREEN_WIDTH / 2 + 5000, SCREEN_HEIGHT / 2));
    data.state = GameState::Game;
    let mut frames: u32 = 0;
    // run right until the food is reached
    while data.update_snake(16) == Reaction::Moved {
        frames += 1;
        assert!(frames < 100);
        assert_eq!(data.snake.length(), EPSILON as i128);
    }
    // the box of the food begins 4000 ahead of the start, 320 are made per frame
    assert_eq!(frames, 13);
    assert_eq!(data.score, 1);
    assert_eq!(data.snake.length(), (EPSILON + FOOD_SIZE) as i128);
    assert!(data.relocate_food(Coords::new(10000, 10000)));
    data.inputs.push_back(Direction::UP);
    data.update_input(100);
    assert_eq!(data.update_snake(16), Reaction::Moved);
    assert_eq!(data.snake.dir(), Direction::UP);
    assert_eq!(data.snake.len(), 2);
    assert_eq!(data.snake.length(), (2 * EPSILON + FOOD_SIZE) as i128);
}
