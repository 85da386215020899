use rusty_snake::mechanics::Direction;
use rusty_snake::mechanics::FruitManager;
use rusty_snake::mechanics::KeyInput;
use rusty_snake::mechanics::Snake;
use rusty_snake::mechanics::State;
use rusty_snake::mechanics::handle_char_input;
use rusty_snake::mechanics::handle_input;

#[test]
fn growth_scenario() {
    // Bounds (10,10): start at (5,5), length 1, heading right, growth 2.
    let mut snake = Snake::new((5, 5), 2);
    snake.turn(Direction::Right);

    snake.advance();
    assert_eq!(snake.body, vec![(6, 5), (5, 5)]);
    assert_eq!(snake.growth, 1);

    snake.advance();
    assert_eq!(snake.body, vec![(7, 5), (6, 5), (5, 5)]);
    assert_eq!(snake.growth, 0);

    // Growth exhausted: further advances keep the length.
    snake.advance();
    assert_eq!(snake.body.len(), 3);
    snake.advance();
    assert_eq!(snake.body.len(), 3);
}

#[test]
fn growth_budget_adds_exactly_that_many_segments() {
    let mut snake = Snake::new((10, 10), 3);
    snake.turn(Direction::Right);
    for expected in [2, 1, 0] {
        snake.advance();
        assert_eq!(snake.growth, expected);
    }
    assert_eq!(snake.body.len(), 4);
    snake.advance();
    assert_eq!(snake.body.len(), 4);
    assert_eq!(snake.growth, 0);
}

#[test]
fn loss_scenario_left_wall() {
    // Head at (1,1) heading left: one advance reaches the wall.
    let mut snake = Snake::new((1, 1), 0);
    snake.turn(Direction::Left);
    snake.advance();
    assert_eq!(snake.body, vec![(0, 1)]);
    assert!(snake.check_if_lost((10, 10)));
}

#[test]
fn reversal_is_ignored_other_turns_stick() {
    let mut snake = Snake::new((5, 5), 0);
    assert_eq!(snake.direction, Direction::Up);

    // The exact reversal is a no-op.
    snake.turn(Direction::Down);
    assert_eq!(snake.direction, Direction::Up);

    // Turning to the current heading is honoured (and idempotent).
    snake.turn(Direction::Up);
    assert_eq!(snake.direction, Direction::Up);

    // Any other heading is honoured.
    snake.turn(Direction::Left);
    assert_eq!(snake.direction, Direction::Left);
    snake.turn(Direction::Right);
    assert_eq!(snake.direction, Direction::Left);
    snake.turn(Direction::Down);
    assert_eq!(snake.direction, Direction::Down);
}

#[test]
fn chain_follow_without_growth() {
    let mut snake = Snake {
        body: vec![(3, 3), (3, 4), (3, 5)],
        direction: Direction::Up,
        growth: 0,
    };
    snake.advance();
    // Head moved up; every other segment took its predecessor's old cell.
    assert_eq!(snake.body, vec![(3, 2), (3, 3), (3, 4)]);
}

#[test]
fn loss_boundary_cells() {
    let bounds = (10, 10);
    for head in [(0, 5), (9, 5), (5, 0), (5, 9)] {
        let snake = Snake { body: vec![head], direction: Direction::Up, growth: 0 };
        assert!(snake.check_if_lost(bounds), "head {:?} should be lost", head);
    }
    for head in [(1, 1), (8, 8), (5, 5)] {
        let snake = Snake { body: vec![head], direction: Direction::Up, growth: 0 };
        assert!(!snake.check_if_lost(bounds), "head {:?} should be fine", head);
    }
}

#[test]
fn self_collision_is_lost_anywhere_inside() {
    let snake = Snake {
        body: vec![(2, 2), (2, 3), (3, 3), (3, 2), (2, 2)],
        direction: Direction::Up,
        growth: 0,
    };
    assert!(snake.check_if_lost((10, 10)));
    // Even on a huge grid, far from every wall.
    assert!(snake.check_if_lost((1000, 1000)));
}

#[test]
fn non_head_overlap_is_not_a_collision() {
    // Two tail segments share a cell; the head is elsewhere.
    let snake = Snake {
        body: vec![(5, 5), (2, 3), (2, 3)],
        direction: Direction::Up,
        growth: 0,
    };
    assert!(!snake.check_if_lost((10, 10)));
}

#[test]
fn inside_covers_the_whole_body() {
    let snake = Snake {
        body: vec![(2, 2), (2, 3)],
        direction: Direction::Up,
        growth: 0,
    };
    assert!(snake.inside((2, 2)));
    assert!(snake.inside((2, 3)));
    assert!(!snake.inside((4, 4)));
}

#[test]
fn body_stays_non_empty() {
    let mut snake = Snake::new((5, 5), 1);
    assert!(snake.body.len() >= 1);
    for _ in 0..20 {
        snake.advance();
        assert!(snake.body.len() >= 1);
    }
}

#[test]
fn fruit_placed_then_eaten_once() {
    let snake = Snake::new((5, 5), 0);
    let mut fm = FruitManager::new();
    assert!(fm.place_at((3, 3), (10, 10), &snake));
    assert_eq!(fm.fruits, vec![(3, 3)]);

    // A second fruit on the same cell is refused.
    assert!(!fm.place_at((3, 3), (10, 10), &snake));
    assert_eq!(fm.fruits, vec![(3, 3)]);

    // A head on the fruit eats it exactly once.
    let eater = Snake::new((3, 3), 0);
    assert!(fm.fruit_eaten(&eater));
    assert!(fm.fruits.is_empty());
    assert!(!fm.fruit_eaten(&eater));
    assert!(fm.fruits.is_empty());
}

#[test]
fn fruit_eaten_removes_only_the_matching_fruit() {
    let snake = Snake::new((9, 9), 0);
    let mut fm = FruitManager::new();
    assert!(fm.place_at((2, 2), (20, 20), &snake));
    assert!(fm.place_at((3, 3), (20, 20), &snake));
    assert!(fm.place_at((4, 4), (20, 20), &snake));

    let eater = Snake::new((3, 3), 0);
    assert!(fm.fruit_eaten(&eater));
    assert_eq!(fm.fruits, vec![(2, 2), (4, 4)]);
}

#[test]
fn place_at_rejects_cells_on_the_snake_or_border() {
    let snake = Snake {
        body: vec![(5, 5), (5, 6)],
        direction: Direction::Up,
        growth: 0,
    };
    let mut fm = FruitManager::new();
    // On the snake (head and tail alike).
    assert!(!fm.place_at((5, 5), (10, 10), &snake));
    assert!(!fm.place_at((5, 6), (10, 10), &snake));
    // On or beyond the border band.
    assert!(!fm.place_at((0, 4), (10, 10), &snake));
    assert!(!fm.place_at((4, 0), (10, 10), &snake));
    assert!(!fm.place_at((8, 4), (10, 10), &snake));
    assert!(!fm.place_at((4, 8), (10, 10), &snake));
    assert!(fm.fruits.is_empty());
}

#[test]
fn place_new_avoids_snake_and_existing_fruit() {
    let snake = Snake {
        body: vec![(2, 2), (2, 3), (3, 3)],
        direction: Direction::Up,
        growth: 0,
    };
    let mut fm = FruitManager::new();
    for _ in 0..20 {
        assert!(fm.place_new((10, 10), &snake));
    }
    for (i, fruit) in fm.fruits.iter().enumerate() {
        assert!(1 <= fruit.0 && fruit.0 < 8);
        assert!(1 <= fruit.1 && fruit.1 < 8);
        assert!(!snake.body.contains(fruit));
        for other in fm.fruits[..i].iter() {
            assert_ne!(fruit, other);
        }
    }
}

#[test]
fn place_new_on_the_smallest_grid() {
    // Bounds (4,4) leave exactly one legal cell: (1,1).
    let far_snake = Snake::new((9, 9), 0);
    let mut fm = FruitManager::new();
    assert!(fm.place_new((4, 4), &far_snake));
    assert_eq!(fm.fruits, vec![(1, 1)]);

    // The grid is now full: placement reports failure and changes nothing.
    assert!(!fm.place_new((4, 4), &far_snake));
    assert_eq!(fm.fruits, vec![(1, 1)]);
}

#[test]
fn place_new_fails_when_snake_covers_the_grid() {
    let blocker = Snake::new((1, 1), 0);
    let mut fm = FruitManager::new();
    assert!(!fm.place_new((4, 4), &blocker));
    assert!(fm.fruits.is_empty());
}

#[test]
fn char_input_steers_and_quits() {
    let mut snake = Snake::new((5, 5), 0);
    let mut state = State::Game;

    // Heading up: 's' asks for the exact reversal and is ignored.
    handle_char_input('s', &mut snake, &mut state);
    assert_eq!(snake.direction, Direction::Up);
    assert_eq!(state, State::Game);

    // Either letter case steers; vi keys work too.
    handle_char_input('a', &mut snake, &mut state);
    assert_eq!(snake.direction, Direction::Left);
    handle_char_input('W', &mut snake, &mut state);
    assert_eq!(snake.direction, Direction::Up);
    handle_char_input('l', &mut snake, &mut state);
    assert_eq!(snake.direction, Direction::Right);
    handle_char_input('J', &mut snake, &mut state);
    assert_eq!(snake.direction, Direction::Down);

    // Unknown letters change nothing.
    handle_char_input('z', &mut snake, &mut state);
    assert_eq!(snake.direction, Direction::Down);
    assert_eq!(state, State::Game);

    // 'q' (either case) asks the loop to reset and leaves the snake alone.
    handle_char_input('Q', &mut snake, &mut state);
    assert_eq!(state, State::Reset);
    assert_eq!(snake.direction, Direction::Down);
}

#[test]
fn key_input_steers() {
    let mut snake = Snake::new((5, 5), 0);
    let mut state = State::Game;

    handle_input(Some(KeyInput::KeyLeft), &mut snake, &mut state);
    assert_eq!(snake.direction, Direction::Left);
    handle_input(Some(KeyInput::KeyUp), &mut snake, &mut state);
    assert_eq!(snake.direction, Direction::Up);
    handle_input(Some(KeyInput::KeyRight), &mut snake, &mut state);
    assert_eq!(snake.direction, Direction::Right);
    handle_input(Some(KeyInput::KeyDown), &mut snake, &mut state);
    assert_eq!(snake.direction, Direction::Down);

    // No event, or an unhandled one, changes nothing.
    handle_input(None, &mut snake, &mut state);
    handle_input(Some(KeyInput::Other), &mut snake, &mut state);
    assert_eq!(snake.direction, Direction::Down);
    assert_eq!(state, State::Game);

    handle_input(Some(KeyInput::Character('q')), &mut snake, &mut state);
    assert_eq!(state, State::Reset);
}
