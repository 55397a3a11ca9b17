use surf::game::{
    board_size, cell_index, contains_cell, Game, Position, Snake, SnakeDirection, Tick, FOOD_SCORE, MAX_FOODS,
};

fn at(x: u16, y: u16) -> Position {
    Position { x, y }
}

#[test]
fn a_new_snake() {
    let s = Snake::new(10, 5);
    assert_eq!(s.body, vec![at(10, 5), at(9, 5), at(8, 5)]);
    assert_eq!(s.direction, SnakeDirection::Right);
    assert!(!s.growing);
    assert_eq!(s.head(), at(10, 5));
    assert!(s.collides_with(at(9, 5)));
    assert!(!s.collides_with(at(11, 5)));
}

#[test]
fn the_snake_does_not_turn_right_round() {
    let mut s = Snake::new(10, 5);
    s.change_direction(SnakeDirection::Left);
    assert_eq!(s.direction, SnakeDirection::Right);
    s.change_direction(SnakeDirection::Up);
    assert_eq!(s.direction, SnakeDirection::Up);
    s.change_direction(SnakeDirection::Down);
    assert_eq!(s.direction, SnakeDirection::Up);
    s.change_direction(SnakeDirection::Left);
    assert_eq!(s.direction, SnakeDirection::Left);
    s.change_direction(SnakeDirection::Right);
    assert_eq!(s.direction, SnakeDirection::Left);
    s.change_direction(SnakeDirection::Left);
    assert_eq!(s.direction, SnakeDirection::Left);
}

#[test]
fn the_snake_moves_and_wraps_around() {
    let mut s = Snake::new(18, 0);
    assert!(s.move_forward(20, 10));
    assert_eq!(s.body, vec![at(19, 0), at(18, 0), at(17, 0)]);
    assert!(s.move_forward(20, 10));
    assert_eq!(s.body, vec![at(0, 0), at(19, 0), at(18, 0)]);
    s.change_direction(SnakeDirection::Up);
    assert!(s.move_forward(20, 10));
    assert_eq!(s.body, vec![at(0, 9), at(0, 0), at(19, 0)]);
    s.change_direction(SnakeDirection::Left);
    assert!(s.move_forward(20, 10));
    assert_eq!(s.head(), at(19, 9));
    s.change_direction(SnakeDirection::Down);
    assert!(s.move_forward(20, 10));
    assert_eq!(s.head(), at(19, 0));
}

#[test]
fn a_growing_snake_keeps_its_tail_once() {
    let mut s = Snake::new(10, 5);
    s.grow();
    assert!(s.growing);
    assert!(s.move_forward(20, 10));
    assert_eq!(s.body, vec![at(11, 5), at(10, 5), at(9, 5), at(8, 5)]);
    assert!(!s.growing);
    assert!(s.move_forward(20, 10));
    assert_eq!(s.body, vec![at(12, 5), at(11, 5), at(10, 5), at(9, 5)]);
}

#[test]
fn the_snake_does_not_move_into_itself() {
    let mut s = Snake {
        body: vec![at(5, 5), at(6, 5), at(6, 6), at(5, 6), at(4, 6)],
        direction: SnakeDirection::Down,
        growing: false,
    };
    assert!(!s.move_forward(20, 10));
    assert_eq!(s.body, vec![at(5, 5), at(6, 5), at(6, 6), at(5, 6), at(4, 6)]);
    assert_eq!(s.direction, SnakeDirection::Down);
}

#[test]
fn cells_are_found() {
    let cells = vec![at(1, 1), at(2, 2), at(1, 1)];
    assert!(contains_cell(&cells, at(2, 2)));
    assert!(!contains_cell(&cells, at(2, 1)));
    assert_eq!(cell_index(&cells, at(1, 1)), Some(0));
    assert_eq!(cell_index(&cells, at(2, 2)), Some(1));
    assert_eq!(cell_index(&cells, at(3, 3)), None);
}

#[test]
fn a_new_game() {
    for _ in 0..50 {
        let g = Game::new(20, 10);
        assert_eq!(g.snake.body, vec![at(10, 5), at(9, 5), at(8, 5)]);
        assert_eq!(g.score, 0);
        assert!(!g.game_over);
        assert!(!g.paused);
        assert_eq!((g.width, g.height), (20, 10));
        assert_eq!(g.foods.len(), 1);
        let food = g.foods[0];
        assert!(food.x < 20 && food.y < 10);
        assert!(!g.snake.collides_with(food));
    }
}

#[test]
fn food_is_drawn_from_the_whole_board() {
    let mut seen = std::collections::HashSet::new();
    for _ in 0..400 {
        let g = Game::new(4, 2);
        seen.insert((g.foods[0].x, g.foods[0].y));
    }
    assert_eq!(seen.len(), 5);
}

#[test]
fn food_is_placed_on_free_cells_only() {
    let mut g = Game::empty_board(20, 10);
    assert!(g.foods.is_empty());
    assert!(!g.place_food(at(10, 5)));
    assert!(g.place_food(at(0, 0)));
    assert!(!g.place_food(at(0, 0)));
    for i in 1..6 {
        assert!(g.place_food(at(i, 0)));
    }
    assert_eq!(g.foods.len(), MAX_FOODS);
    assert!(!g.place_food(at(7, 7)));
    g.spawn_food();
    assert_eq!(g.foods.len(), MAX_FOODS);
}

#[test]
fn a_tick_moves_the_snake() {
    let mut g = Game::empty_board(20, 10);
    assert_eq!(g.advance(), Tick::Moved);
    assert_eq!(g.snake.head(), at(11, 5));
    assert_eq!(g.score, 0);
}

#[test]
fn eating_scores_and_lets_the_snake_grow() {
    let mut g = Game::empty_board(20, 10);
    assert!(g.place_food(at(3, 3)));
    assert!(g.place_food(at(11, 5)));
    assert_eq!(g.advance(), Tick::Ate);
    assert_eq!(g.score, FOOD_SCORE);
    assert_eq!(g.score, 10);
    assert_eq!(g.foods, vec![at(3, 3)]);
    assert!(g.snake.growing);
    assert_eq!(g.advance(), Tick::Moved);
    assert_eq!(g.snake.body.len(), 4);
}

#[test]
fn update_puts_new_food_on_the_board_after_a_meal() {
    for _ in 0..30 {
        let mut g = Game::empty_board(20, 10);
        assert!(g.place_food(at(11, 5)));
        g.update();
        assert_eq!(g.score, 10);
        assert!(g.foods.len() == 1 || g.foods.len() == 2);
        for food in &g.foods {
            assert!(food.x < 20 && food.y < 10);
            assert!(!g.snake.collides_with(*food));
        }
        assert_eq!(g.snake.head(), at(11, 5));
    }
}

#[test]
fn running_into_itself_ends_the_game() {
    let mut g = Game::empty_board(20, 10);
    g.snake = Snake {
        body: vec![at(5, 5), at(6, 5), at(6, 6), at(5, 6), at(4, 6)],
        direction: SnakeDirection::Down,
        growing: false,
    };
    assert_eq!(g.advance(), Tick::Crashed);
    assert!(g.game_over);
    assert_eq!(g.advance(), Tick::Still);
    g.update();
    assert!(g.game_over);
    g.toggle_pause();
    assert!(!g.paused);
}

#[test]
fn a_paused_game_stands_still() {
    let mut g = Game::empty_board(20, 10);
    g.toggle_pause();
    assert!(g.paused);
    assert_eq!(g.advance(), Tick::Still);
    g.update();
    assert_eq!(g.snake.head(), at(10, 5));
    g.toggle_pause();
    assert!(!g.paused);
    g.update();
    assert_eq!(g.snake.head(), at(11, 5));
}

#[test]
fn reset_starts_anew() {
    let mut g = Game::empty_board(20, 10);
    g.place_food(at(11, 5));
    g.update();
    g.game_over = true;
    g.paused = true;
    g.reset();
    assert_eq!(g.snake.body, vec![at(10, 5), at(9, 5), at(8, 5)]);
    assert_eq!(g.snake.direction, SnakeDirection::Right);
    assert_eq!(g.score, 0);
    assert!(!g.game_over);
    assert!(!g.paused);
    assert_eq!(g.foods.len(), 1);
    assert_eq!((g.width, g.height), (20, 10));
}

#[test]
fn the_board_fits_the_terminal() {
    assert_eq!(board_size(80, 24), (76, 18));
    assert_eq!(board_size(24, 16), (20, 10));
    assert_eq!(board_size(25, 17), (21, 11));
    assert_eq!(board_size(0, 0), (20, 10));
    assert_eq!(board_size(3, 5), (20, 10));
    assert_eq!(board_size(u16::MAX, u16::MAX), (u16::MAX - 4, u16::MAX - 6));
}

#[test]
fn food_is_sure_where_every_cell_is_free() {
    for _ in 0..20 {
        let mut g = Game::empty_board(4, 2);
        g.snake.body = vec![at(9, 9)];
        g.spawn_food();
        assert_eq!(g.foods.len(), 1);
        assert!(g.foods[0].x < 4 && g.foods[0].y < 2);
    }
}

#[test]
fn update_moves_the_snake_whatever_the_food_does() {
    let mut g = Game::empty_board(20, 10);
    assert!(g.place_food(at(11, 5)));
    assert!(g.place_food(at(0, 0)));
    g.update();
    assert_eq!(g.snake.body, vec![at(11, 5), at(10, 5), at(9, 5)]);
    assert!(g.snake.growing);
    assert_eq!(g.score, 10);
    assert_eq!(g.foods[0], at(0, 0));
    assert!(g.foods.len() == 2 || g.foods.len() == 3);
    g.snake.change_direction(SnakeDirection::Up);
    g.foods.clear();
    g.update();
    assert_eq!(g.snake.body, vec![at(11, 4), at(11, 5), at(10, 5), at(9, 5)]);
    assert!(g.foods.is_empty());
    assert_eq!(g.score, 10);
}
