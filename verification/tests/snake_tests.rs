use zim::editor::{Direction, GameState, Position, Snake};

#[test]
fn new_game_layout() {
    let game = Snake::new(20, 15);
    let body: Vec<Position> = game.body().iter().copied().collect();
    assert_eq!(body, vec![Position::new(5, 7), Position::new(4, 7), Position::new(3, 7)]);
    assert_eq!(game.state(), GameState::Playing);
    assert_eq!(game.score(), 0);
    let food = game.food();
    assert!(food.x >= 1 && food.x < 19 && food.y >= 1 && food.y < 14);
    assert!(!body.contains(&food));
}

#[test]
fn snake_cannot_reverse() {
    let mut game = Snake::new(20, 15);
    game.change_direction(Direction::Left);
    game.change_direction(Direction::Up);
    assert!(game.advance());
    assert_eq!(game.body().front().copied(), Some(Position::new(5, 6)));
}

#[test]
fn leaving_the_board_ends_the_game() {
    let mut game = Snake::new(8, 6);
    game.change_direction(Direction::Up);
    let mut moves = 0;
    while game.state() == GameState::Playing && moves < 10 {
        game.advance();
        moves += 1;
    }
    assert_eq!(game.state(), GameState::GameOver);
    assert!(!game.advance());
}

#[test]
fn reset_starts_over() {
    let mut game = Snake::new(20, 15);
    game.change_direction(Direction::Down);
    game.advance();
    game.reset();
    assert_eq!(game.score(), 0);
    assert_eq!(game.body().len(), 3);
    assert_eq!(game.body().front().copied(), Some(Position::new(5, 7)));
}
