use tictactoe::game::Game;
use tictactoe::game::Player;
use tictactoe::session::TurnOutcome;

#[test]
fn first_move_in_the_centre_of_row_one() {
    // Empty board, X plays row=1, col=1: cell (0,0) becomes X, the turn
    // passes to O, nobody has won.
    let mut g = Game::new();
    let out = g.take_turn("1 1");
    assert_eq!(out, TurnOutcome::Moved);
    assert_eq!(g.get_cell(0, 0), Some(Player::X));
    assert_eq!(g.current_player, Player::O);
    assert_eq!(g.check_winner(), None);
}

#[test]
fn completing_the_top_row_wins_for_x() {
    let mut g = Game::new();
    assert_eq!(g.take_turn("1 1"), TurnOutcome::Moved); // X at (0,0)
    assert_eq!(g.take_turn("2 1"), TurnOutcome::Moved); // O at (1,0)
    assert_eq!(g.take_turn("1 2"), TurnOutcome::Moved); // X at (0,1)
    assert_eq!(g.take_turn("3 1"), TurnOutcome::Moved); // O at (2,0)
    let out = g.take_turn("1 3"); // X at (0,2): row one complete
    assert_eq!(out, TurnOutcome::Won(Player::X));
    assert_eq!(g.check_winner(), Some(Player::X));
}

#[test]
fn out_of_range_line_is_rejected_and_keeps_the_turn() {
    let mut g = Game::new();
    let out = g.take_turn("4 1");
    assert_eq!(out, TurnOutcome::RejectedRange);
    assert_eq!(g.current_player, Player::X);
    for row in 0..3 {
        for col in 0..3 {
            assert_eq!(g.get_cell(row, col), None);
        }
    }
}

#[test]
fn non_numeric_line_is_rejected_and_keeps_the_turn() {
    let mut g = Game::new();
    let out = g.take_turn("abc def");
    assert_eq!(out, TurnOutcome::RejectedCount);
    assert_eq!(g.current_player, Player::X);
    for row in 0..3 {
        for col in 0..3 {
            assert_eq!(g.get_cell(row, col), None);
        }
    }
}

#[test]
fn occupied_cell_is_rejected_and_keeps_the_turn() {
    let mut g = Game::new();
    assert_eq!(g.take_turn("1 1"), TurnOutcome::Moved);
    let out = g.take_turn("1 1");
    assert_eq!(out, TurnOutcome::RejectedOccupied);
    assert_eq!(g.get_cell(0, 0), Some(Player::X));
    assert_eq!(g.current_player, Player::O);
}

#[test]
fn full_drawn_board_keeps_rejecting_moves() {
    // X O X / X O O / O X X holds no complete line; every further move is
    // rejected as occupied and the session never reports a winner.
    let x = Some(Player::X);
    let o = Some(Player::O);
    let mut g = Game { board: [x, o, x, x, o, o, o, x, x], current_player: Player::X };
    assert_eq!(g.check_winner(), None);
    for row in 1..4usize {
        for col in 1..4usize {
            let line = format!("{} {}", row, col);
            assert_eq!(g.take_turn(&line), TurnOutcome::RejectedOccupied);
        }
    }
    assert_eq!(g.check_winner(), None);
}

#[test]
fn second_player_can_win_a_column() {
    let mut g = Game::new();
    assert_eq!(g.take_turn("1 1"), TurnOutcome::Moved); // X at (0,0)
    assert_eq!(g.take_turn("1 2"), TurnOutcome::Moved); // O at (0,1)
    assert_eq!(g.take_turn("2 1"), TurnOutcome::Moved); // X at (1,0)
    assert_eq!(g.take_turn("2 2"), TurnOutcome::Moved); // O at (1,1)
    assert_eq!(g.take_turn("3 3"), TurnOutcome::Moved); // X at (2,2)
    let out = g.take_turn("3 2"); // O at (2,1): middle column complete
    assert_eq!(out, TurnOutcome::Won(Player::O));
}
