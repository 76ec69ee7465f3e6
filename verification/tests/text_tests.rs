use tictactoe::game::Game;
use tictactoe::game::Player;
use tictactoe::text::invalid_count_message;
use tictactoe::text::invalid_move_message;
use tictactoe::text::invalid_range_message;
use tictactoe::text::player_to_str;
use tictactoe::text::replay_prompt;
use tictactoe::text::turn_prompt;
use tictactoe::text::win_message;

#[test]
fn one_letter_text_for_each_cell_content() {
    assert_eq!(player_to_str(Some(Player::X)), "X");
    assert_eq!(player_to_str(Some(Player::O)), "O");
    assert_eq!(player_to_str(None), "-");
}

#[test]
fn empty_board_renders_the_fixed_grid() {
    let g = Game::new();
    assert_eq!(g.render(), "  1 2 3\n -------\n1|-|-|-|\n2|-|-|-|\n3|-|-|-|\n");
}

#[test]
fn occupied_cells_render_their_markers() {
    let mut g = Game::new();
    g.make_move(0, 0);
    g.switch_player();
    g.make_move(1, 1);
    g.switch_player();
    g.make_move(2, 1);
    assert_eq!(g.render(), "  1 2 3\n -------\n1|X|-|-|\n2|-|O|-|\n3|-|X|-|\n");
}

#[test]
fn rendering_depends_on_the_cells_alone() {
    // The same final position reached through two different move orders
    // renders identically.
    let mut g1 = Game::new();
    g1.make_move(0, 0);
    g1.switch_player();
    g1.make_move(1, 1);
    g1.switch_player();
    g1.make_move(2, 2);
    let mut g2 = Game::new();
    g2.make_move(2, 2);
    g2.switch_player();
    g2.make_move(1, 1);
    g2.switch_player();
    g2.make_move(0, 0);
    assert_eq!(g1.render(), g2.render());
}

#[test]
fn prompts_and_messages_show_the_fixed_texts() {
    assert_eq!(turn_prompt(Player::X), "Player X, enter your move (row column):");
    assert_eq!(turn_prompt(Player::O), "Player O, enter your move (row column):");
    assert_eq!(
        invalid_count_message(),
        "Invalid input. Please enter row and column numbers separated by a space."
    );
    assert_eq!(
        invalid_range_message(),
        "Invalid input. Please enter row and column numbers between 1 and 3."
    );
    assert_eq!(invalid_move_message(), "Invalid move. Please try again.");
    assert_eq!(win_message(Player::X), "X wins!");
    assert_eq!(win_message(Player::O), "O wins!");
    assert_eq!(replay_prompt(), "Play again? (y/n): ");
}
