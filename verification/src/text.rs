//! The text the game shows: the rendered board grid, the turn and replay
//! prompts, and the fixed messages for rejected input and for a win.
use vstd::prelude::*;
use crate::game::Game;
use crate::game::Player;

verus! {

/// The character shown for a cell: the marker's letter, or a dash when empty.
pub open spec fn cell_char(c: Option<Player>) -> char {
    match c {
        Some(Player::X) => 'X',
        Some(Player::O) => 'O',
        None => '-',
    }
}

/// Returns the one-letter text shown for a cell.
pub fn player_to_str(player: Option<Player>) -> (r: String)
    ensures
        r@ == seq![cell_char(player)],
{
    match player {
        Some(Player::X) => {
            proof {
                reveal_strlit("X");
                assert("X"@ =~= seq!['X']);
            }
            "X".to_owned()
        },
        Some(Player::O) => {
            proof {
                reveal_strlit("O");
                assert("O"@ =~= seq!['O']);
            }
            "O".to_owned()
        },
        None => {
            proof {
                reveal_strlit("-");
                assert("-"@ =~= seq!['-']);
            }
            "-".to_owned()
        },
    }
}

/// The rendered grid for the cells `b`: a 1-based column header line, a rule
/// of dashes, then one line per row with its 1-based row number and the three
/// cells between vertical bars.
pub open spec fn render_spec(b: Seq<Option<Player>>) -> Seq<char> {
    "  1 2 3\n -------\n1|"@ + seq![cell_char(b[0])] + "|"@ + seq![cell_char(b[1])] + "|"@
        + seq![cell_char(b[2])] + "|\n2|"@ + seq![cell_char(b[3])] + "|"@ + seq![cell_char(b[4])]
        + "|"@ + seq![cell_char(b[5])] + "|\n3|"@ + seq![cell_char(b[6])] + "|"@ + seq![
        cell_char(b[7]),
    ] + "|"@ + seq![cell_char(b[8])] + "|\n"@
}

/// Boards with identical cell contents produce identical rendered text:
/// the rendering depends on nothing but the cells.
pub proof fn lemma_render_pure(g1: Game, g2: Game)
    requires
        g1.board@ == g2.board@,
    ensures
        render_spec(g1.board@) == render_spec(g2.board@),
{
}

impl Game {
    /// Renders the board as the fixed-format text grid.
    pub fn render(&self) -> (out: String)
        ensures
            out@ == render_spec(self.board@),
    {
        let mut out = String::new();
        out.append("  1 2 3\n -------\n1|");
        let c = player_to_str(self.get_cell(0, 0));
        out.append(c.as_str());
        out.append("|");
        let c = player_to_str(self.get_cell(0, 1));
        out.append(c.as_str());
        out.append("|");
        let c = player_to_str(self.get_cell(0, 2));
        out.append(c.as_str());
        out.append("|\n2|");
        let c = player_to_str(self.get_cell(1, 0));
        out.append(c.as_str());
        out.append("|");
        let c = player_to_str(self.get_cell(1, 1));
        out.append(c.as_str());
        out.append("|");
        let c = player_to_str(self.get_cell(1, 2));
        out.append(c.as_str());
        out.append("|\n3|");
        let c = player_to_str(self.get_cell(2, 0));
        out.append(c.as_str());
        out.append("|");
        let c = player_to_str(self.get_cell(2, 1));
        out.append(c.as_str());
        out.append("|");
        let c = player_to_str(self.get_cell(2, 2));
        out.append(c.as_str());
        out.append("|\n");
        proof {
            assert(out@ =~= render_spec(self.board@));
        }
        out
    }
}

/// The prompt announcing whose move is expected.
pub fn turn_prompt(p: Player) -> (s: String)
    ensures
        s@ == "Player "@ + seq![cell_char(Some(p))] + ", enter your move (row column):"@,
{
    let mut s = String::new();
    s.append("Player ");
    let c = player_to_str(Some(p));
    s.append(c.as_str());
    s.append(", enter your move (row column):");
    s
}

/// The message for a line that does not hold exactly two integers.
pub fn invalid_count_message() -> (s: String)
    ensures
        s@ == "Invalid input. Please enter row and column numbers separated by a space."@,
{
    "Invalid input. Please enter row and column numbers separated by a space.".to_owned()
}

/// The message for coordinates outside 1..=3.
pub fn invalid_range_message() -> (s: String)
    ensures
        s@ == "Invalid input. Please enter row and column numbers between 1 and 3."@,
{
    "Invalid input. Please enter row and column numbers between 1 and 3.".to_owned()
}

/// The message for a move onto an occupied cell.
pub fn invalid_move_message() -> (s: String)
    ensures
        s@ == "Invalid move. Please try again."@,
{
    "Invalid move. Please try again.".to_owned()
}

/// The announcement of the winning marker.
pub fn win_message(p: Player) -> (s: String)
    ensures
        s@ == seq![cell_char(Some(p))] + " wins!"@,
{
    let mut s = player_to_str(Some(p));
    s.append(" wins!");
    s
}

/// The prompt offering a fresh game.
pub fn replay_prompt() -> (s: String)
    ensures
        s@ == "Play again? (y/n): "@,
{
    "Play again? (y/n): ".to_owned()
}

} // verus!
