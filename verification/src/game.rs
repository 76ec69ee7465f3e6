//! Core state of a tic-tac-toe game: the two player markers, the 3x3 board,
//! move application, turn switching and win detection.
use vstd::prelude::*;

verus! {

/// One of the two player markers.
#[derive(Copy, Clone, PartialEq, Eq, Structural, Debug)]
pub enum Player {
    X,
    O,
}

impl Player {
    /// The other marker.
    pub open spec fn spec_opposite(self) -> Player {
        match self {
            Player::X => Player::O,
            Player::O => Player::X,
        }
    }

    /// Returns the other marker.
    pub fn opposite(&self) -> (r: Player)
        ensures
            r == self.spec_opposite(),
    {
        match self {
            Player::X => Player::O,
            Player::O => Player::X,
        }
    }
}

/// Switching markers toggles strictly: the opposite marker differs from the
/// original, and taking the opposite twice restores the original.
pub proof fn lemma_opposite_toggles(p: Player)
    ensures
        p.spec_opposite() != p,
        p.spec_opposite().spec_opposite() == p,
{
}

/// A game in progress: the nine cells of the board, row by row
/// (cell (row, col) is at index `row * 3 + col`), and whose move is next.
#[derive(Copy, Clone)]
pub struct Game {
    pub board: [Option<Player>; 9],
    pub current_player: Player,
}

impl Game {
    /// The content of the cell at `(row, col)`.
    pub open spec fn cell(self, row: int, col: int) -> Option<Player> {
        self.board@[row * 3 + col]
    }

    /// The three cells at indices `a`, `b`, `c` are all occupied by one marker.
    pub open spec fn triple_won(self, a: int, b: int, c: int) -> bool {
        self.board@[a] is Some && self.board@[a] == self.board@[b] && self.board@[a]
            == self.board@[c]
    }

    /// Line `k` of the eight (three rows, then three columns, then the two
    /// diagonals) is fully occupied by one marker.
    pub open spec fn line_won(self, k: int) -> bool {
        if k == 0 {
            self.triple_won(0, 1, 2)
        } else if k == 1 {
            self.triple_won(3, 4, 5)
        } else if k == 2 {
            self.triple_won(6, 7, 8)
        } else if k == 3 {
            self.triple_won(0, 3, 6)
        } else if k == 4 {
            self.triple_won(1, 4, 7)
        } else if k == 5 {
            self.triple_won(2, 5, 8)
        } else if k == 6 {
            self.triple_won(0, 4, 8)
        } else if k == 7 {
            self.triple_won(2, 4, 6)
        } else {
            false
        }
    }

    /// The board index of the first cell of line `k`.
    pub open spec fn line_first(k: int) -> int {
        if k == 0 {
            0
        } else if k == 1 {
            3
        } else if k == 2 {
            6
        } else if k == 3 {
            0
        } else if k == 4 {
            1
        } else if k == 5 {
            2
        } else if k == 6 {
            0
        } else if k == 7 {
            2
        } else {
            0
        }
    }

    /// Line `k` is fully occupied by marker `p`.
    pub open spec fn line_won_by(self, k: int, p: Player) -> bool {
        self.line_won(k) && self.board@[Self::line_first(k)] == Some(p)
    }

    /// Some line of the eight is fully occupied by one marker.
    pub open spec fn some_line_won(self) -> bool {
        exists|k: int| 0 <= k < 8 && self.line_won(k)
    }

    /// Marker `p` has completed at least one line.
    pub open spec fn won_by(self, p: Player) -> bool {
        exists|k: int| 0 <= k < 8 && self.line_won_by(k, p)
    }

    /// The winner under the fixed enumeration order of the eight lines:
    /// the marker of the first fully-matched line, or `None` when no line
    /// is fully matched.
    pub open spec fn spec_winner(self) -> Option<Player> {
        if self.line_won(0) {
            self.board@[0]
        } else if self.line_won(1) {
            self.board@[3]
        } else if self.line_won(2) {
            self.board@[6]
        } else if self.line_won(3) {
            self.board@[0]
        } else if self.line_won(4) {
            self.board@[1]
        } else if self.line_won(5) {
            self.board@[2]
        } else if self.line_won(6) {
            self.board@[0]
        } else if self.line_won(7) {
            self.board@[2]
        } else {
            None
        }
    }

    /// A fresh game: empty board, X to move.
    pub fn new() -> (g: Game)
        ensures
            g.current_player == Player::X,
            forall|i: int| 0 <= i < 9 ==> g.board@[i] is None,
    {
        Game { board: [None; 9], current_player: Player::X }
    }

    /// Reads the cell at `(row, col)`.
    pub fn get_cell(&self, row: usize, col: usize) -> (r: Option<Player>)
        requires
            row < 3,
            col < 3,
        ensures
            r == self.cell(row as int, col as int),
    {
        self.board[row * 3 + col]
    }

    /// Attempts to occupy `(row, col)` with the current player's marker.
    /// Succeeds exactly when both coordinates are in range and the cell is
    /// empty; on success sets that one cell and leaves every other cell and
    /// the turn unchanged; on failure changes nothing.
    pub fn make_move(&mut self, row: usize, col: usize) -> (ok: bool)
        ensures
            ok <==> (row < 3 && col < 3 && old(self).cell(row as int, col as int) is None),
            ok ==> final(self).board@ == old(self).board@.update(
                row as int * 3 + col as int,
                Some(old(self).current_player),
            ),
            ok ==> final(self).cell(row as int, col as int) == Some(old(self).current_player),
            ok ==> forall|r: int, c: int|
                0 <= r < 3 && 0 <= c < 3 && !(r == row as int && c == col as int)
                    ==> final(self).cell(r, c) == old(self).cell(r, c),
            final(self).current_player == old(self).current_player,
            !ok ==> *final(self) == *old(self),
    {
        if row < 3 && col < 3 {
            let idx = row * 3 + col;
            if self.board[idx].is_none() {
                self.board[idx] = Some(self.current_player);
                return true;
            }
        }
        false
    }

    /// Flips the current player to its opposite; the board is untouched.
    pub fn switch_player(&mut self)
        ensures
            final(self).current_player == old(self).current_player.spec_opposite(),
            final(self).board == old(self).board,
    {
        self.current_player = self.current_player.opposite();
    }

    /// Returns the marker of the three cells at `a`, `b`, `c` when they are
    /// all occupied by the same marker, `None` otherwise.
    fn triple(&self, a: usize, b: usize, c: usize) -> (r: Option<Player>)
        requires
            a < 9,
            b < 9,
            c < 9,
        ensures
            r is Some <==> self.triple_won(a as int, b as int, c as int),
            r is Some ==> r == self.board@[a as int],
    {
        match (self.board[a], self.board[b], self.board[c]) {
            (Some(x), Some(y), Some(z)) => if x == y && x == z {
                Some(x)
            } else {
                None
            },
            _ => None,
        }
    }

    /// Examines the eight lines in the fixed order (rows, then columns, then
    /// diagonals) and returns the marker of the first fully-matched line;
    /// returns `None` exactly when no line is fully occupied by one marker.
    pub fn check_winner(&self) -> (r: Option<Player>)
        ensures
            r == self.spec_winner(),
            r is Some <==> self.some_line_won(),
            forall|p: Player| r == Some(p) ==> self.won_by(p),
    {
        if let Some(p) = self.triple(0, 1, 2) {
            proof {
                assert(self.line_won_by(0, p));
            }
            return Some(p);
        }
        if let Some(p) = self.triple(3, 4, 5) {
            proof {
                assert(self.line_won_by(1, p));
            }
            return Some(p);
        }
        if let Some(p) = self.triple(6, 7, 8) {
            proof {
                assert(self.line_won_by(2, p));
            }
            return Some(p);
        }
        if let Some(p) = self.triple(0, 3, 6) {
            proof {
                assert(self.line_won_by(3, p));
            }
            return Some(p);
        }
        if let Some(p) = self.triple(1, 4, 7) {
            proof {
                assert(self.line_won_by(4, p));
            }
            return Some(p);
        }
        if let Some(p) = self.triple(2, 5, 8) {
            proof {
                assert(self.line_won_by(5, p));
            }
            return Some(p);
        }
        if let Some(p) = self.triple(0, 4, 8) {
            proof {
                assert(self.line_won_by(6, p));
            }
            return Some(p);
        }
        if let Some(p) = self.triple(2, 4, 6) {
            proof {
                assert(self.line_won_by(7, p));
            }
            return Some(p);
        }
        None
    }
}

/// A marker is returned by `spec_winner` exactly when some line is fully
/// occupied by one marker, and the returned marker has itself completed
/// a line.
pub proof fn lemma_winner_iff_some_line_won(g: Game)
    ensures
        g.spec_winner() is Some <==> g.some_line_won(),
        forall|p: Player| g.spec_winner() == Some(p) ==> g.won_by(p),
{
    if g.some_line_won() {
        let k = choose|k: int| 0 <= k < 8 && g.line_won(k);
        assert(g.line_won(k));
        assert(g.spec_winner() is Some);
    }
    if g.spec_winner() is Some {
        if g.line_won(0) {
            assert(g.line_won_by(0, g.spec_winner()->0));
        } else if g.line_won(1) {
            assert(g.line_won_by(1, g.spec_winner()->0));
        } else if g.line_won(2) {
            assert(g.line_won_by(2, g.spec_winner()->0));
        } else if g.line_won(3) {
            assert(g.line_won_by(3, g.spec_winner()->0));
        } else if g.line_won(4) {
            assert(g.line_won_by(4, g.spec_winner()->0));
        } else if g.line_won(5) {
            assert(g.line_won_by(5, g.spec_winner()->0));
        } else if g.line_won(6) {
            assert(g.line_won_by(6, g.spec_winner()->0));
        } else {
            assert(g.line_won_by(7, g.spec_winner()->0));
        }
    }
}

} // verus!
