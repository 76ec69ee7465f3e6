//! One turn of a session: judge an input line, apply the move it asks for
//! when it is valid, and report what happened, so that a thin console loop
//! can print the matching message and decide whether the session is over.
use vstd::prelude::*;
use crate::game::Game;
use crate::game::Player;
use crate::input::MoveParseError;
use crate::input::line_values;
use crate::input::parse_move_line;

verus! {

/// What one turn did with an input line.
#[derive(Copy, Clone, PartialEq, Eq, Structural, Debug)]
pub enum TurnOutcome {
    /// The line did not hold exactly two integers; nothing changed.
    RejectedCount,
    /// The two integers were not both between 1 and 3; nothing changed.
    RejectedRange,
    /// The addressed cell was already occupied; nothing changed.
    RejectedOccupied,
    /// The move was applied and the turn passed on; nobody has won yet.
    Moved,
    /// The move was applied, the turn passed on, and the mover completed
    /// a line: the session is over.
    Won(Player),
}

/// The move that the two 1-based integers of `vs` ask for was applied to
/// `pre`, giving `post`: the addressed cell was empty and now holds the
/// marker of the player to move, nothing else of the board changed, and
/// the turn passed to the other player.
pub open spec fn turn_moved(pre: Game, post: Game, vs: Seq<int>) -> bool {
    &&& vs.len() == 2
    &&& 1 <= vs[0] <= 3
    &&& 1 <= vs[1] <= 3
    &&& pre.cell(vs[0] - 1, vs[1] - 1) is None
    &&& post.board@ == pre.board@.update((vs[0] - 1) * 3 + (vs[1] - 1), Some(pre.current_player))
    &&& post.current_player == pre.current_player.spec_opposite()
}

impl Game {
    /// Runs one turn on the input line: reads the two 1-based coordinates,
    /// rejects the line (leaving the game untouched) when it does not hold
    /// exactly two integers, when one is out of range, or when the cell is
    /// occupied; otherwise occupies the cell, passes the turn on, and says
    /// whether the mover completed a line.
    pub fn take_turn(&mut self, line: &str) -> (out: TurnOutcome)
        ensures
            ({
                let vs = line_values(line@);
                match out {
                    TurnOutcome::RejectedCount => *final(self) == *old(self) && vs.len() != 2,
                    TurnOutcome::RejectedRange => *final(self) == *old(self) && vs.len() == 2 && !(1
                        <= vs[0] <= 3 && 1 <= vs[1] <= 3),
                    TurnOutcome::RejectedOccupied => *final(self) == *old(self) && vs.len() == 2 && 1
                        <= vs[0] <= 3 && 1 <= vs[1] <= 3 && old(self).cell(vs[0] - 1, vs[1] - 1)
                        is Some,
                    TurnOutcome::Moved => turn_moved(*old(self), *final(self), vs)
                        && final(self).spec_winner() is None,
                    TurnOutcome::Won(p) => turn_moved(*old(self), *final(self), vs)
                        && final(self).spec_winner() == Some(p),
                }
            }),
    {
        match parse_move_line(line) {
            Err(MoveParseError::NotTwoNumbers) => TurnOutcome::RejectedCount,
            Err(MoveParseError::OutOfRange) => TurnOutcome::RejectedRange,
            Ok((row, col)) => {
                if !self.make_move(row, col) {
                    TurnOutcome::RejectedOccupied
                } else {
                    self.switch_player();
                    match self.check_winner() {
                        Some(p) => TurnOutcome::Won(p),
                        None => TurnOutcome::Moved,
                    }
                }
            },
        }
    }
}

} // verus!

