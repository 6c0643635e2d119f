//! How a game ends.

use vstd::prelude::*;

verus! {

/// The score of a game, with numbers of the caller's choosing.
#[derive(Debug, PartialEq)]
pub enum Score<N> {
    SinglePlayer(N),
    TwoPlayer(N, N),
    /// The game keeps no score.
    NoScore,
}

/// Who won.
#[derive(Debug, Clone, Copy, PartialEq, Eq)]
pub enum WinState {
    Win,
    Lose,
    Draw,
    /// The game has no winner or loser.
    Undecided,
}

/// What a game hands back when it is over.
#[derive(Debug, PartialEq)]
pub struct GameReturn<N> {
    pub score: Score<N>,
    pub win_state: WinState,
}

/// The sentence that tells who won.
pub open spec fn verdict(win_state: WinState) -> Seq<char> {
    match win_state {
        WinState::Undecided => "Game over."@,
        WinState::Draw => "Game over, draw."@,
        WinState::Lose => "Game over, you lose."@,
        WinState::Win => "Game over, you win."@,
    }
}

/// The score as it is shown, from the numbers as they are written.
pub open spec fn score_line(score: Score<String>) -> Seq<char> {
    match score {
        Score::NoScore => Seq::empty(),
        Score::SinglePlayer(points) => "Score: "@ + points@,
        Score::TwoPlayer(you, cpu) => "Score: "@ + you@ + " - "@ + cpu@,
    }
}

impl<N> GameReturn<N> {
    /// The outcome of a lost game of one player with the given score.
    pub fn default(score: N) -> (outcome: GameReturn<N>)
        ensures
            outcome.score == Score::SinglePlayer(score),
            outcome.win_state == WinState::Lose,
    {
        GameReturn { score: Score::SinglePlayer(score), win_state: WinState::Lose }
    }
}

impl GameReturn<String> {
    /// The title of the screen that follows the game: who won, a blank, and
    /// the score.
    pub fn get_end_text(&self) -> (title: String)
        ensures
            title@ == verdict(self.win_state) + " "@ + score_line(self.score),
    {
        let game_over_text = match self.win_state {
            WinState::Undecided => "Game over.",
            WinState::Draw => "Game over, draw.",
            WinState::Lose => "Game over, you lose.",
            WinState::Win => "Game over, you win.",
        };
        let mut title = String::new();
        title.push_str(game_over_text);
        title.push_str(" ");
        match &self.score {
            Score::NoScore => {},
            Score::SinglePlayer(points) => {
                title.push_str("Score: ");
                title.push_str(points.as_str());
            },
            Score::TwoPlayer(you, cpu) => {
                title.push_str("Score: ");
                title.push_str(you.as_str());
                title.push_str(" - ");
                title.push_str(cpu.as_str());
            },
        }
        assert(title@ =~= verdict(self.win_state) + " "@ + score_line(self.score));
        title
    }
}

} // verus!
