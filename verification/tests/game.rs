use term_games::game::{GameReturn, Score, WinState};
use term_games::games::pong::Pong;
use term_games::games::quit::Quit;
use term_games::games::render_test::RenderTest;
use term_games::games::snake::Snake;

fn outcome(score: Score<String>, win_state: WinState) -> GameReturn<String> {
    GameReturn { score, win_state }
}

#[test]
fn default_outcome_is_a_lost_game_of_one_player() {
    let lost = GameReturn::default(0.0f32);
    assert_eq!(lost.score, Score::SinglePlayer(0.0));
    assert_eq!(lost.win_state, WinState::Lose);
}

#[test]
fn end_text_tells_who_won() {
    let score = || Score::SinglePlayer("3".to_owned());
    assert_eq!(outcome(score(), WinState::Win).get_end_text(), "Game over, you win. Score: 3");
    assert_eq!(outcome(score(), WinState::Lose).get_end_text(), "Game over, you lose. Score: 3");
    assert_eq!(outcome(score(), WinState::Draw).get_end_text(), "Game over, draw. Score: 3");
    assert_eq!(outcome(score(), WinState::Undecided).get_end_text(), "Game over. Score: 3");
}

#[test]
fn end_text_shows_the_score_of_both_sides() {
    let score = Score::TwoPlayer("10".to_owned(), "7.5".to_owned());
    assert_eq!(
        outcome(score, WinState::Win).get_end_text(),
        "Game over, you win. Score: 10 - 7.5"
    );
}

#[test]
fn end_text_without_score_ends_in_a_blank() {
    assert_eq!(outcome(Score::NoScore, WinState::Undecided).get_end_text(), "Game over. ");
    assert_eq!(outcome(Score::NoScore, WinState::Lose).get_end_text(), "Game over, you lose. ");
}

#[test]
fn end_text_of_the_default_outcome() {
    let lost = GameReturn::default(format!("{}", 0.0f32));
    assert_eq!(lost.get_end_text(), "Game over, you lose. Score: 0");
}

#[test]
fn games_are_plain_values() {
    assert_eq!(Pong {}, Pong {});
    assert_eq!(Quit {}, Quit {});
    assert_eq!(RenderTest {}, RenderTest {});
    assert_eq!(Snake {}, Snake {});
}
