use wasi_runner::game::made_invalid_play;
use wasi_runner::game::MatchEngine;
use wasi_runner::game::MatchState;
use wasi_runner::play::SPROption;
use wasi_runner::play::SPROption::Invalid;
use wasi_runner::play::SPROption::Paper;
use wasi_runner::play::SPROption::Rock;
use wasi_runner::play::SPROption::Scissors;

fn run_rounds(engine: &mut MatchEngine, plays: &[(SPROption, SPROption)]) {
    for (p1, p2) in plays {
        assert!(!engine.finished());
        engine.record_round(*p1, *p2);
    }
}

#[test]
fn rock_versus_paper_ends_after_three_rounds() {
    let mut engine = MatchEngine::new();
    run_rounds(&mut engine, &[(Rock, Paper), (Rock, Paper), (Rock, Paper)]);
    assert!(engine.finished());
    assert_eq!(engine.scored_winner(), Some(1));
    let o = engine.finalize(&"a-b".to_string(), &"a".to_string(), &"b".to_string());
    assert_eq!(o.state, MatchState::Finished);
    assert_eq!(o.winner, 1);
    assert!(o.note.is_none());
    assert_eq!(o.participants[0].moves, vec![Rock, Rock, Rock]);
    assert_eq!(o.participants[1].moves, vec![Paper, Paper, Paper]);
    assert!(!o.participants[0].winner);
    assert!(o.participants[1].winner);
}

#[test]
fn one_invalid_play_ends_the_match_for_the_other_bot() {
    let mut engine = MatchEngine::new();
    engine.record_round(Invalid, Scissors);
    assert!(engine.finished());
    assert_eq!(engine.scored_winner(), Some(1));
    let o = engine.finalize(&"m".to_string(), &"bad".to_string(), &"good".to_string());
    assert_eq!(o.winner, 1);
    assert_eq!(o.participants[0].moves, vec![Invalid]);
    assert_eq!(o.participants[1].moves, vec![Scissors]);
    assert!(made_invalid_play(&o.participants[0].moves));
    assert!(!made_invalid_play(&o.participants[1].moves));
}

#[test]
fn mutual_invalid_ends_round_one_and_goes_to_the_coin() {
    let mut engine = MatchEngine::new();
    engine.record_round(Invalid, Invalid);
    assert!(engine.finished());
    assert_eq!(engine.scored_winner(), None);
    let o = engine.finalize(&"m".to_string(), &"x".to_string(), &"y".to_string());
    assert_eq!(o.state, MatchState::Finished);
    assert!(o.winner == 0 || o.winner == 1);
    assert_eq!(o.note.unwrap(), "5x Draw. Winner chosen by coin toss.");
    assert_ne!(o.participants[0].winner, o.participants[1].winner);
    assert!(made_invalid_play(&o.participants[0].moves));
    assert!(made_invalid_play(&o.participants[1].moves));
}

#[test]
fn legal_draws_play_on() {
    let mut engine = MatchEngine::new();
    engine.record_round(Rock, Rock);
    assert!(!engine.finished());
    engine.record_round(Paper, Paper);
    assert!(!engine.finished());
}

#[test]
fn three_round_wins_short_circuit_the_match() {
    let mut engine = MatchEngine::new();
    run_rounds(
        &mut engine,
        &[(Rock, Scissors), (Paper, Paper), (Rock, Scissors), (Rock, Scissors)],
    );
    assert!(engine.finished());
    assert_eq!(engine.scored_winner(), Some(0));
}

#[test]
fn a_full_draw_runs_five_rounds_and_tosses() {
    let mut engine = MatchEngine::new();
    run_rounds(
        &mut engine,
        &[(Rock, Rock), (Rock, Rock), (Rock, Rock), (Rock, Rock), (Rock, Rock)],
    );
    assert!(engine.finished());
    assert_eq!(engine.scored_winner(), None);
    let o = engine.finalize(&"m".to_string(), &"x".to_string(), &"y".to_string());
    assert!(o.winner < 2);
    assert_eq!(o.note.unwrap(), "5x Draw. Winner chosen by coin toss.");
}

#[test]
fn more_round_wins_take_an_undecided_match() {
    let mut engine = MatchEngine::new();
    run_rounds(
        &mut engine,
        &[(Rock, Scissors), (Scissors, Rock), (Paper, Rock), (Rock, Rock), (Rock, Rock)],
    );
    assert!(engine.finished());
    assert_eq!(engine.scored_winner(), Some(0));
    let o = engine.finalize(&"m".to_string(), &"x".to_string(), &"y".to_string());
    assert_eq!(o.winner, 0);
    assert!(o.note.is_none());
    assert!(o.participants[0].winner);
    assert!(!o.participants[1].winner);
}

#[test]
fn live_snapshot_carries_moves_but_no_winner() {
    let mut engine = MatchEngine::new();
    engine.record_round(Rock, Scissors);
    let o = engine.round_snapshot(&"m".to_string(), &"x".to_string(), &"y".to_string());
    assert_eq!(o.state, MatchState::InProgress);
    assert_eq!(o.winner, 0);
    assert!(o.note.is_none());
    assert_eq!(o.participants[0].moves, vec![Rock]);
    assert_eq!(o.participants[1].moves, vec![Scissors]);
    assert!(!o.participants[0].winner);
    assert!(!o.participants[1].winner);
}

#[test]
fn invalid_flags_track_the_histories() {
    assert!(!made_invalid_play(&vec![]));
    assert!(!made_invalid_play(&vec![Rock, Paper]));
    assert!(made_invalid_play(&vec![Rock, Invalid, Paper]));
}
