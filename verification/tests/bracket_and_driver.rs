use wasi_runner::bots::BotDetails;
use wasi_runner::bots::BotRunType;
use wasi_runner::bracket::create_bracket;
use wasi_runner::bracket::create_tournament;
use wasi_runner::bracket::next_pow2;
use wasi_runner::bracket::Tournament;
use wasi_runner::driver::MatchParticipants;
use wasi_runner::game::MatchEngine;
use wasi_runner::game::MatchState;
use wasi_runner::play::SPROption;

fn bot(name: &str) -> BotDetails {
    BotDetails {
        id: None,
        run_type: BotRunType::Python,
        name: name.to_string(),
        code: String::new(),
        wasm_path: String::new(),
        wasm_bytes: None,
    }
}

#[test]
fn next_pow2_seats_everyone_tightly() {
    assert_eq!(next_pow2(1), 1);
    assert_eq!(next_pow2(2), 2);
    assert_eq!(next_pow2(3), 4);
    assert_eq!(next_pow2(5), 8);
    assert_eq!(next_pow2(8), 8);
    assert_eq!(next_pow2(9), 16);
    assert_eq!(next_pow2(1024), 1024);
}

#[test]
fn five_bots_make_one_pair_three_byes_and_a_final_last() {
    let bots = vec![bot("a"), bot("b"), bot("c"), bot("d"), bot("e")];
    let t = create_bracket(&bots);
    let ms = &t.starting_matches;
    assert_eq!(ms.len(), 7);
    let byes = ms.iter().filter(|m| m.state == MatchState::Bye).count();
    assert_eq!(byes, 3);
    let real = ms.iter().filter(|m| m.state == MatchState::NotStarted).count();
    assert_eq!(real, 4);
    assert_eq!(ms[0].id, "a-b");
    assert_eq!(ms[1].id, "c-bye");
    assert_eq!(ms[2].id, "d-bye");
    assert_eq!(ms[3].id, "e-bye");
    assert_eq!(ms[4].id, "a-b-c-bye");
    assert_eq!(ms[5].id, "d-bye-e-bye");
    assert_eq!(ms[6].id, "a-b-c-bye-d-bye-e-bye");
    assert_eq!(ms[0].next_match_id.as_deref(), Some("a-b-c-bye"));
    assert_eq!(ms[1].next_match_id.as_deref(), Some("a-b-c-bye"));
    assert_eq!(ms[2].next_match_id.as_deref(), Some("d-bye-e-bye"));
    assert_eq!(ms[3].next_match_id.as_deref(), Some("d-bye-e-bye"));
    assert_eq!(ms[4].next_match_id.as_deref(), Some("a-b-c-bye-d-bye-e-bye"));
    assert_eq!(ms[5].next_match_id.as_deref(), Some("a-b-c-bye-d-bye-e-bye"));
    assert!(ms[6].next_match_id.is_none());
    assert_eq!(ms[0].tournament_round_text, "1");
    assert_eq!(ms[4].tournament_round_text, "2");
    assert_eq!(ms[6].tournament_round_text, "3");
    assert_eq!(ms[0].participants.len(), 2);
    assert_eq!(ms[1].participants.len(), 1);
    assert_eq!(ms[4].participants.len(), 0);
    assert!(t.match_updates.is_empty());
}

#[test]
fn every_match_but_the_final_points_at_a_later_match() {
    let bots: Vec<BotDetails> = (0..11).map(|i| bot(&format!("bot{}", i))).collect();
    let t = create_bracket(&bots);
    let ms = &t.starting_matches;
    assert_eq!(ms.len(), 15);
    assert_eq!(
        ms.iter().filter(|m| m.state == MatchState::Bye).count(),
        5
    );
    for (i, m) in ms.iter().enumerate() {
        if i + 1 == ms.len() {
            assert!(m.next_match_id.is_none());
        } else {
            let nid = m.next_match_id.as_ref().unwrap();
            let j = ms.iter().position(|x| &x.id == nid).unwrap();
            assert!(j > i);
        }
    }
}

#[test]
fn two_bots_make_a_single_final() {
    let t = create_bracket(&vec![bot("x"), bot("y")]);
    assert_eq!(t.starting_matches.len(), 1);
    assert_eq!(t.starting_matches[0].id, "x-y");
    assert!(t.starting_matches[0].next_match_id.is_none());
    assert_eq!(t.starting_matches[0].participants.len(), 2);
}

#[test]
fn one_bot_makes_an_empty_bracket() {
    let t = create_bracket(&vec![bot("solo")]);
    assert!(t.starting_matches.is_empty());
}

#[test]
fn a_shuffled_tournament_seats_the_same_bots() {
    let bots = vec![bot("a"), bot("b"), bot("c"), bot("d"), bot("e")];
    let t = create_tournament(bots);
    assert_eq!(t.starting_matches.len(), 7);
    let mut seated: Vec<String> = t
        .starting_matches
        .iter()
        .flat_map(|m| m.participants.iter().map(|b| b.name.clone()))
        .collect();
    seated.sort();
    assert_eq!(seated, vec!["a", "b", "c", "d", "e"]);
    let byes = t
        .starting_matches
        .iter()
        .filter(|m| m.state == MatchState::Bye)
        .count();
    assert_eq!(byes, 3);
    assert!(t.starting_matches.last().unwrap().next_match_id.is_none());
}

#[test]
fn a_single_bot_tournament_has_nothing_to_play() {
    let t = create_tournament(vec![bot("solo")]);
    assert_eq!(t.match_count(), 0);
}

#[test]
fn empty_tournament_has_no_matches_or_updates() {
    let t = Tournament::new();
    assert_eq!(t.match_count(), 0);
    assert!(t.match_updates.is_empty());
}

/// The side-table entry for the match at `i`.
fn entry_for<'a>(t: &Tournament, parts: &'a [MatchParticipants], i: usize) -> &'a MatchParticipants {
    let id = &t.starting_matches[i].id;
    parts.iter().find(|e| &e.match_id == id).unwrap()
}

/// Settles one non-bye match deterministically: participant 0 plays rock,
/// participant 1 plays scissors, so participant 0 wins in three rounds.
fn settle(t: &Tournament, parts: &[MatchParticipants], i: usize) -> wasi_runner::game::MatchOutcome {
    let entry = entry_for(t, parts, i);
    assert_eq!(entry.participants.len(), 2);
    let mut engine = MatchEngine::new();
    while !engine.finished() {
        engine.record_round(SPROption::Rock, SPROption::Scissors);
    }
    engine.finalize(
        &t.starting_matches[i].id,
        &entry.participants[0].name,
        &entry.participants[1].name,
    )
}

#[test]
fn the_driver_walk_promotes_winners_to_a_champion() {
    let bots = vec![bot("a"), bot("b"), bot("c"), bot("d"), bot("e")];
    let mut t = create_bracket(&bots);
    let mut parts = t.initial_participants();
    assert_eq!(parts.len(), 7);
    assert_eq!(parts[0].match_id, "a-b");
    assert_eq!(parts[0].participants.len(), 2);
    assert_eq!(parts[4].participants.len(), 0);
    let mut champion: Option<BotDetails> = None;
    for i in 0..t.match_count() {
        let snapshot = t.in_progress_snapshot(i, &parts);
        assert_eq!(snapshot.state, MatchState::InProgress);
        let outcome = if t.starting_matches[i].state == MatchState::Bye {
            let o = t.bye_outcome(i, &parts);
            assert_eq!(o.note.as_deref(), Some("Bye"));
            assert_eq!(o.winner, 0);
            assert!(o.participants.iter().all(|p| !p.winner));
            o
        } else {
            settle(&t, &parts, i)
        };
        let result = t.record_and_promote(i, outcome, &mut parts);
        if let Some(b) = result {
            assert!(champion.is_none());
            champion = Some(b);
        }
    }
    // Match by match: a beats b; byes advance c, d, e; a beats c; d beats e;
    // a beats d in the final.
    assert_eq!(champion.unwrap().name, "a");
    assert_eq!(t.match_updates.len(), 7);
    assert_eq!(t.match_updates[0].match_id, "a-b");
    assert_eq!(t.match_updates[6].match_id, "a-b-c-bye-d-bye-e-bye");
    assert_eq!(t.match_updates[6].state, MatchState::Finished);
    assert!(t.match_updates[6].participants[0].winner);
    assert_eq!(t.match_updates[6].participants[0].name, "a");
    assert_eq!(t.match_updates[6].participants[1].name, "d");
    // Winners accumulate only in the side table; the bracket itself is
    // exactly as built.
    assert_eq!(t.starting_matches[4].participants.len(), 0);
    assert_eq!(t.starting_matches[5].participants.len(), 0);
    assert_eq!(t.starting_matches[6].participants.len(), 0);
    assert_eq!(parts[4].participants.len(), 2);
    assert_eq!(parts[4].participants[0].name, "a");
    assert_eq!(parts[4].participants[1].name, "c");
    assert_eq!(parts[6].participants.len(), 2);
    assert_eq!(parts[6].participants[0].name, "a");
    assert_eq!(parts[6].participants[1].name, "d");
}

#[test]
fn set_next_match_id_changes_only_the_pointer() {
    let t = create_bracket(&vec![bot("x"), bot("y")]);
    let mut m = t.starting_matches[0].clone_match();
    assert!(m.next_match_id.is_none());
    m.set_next_match_id("somewhere".to_string());
    assert_eq!(m.next_match_id.as_deref(), Some("somewhere"));
    assert_eq!(m.id, "x-y");
    assert_eq!(m.state, MatchState::NotStarted);
    assert_eq!(m.participants.len(), 2);
}

#[test]
fn clone_match_copies_every_field() {
    let t = create_bracket(&vec![bot("x"), bot("y"), bot("z"), bot("w")]);
    let m = &t.starting_matches[0];
    let c = m.clone_match();
    assert_eq!(c.id, m.id);
    assert_eq!(c.tournament_round_text, m.tournament_round_text);
    assert_eq!(c.next_match_id, m.next_match_id);
    assert_eq!(c.state, m.state);
    assert_eq!(c.participants.len(), m.participants.len());
    assert_eq!(c.participants[0].name, m.participants[0].name);
}

#[test]
fn recording_touches_only_the_history_and_the_side_table() {
    let mut t = create_bracket(&vec![bot("x"), bot("y")]);
    let mut parts = t.initial_participants();
    let outcome = settle(&t, &parts, 0);
    let champion = t.record_and_promote(0, outcome, &mut parts);
    assert_eq!(champion.unwrap().name, "x");
    assert_eq!(t.match_updates.len(), 1);
    assert_eq!(t.starting_matches.len(), 1);
    assert_eq!(t.starting_matches[0].participants.len(), 2);
    assert_eq!(parts[0].participants.len(), 2);
}

#[test]
fn a_bye_outcome_is_no_victory_for_its_participant() {
    let bots = vec![bot("a"), bot("b"), bot("c"), bot("d"), bot("e")];
    let t = create_bracket(&bots);
    let parts = t.initial_participants();
    let o = t.bye_outcome(1, &parts);
    assert_eq!(o.match_id, "c-bye");
    assert_eq!(o.state, MatchState::Bye);
    assert_eq!(o.winner, 0);
    assert_eq!(o.participants.len(), 1);
    assert_eq!(o.participants[0].name, "c");
    assert!(!o.participants[0].winner);
    assert!(o.participants[0].moves.is_empty());
}
