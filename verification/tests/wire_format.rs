use wasi_runner::bots::BotDetails;
use wasi_runner::bots::BotRunInput;
use wasi_runner::bots::BotRunType;
use wasi_runner::bracket::create_bracket;
use wasi_runner::game::MatchOutcome;
use wasi_runner::game::MatchState;
use wasi_runner::game::ParticipantOutcome;
use wasi_runner::play::SPROption;
use wasi_runner::runner::test_stdin_input;
use wasi_runner::strutil::u64_to_string;
use wasi_runner::wire::generate_stdin_input;

#[test]
fn decimal_rendering_matches_rust() {
    assert_eq!(u64_to_string(0), "0");
    assert_eq!(u64_to_string(7), "7");
    assert_eq!(u64_to_string(10), "10");
    assert_eq!(u64_to_string(4294967295), "4294967295");
    assert_eq!(u64_to_string(18446744073709551615), "18446744073709551615");
}

#[test]
fn stdin_payload_is_the_stable_wire_format() {
    let s = generate_stdin_input(
        &"mybot".to_string(),
        &"foo".to_string(),
        &vec![SPROption::Rock],
    );
    assert_eq!(s, "{\"botname\":\"mybot\",\"opponent\":\"foo\",\"round\":1,\"history\":[2]}");
}

#[test]
fn stdin_payload_with_empty_history_has_round_zero() {
    let s = generate_stdin_input(&"a".to_string(), &"b".to_string(), &vec![]);
    assert_eq!(s, "{\"botname\":\"a\",\"opponent\":\"b\",\"round\":0,\"history\":[]}");
}

#[test]
fn stdin_payload_lists_history_in_order() {
    let s = generate_stdin_input(
        &"x".to_string(),
        &"y".to_string(),
        &vec![SPROption::Scissors, SPROption::Paper, SPROption::Rock, SPROption::Invalid],
    );
    assert_eq!(s, "{\"botname\":\"x\",\"opponent\":\"y\",\"round\":4,\"history\":[0,1,2,3]}");
}

#[test]
fn stdin_payload_escapes_names() {
    let s = generate_stdin_input(
        &"a\"b\\c\nd".to_string(),
        &"tab\there".to_string(),
        &vec![],
    );
    assert_eq!(
        s,
        "{\"botname\":\"a\\\"b\\\\c\\nd\",\"opponent\":\"tab\\there\",\"round\":0,\"history\":[]}"
    );
}

#[test]
fn stdin_payload_escapes_control_characters() {
    let s = generate_stdin_input(&"\u{1}".to_string(), &"\u{1f}".to_string(), &vec![]);
    assert_eq!(s, "{\"botname\":\"\\u0001\",\"opponent\":\"\\u001f\",\"round\":0,\"history\":[]}");
}

#[test]
fn stdin_payload_agrees_with_a_json_parser() {
    let s = generate_stdin_input(
        &"quo\"te".to_string(),
        &"foo".to_string(),
        &vec![SPROption::Rock, SPROption::Scissors],
    );
    let v: serde_json::Value = serde_json::from_str(&s).unwrap();
    assert_eq!(v["botname"], "quo\"te");
    assert_eq!(v["opponent"], "foo");
    assert_eq!(v["round"], 2);
    assert_eq!(v["history"][0], 2);
    assert_eq!(v["history"][1], 0);
}

#[test]
fn run_input_serialises_its_own_round_field() {
    let input = BotRunInput {
        botname: "b".to_string(),
        opponent: "o".to_string(),
        round: 9,
        history: vec![],
    };
    assert_eq!(input.to_json(), "{\"botname\":\"b\",\"opponent\":\"o\",\"round\":9,\"history\":[]}");
}

#[test]
fn admission_test_payload_uses_the_canned_history() {
    let s = test_stdin_input(&"probe".to_string());
    assert_eq!(
        s,
        "{\"botname\":\"probe\",\"opponent\":\"testbot\",\"round\":2,\"history\":[2,0]}"
    );
}

#[test]
fn outcome_event_is_the_broadcast_wire_format() {
    let o = MatchOutcome {
        match_id: "a-b".to_string(),
        state: MatchState::Finished,
        note: None,
        winner: 1,
        participants: vec![
            ParticipantOutcome {
                name: "a".to_string(),
                moves: vec![SPROption::Rock],
                winner: false,
            },
            ParticipantOutcome {
                name: "b".to_string(),
                moves: vec![SPROption::Paper],
                winner: true,
            },
        ],
    };
    assert_eq!(
        o.to_json(),
        "{\"match_id\":\"a-b\",\"state\":\"Finished\",\"note\":null,\"winner\":1,\
         \"participants\":[{\"name\":\"a\",\"moves\":[2],\"winner\":false},\
         {\"name\":\"b\",\"moves\":[1],\"winner\":true}]}"
    );
}

#[test]
fn outcome_event_serialises_note_and_bye_state() {
    let o = MatchOutcome {
        match_id: "x-bye".to_string(),
        state: MatchState::Bye,
        note: Some("Bye".to_string()),
        winner: 0,
        participants: vec![ParticipantOutcome {
            name: "x".to_string(),
            moves: vec![],
            winner: false,
        }],
    };
    assert_eq!(
        o.to_json(),
        "{\"match_id\":\"x-bye\",\"state\":\"Bye\",\"note\":\"Bye\",\"winner\":0,\
         \"participants\":[{\"name\":\"x\",\"moves\":[],\"winner\":false}]}"
    );
}

#[test]
fn tournament_snapshot_lists_slots_and_updates() {
    let bots = vec![
        BotDetails {
            id: None,
            run_type: BotRunType::Python,
            name: "a".to_string(),
            code: String::new(),
            wasm_path: String::new(),
            wasm_bytes: None,
        },
        BotDetails {
            id: Some(7),
            run_type: BotRunType::Wasi,
            name: "b".to_string(),
            code: String::new(),
            wasm_path: String::new(),
            wasm_bytes: None,
        },
    ];
    let t = create_bracket(&bots);
    assert_eq!(
        t.to_json(),
        "{\"starting_matches\":[{\"id\":\"a-b\",\"tournament_round_text\":\"1\",\
         \"next_match_id\":null,\"participants\":[{\"name\":\"a\",\"run_type\":2},\
         {\"name\":\"b\",\"run_type\":1}],\"state\":\"NotStarted\"}],\"match_updates\":[]}"
    );
    let v: serde_json::Value = serde_json::from_str(&t.to_json()).unwrap();
    assert_eq!(v["starting_matches"][0]["id"], "a-b");
    assert!(v["match_updates"].as_array().unwrap().is_empty());
}

#[test]
fn outcome_event_agrees_with_a_json_parser() {
    let o = MatchOutcome {
        match_id: "m".to_string(),
        state: MatchState::InProgress,
        note: None,
        winner: 0,
        participants: vec![],
    };
    let v: serde_json::Value = serde_json::from_str(&o.to_json()).unwrap();
    assert_eq!(v["match_id"], "m");
    assert_eq!(v["state"], "InProgress");
    assert!(v["note"].is_null());
    assert_eq!(v["winner"], 0);
    assert!(v["participants"].as_array().unwrap().is_empty());
}
