use wasi_runner::bots::run_type_code;
use wasi_runner::bots::run_type_from_code;
use wasi_runner::bots::validate_bot_name;
use wasi_runner::bots::BotDetails;
use wasi_runner::bots::BotRunType;

#[test]
fn run_type_tags_round_trip() {
    assert_eq!(run_type_code(BotRunType::Wasi), 1);
    assert_eq!(run_type_code(BotRunType::Python), 2);
    assert_eq!(run_type_from_code(1), BotRunType::Wasi);
    assert_eq!(run_type_from_code(2), BotRunType::Python);
    assert_eq!(run_type_from_code(0), BotRunType::Python);
    assert_eq!(run_type_from_code(99), BotRunType::Python);
}

#[test]
fn bot_names_hold_one_to_thirty_characters() {
    assert!(!validate_bot_name(&"".to_string()));
    assert!(validate_bot_name(&"x".to_string()));
    assert!(validate_bot_name(&"a".repeat(30)));
    assert!(!validate_bot_name(&"a".repeat(31)));
}

#[test]
fn clone_bot_copies_every_field() {
    let original = BotDetails {
        id: Some(42),
        run_type: BotRunType::Wasi,
        name: "n".to_string(),
        code: "print".to_string(),
        wasm_path: "k.wasm".to_string(),
        wasm_bytes: Some(vec![1, 2, 3]),
    };
    let copy = original.clone_bot();
    assert_eq!(copy.id, Some(42));
    assert_eq!(copy.name, "n");
    assert_eq!(copy.code, "print");
    assert_eq!(copy.wasm_path, "k.wasm");
    assert_eq!(copy.wasm_bytes, Some(vec![1, 2, 3]));
}
