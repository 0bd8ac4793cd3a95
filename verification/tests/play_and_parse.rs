use wasi_runner::play::SPROption;
use wasi_runner::play::SPROption::Invalid;
use wasi_runner::play::SPROption::Paper;
use wasi_runner::play::SPROption::Rock;
use wasi_runner::play::SPROption::Scissors;
use wasi_runner::runner::admission_check;
use wasi_runner::runner::blob_key_for;
use wasi_runner::runner::classify_run;
use wasi_runner::runner::extract_result_from_stdout;
use wasi_runner::runner::last_line_of;
use wasi_runner::runner::load_failure_result;
use wasi_runner::runner::trim_newlines;
use wasi_runner::runner::WASM_MAX_FUEL;
use wasi_runner::runner::WASM_TIMEOUT_MS;
use wasi_runner::runner::STDOUT_STDERR_LIMIT;

#[test]
fn beats_covers_the_full_table() {
    assert!(Rock.beats(&Scissors));
    assert!(Scissors.beats(&Paper));
    assert!(Paper.beats(&Rock));
    assert!(!Scissors.beats(&Rock));
    assert!(!Paper.beats(&Scissors));
    assert!(!Rock.beats(&Paper));
    assert!(!Rock.beats(&Rock));
    assert!(!Paper.beats(&Paper));
    assert!(!Scissors.beats(&Scissors));
    assert!(Rock.beats(&Invalid));
    assert!(Paper.beats(&Invalid));
    assert!(Scissors.beats(&Invalid));
    assert!(!Invalid.beats(&Rock));
    assert!(!Invalid.beats(&Paper));
    assert!(!Invalid.beats(&Scissors));
    assert!(!Invalid.beats(&Invalid));
}

#[test]
fn exactly_one_side_beats_for_distinct_legal_plays() {
    for p in [Scissors, Paper, Rock] {
        for q in [Scissors, Paper, Rock] {
            if p != q {
                assert_ne!(p.beats(&q), q.beats(&p));
            }
        }
    }
}

#[test]
fn play_codes_follow_the_wire_numbering() {
    assert_eq!(SPROption::Scissors.code(), 0);
    assert_eq!(SPROption::Paper.code(), 1);
    assert_eq!(SPROption::Rock.code(), 2);
    assert_eq!(SPROption::Invalid.code(), 3);
}

#[test]
fn trim_newlines_strips_one_trailing_newline() {
    assert_eq!(trim_newlines("rock\n"), "rock");
    assert_eq!(trim_newlines("rock"), "rock");
    assert_eq!(trim_newlines("rock\n\n"), "rock\n");
    assert_eq!(trim_newlines(""), "");
}

#[test]
fn last_line_takes_the_suffix_after_the_last_newline() {
    assert_eq!(last_line_of("a\nb\nc"), "c");
    assert_eq!(last_line_of("abc"), "abc");
    assert_eq!(last_line_of("abc\n"), "");
    assert_eq!(last_line_of(""), "");
}

#[test]
fn extract_reads_the_last_line_case_insensitively() {
    assert_eq!(extract_result_from_stdout(&"rock".to_string()), SPROption::Rock);
    assert_eq!(extract_result_from_stdout(&"ROCK\n".to_string()), SPROption::Rock);
    assert_eq!(extract_result_from_stdout(&"debug\nPaper\n".to_string()), SPROption::Paper);
    assert_eq!(extract_result_from_stdout(&"scissors\n".to_string()), SPROption::Scissors);
    assert_eq!(extract_result_from_stdout(&"hello world".to_string()), SPROption::Invalid);
    assert_eq!(extract_result_from_stdout(&"".to_string()), SPROption::Invalid);
    assert_eq!(extract_result_from_stdout(&"rock\n\n".to_string()), SPROption::Invalid);
    assert_eq!(extract_result_from_stdout(&"rock paper".to_string()), SPROption::Invalid);
}

#[test]
fn resource_caps_hold_their_contract_values() {
    assert_eq!(WASM_MAX_FUEL, 1_000_000_000);
    assert_eq!(WASM_TIMEOUT_MS, 1000);
    assert_eq!(STDOUT_STDERR_LIMIT, 100 * 1024);
}

#[test]
fn classify_timeout_has_the_timeout_reason() {
    let r = classify_run("in".to_string(), "late".to_string(), "".to_string(), 1005, true, false, 5);
    assert_eq!(r.result, SPROption::Invalid);
    let reason = r.invalid_reason.unwrap();
    assert!(reason.starts_with("Timeout!"));
    assert_eq!(reason, "Timeout! Bots are limited to 1000ms");
    assert_eq!(r.stdout, "late");
    assert_eq!(r.duration_ms, 1005);
}

#[test]
fn classify_out_of_fuel_names_the_fuel_limit() {
    let r = classify_run("in".to_string(), "".to_string(), "".to_string(), 900, false, true, 0);
    assert_eq!(r.result, SPROption::Invalid);
    assert_eq!(
        r.invalid_reason.unwrap(),
        "Program ran out of fuel: It reached the limit of 1000000000 wasm instructions."
    );
}

#[test]
fn classify_crash_with_fuel_left_is_a_plain_failure() {
    let r = classify_run("in".to_string(), "".to_string(), "boom".to_string(), 12, false, true, 77);
    assert_eq!(r.result, SPROption::Invalid);
    assert_eq!(r.invalid_reason.unwrap(), "Program did not exit successfully.");
    assert_eq!(r.stderr, "boom");
}

#[test]
fn classify_clean_exit_reads_the_play() {
    let r = classify_run("in".to_string(), "rock\n".to_string(), "".to_string(), 3, false, false, 7);
    assert_eq!(r.result, SPROption::Rock);
    assert!(r.invalid_reason.is_none());
}

#[test]
fn classify_clean_exit_without_a_play_is_invalid() {
    let r = classify_run("in".to_string(), "hi\n".to_string(), "".to_string(), 3, false, false, 7);
    assert_eq!(r.result, SPROption::Invalid);
    assert_eq!(
        r.invalid_reason.unwrap(),
        "Program did not print a valid play on the last line."
    );
}

#[test]
fn load_failure_reports_the_module_error() {
    let r = load_failure_result("in".to_string());
    assert_eq!(r.result, SPROption::Invalid);
    assert_eq!(r.invalid_reason.unwrap(), "Error loading wasm module");
    assert_eq!(r.stdout, "");
    assert_eq!(r.stderr, "");
    assert_eq!(r.duration_ms, 0);
}

#[test]
fn admission_rejects_invalid_runs_with_their_reason() {
    let ok = classify_run("i".to_string(), "paper".to_string(), "".to_string(), 1, false, false, 1);
    assert!(admission_check(&ok).is_ok());
    let bad = classify_run("i".to_string(), "nope".to_string(), "".to_string(), 1, false, false, 1);
    assert_eq!(
        admission_check(&bad).unwrap_err(),
        "Program did not print a valid play on the last line."
    );
}

#[test]
fn blob_key_is_the_sha256_hex_with_wasm_suffix() {
    let bytes: Vec<u8> = vec![0, 159, 146, 150];
    let key = blob_key_for(&bytes);
    let expected = format!("{}.wasm", sha256::digest(bytes.as_slice()));
    assert_eq!(key, expected);
    assert_eq!(key.len(), 64 + 5);
    assert!(key.ends_with(".wasm"));
}
