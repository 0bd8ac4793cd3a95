//! What a single sandboxed run of a bot means.
//!
//! A run never fails for bot misbehaviour: a crash, a timeout, exhausted
//! fuel or malformed output all come back as a `BotRunResult` whose play is
//! `Invalid` with a human-readable reason. The play itself is read from the
//! last newline-delimited line of stdout, compared case-insensitively.

use vstd::prelude::*;
use vstd::string::StrSliceExecFns;
use vstd::string::StringExecFns;

use crate::play::SPROption;
use crate::wire::spec_input_json;
use crate::wire::generate_stdin_input;

verus! {

/// Instruction budget of one run.
pub const WASM_MAX_FUEL: u64 = 1_000_000_000;

/// Wall-clock budget of one run, in milliseconds.
pub const WASM_TIMEOUT_MS: u64 = 1000;

/// How much of stdout and of stderr is kept, in bytes; overflow is
/// discarded.
pub const STDOUT_STDERR_LIMIT: usize = 100 * 1024;

/// Store limit: instances per run.
pub const STORE_MAX_INSTANCES: usize = 8;

/// Store limit: linear memories per run.
pub const STORE_MAX_MEMORIES: usize = 4;

/// Store limit: total memory per run, in bytes.
pub const STORE_MAX_MEMORY_BYTES: usize = 100 * 1024 * 1024;

/// Store limit: tables per run.
pub const STORE_MAX_TABLES: usize = 4;

/// Store limit: total table elements per run.
pub const STORE_MAX_TABLE_ELEMENTS: usize = 20000;

/// A string with one trailing newline removed, if there is one.
pub open spec fn spec_trim_newline(s: Seq<char>) -> Seq<char> {
    if s.len() > 0 && s.last() == '\n' {
        s.drop_last()
    } else {
        s
    }
}

/// The last newline-delimited line of a string: everything after the last
/// `'\n'`, or the whole string if there is none.
pub open spec fn spec_last_line(s: Seq<char>) -> Seq<char>
    decreases s.len(),
{
    if s.len() == 0 {
        s
    } else if s.last() == '\n' {
        Seq::empty()
    } else {
        spec_last_line(s.drop_last()).push(s.last())
    }
}

/// Strips a single trailing newline.
pub fn trim_newlines<'a>(s: &'a str) -> (r: &'a str)
    ensures
        r@ == spec_trim_newline(s@),
{
    let n = s.unicode_len();
    if n > 0 && s.get_char(n - 1) == '\n' {
        let r = s.substring_char(0, n - 1);
        assert(r@ =~= s@.drop_last());
        r
    } else {
        s
    }
}

proof fn lemma_last_line_suffix(s: Seq<char>, j: int)
    requires
        0 <= j <= s.len(),
        forall|k: int| j <= k < s.len() ==> s[k] != '\n',
        j > 0 ==> s[j - 1] == '\n',
    ensures
        spec_last_line(s) == s.subrange(j, s.len() as int),
    decreases s.len(),
{
    if s.len() == j {
        assert(spec_last_line(s) =~= s.subrange(j, s.len() as int));
    } else {
        assert(s.last() != '\n');
        let t = s.drop_last();
        lemma_last_line_suffix(t, j);
        assert(spec_last_line(s) == spec_last_line(t).push(s.last()));
        assert(t.subrange(j, t.len() as int).push(s.last()) =~= s.subrange(j, s.len() as int));
    }
}

/// The last line of a string.
pub fn last_line_of<'a>(s: &'a str) -> (r: &'a str)
    ensures
        r@ == spec_last_line(s@),
{
    let n = s.unicode_len();
    let mut j = n;
    while j > 0 && s.get_char(j - 1) != '\n'
        invariant
            j <= n,
            n == s@.len(),
            forall|k: int| j <= k < s@.len() ==> s@[k] != '\n',
        decreases j,
    {
        j = j - 1;
    }
    proof {
        lemma_last_line_suffix(s@, j as int);
    }
    s.substring_char(j, n)
}

/// What `str::to_lowercase` returns: a function of the characters alone.
pub uninterp spec fn lower_of(s: Seq<char>) -> Seq<char>;

/// Relies on `str::to_lowercase`: the lowercase equivalent of the string,
/// which depends on the characters alone.
#[verifier::external_body]
fn lowercase(s: &str) -> (r: String)
    ensures
        r@ == lower_of(s@),
{
    s.to_lowercase()
}

/// The play a fully lowercased line names: exactly `scissors`, `paper` or
/// `rock`; anything else is `Invalid`.
pub open spec fn spec_play_of_line(line: Seq<char>) -> SPROption {
    if line == "scissors"@ {
        SPROption::Scissors
    } else if line == "paper"@ {
        SPROption::Paper
    } else if line == "rock"@ {
        SPROption::Rock
    } else {
        SPROption::Invalid
    }
}

/// Reads the play a lowercased line names.
pub fn play_from_line(line: &String) -> (p: SPROption)
    ensures
        p == spec_play_of_line(line@),
{
    if *line == String::from_str("scissors") {
        SPROption::Scissors
    } else if *line == String::from_str("paper") {
        SPROption::Paper
    } else if *line == String::from_str("rock") {
        SPROption::Rock
    } else {
        SPROption::Invalid
    }
}

/// The play named by a bot's whole stdout: one trailing newline stripped,
/// the last line taken and lowercased, then matched against the three
/// legal plays.
pub open spec fn spec_extract_play(stdout: Seq<char>) -> SPROption {
    spec_play_of_line(lower_of(spec_last_line(spec_trim_newline(stdout))))
}

/// Reads the play from a bot's stdout.
pub fn extract_result_from_stdout(stdout: &String) -> (p: SPROption)
    ensures
        p == spec_extract_play(stdout@),
{
    let trimmed = trim_newlines(stdout.as_str());
    let last = last_line_of(trimmed);
    let lowered = lowercase(last);
    play_from_line(&lowered)
}

/// The result of one sandboxed run: the stdin it was given, what it wrote,
/// how long it ran, the play read from its output, and — when the play is
/// `Invalid` — why.
pub struct BotRunResult {
    pub stdin: String,
    pub stdout: String,
    pub stderr: String,
    pub duration_ms: u64,
    pub result: SPROption,
    pub invalid_reason: Option<String>,
}

/// The reason given when the wall-clock deadline elapsed.
pub open spec fn spec_timeout_reason() -> Seq<char> {
    "Timeout! Bots are limited to 1000ms"@
}

/// The reason given when the guest trapped with its fuel exhausted.
pub open spec fn spec_fuel_reason() -> Seq<char> {
    "Program ran out of fuel: It reached the limit of 1000000000 wasm instructions."@
}

/// The reason given when the guest trapped or exited unsuccessfully with
/// fuel to spare.
pub open spec fn spec_crash_reason() -> Seq<char> {
    "Program did not exit successfully."@
}

/// The reason given when the guest exited normally without printing a legal
/// play on its last line.
pub open spec fn spec_bad_play_reason() -> Seq<char> {
    "Program did not print a valid play on the last line."@
}

/// The reason given when a native module could not be adapted or
/// instantiated.
pub open spec fn spec_load_error_reason() -> Seq<char> {
    "Error loading wasm module"@
}

/// Turns the raw facts of a finished invocation into a `BotRunResult`.
///
/// Classification order: an elapsed deadline wins; then a failed run with
/// zero fuel left is out-of-fuel; then any other failed run is a crash; a
/// normal exit has its play read from stdout, and a missing legal play is
/// `Invalid` with its own reason.
pub fn classify_run(
    stdin: String,
    stdout: String,
    stderr: String,
    duration_ms: u64,
    timed_out: bool,
    run_failed: bool,
    fuel_remaining: u64,
) -> (r: BotRunResult)
    ensures
        r.stdin == stdin,
        r.stdout == stdout,
        r.stderr == stderr,
        r.duration_ms == duration_ms,
        timed_out ==> r.result == SPROption::Invalid && (r.invalid_reason matches Some(m)
            && m@ == spec_timeout_reason()),
        !timed_out && run_failed && fuel_remaining == 0 ==> r.result == SPROption::Invalid && (
        r.invalid_reason matches Some(m) && m@ == spec_fuel_reason()),
        !timed_out && run_failed && fuel_remaining != 0 ==> r.result == SPROption::Invalid && (
        r.invalid_reason matches Some(m) && m@ == spec_crash_reason()),
        !timed_out && !run_failed ==> r.result == spec_extract_play(stdout@),
        !timed_out && !run_failed && r.result == SPROption::Invalid ==> (r.invalid_reason matches
            Some(m) && m@ == spec_bad_play_reason()),
        r.result != SPROption::Invalid ==> r.invalid_reason is None,
        r.result == SPROption::Invalid <==> r.invalid_reason is Some,
{
    if timed_out {
        BotRunResult {
            stdin,
            stdout,
            stderr,
            duration_ms,
            result: SPROption::Invalid,
            invalid_reason: Some(String::from_str("Timeout! Bots are limited to 1000ms")),
        }
    } else if run_failed {
        if fuel_remaining == 0 {
            BotRunResult {
                stdin,
                stdout,
                stderr,
                duration_ms,
                result: SPROption::Invalid,
                invalid_reason: Some(
                    String::from_str(
                        "Program ran out of fuel: It reached the limit of 1000000000 wasm instructions.",
                    ),
                ),
            }
        } else {
            BotRunResult {
                stdin,
                stdout,
                stderr,
                duration_ms,
                result: SPROption::Invalid,
                invalid_reason: Some(String::from_str("Program did not exit successfully.")),
            }
        }
    } else {
        let play = extract_result_from_stdout(&stdout);
        let invalid_reason = match play {
            SPROption::Invalid => Some(
                String::from_str("Program did not print a valid play on the last line."),
            ),
            _ => None,
        };
        BotRunResult { stdin, stdout, stderr, duration_ms, result: play, invalid_reason }
    }
}

/// The result reported when a native module cannot be loaded at all:
/// nothing ran, so the streams are empty and the duration is zero.
pub fn load_failure_result(stdin: String) -> (r: BotRunResult)
    ensures
        r.stdin == stdin,
        r.stdout@ == Seq::<char>::empty(),
        r.stderr@ == Seq::<char>::empty(),
        r.duration_ms == 0,
        r.result == SPROption::Invalid,
        r.invalid_reason matches Some(m) && m@ == spec_load_error_reason(),
{
    BotRunResult {
        stdin,
        stdout: String::new(),
        stderr: String::new(),
        duration_ms: 0,
        result: SPROption::Invalid,
        invalid_reason: Some(String::from_str("Error loading wasm module")),
    }
}

/// Whether a test run admits a bot: an `Invalid` play rejects it with the
/// run's reason, or a stock reason when the run carries none.
pub fn admission_check(r: &BotRunResult) -> (v: Result<(), String>)
    ensures
        r.result != SPROption::Invalid <==> v is Ok,
        v matches Err(m) ==> (match r.invalid_reason {
            Some(s) => m@ == s@,
            None => m@ == "Unknown reason"@,
        }),
{
    match r.result {
        SPROption::Invalid => match &r.invalid_reason {
            Some(s) => Err(s.clone()),
            None => Err(String::from_str("Unknown reason")),
        },
        _ => Ok(()),
    }
}

/// What `sha256::digest` returns on bytes: the lower-case hex encoding of
/// their SHA-256 digest, a function of the bytes alone.
pub uninterp spec fn sha256_hex(b: Seq<u8>) -> Seq<char>;

/// Relies on `sha256::digest`: the lower-case hex encoding of the SHA-256
/// digest of the bytes — 64 characters, depending on the bytes alone.
#[verifier::external_body]
fn sha256_digest(bytes: &Vec<u8>) -> (r: String)
    ensures
        r@ == sha256_hex(bytes@),
        r@.len() == 64,
{
    sha256::digest(bytes.as_slice())
}

/// The content-addressed key under which a module's bytes are stored.
pub open spec fn spec_blob_key(b: Seq<u8>) -> Seq<char> {
    sha256_hex(b) + ".wasm"@
}

/// The blob-store key for a module: its SHA-256 hex digest with a `.wasm`
/// suffix.
pub fn blob_key_for(bytes: &Vec<u8>) -> (r: String)
    ensures
        r@ == spec_blob_key(bytes@),
{
    let mut k = sha256_digest(bytes);
    k.append(".wasm");
    k
}

/// The canned stdin snapshot a bot is tested with on admission: opponent
/// `testbot`, round 2, history rock then scissors.
pub fn test_stdin_input(bot_name: &String) -> (r: String)
    ensures
        r@ == spec_input_json(
            bot_name@,
            "testbot"@,
            2,
            seq![SPROption::Rock, SPROption::Scissors],
        ),
{
    let mut history: Vec<SPROption> = Vec::new();
    history.push(SPROption::Rock);
    history.push(SPROption::Scissors);
    let opponent = String::from_str("testbot");
    assert(history@ =~= seq![SPROption::Rock, SPROption::Scissors]);
    generate_stdin_input(bot_name, &opponent, &history)
}

} // verus!
