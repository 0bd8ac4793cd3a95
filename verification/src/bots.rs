//! Bots and the values that describe them.
//!
//! A bot is either a pre-compiled WASI module (`Wasi`) or a source program
//! run by a pre-loaded interpreter (`Python`). A bot's display name is
//! between 1 and 30 characters.

use vstd::prelude::*;

use crate::play::SPROption;

verus! {

/// How a bot is executed: as a raw WASI module, or as source text fed to the
/// interpreter component.
#[derive(Clone, Copy, PartialEq, Eq, Structural, Debug)]
pub enum BotRunType {
    Wasi,
    Python,
}

/// Everything the host knows about one bot. `wasm_bytes` is the lazily
/// loaded raw module for `Wasi` bots; `wasm_path` is the key under which
/// the blob store holds those bytes; `code` is the source text of `Python`
/// bots. `id` is the registry row, absent for ad-hoc test runs.
pub struct BotDetails {
    pub id: Option<i32>,
    pub run_type: BotRunType,
    pub name: String,
    pub code: String,
    pub wasm_path: String,
    pub wasm_bytes: Option<Vec<u8>>,
}

/// The mathematical image of a `BotDetails`: the same fields as sequences
/// and plain values.
pub ghost struct BotDetailsView {
    pub id: Option<i32>,
    pub run_type: BotRunType,
    pub name: Seq<char>,
    pub code: Seq<char>,
    pub wasm_path: Seq<char>,
    pub wasm_bytes: Option<Seq<u8>>,
}

impl View for BotDetails {
    type V = BotDetailsView;

    open spec fn view(&self) -> BotDetailsView {
        BotDetailsView {
            id: self.id,
            run_type: self.run_type,
            name: self.name@,
            code: self.code@,
            wasm_path: self.wasm_path@,
            wasm_bytes: match self.wasm_bytes {
                Some(b) => Some(b@),
                None => None,
            },
        }
    }
}

impl DeepView for BotDetails {
    type V = BotDetailsView;

    open spec fn deep_view(&self) -> BotDetailsView {
        self.view()
    }
}

/// Copies a byte vector element by element.
pub fn clone_bytes(v: &Vec<u8>) -> (r: Vec<u8>)
    ensures
        r@ == v@,
{
    let mut r: Vec<u8> = Vec::new();
    let n = v.len();
    for i in 0..n
        invariant
            n == v.len(),
            r@ == v@.subrange(0, i as int),
    {
        r.push(v[i]);
        assert(r@ =~= v@.subrange(0, i + 1 as int));
    }
    assert(r@ =~= v@);
    r
}

impl BotDetails {
    /// A deep copy: the copy has the same view as the original.
    pub fn clone_bot(&self) -> (r: BotDetails)
        ensures
            r@ == self@,
    {
        BotDetails {
            id: self.id,
            run_type: self.run_type,
            name: self.name.clone(),
            code: self.code.clone(),
            wasm_path: self.wasm_path.clone(),
            wasm_bytes: match &self.wasm_bytes {
                Some(b) => Some(clone_bytes(b)),
                None => None,
            },
        }
    }
}

/// The integer tag of a run type: 1 for `Wasi`, 2 for `Python`.
pub open spec fn spec_run_type_code(t: BotRunType) -> nat {
    match t {
        BotRunType::Wasi => 1,
        BotRunType::Python => 2,
    }
}

/// The integer tag under which a run type is persisted.
pub fn run_type_code(t: BotRunType) -> (c: i32)
    ensures
        c == spec_run_type_code(t),
{
    match t {
        BotRunType::Wasi => 1,
        BotRunType::Python => 2,
    }
}

/// Reads a persisted run-type tag back; every tag other than 1 is taken as
/// `Python`.
pub fn run_type_from_code(c: i32) -> (t: BotRunType)
    ensures
        t == (if c == 1 {
            BotRunType::Wasi
        } else {
            BotRunType::Python
        }),
{
    if c == 1 {
        BotRunType::Wasi
    } else {
        BotRunType::Python
    }
}

/// A display name is acceptable when it has between 1 and 30 characters.
pub fn validate_bot_name(name: &String) -> (ok: bool)
    ensures
        ok <==> 1 <= name@.len() <= 30,
{
    let n = name.as_str().unicode_len();
    1 <= n && n <= 30
}

/// The game-state snapshot a bot reads from stdin each round: its own name,
/// the opponent's name, the zero-based round index, and the bot's own prior
/// plays in this match.
pub struct BotRunInput {
    pub botname: String,
    pub opponent: String,
    pub round: u32,
    pub history: Vec<SPROption>,
}

/// One round of a match as seen from one bot's side.
pub struct BotMatchOutcome {
    pub round: u32,
    pub play: SPROption,
    pub opponent: String,
    pub opponent_play: SPROption,
}

} // verus!
