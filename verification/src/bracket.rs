//! The single-elimination bracket.
//!
//! From an ordered list of bots, the builder pairs the front of the list
//! into first-round matches, hands the tail a bye each, and then folds each
//! round's matches pairwise into the next round until one final remains.
//! The resulting list is in round order: every match's successor stands
//! later in the list, and the final stands last.

use vstd::prelude::*;
use vstd::string::StringExecFns;

use rand::seq::SliceRandom;

use crate::bots::BotDetails;
use crate::bots::BotDetailsView;
use crate::game::MatchOutcome;
use crate::game::MatchState;
use crate::strutil::spec_dec;
use crate::strutil::u64_to_string;

verus! {

/// One bracket slot: who meets whom, in which round, and where the winner
/// goes. A bye match has one participant; a first-round match two; a later
/// match starts empty and accumulates the winners feeding it.
pub struct Match {
    pub id: String,
    pub tournament_round_text: String,
    pub next_match_id: Option<String>,
    pub participants: Vec<BotDetails>,
    pub state: MatchState,
}

/// The mathematical image of a `Match`.
pub ghost struct MatchView {
    pub id: Seq<char>,
    pub tournament_round_text: Seq<char>,
    pub next_match_id: Option<Seq<char>>,
    pub participants: Seq<BotDetailsView>,
    pub state: MatchState,
}

impl View for Match {
    type V = MatchView;

    open spec fn view(&self) -> MatchView {
        MatchView {
            id: self.id@,
            tournament_round_text: self.tournament_round_text@,
            next_match_id: self.next_match_id.deep_view(),
            participants: self.participants.deep_view(),
            state: self.state,
        }
    }
}

impl DeepView for Match {
    type V = MatchView;

    open spec fn deep_view(&self) -> MatchView {
        self.view()
    }
}

/// Copies a list of bots element by element.
pub fn clone_bots(v: &Vec<BotDetails>) -> (r: Vec<BotDetails>)
    ensures
        r.deep_view() == v.deep_view(),
{
    let mut r: Vec<BotDetails> = Vec::new();
    let n = v.len();
    for i in 0..n
        invariant
            n == v.len(),
            r@.len() == i,
            forall|k: int| 0 <= k < i ==> #[trigger] r@[k]@ == v@[k]@,
    {
        let b = v[i].clone_bot();
        r.push(b);
    }
    assert(r.deep_view() =~= v.deep_view());
    r
}

impl Match {
    /// Points this match at the one its winner feeds.
    pub fn set_next_match_id(&mut self, next_match_id: String)
        ensures
            final(self)@ == (MatchView { next_match_id: Some(next_match_id@), ..old(self)@ }),
    {
        self.next_match_id = Some(next_match_id);
    }

    /// A deep copy: the copy has the same view as the original.
    pub fn clone_match(&self) -> (r: Match)
        ensures
            r@ == self@,
    {
        let r = Match {
            id: self.id.clone(),
            tournament_round_text: self.tournament_round_text.clone(),
            next_match_id: match &self.next_match_id {
                Some(s) => Some(s.clone()),
                None => None,
            },
            participants: clone_bots(&self.participants),
            state: self.state,
        };
        assert(r@ == self@);
        r
    }
}

/// A whole tournament: its matches in round order, and the history of every
/// outcome emitted while it ran.
pub struct Tournament {
    pub starting_matches: Vec<Match>,
    pub match_updates: Vec<MatchOutcome>,
}

impl Tournament {
    /// An empty tournament: no matches, no history.
    pub fn new() -> (t: Tournament)
        ensures
            t.starting_matches@.len() == 0,
            t.match_updates@.len() == 0,
    {
        Tournament { starting_matches: vec![], match_updates: vec![] }
    }
}

/// The smallest power of two that seats `n` participants.
pub open spec fn spec_next_pow2(n: nat) -> nat
    decreases n,
{
    if n <= 1 {
        1
    } else {
        2 * spec_next_pow2(((n + 1) / 2) as nat)
    }
}

/// `spec_next_pow2` seats everyone and wastes less than half the seats.
pub proof fn lemma_next_pow2_bounds(n: nat)
    requires
        n >= 1,
    ensures
        n <= spec_next_pow2(n),
        n >= 2 ==> spec_next_pow2(n) <= 2 * n - 2,
        n == 1 ==> spec_next_pow2(n) == 1,
    decreases n,
{
    if n >= 2 {
        let c = ((n + 1) / 2) as nat;
        lemma_next_pow2_bounds(c);
    }
}

/// Bracket seats: the next power of two.
pub fn next_pow2(n: usize) -> (r: usize)
    requires
        1 <= n <= 0x4000_0000,
    ensures
        r == spec_next_pow2(n as nat),
        n <= r,
    decreases n,
{
    proof {
        lemma_next_pow2_bounds(n as nat);
    }
    if n <= 1 {
        1
    } else {
        2 * next_pow2((n + 1) / 2)
    }
}

/// Two to the `k`.
pub open spec fn spec_pow2(k: nat) -> nat
    decreases k,
{
    if k == 0 {
        1
    } else {
        2 * spec_pow2((k - 1) as nat)
    }
}

/// Whether `n` is a power of two.
pub open spec fn spec_is_pow2(n: nat) -> bool {
    exists|k: nat| n == spec_pow2(k)
}

proof fn lemma_pow2_positive(k: nat)
    ensures
        spec_pow2(k) >= 1,
    decreases k,
{
    if k > 0 {
        lemma_pow2_positive((k - 1) as nat);
    }
}

proof fn lemma_is_pow2_halves(n: nat)
    requires
        spec_is_pow2(n),
        n >= 2,
    ensures
        n % 2 == 0,
        spec_is_pow2((n / 2) as nat),
{
    let k = choose|k: nat| n == spec_pow2(k);
    if k == 0 {
        assert(n == 1);
    } else {
        lemma_pow2_positive((k - 1) as nat);
        assert(n == 2 * spec_pow2((k - 1) as nat));
        assert((n / 2) as nat == spec_pow2((k - 1) as nat));
    }
}

proof fn lemma_next_pow2_is_pow2(n: nat)
    requires
        n >= 1,
    ensures
        spec_is_pow2(spec_next_pow2(n)),
    decreases n,
{
    if n <= 1 {
        assert(spec_next_pow2(n) == spec_pow2(0));
    } else {
        let c = ((n + 1) / 2) as nat;
        lemma_next_pow2_is_pow2(c);
        let k = choose|k: nat| spec_next_pow2(c) == spec_pow2(k);
        assert(spec_next_pow2(n) == spec_pow2(k + 1));
    }
}

/// All the participants seated in a list of matches, in list order.
pub open spec fn spec_flat_participants(mv: Seq<MatchView>) -> Seq<BotDetailsView>
    decreases mv.len(),
{
    if mv.len() == 0 {
        Seq::empty()
    } else {
        spec_flat_participants(mv.drop_last()) + mv.last().participants
    }
}

/// How many matches in the list are in the given state.
pub open spec fn spec_count_state(mv: Seq<MatchView>, st: MatchState) -> nat
    decreases mv.len(),
{
    if mv.len() == 0 {
        0
    } else {
        spec_count_state(mv.drop_last(), st) + (if mv.last().state == st {
            1nat
        } else {
            0nat
        })
    }
}

/// A match as the bracket builder leaves it: a bye seating exactly one bot,
/// or a match not yet started.
pub open spec fn spec_match_shape(e: MatchView) -> bool {
    &&& (e.state == MatchState::Bye || e.state == MatchState::NotStarted)
    &&& (e.state == MatchState::Bye ==> e.participants.len() == 1)
}

/// In a list of matches that are each a bye or not yet started, the byes and
/// the rest together are the whole list.
pub proof fn lemma_count_two_states(mv: Seq<MatchView>)
    requires
        forall|i: int| 0 <= i < mv.len() ==> #[trigger] spec_match_shape(mv[i]),
    ensures
        spec_count_state(mv, MatchState::Bye) + spec_count_state(mv, MatchState::NotStarted)
            == mv.len(),
    decreases mv.len(),
{
    if mv.len() > 0 {
        assert(spec_match_shape(mv[mv.len() - 1]));
        lemma_count_two_states(mv.drop_last());
    }
}

/// The match at `i` names a successor, and a later match in the list
/// carries that id.
pub open spec fn spec_points_forward(mv: Seq<MatchView>, i: int) -> bool {
    &&& mv[i].next_match_id is Some
    &&& exists|j: int| i < j < mv.len() && mv[j].id == mv[i].next_match_id->0
}

/// The bracket shape: every match but the last points at a later match, and
/// the last match — the final — points nowhere.
pub open spec fn spec_bracket_wf(mv: Seq<MatchView>) -> bool {
    &&& forall|i: int| 0 <= i < mv.len() - 1 ==> #[trigger] spec_points_forward(mv, i)
    &&& mv.len() > 0 ==> mv[mv.len() - 1].next_match_id is None
}

/// A first-round match seating two bots, named `"{a}-{b}"`.
fn pair_match(a: &BotDetails, b: &BotDetails) -> (m: Match)
    ensures
        m@.id == a.name@ + "-"@ + b.name@,
        m@.tournament_round_text == "1"@,
        m@.next_match_id is None,
        m@.state == MatchState::NotStarted,
        m@.participants.len() == 2,
        m@.participants[0] == a@,
        m@.participants[1] == b@,
{
    let mut id = a.name.clone();
    id.append("-");
    id.append(b.name.as_str());
    let mut participants: Vec<BotDetails> = Vec::new();
    participants.push(a.clone_bot());
    participants.push(b.clone_bot());
    Match {
        id,
        tournament_round_text: String::from_str("1"),
        next_match_id: None,
        participants,
        state: MatchState::NotStarted,
    }
}

/// A first-round bye seating one bot, named `"{name}-bye"`.
fn bye_match(a: &BotDetails) -> (m: Match)
    ensures
        m@.id == a.name@ + "-bye"@,
        m@.tournament_round_text == "1"@,
        m@.next_match_id is None,
        m@.state == MatchState::Bye,
        m@.participants.len() == 1,
        m@.participants[0] == a@,
{
    let mut id = a.name.clone();
    id.append("-bye");
    let mut participants: Vec<BotDetails> = Vec::new();
    participants.push(a.clone_bot());
    Match {
        id,
        tournament_round_text: String::from_str("1"),
        next_match_id: None,
        participants,
        state: MatchState::Bye,
    }
}

/// How many byes a bracket of `n` bots hands out.
pub open spec fn spec_bye_count(n: nat) -> nat {
    (spec_next_pow2(n) - n) as nat
}

/// How many first-round pair matches a bracket of `n` bots plays.
pub open spec fn spec_pair_count(n: nat) -> nat {
    ((n - spec_bye_count(n)) / 2) as nat
}

/// Slot `i` of a bracket is the first-round match of bots `2i` and `2i + 1`.
pub open spec fn spec_pair_slot(e: MatchView, bv: Seq<BotDetailsView>, i: int) -> bool {
    &&& e.state == MatchState::NotStarted
    &&& e.tournament_round_text == "1"@
    &&& e.participants == seq![bv[2 * i], bv[2 * i + 1]]
    &&& e.id == bv[2 * i].name + "-"@ + bv[2 * i + 1].name
}

/// A bracket slot is the first-round bye of bot `b`.
pub open spec fn spec_bye_slot(e: MatchView, bv: Seq<BotDetailsView>, b: int) -> bool {
    &&& e.state == MatchState::Bye
    &&& e.tournament_round_text == "1"@
    &&& e.participants == seq![bv[b]]
    &&& e.id == bv[b].name + "-bye"@
}

/// How slot `g` of the growing bracket relates to the first round `r1`: a
/// first-round slot keeps its identity and seating; every later slot is a
/// downstream match that starts empty.
pub open spec fn spec_slot_shape(e: MatchView, g: int, r1: Seq<MatchView>) -> bool {
    if g < r1.len() {
        e.id == r1[g].id && e.state == r1[g].state && e.participants == r1[g].participants
            && e.tournament_round_text == r1[g].tournament_round_text
    } else {
        e.state == MatchState::NotStarted && e.participants.len() == 0
    }
}

/// Which folding level the slot at `g` belongs to, in a bracket whose first
/// round holds `m0` slots: the first round is level zero, and the parent of
/// the slots at `2i` and `2i + 1` of one level sits at slot `m0 + i` of the
/// next — globally, the parent of slot `g` is slot `m0 + g / 2`.
pub open spec fn spec_level(g: int, m0: int) -> nat
    decreases g,
{
    if g < m0 {
        0
    } else if 2 * (g - m0) < g {
        spec_level(2 * (g - m0), m0) + 1
    } else {
        0
    }
}

/// A child moved into its round: the same match, now pointing at its parent.
pub open spec fn spec_moved_child(e: MatchView, src: MatchView, parent_id: Seq<char>) -> bool {
    &&& e.id == src.id
    &&& e.state == src.state
    &&& e.participants == src.participants
    &&& e.tournament_round_text == src.tournament_round_text
    &&& e.next_match_id == Some(parent_id)
}

/// A newly created downstream match: not started, unseated, pointing nowhere
/// yet.
pub open spec fn spec_fresh_parent(e: MatchView) -> bool {
    &&& e.state == MatchState::NotStarted
    &&& e.participants.len() == 0
    &&& e.next_match_id is None
}

proof fn lemma_fresh_round_empty(mv: Seq<MatchView>)
    requires
        forall|u: int| 0 <= u < mv.len() ==> #[trigger] spec_fresh_parent(mv[u]),
    ensures
        spec_flat_participants(mv) == Seq::<BotDetailsView>::empty(),
        spec_count_state(mv, MatchState::Bye) == 0,
    decreases mv.len(),
{
    if mv.len() > 0 {
        assert(spec_fresh_parent(mv[mv.len() - 1]));
        lemma_fresh_round_empty(mv.drop_last());
        assert(mv.last().participants =~= Seq::<BotDetailsView>::empty());
        assert(spec_flat_participants(mv) =~= Seq::<BotDetailsView>::empty());
    }
}

/// Slot `g` points at its parent: the slot at `m0 + g / 2`.
pub open spec fn spec_slot_points_home(mv: Seq<MatchView>, m0: int, g: int) -> bool {
    mv[g].next_match_id == Some(mv[m0 + g / 2].id)
}

/// Slot `g` is named `"{child1_id}-{child2_id}"` after the two slots that
/// feed it, the slots at `2 * (g - m0)` and `2 * (g - m0) + 1`.
pub open spec fn spec_slot_named_after_feeders(mv: Seq<MatchView>, m0: int, g: int) -> bool {
    mv[g].id == mv[2 * (g - m0)].id + "-"@ + mv[2 * (g - m0) + 1].id
}

/// Slot `g` is labelled with its level, counted from one.
pub open spec fn spec_slot_level_label(mv: Seq<MatchView>, m0: int, g: int) -> bool {
    mv[g].tournament_round_text == spec_dec(spec_level(g, m0) + 1)
}

/// How the folded rounds stand in the list: every slot but the last points
/// at the slot `m0 + g / 2` — its parent, so the slots at `2i` and `2i + 1`
/// of each level feed the `i`-th match of the next; every slot from `m0` on
/// is named after the two slots feeding it; and every slot is labelled with
/// its level counted from one.
#[verifier::opaque]
pub open spec fn spec_fold_shape(mv: Seq<MatchView>, m0: int) -> bool {
    &&& forall|g: int| 0 <= g < mv.len() - 1 ==> #[trigger] spec_slot_points_home(mv, m0, g)
    &&& forall|g: int| m0 <= g < mv.len() ==> #[trigger] spec_slot_named_after_feeders(mv, m0, g)
    &&& forall|g: int| 0 <= g < mv.len() ==> #[trigger] spec_slot_level_label(mv, m0, g)
}

/// The builder's running fold invariant: `av` holds the placed slots, `lv`
/// the round now being folded (starting at slot `av.len()`), `m0` the first
/// round's width, and `round` the next round label to hand out. Every placed
/// slot points at its parent slot; every downstream slot present is named
/// after its two feeders; every slot carries its level's label; and `lv`
/// sits at level `round - 2`.
#[verifier::opaque]
pub open spec fn spec_fold_inv(
    av: Seq<MatchView>,
    lv: Seq<MatchView>,
    m0: int,
    round: int,
) -> bool {
    &&& forall|g: int| 0 <= g < av.len() ==> #[trigger] spec_slot_points_home(av + lv, m0, g)
    &&& forall|g: int|
        m0 <= g < av.len() + lv.len() ==> #[trigger] spec_slot_named_after_feeders(av + lv, m0, g)
    &&& forall|g: int|
        0 <= g < av.len() + lv.len() ==> #[trigger] spec_slot_level_label(av + lv, m0, g)
    &&& forall|g: int|
        av.len() <= g < av.len() + lv.len() ==> #[trigger] spec_level(g, m0) == round - 2
}

/// The first round's label is the decimal one.
proof fn lemma_round_one_label()
    ensures
        "1"@ == spec_dec(1),
{
    reveal_strlit("1");
    assert("1"@ =~= seq!['1']);
    assert(spec_dec(1) =~= seq!['1']);
}

/// After one fold round, the id and the label at every already-present
/// position are unchanged: the prefix was not touched, and the moved slots
/// changed only their successor pointer.
#[verifier::spinoff_prover]
proof fn lemma_fold_preserved(
    av0: Seq<MatchView>,
    lv: Seq<MatchView>,
    av1: Seq<MatchView>,
    nv: Seq<MatchView>,
)
    requires
        av1.len() == av0.len() + lv.len(),
        forall|i: int| 0 <= i < av0.len() ==> (#[trigger] av1[i]) == av0[i],
        forall|t: int|
            0 <= t < lv.len() ==> #[trigger] spec_moved_child(
                av1[av0.len() + t],
                lv[t],
                nv[t / 2].id,
            ),
    ensures
        forall|q: int|
            0 <= q < av0.len() + lv.len() ==> (#[trigger] ((av1 + nv)[q]).id) == ((av0 + lv)[q]).id
                && ((av1 + nv)[q]).tournament_round_text == ((av0 + lv)[q]).tournament_round_text,
{
    let c_old = av0 + lv;
    let c_new = av1 + nv;
    assert forall|q: int| 0 <= q < c_old.len() implies (#[trigger] (c_new[q]).id) == (c_old[q]).id
        && (c_new[q]).tournament_round_text == (c_old[q]).tournament_round_text by {
        if q < av0.len() {
            assert(av1[q] == av0[q]);
        } else {
            let t2 = q - av0.len();
            assert(spec_moved_child(av1[av0.len() + t2], lv[t2], nv[t2 / 2].id));
        }
    }
}

/// After one fold round, every placed slot points at its parent slot.
#[verifier::spinoff_prover]
proof fn lemma_fold_next(
    av0: Seq<MatchView>,
    lv: Seq<MatchView>,
    av1: Seq<MatchView>,
    nv: Seq<MatchView>,
    m0: int,
)
    requires
        m0 >= 1,
        lv.len() >= 2,
        av0.len() == 2 * (m0 - lv.len()),
        2 * nv.len() == lv.len(),
        av1.len() == av0.len() + lv.len(),
        forall|i: int| 0 <= i < av0.len() ==> (#[trigger] av1[i]) == av0[i],
        forall|t: int|
            0 <= t < lv.len() ==> #[trigger] spec_moved_child(
                av1[av0.len() + t],
                lv[t],
                nv[t / 2].id,
            ),
        forall|g: int| 0 <= g < av0.len() ==> #[trigger] spec_slot_points_home(av0 + lv, m0, g),
    ensures
        forall|g: int| 0 <= g < av1.len() ==> #[trigger] spec_slot_points_home(av1 + nv, m0, g),
{
    lemma_fold_preserved(av0, lv, av1, nv);
    let c_old = av0 + lv;
    let c_new = av1 + nv;
    assert forall|g: int| 0 <= g < av1.len() implies #[trigger] spec_slot_points_home(
        c_new,
        m0,
        g,
    ) by {
        let h = g / 2;
        assert(g == 2 * h || g == 2 * h + 1);
        if g < av0.len() {
            assert(spec_slot_points_home(c_old, m0, g));
            assert(c_old[g].next_match_id == Some(c_old[m0 + h].id));
            assert(0 <= m0 + h < c_old.len());
            assert(c_new[m0 + h].id == c_old[m0 + h].id);
            assert(c_new[g] == av1[g] && av1[g] == av0[g] && c_old[g] == av0[g]);
        } else {
            let t2 = g - av0.len();
            assert(spec_moved_child(av1[av0.len() + t2], lv[t2], nv[t2 / 2].id));
            let q = t2 / 2;
            assert(t2 == 2 * q || t2 == 2 * q + 1);
            assert(m0 + h == av1.len() + q);
            assert(c_new[av1.len() + q] == nv[q]);
            assert(c_new[g] == av1[g]);
        }
    }
}

/// After one fold round, every downstream slot is named after the two slots
/// feeding it.
#[verifier::spinoff_prover]
proof fn lemma_fold_parent_ids(
    av0: Seq<MatchView>,
    lv: Seq<MatchView>,
    av1: Seq<MatchView>,
    nv: Seq<MatchView>,
    m0: int,
)
    requires
        m0 >= 1,
        lv.len() >= 2,
        av0.len() == 2 * (m0 - lv.len()),
        2 * nv.len() == lv.len(),
        av1.len() == av0.len() + lv.len(),
        forall|i: int| 0 <= i < av0.len() ==> (#[trigger] av1[i]) == av0[i],
        forall|t: int|
            0 <= t < lv.len() ==> #[trigger] spec_moved_child(
                av1[av0.len() + t],
                lv[t],
                nv[t / 2].id,
            ),
        forall|u: int|
            0 <= u < nv.len() ==> (#[trigger] nv[u]).id == lv[2 * u].id + "-"@ + lv[2 * u + 1].id,
        forall|g: int|
            m0 <= g < av0.len() + lv.len() ==> #[trigger] spec_slot_named_after_feeders(
                av0 + lv,
                m0,
                g,
            ),
    ensures
        forall|g: int|
            m0 <= g < av1.len() + nv.len() ==> #[trigger] spec_slot_named_after_feeders(
                av1 + nv,
                m0,
                g,
            ),
{
    lemma_fold_preserved(av0, lv, av1, nv);
    let c_old = av0 + lv;
    let c_new = av1 + nv;
    assert forall|g: int| m0 <= g < c_new.len() implies #[trigger] spec_slot_named_after_feeders(
        c_new,
        m0,
        g,
    ) by {
        if g < c_old.len() {
            assert(spec_slot_named_after_feeders(c_old, m0, g));
            assert(c_old[g].id == c_old[2 * (g - m0)].id + "-"@ + c_old[2 * (g - m0) + 1].id);
            assert(0 <= 2 * (g - m0) + 1 < c_old.len());
            assert(c_new[g].id == c_old[g].id);
            assert(c_new[2 * (g - m0)].id == c_old[2 * (g - m0)].id);
            assert(c_new[2 * (g - m0) + 1].id == c_old[2 * (g - m0) + 1].id);
        } else {
            let u = g - av1.len();
            assert(c_new[g] == nv[u]);
            assert(nv[u].id == lv[2 * u].id + "-"@ + lv[2 * u + 1].id);
            assert(2 * (g - m0) == av0.len() + 2 * u);
            assert(c_new[av0.len() + 2 * u] == av1[av0.len() + 2 * u]);
            assert(c_new[av0.len() + 2 * u + 1] == av1[av0.len() + 2 * u + 1]);
            assert(spec_moved_child(av1[av0.len() + 2 * u], lv[2 * u], nv[(2 * u) / 2].id));
            assert(spec_moved_child(av1[av0.len() + (2 * u + 1)], lv[2 * u + 1], nv[(2 * u + 1)
                / 2].id));
        }
    }
}

/// After one fold round, every slot still carries its level's label, and the
/// new round's slots sit one level deeper than the round they fold.
#[verifier::spinoff_prover]
proof fn lemma_fold_levels(
    av0: Seq<MatchView>,
    lv: Seq<MatchView>,
    av1: Seq<MatchView>,
    nv: Seq<MatchView>,
    m0: int,
    round: int,
)
    requires
        m0 >= 1,
        lv.len() >= 2,
        round >= 2,
        av0.len() == 2 * (m0 - lv.len()),
        2 * nv.len() == lv.len(),
        av1.len() == av0.len() + lv.len(),
        forall|i: int| 0 <= i < av0.len() ==> (#[trigger] av1[i]) == av0[i],
        forall|t: int|
            0 <= t < lv.len() ==> #[trigger] spec_moved_child(
                av1[av0.len() + t],
                lv[t],
                nv[t / 2].id,
            ),
        forall|u: int|
            0 <= u < nv.len() ==> (#[trigger] nv[u]).tournament_round_text == spec_dec(
                round as nat,
            ),
        forall|g: int|
            0 <= g < av0.len() + lv.len() ==> #[trigger] spec_slot_level_label(av0 + lv, m0, g),
        forall|g: int|
            av0.len() <= g < av0.len() + lv.len() ==> #[trigger] spec_level(g, m0) == round - 2,
    ensures
        forall|g: int|
            0 <= g < av1.len() + nv.len() ==> #[trigger] spec_slot_level_label(av1 + nv, m0, g),
        forall|g: int|
            av1.len() <= g < av1.len() + nv.len() ==> #[trigger] spec_level(g, m0) == round - 1,
{
    lemma_fold_preserved(av0, lv, av1, nv);
    let c_old = av0 + lv;
    let c_new = av1 + nv;
    assert forall|g: int| av1.len() <= g < c_new.len() implies #[trigger] spec_level(g, m0)
        == round - 1 by {
        let u = g - av1.len();
        assert(g >= m0);
        assert(2 * (g - m0) < g);
        assert(2 * (g - m0) == av0.len() + 2 * u);
        assert(spec_level(av0.len() + 2 * u, m0) == round - 2);
        assert(spec_level(g, m0) == spec_level(2 * (g - m0), m0) + 1);
    }
    assert forall|g: int| 0 <= g < c_new.len() implies #[trigger] spec_slot_level_label(
        c_new,
        m0,
        g,
    ) by {
        if g < c_old.len() {
            assert(spec_slot_level_label(c_old, m0, g));
            assert(c_new[g].id == c_old[g].id);
            assert(c_new[g].tournament_round_text == c_old[g].tournament_round_text);
        } else {
            let u = g - av1.len();
            assert(c_new[g] == nv[u]);
            assert(nv[u].tournament_round_text == spec_dec(round as nat));
            assert(spec_level(g, m0) == round - 1);
        }
    }
}

/// The freshly built first round is level zero throughout, and every slot
/// carries level zero's label.
#[verifier::spinoff_prover]
proof fn lemma_fold_entry(r1: Seq<MatchView>, bv: Seq<BotDetailsView>, pair_count: int, byes: int)
    requires
        pair_count >= 0,
        byes >= 0,
        r1.len() == pair_count + byes,
        forall|i: int| 0 <= i < pair_count ==> #[trigger] spec_pair_slot(r1[i], bv, i),
        forall|b: int|
            0 <= b < byes ==> #[trigger] spec_bye_slot(r1[pair_count + b], bv, 2 * pair_count + b),
    ensures
        forall|g: int| 0 <= g < r1.len() ==> #[trigger] spec_slot_level_label(r1, r1.len() as int, g),
        forall|g: int| 0 <= g < r1.len() ==> #[trigger] spec_level(g, r1.len() as int) == 0,
{
    lemma_round_one_label();
    assert forall|g: int| 0 <= g < r1.len() implies #[trigger] spec_slot_level_label(
        r1,
        r1.len() as int,
        g,
    ) by {
        if g < pair_count {
            assert(spec_pair_slot(r1[g], bv, g));
        } else {
            let b = g - pair_count;
            assert(r1[pair_count + b] == r1[g]);
            assert(spec_bye_slot(r1[pair_count + b], bv, 2 * pair_count + b));
        }
        assert(spec_level(g, r1.len() as int) == 0);
    }
}

/// The fresh first round establishes the fold invariant: nothing placed,
/// the first round at level zero, round two next.
#[verifier::spinoff_prover]
proof fn lemma_fold_inv_entry(
    r1: Seq<MatchView>,
    bv: Seq<BotDetailsView>,
    pair_count: int,
    byes: int,
)
    requires
        pair_count >= 0,
        byes >= 0,
        r1.len() == pair_count + byes,
        forall|i: int| 0 <= i < pair_count ==> #[trigger] spec_pair_slot(r1[i], bv, i),
        forall|b: int|
            0 <= b < byes ==> #[trigger] spec_bye_slot(r1[pair_count + b], bv, 2 * pair_count + b),
    ensures
        spec_fold_inv(Seq::<MatchView>::empty(), r1, r1.len() as int, 2),
{
    reveal(spec_fold_inv);
    lemma_fold_entry(r1, bv, pair_count, byes);
    let av = Seq::<MatchView>::empty();
    assert(av + r1 =~= r1);
    assert forall|g: int| 0 <= g < av.len() + r1.len() implies #[trigger] spec_slot_level_label(
        av + r1,
        r1.len() as int,
        g,
    ) by {
        assert(spec_slot_level_label(r1, r1.len() as int, g));
    }
}

/// One fold round carries the invariant: the folded slots move into place
/// pointing at the freshly built parents, which form the next round.
#[verifier::spinoff_prover]
proof fn lemma_fold_inv_step(
    av0: Seq<MatchView>,
    lv: Seq<MatchView>,
    av1: Seq<MatchView>,
    nv: Seq<MatchView>,
    m0: int,
    round: int,
)
    requires
        m0 >= 1,
        lv.len() >= 2,
        round >= 2,
        av0.len() == 2 * (m0 - lv.len()),
        2 * nv.len() == lv.len(),
        av1.len() == av0.len() + lv.len(),
        spec_fold_inv(av0, lv, m0, round),
        forall|i: int| 0 <= i < av0.len() ==> (#[trigger] av1[i]) == av0[i],
        forall|t: int|
            0 <= t < lv.len() ==> #[trigger] spec_moved_child(
                av1[av0.len() + t],
                lv[t],
                nv[t / 2].id,
            ),
        forall|u: int| 0 <= u < nv.len() ==> #[trigger] spec_fresh_parent(nv[u]),
        forall|u: int|
            0 <= u < nv.len() ==> (#[trigger] nv[u]).id == lv[2 * u].id + "-"@ + lv[2 * u + 1].id
                && nv[u].tournament_round_text == spec_dec(round as nat),
    ensures
        spec_fold_inv(av1, nv, m0, round + 1),
{
    reveal(spec_fold_inv);
    lemma_fold_next(av0, lv, av1, nv, m0);
    lemma_fold_parent_ids(av0, lv, av1, nv, m0);
    lemma_fold_levels(av0, lv, av1, nv, m0, round);
}

/// When one slot is left, appending it closes the build: the whole list has
/// the fold shape, so in particular every slot but the last points at a
/// strictly later one.
#[verifier::spinoff_prover]
proof fn lemma_fold_inv_finish(
    before: Seq<MatchView>,
    lv_final: Seq<MatchView>,
    av: Seq<MatchView>,
    m0: int,
    round: int,
)
    requires
        m0 >= 1,
        lv_final.len() == 1,
        before.len() == 2 * m0 - 2,
        av == before + lv_final,
        spec_fold_inv(before, lv_final, m0, round),
    ensures
        spec_fold_shape(av, m0),
        forall|i: int| 0 <= i < av.len() - 1 ==> #[trigger] spec_points_forward(av, i),
{
    reveal(spec_fold_inv);
    reveal(spec_fold_shape);
    assert forall|g: int| 0 <= g < av.len() - 1 implies #[trigger] spec_slot_points_home(
        av,
        m0,
        g,
    ) by {
        assert(spec_slot_points_home(before + lv_final, m0, g));
    }
    assert forall|g: int| m0 <= g < av.len() implies #[trigger] spec_slot_named_after_feeders(
        av,
        m0,
        g,
    ) by {
        assert(spec_slot_named_after_feeders(before + lv_final, m0, g));
    }
    assert forall|g: int| 0 <= g < av.len() implies #[trigger] spec_slot_level_label(
        av,
        m0,
        g,
    ) by {
        assert(spec_slot_level_label(before + lv_final, m0, g));
    }
    assert forall|i: int| 0 <= i < av.len() - 1 implies #[trigger] spec_points_forward(av, i) by {
        assert(spec_slot_points_home(av, m0, i));
        assert(av[i].next_match_id == Some(av[m0 + i / 2].id));
        let h = i / 2;
        assert(i == 2 * h || i == 2 * h + 1);
        assert(i < m0 + h < av.len());
    }
}

/// Builds the bracket for the given bot order.
///
/// With `n` bots and `p` the next power of two, the last `p - n` bots get a
/// bye and the rest pair off in order; rounds then fold pairwise into one
/// final. The result lists `p - 1` matches in round order — `n - 1` real
/// ones and `p - n` byes — every one of them pointing at a later match,
/// except the final, which stands last and points nowhere, and together they
/// seat exactly the given bots.
#[verifier::spinoff_prover]
#[verifier::rlimit(100)]
pub fn create_bracket(bots: &Vec<BotDetails>) -> (t: Tournament)
    requires
        1 <= bots@.len() <= 0x4000_0000,
    ensures
        t.match_updates@.len() == 0,
        t.starting_matches.deep_view().len() == spec_next_pow2(bots@.len() as nat) - 1,
        spec_count_state(t.starting_matches.deep_view(), MatchState::Bye) == spec_next_pow2(
            bots@.len() as nat,
        ) - bots@.len(),
        spec_count_state(t.starting_matches.deep_view(), MatchState::NotStarted) == bots@.len()
            - 1,
        spec_bracket_wf(t.starting_matches.deep_view()),
        bots@.len() >= 2 ==> spec_flat_participants(t.starting_matches.deep_view())
            == bots.deep_view(),
        forall|i: int|
            0 <= i < t.starting_matches.deep_view().len() ==> #[trigger] spec_match_shape(
                t.starting_matches.deep_view()[i],
            ),
        forall|i: int|
            0 <= i < spec_pair_count(bots@.len() as nat) ==> #[trigger] spec_pair_slot(
                t.starting_matches.deep_view()[i],
                bots.deep_view(),
                i,
            ),
        forall|j: int|
            0 <= j < spec_bye_count(bots@.len() as nat) ==> #[trigger] spec_bye_slot(
                t.starting_matches.deep_view()[spec_pair_count(bots@.len() as nat) + j],
                bots.deep_view(),
                2 * spec_pair_count(bots@.len() as nat) + j,
            ),
        forall|g: int|
            spec_pair_count(bots@.len() as nat) + spec_bye_count(bots@.len() as nat) <= g
                < t.starting_matches.deep_view().len() ==> (#[trigger] t.starting_matches.deep_view()[g]).state
                == MatchState::NotStarted && t.starting_matches.deep_view()[g].participants.len()
                == 0,
        spec_fold_shape(
            t.starting_matches.deep_view(),
            spec_pair_count(bots@.len() as nat) + spec_bye_count(bots@.len() as nat) as int,
        ),
{
    let n = bots.len();
    let p = next_pow2(n);
    proof {
        lemma_next_pow2_bounds(n as nat);
        lemma_next_pow2_is_pow2(n as nat);
    }
    if n == 1 {
        let t = Tournament::new();
        assert(t.starting_matches.deep_view() =~= Seq::<MatchView>::empty());
        proof {
            reveal(spec_fold_shape);
            assert(spec_fold_shape(t.starting_matches.deep_view(), 0));
        }
        return t;
    }
    proof {
        lemma_is_pow2_halves(p as nat);
    }
    let byes = p - n;
    let pair_count = (n - byes) / 2;
    proof {
        assert(p % 2 == 0);
        assert((n - byes) % 2 == 0);
        assert(2 * pair_count == n - byes);
    }

    // Round one: the front of the list pairs off, the tail gets byes.
    let mut matches: Vec<Match> = Vec::new();
    proof {
        assert(matches.deep_view() =~= Seq::<MatchView>::empty());
        assert(bots.deep_view().subrange(0, 0) =~= Seq::<BotDetailsView>::empty());
    }
    let mut s: usize = 0;
    while s < pair_count
        invariant
            2 * pair_count + byes == n,
            n == bots@.len(),
            s <= pair_count,
            matches.deep_view().len() == s,
            spec_count_state(matches.deep_view(), MatchState::Bye) == 0,
            spec_flat_participants(matches.deep_view()) == bots.deep_view().subrange(
                0,
                2 * s as int,
            ),
            forall|i: int|
                0 <= i < s ==> #[trigger] spec_match_shape(matches.deep_view()[i]),
            forall|i: int|
                0 <= i < s ==> (#[trigger] matches.deep_view()[i]).next_match_id is None,
            forall|i: int|
                0 <= i < s ==> #[trigger] spec_pair_slot(
                    matches.deep_view()[i],
                    bots.deep_view(),
                    i,
                ),
        decreases pair_count - s,
    {
        let ghost before = matches.deep_view();
        let m = pair_match(&bots[2 * s], &bots[2 * s + 1]);
        matches.push(m);
        proof {
            let after = matches.deep_view();
            assert(forall|i: int| 0 <= i < before.len() ==> (#[trigger] after[i]) == before[i]);
            assert(after[s as int] == m@);
            assert(after.drop_last() =~= before);
            assert(after.last() == m@);
            assert(m@.participants =~= seq![bots.deep_view()[2 * s as int], bots.deep_view()[2 * s
                + 1]]);
            assert(spec_flat_participants(after) =~= bots.deep_view().subrange(0, 2 * (s + 1)));
            assert forall|i: int| 0 <= i <= s implies #[trigger] spec_match_shape(after[i])
                && after[i].next_match_id is None by {
                if i < s {
                    assert(spec_match_shape(before[i]));
                    assert(before[i].next_match_id is None);
                    assert(after[i] == before[i]);
                } else {
                    assert(after[i] == m@);
                }
            }
            assert forall|i: int| 0 <= i <= s implies #[trigger] spec_pair_slot(
                after[i],
                bots.deep_view(),
                i,
            ) by {
                if i < s {
                    assert(spec_pair_slot(before[i], bots.deep_view(), i));
                    assert(after[i] == before[i]);
                } else {
                    assert(after[i] == m@);
                }
            }
        }
        s = s + 1;
    }
    let mut j: usize = 0;
    while j < byes
        invariant
            2 * pair_count + byes == n,
            n == bots@.len(),
            j <= byes,
            matches.deep_view().len() == pair_count + j,
            spec_count_state(matches.deep_view(), MatchState::Bye) == j,
            spec_flat_participants(matches.deep_view()) == bots.deep_view().subrange(
                0,
                2 * pair_count + j as int,
            ),
            forall|i: int|
                0 <= i < matches.deep_view().len() ==> #[trigger] spec_match_shape(
                    matches.deep_view()[i],
                ),
            forall|i: int|
                0 <= i < matches.deep_view().len() ==> (#[trigger] matches.deep_view()[i]).next_match_id is None,
            forall|i: int|
                0 <= i < pair_count ==> #[trigger] spec_pair_slot(
                    matches.deep_view()[i],
                    bots.deep_view(),
                    i,
                ),
            forall|b: int|
                0 <= b < j ==> #[trigger] spec_bye_slot(
                    matches.deep_view()[pair_count + b],
                    bots.deep_view(),
                    2 * pair_count + b,
                ),
        decreases byes - j,
    {
        let ghost before = matches.deep_view();
        let m = bye_match(&bots[2 * pair_count + j]);
        matches.push(m);
        proof {
            let after = matches.deep_view();
            assert(forall|i: int| 0 <= i < before.len() ==> (#[trigger] after[i]) == before[i]);
            assert(after[(pair_count + j) as int] == m@);
            assert(after.drop_last() =~= before);
            assert(after.last() == m@);
            assert(m@.participants =~= seq![bots.deep_view()[2 * pair_count + j as int]]);
            assert(spec_flat_participants(after) =~= bots.deep_view().subrange(
                0,
                2 * pair_count + (j + 1),
            ));
            assert forall|i: int| 0 <= i < after.len() implies #[trigger] spec_match_shape(
                after[i],
            ) && after[i].next_match_id is None by {
                if i < before.len() {
                    assert(spec_match_shape(before[i]));
                    assert(before[i].next_match_id is None);
                    assert(after[i] == before[i]);
                } else {
                    assert(after[i] == m@);
                }
            }
            assert forall|i: int| 0 <= i < pair_count implies #[trigger] spec_pair_slot(
                after[i],
                bots.deep_view(),
                i,
            ) by {
                assert(spec_pair_slot(before[i], bots.deep_view(), i));
                assert(after[i] == before[i]);
            }
            assert forall|b: int| 0 <= b <= j implies #[trigger] spec_bye_slot(
                after[pair_count + b],
                bots.deep_view(),
                2 * pair_count + b,
            ) by {
                if b < j {
                    assert(spec_bye_slot(before[pair_count + b], bots.deep_view(), 2 * pair_count
                        + b));
                    assert(after[pair_count + b] == before[pair_count + b]);
                } else {
                    assert(after[pair_count + b] == m@);
                }
            }
        }
        j = j + 1;
    }
    proof {
        assert(bots.deep_view().subrange(0, 2 * pair_count + byes as int) =~= bots.deep_view());
        assert(2 * (pair_count + byes) == p);
        lemma_is_pow2_halves(p as nat);
        assert(pair_count + byes == p / 2);
    }

    // Fold each round pairwise into the next until one final remains.
    let mut all: Vec<Match> = Vec::new();
    let mut last = matches;
    let mut round: u64 = 2;
    let ghost r1 = last.deep_view();
    proof {
        assert(all.deep_view() =~= Seq::<MatchView>::empty());
        let dv = last.deep_view();
        assert forall|i: int| 0 <= i < dv.len() implies (#[trigger] dv[i]).next_match_id
            is None by {
            assert(spec_match_shape(dv[i]) && dv[i].next_match_id is None);
        }
        assert forall|t: int| 0 <= t < dv.len() implies #[trigger] spec_slot_shape(
            dv[t],
            all.deep_view().len() + t,
            r1,
        ) by {
            assert(dv[t] == r1[t]);
        }
        // The fresh first round: level zero everywhere, labelled "1".
        lemma_fold_inv_entry(r1, bots.deep_view(), pair_count as int, byes as int);
        assert(spec_fold_inv(all.deep_view(), last.deep_view(), r1.len() as int, 2));
    }
    while last.len() >= 2
        invariant
            p >= 2,
            p <= 0x8000_0000,
            byes < p,
            spec_is_pow2(last.deep_view().len() as nat),
            all.deep_view().len() + 2 * last.deep_view().len() == p,
            round + last.deep_view().len() <= p + 2,
            round >= 2,
            last@.len() == last.deep_view().len(),
            spec_count_state(all.deep_view(), MatchState::Bye) + spec_count_state(
                last.deep_view(),
                MatchState::Bye,
            ) == byes,
            spec_flat_participants(all.deep_view()) + spec_flat_participants(last.deep_view())
                == bots.deep_view(),
            r1.len() == pair_count + byes,
            2 * (pair_count + byes) == p,
            spec_fold_inv(all.deep_view(), last.deep_view(), r1.len() as int, round as int),
            forall|g: int|
                0 <= g < all.deep_view().len() ==> #[trigger] spec_slot_shape(
                    all.deep_view()[g],
                    g,
                    r1,
                ),
            forall|t: int|
                0 <= t < last.deep_view().len() ==> #[trigger] spec_slot_shape(
                    last.deep_view()[t],
                    all.deep_view().len() + t,
                    r1,
                ),
            forall|i: int|
                0 <= i < last.deep_view().len() ==> (#[trigger] last.deep_view()[i]).next_match_id
                    is None,
            forall|i: int|
                0 <= i < all.deep_view().len() ==> #[trigger] spec_match_shape(all.deep_view()[i]),
            forall|i: int|
                0 <= i < last.deep_view().len() ==> #[trigger] spec_match_shape(
                    last.deep_view()[i],
                ),
        decreases last.deep_view().len(),
    {
        let ghost av0 = all.deep_view();
        let ghost lv = last.deep_view();
        proof {
            lemma_is_pow2_halves(lv.len() as nat);
        }
        let half = last.len() / 2;
        let round_text = u64_to_string(round);
        let mut new_matches: Vec<Match> = Vec::new();
        let mut k: usize = 0;
        proof {
            assert(new_matches.deep_view() =~= Seq::<MatchView>::empty());
            assert(lv.subrange(0, 0) =~= Seq::<MatchView>::empty());
        }
        while k < half
            invariant
                2 * half == lv.len(),
                lv == last.deep_view(),
                last@.len() == lv.len(),
                k <= half,
                all.deep_view().len() == av0.len() + 2 * k,
                new_matches.deep_view().len() == k,
                forall|i: int| 0 <= i < av0.len() ==> (#[trigger] all.deep_view()[i]) == av0[i],
                forall|t: int|
                    0 <= t < 2 * k ==> #[trigger] spec_moved_child(
                        all.deep_view()[av0.len() + t],
                        lv[t],
                        new_matches.deep_view()[t / 2].id,
                    ),
                forall|u: int|
                    0 <= u < k ==> #[trigger] spec_fresh_parent(new_matches.deep_view()[u]),
                round_text@ == spec_dec(round as nat),
                forall|u: int|
                    0 <= u < k ==> (#[trigger] new_matches.deep_view()[u]).id == lv[2 * u].id
                        + "-"@ + lv[2 * u + 1].id && new_matches.deep_view()[u].tournament_round_text
                        == spec_dec(round as nat),
                spec_count_state(all.deep_view(), MatchState::Bye) == spec_count_state(
                    av0,
                    MatchState::Bye,
                ) + spec_count_state(lv.subrange(0, 2 * k as int), MatchState::Bye),
                spec_flat_participants(all.deep_view()) == spec_flat_participants(av0)
                    + spec_flat_participants(lv.subrange(0, 2 * k as int)),
            decreases half - k,
        {
            let ghost all_before = all.deep_view();
            let ghost new_before = new_matches.deep_view();
            let mut c1 = last[2 * k].clone_match();
            let mut c2 = last[2 * k + 1].clone_match();
            let mut parent_id = c1.id.clone();
            parent_id.append("-");
            parent_id.append(c2.id.as_str());
            c1.set_next_match_id(parent_id.clone());
            c2.set_next_match_id(parent_id.clone());
            let ghost c1v = c1@;
            let ghost c2v = c2@;
            let parent = Match {
                id: parent_id,
                tournament_round_text: round_text.clone(),
                next_match_id: None,
                participants: Vec::new(),
                state: MatchState::NotStarted,
            };
            let ghost pv = parent@;
            all.push(c1);
            all.push(c2);
            new_matches.push(parent);
            proof {
                let av = all.deep_view();
                let nv = new_matches.deep_view();
                assert(forall|i: int|
                    0 <= i < all_before.len() ==> (#[trigger] av[i]) == all_before[i]);
                assert(forall|u: int|
                    0 <= u < new_before.len() ==> (#[trigger] nv[u]) == new_before[u]);
                assert(av[all_before.len() as int] == c1v);
                assert(av[all_before.len() as int + 1] == c2v);
                assert(nv[k as int] == pv);
                assert(pv.participants =~= Seq::<BotDetailsView>::empty());
                assert(spec_fresh_parent(pv));
                assert(pv.id == lv[2 * k as int].id + "-"@ + lv[2 * k + 1].id);
                assert(pv.tournament_round_text == spec_dec(round as nat));
                assert(spec_moved_child(c1v, lv[2 * k as int], pv.id));
                assert(spec_moved_child(c2v, lv[2 * k + 1], pv.id));
                // Two children joined the placed list: the flattened
                // participants and the bye count gain exactly theirs.
                let avm = av.drop_last();
                assert(avm.drop_last() =~= all_before);
                assert(avm.last() == c1v);
                assert(av.last() == c2v);
                assert(spec_flat_participants(avm) == spec_flat_participants(all_before)
                    + c1v.participants);
                assert(spec_flat_participants(av) == spec_flat_participants(avm)
                    + c2v.participants);
                let s0 = lv.subrange(0, 2 * k as int);
                let s1 = lv.subrange(0, 2 * k + 1);
                let s2 = lv.subrange(0, 2 * k + 2);
                assert(s1.drop_last() =~= s0);
                assert(s2.drop_last() =~= s1);
                assert(s1.last() == lv[2 * k as int]);
                assert(s2.last() == lv[2 * k + 1]);
                assert(spec_flat_participants(s1) == spec_flat_participants(s0) + lv[2 * k
                    as int].participants);
                assert(spec_flat_participants(s2) == spec_flat_participants(s1) + lv[2 * k
                    + 1].participants);
                assert(spec_flat_participants(av) == spec_flat_participants(av0)
                    + spec_flat_participants(s2));
                assert(spec_count_state(avm, MatchState::Bye) == spec_count_state(
                    all_before,
                    MatchState::Bye,
                ) + (if c1v.state == MatchState::Bye {
                    1nat
                } else {
                    0nat
                }));
                assert(spec_count_state(s1, MatchState::Bye) == spec_count_state(
                    s0,
                    MatchState::Bye,
                ) + (if lv[2 * k as int].state == MatchState::Bye {
                    1nat
                } else {
                    0nat
                }));
                assert(spec_count_state(s2, MatchState::Bye) == spec_count_state(
                    s1,
                    MatchState::Bye,
                ) + (if lv[2 * k + 1].state == MatchState::Bye {
                    1nat
                } else {
                    0nat
                }));
                assert(spec_count_state(av, MatchState::Bye) == spec_count_state(
                    av0,
                    MatchState::Bye,
                ) + spec_count_state(s2, MatchState::Bye));
            }
            k = k + 1;
        }
        proof {
            assert(lv.subrange(0, 2 * half as int) =~= lv);
        }
        let ghost av1 = all.deep_view();
        let ghost nv = new_matches.deep_view();
        proof {
            assert forall|i: int| 0 <= i < av1.len() implies #[trigger] spec_match_shape(
                av1[i],
            ) by {
                if i < av0.len() {
                    assert(av1[i] == av0[i]);
                    assert(spec_match_shape(av0[i]));
                } else {
                    let t = i - av0.len();
                    assert(spec_moved_child(av1[av0.len() + t], lv[t], nv[t / 2].id));
                    assert(spec_match_shape(lv[t]));
                }
            }
            assert forall|i: int| 0 <= i < nv.len() implies #[trigger] spec_match_shape(
                nv[i],
            ) by {
                assert(spec_fresh_parent(nv[i]));
            }
            assert forall|i: int| 0 <= i < nv.len() implies (#[trigger] nv[i]).next_match_id
                is None by {
                assert(spec_fresh_parent(nv[i]));
            }
            assert forall|g: int| 0 <= g < av1.len() implies #[trigger] spec_slot_shape(
                av1[g],
                g,
                r1,
            ) by {
                if g < av0.len() {
                    assert(av1[g] == av0[g]);
                    assert(spec_slot_shape(av0[g], g, r1));
                } else {
                    let t = g - av0.len();
                    assert(spec_moved_child(av1[av0.len() + t], lv[t], nv[t / 2].id));
                    assert(spec_slot_shape(lv[t], av0.len() + t, r1));
                }
            }
            assert forall|t: int| 0 <= t < nv.len() implies #[trigger] spec_slot_shape(
                nv[t],
                av1.len() + t,
                r1,
            ) by {
                assert(spec_fresh_parent(nv[t]));
                assert(av1.len() + t >= r1.len());
            }
            // The placed slots keep the exact fold shape; the new round sits
            // one level deeper.
            lemma_fold_inv_step(av0, lv, av1, nv, r1.len() as int, round as int);
            // The new round carries no byes and no participants.
            lemma_fresh_round_empty(nv);
        }
        last = new_matches;
        round = round + 1;
    }
    proof {
        // A power of two below two is one: exactly the final remains.
        let k = choose|k: nat| last.deep_view().len() as nat == spec_pow2(k);
        lemma_pow2_positive(k);
    }
    let ghost lv_final = last.deep_view();
    proof {
        assert(spec_slot_shape(last.deep_view()[0], all.deep_view().len() as int + 0, r1));
    }
    let final_match = match last.pop() {
        Some(m) => m,
        None => vstd::pervasive::unreached(),
    };
    let ghost before = all.deep_view();
    let ghost fv = final_match@;
    all.push(final_match);
    proof {
        let av = all.deep_view();
        assert(forall|i: int| 0 <= i < before.len() ==> (#[trigger] av[i]) == before[i]);
        assert(av[before.len() as int] == fv);
        assert(lv_final =~= seq![fv]);
        assert(av =~= before + lv_final);
        assert(av.drop_last() =~= before);
        assert(av.last() == fv);
        assert(lv_final.drop_last() =~= Seq::<MatchView>::empty());
        assert(lv_final.last() == fv);
        assert(spec_flat_participants(Seq::<MatchView>::empty()) == Seq::<BotDetailsView>::empty());
        assert(spec_flat_participants(lv_final) == Seq::<BotDetailsView>::empty()
            + fv.participants);
        assert(spec_flat_participants(av) == spec_flat_participants(before) + fv.participants);
        assert(spec_flat_participants(av) =~= bots.deep_view());
        assert(spec_count_state(Seq::<MatchView>::empty(), MatchState::Bye) == 0);
        assert(spec_count_state(lv_final, MatchState::Bye) == (if fv.state == MatchState::Bye {
            1nat
        } else {
            0nat
        }));
        assert(spec_count_state(av, MatchState::Bye) == spec_count_state(before, MatchState::Bye)
            + (if fv.state == MatchState::Bye {
            1nat
        } else {
            0nat
        }));
        assert(spec_count_state(av, MatchState::Bye) == byes);
        assert(av[av.len() - 1].next_match_id is None);
        assert forall|i: int| 0 <= i < av.len() implies #[trigger] spec_match_shape(av[i]) by {
            if i < before.len() {
                assert(spec_match_shape(before[i]));
            } else {
                assert(spec_match_shape(lv_final[0]));
            }
        }
        lemma_count_two_states(av);
        let m0 = r1.len() as int;
        assert(av == before + lv_final);
        lemma_fold_inv_finish(before, lv_final, av, m0, round as int);
        assert forall|g: int| 0 <= g < av.len() implies #[trigger] spec_slot_shape(
            av[g],
            g,
            r1,
        ) by {
            if g < before.len() {
                assert(av[g] == before[g]);
                assert(spec_slot_shape(before[g], g, r1));
            } else {
                assert(av[g] == fv);
                assert(spec_slot_shape(lv_final[0], before.len() as int, r1));
            }
        }
        // The first slots are the first round exactly as laid out, and every
        // later slot starts empty.
        let bv = bots.deep_view();
        assert(byes == spec_bye_count(n as nat));
        assert(pair_count == spec_pair_count(n as nat));
        assert forall|i: int| 0 <= i < pair_count implies #[trigger] spec_pair_slot(
            av[i],
            bv,
            i,
        ) by {
            assert(spec_slot_shape(av[i], i, r1));
            assert(spec_pair_slot(r1[i], bv, i));
        }
        assert forall|b: int| 0 <= b < byes implies #[trigger] spec_bye_slot(
            av[pair_count + b],
            bv,
            2 * pair_count + b,
        ) by {
            assert(spec_slot_shape(av[pair_count + b], pair_count + b, r1));
            assert(spec_bye_slot(r1[pair_count + b], bv, 2 * pair_count + b));
        }
        assert forall|g: int| pair_count + byes <= g < av.len() implies (#[trigger] av[g]).state
            == MatchState::NotStarted && av[g].participants.len() == 0 by {
            assert(spec_slot_shape(av[g], g, r1));
        }
    }
    Tournament { starting_matches: all, match_updates: Vec::new() }
}

/// Relies on rand's `SliceRandom::shuffle`: the list after is a permutation
/// of the list before; which permutation is random.
#[verifier::external_body]
fn shuffle_bots(bots: &mut Vec<BotDetails>)
    ensures
        final(bots).deep_view().to_multiset() == old(bots).deep_view().to_multiset(),
        final(bots).deep_view().len() == old(bots).deep_view().len(),
{
    bots.shuffle(&mut rand::rng());
}

/// Builds a tournament from the given bots in a random order.
///
/// The bracket's shape is that of `create_bracket`; which bots meet where
/// is the shuffle's choice, so the seated participants are pinned only up
/// to permutation.
#[verifier::spinoff_prover]
#[verifier::rlimit(50)]
pub fn create_tournament(mut bots: Vec<BotDetails>) -> (t: Tournament)
    requires
        1 <= bots@.len() <= 0x4000_0000,
    ensures
        t.match_updates@.len() == 0,
        t.starting_matches.deep_view().len() == spec_next_pow2(bots@.len() as nat) - 1,
        spec_count_state(t.starting_matches.deep_view(), MatchState::Bye) == spec_next_pow2(
            bots@.len() as nat,
        ) - bots@.len(),
        spec_count_state(t.starting_matches.deep_view(), MatchState::NotStarted) == bots@.len()
            - 1,
        spec_bracket_wf(t.starting_matches.deep_view()),
        bots@.len() >= 2 ==> spec_flat_participants(
            t.starting_matches.deep_view(),
        ).to_multiset() == bots.deep_view().to_multiset(),
        forall|i: int|
            0 <= i < t.starting_matches.deep_view().len() ==> #[trigger] spec_match_shape(
                t.starting_matches.deep_view()[i],
            ),
        forall|i: int|
            0 <= i < spec_pair_count(bots@.len() as nat) ==> (#[trigger] t.starting_matches.deep_view()[i]).state
                == MatchState::NotStarted && t.starting_matches.deep_view()[i].participants.len()
                == 2 && t.starting_matches.deep_view()[i].tournament_round_text == "1"@,
        forall|j: int|
            0 <= j < spec_bye_count(bots@.len() as nat) ==> (#[trigger] t.starting_matches.deep_view()[spec_pair_count(
                bots@.len() as nat,
            ) + j]).state == MatchState::Bye && t.starting_matches.deep_view()[spec_pair_count(
                bots@.len() as nat,
            ) + j].tournament_round_text == "1"@,
        forall|g: int|
            spec_pair_count(bots@.len() as nat) + spec_bye_count(bots@.len() as nat) <= g
                < t.starting_matches.deep_view().len() ==> (#[trigger] t.starting_matches.deep_view()[g]).state
                == MatchState::NotStarted && t.starting_matches.deep_view()[g].participants.len()
                == 0,
        spec_fold_shape(
            t.starting_matches.deep_view(),
            spec_pair_count(bots@.len() as nat) + spec_bye_count(bots@.len() as nat) as int,
        ),
{
    let ghost orig = bots.deep_view();
    shuffle_bots(&mut bots);
    let t = create_bracket(&bots);
    proof {
        let dv = t.starting_matches.deep_view();
        let nn = bots@.len() as nat;
        assert forall|i: int| 0 <= i < spec_pair_count(nn) implies (#[trigger] dv[i]).state
            == MatchState::NotStarted && dv[i].participants.len() == 2
            && dv[i].tournament_round_text == "1"@ by {
            assert(spec_pair_slot(dv[i], bots.deep_view(), i));
        }
        assert forall|j: int| 0 <= j < spec_bye_count(nn) implies (#[trigger] dv[spec_pair_count(
            nn,
        ) + j]).state == MatchState::Bye && dv[spec_pair_count(nn)
            + j].tournament_round_text == "1"@ by {
            assert(spec_bye_slot(dv[spec_pair_count(nn) + j], bots.deep_view(), 2 * spec_pair_count(
                nn,
            ) + j));
        }
    }
    t
}

} // verus!
