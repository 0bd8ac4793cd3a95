//! The tournament driver's bookkeeping.
//!
//! The driver walks `starting_matches` in order. The bracket itself is never
//! touched while a tournament runs: the participants each match has
//! accumulated live in a side table, a list mapping each match id to the
//! bots seated so far. For each match the driver emits a live snapshot,
//! settles the match (a bye settles itself; a real match is played), records
//! the outcome in `match_updates` — the tournament's only mutation — and
//! seats the winner in the side table under the match's `next_match_id`. The
//! final match seats nobody: its winner is the champion.

use vstd::prelude::*;
use vstd::pervasive::VecAdditionalExecFns;
use vstd::string::StringExecFns;

use crate::bots::BotDetails;
use crate::bots::BotDetailsView;
use crate::bracket::Tournament;
use crate::bracket::clone_bots;
use crate::game::MatchOutcome;
use crate::game::MatchState;
use crate::game::ParticipantOutcome;

verus! {

/// One entry of the driver's side table: a match id, and the participants
/// that match has accumulated so far.
pub struct MatchParticipants {
    pub match_id: String,
    pub participants: Vec<BotDetails>,
}

/// The mathematical image of a `MatchParticipants`.
pub ghost struct MatchParticipantsView {
    pub match_id: Seq<char>,
    pub participants: Seq<BotDetailsView>,
}

impl View for MatchParticipants {
    type V = MatchParticipantsView;

    open spec fn view(&self) -> MatchParticipantsView {
        MatchParticipantsView {
            match_id: self.match_id@,
            participants: self.participants.deep_view(),
        }
    }
}

impl DeepView for MatchParticipants {
    type V = MatchParticipantsView;

    open spec fn deep_view(&self) -> MatchParticipantsView {
        self.view()
    }
}

/// The index of the first entry with the given id, or -1 when none has it.
pub open spec fn spec_find_slot(ps: Seq<MatchParticipantsView>, id: Seq<char>) -> int
    decreases ps.len(),
{
    if ps.len() == 0 {
        -1
    } else if ps[0].match_id == id {
        0
    } else {
        let rest = spec_find_slot(ps.drop_first(), id);
        if rest == -1 {
            -1
        } else {
            rest + 1
        }
    }
}

proof fn lemma_find_slot_at(ps: Seq<MatchParticipantsView>, id: Seq<char>, j: int)
    requires
        0 <= j < ps.len(),
        ps[j].match_id == id,
        forall|k: int| 0 <= k < j ==> (#[trigger] ps[k]).match_id != id,
    ensures
        spec_find_slot(ps, id) == j,
    decreases ps.len(),
{
    if j == 0 {
    } else {
        assert(ps[0].match_id != id);
        let rest = ps.drop_first();
        assert(rest[j - 1] == ps[j]);
        assert(forall|k: int| 0 <= k < j - 1 ==> (#[trigger] rest[k]) == ps[k + 1]);
        lemma_find_slot_at(rest, id, j - 1);
    }
}

proof fn lemma_find_slot_none(ps: Seq<MatchParticipantsView>, id: Seq<char>)
    requires
        forall|k: int| 0 <= k < ps.len() ==> (#[trigger] ps[k]).match_id != id,
    ensures
        spec_find_slot(ps, id) == -1,
    decreases ps.len(),
{
    if ps.len() > 0 {
        let rest = ps.drop_first();
        assert(forall|k: int| 0 <= k < rest.len() ==> (#[trigger] rest[k]) == ps[k + 1]);
        lemma_find_slot_none(rest, id);
    }
}

/// Finds the first side-table entry carrying the given id.
pub fn find_slot(parts: &Vec<MatchParticipants>, id: &String) -> (r: Option<usize>)
    ensures
        spec_find_slot(parts.deep_view(), id@) >= 0 ==> r == Some(
            spec_find_slot(parts.deep_view(), id@) as usize,
        ),
        spec_find_slot(parts.deep_view(), id@) == -1 ==> r is None,
        r matches Some(j) ==> j < parts.deep_view().len() && parts.deep_view()[j as int].match_id
            == id@ && spec_find_slot(parts.deep_view(), id@) == j as int,
{
    let n = parts.len();
    let mut i: usize = 0;
    while i < n
        invariant
            n == parts.deep_view().len(),
            i <= n,
            forall|k: int| 0 <= k < i ==> (#[trigger] parts.deep_view()[k]).match_id != id@,
        decreases n - i,
    {
        if parts[i].match_id == *id {
            proof {
                lemma_find_slot_at(parts.deep_view(), id@, i as int);
            }
            return Some(i);
        }
        i = i + 1;
    }
    proof {
        lemma_find_slot_none(parts.deep_view(), id@);
    }
    None
}

impl Tournament {
    /// How many matches the bracket holds.
    pub fn match_count(&self) -> (n: usize)
        ensures
            n == self.starting_matches@.len(),
    {
        self.starting_matches.len()
    }

    /// The driver's starting side table: one entry per match, in bracket
    /// order, each holding the participants the bracket seats there.
    pub fn initial_participants(&self) -> (parts: Vec<MatchParticipants>)
        ensures
            parts.deep_view().len() == self.starting_matches.deep_view().len(),
            forall|k: int|
                0 <= k < parts.deep_view().len() ==> (#[trigger] parts.deep_view()[k]).match_id
                    == self.starting_matches.deep_view()[k].id
                    && parts.deep_view()[k].participants
                    == self.starting_matches.deep_view()[k].participants,
    {
        let mut parts: Vec<MatchParticipants> = Vec::new();
        let n = self.starting_matches.len();
        let mut k: usize = 0;
        while k < n
            invariant
                n == self.starting_matches@.len(),
                k <= n,
                parts.deep_view().len() == k,
                forall|t: int|
                    0 <= t < k ==> (#[trigger] parts.deep_view()[t]).match_id
                        == self.starting_matches.deep_view()[t].id
                        && parts.deep_view()[t].participants
                        == self.starting_matches.deep_view()[t].participants,
            decreases n - k,
        {
            let ghost before = parts.deep_view();
            let entry = MatchParticipants {
                match_id: self.starting_matches[k].id.clone(),
                participants: clone_bots(&self.starting_matches[k].participants),
            };
            parts.push(entry);
            proof {
                let after = parts.deep_view();
                assert(forall|t: int| 0 <= t < before.len() ==> (#[trigger] after[t]) == before[t]);
                assert(after[k as int] == entry@);
            }
            k = k + 1;
        }
        parts
    }

    /// A live snapshot of the match at `i` before or between rounds: the
    /// participants its side-table entry has accumulated, no moves, no
    /// winner.
    pub fn in_progress_snapshot(&self, i: usize, parts: &Vec<MatchParticipants>) -> (o:
        MatchOutcome)
        requires
            i < self.starting_matches@.len(),
            spec_find_slot(parts.deep_view(), self.starting_matches.deep_view()[i as int].id) >= 0,
        ensures
            o.match_id@ == self.starting_matches.deep_view()[i as int].id,
            o.state == MatchState::InProgress,
            o.winner == 0,
            o.note is None,
            ({
                let seated = parts.deep_view()[spec_find_slot(
                    parts.deep_view(),
                    self.starting_matches.deep_view()[i as int].id,
                )].participants;
                o.participants@.len() == seated.len() && (forall|k: int|
                    0 <= k < o.participants@.len() ==> (#[trigger] o.participants@[k]).name@
                        == seated[k].name && o.participants@[k].moves@.len() == 0
                        && o.participants@[k].winner == false)
            }),
    {
        let m = &self.starting_matches[i];
        let f = match find_slot(parts, &m.id) {
            Some(f) => f,
            None => vstd::pervasive::unreached(),
        };
        let entry = &parts[f];
        let mut participants: Vec<ParticipantOutcome> = Vec::new();
        let count = entry.participants.len();
        let mut k: usize = 0;
        while k < count
            invariant
                count == entry.participants@.len(),
                k <= count,
                participants@.len() == k,
                forall|t: int|
                    0 <= t < k ==> (#[trigger] participants@[t]).name@
                        == entry.participants.deep_view()[t].name && participants@[t].moves@.len()
                        == 0 && participants@[t].winner == false,
            decreases count - k,
        {
            participants.push(
                ParticipantOutcome {
                    name: entry.participants[k].name.clone(),
                    moves: Vec::new(),
                    winner: false,
                },
            );
            k = k + 1;
        }
        MatchOutcome {
            match_id: m.id.clone(),
            state: MatchState::InProgress,
            note: None,
            winner: 0,
            participants,
        }
    }

    /// The settled outcome of a bye: the sole participant advances without
    /// playing. `winner` is 0 but no participant is flagged a winner — a
    /// bye is no victory.
    pub fn bye_outcome(&self, i: usize, parts: &Vec<MatchParticipants>) -> (o: MatchOutcome)
        requires
            i < self.starting_matches@.len(),
            self.starting_matches.deep_view()[i as int].state == MatchState::Bye,
            spec_find_slot(parts.deep_view(), self.starting_matches.deep_view()[i as int].id) >= 0,
        ensures
            o.match_id@ == self.starting_matches.deep_view()[i as int].id,
            o.state == MatchState::Bye,
            o.winner == 0,
            o.note matches Some(n) && n@ == "Bye"@,
            ({
                let seated = parts.deep_view()[spec_find_slot(
                    parts.deep_view(),
                    self.starting_matches.deep_view()[i as int].id,
                )].participants;
                o.participants@.len() == seated.len() && (forall|k: int|
                    0 <= k < o.participants@.len() ==> (#[trigger] o.participants@[k]).name@
                        == seated[k].name && o.participants@[k].moves@.len() == 0
                        && o.participants@[k].winner == false)
            }),
    {
        let snapshot = self.in_progress_snapshot(i, parts);
        MatchOutcome {
            match_id: snapshot.match_id,
            state: MatchState::Bye,
            note: Some(String::from_str("Bye")),
            winner: 0,
            participants: snapshot.participants,
        }
    }

    /// Records a settled match and promotes its winner.
    ///
    /// The bracket is never touched: the only change to the tournament is
    /// the outcome joining `match_updates`. The winner — read from the
    /// settled match's side-table entry — is seated in the first entry
    /// carrying this match's `next_match_id`; when the match points nowhere
    /// — it is the final — the winner comes back as the tournament champion.
    pub fn record_and_promote(
        &mut self,
        i: usize,
        outcome: MatchOutcome,
        parts: &mut Vec<MatchParticipants>,
    ) -> (champion: Option<BotDetails>)
        requires
            i < old(self).starting_matches@.len(),
            ({
                let f = spec_find_slot(
                    old(parts).deep_view(),
                    old(self).starting_matches.deep_view()[i as int].id,
                );
                f >= 0 && outcome.winner < old(parts).deep_view()[f].participants.len()
            }),
            (old(self).starting_matches.deep_view()[i as int].next_match_id matches Some(nid)
                ==> spec_find_slot(old(parts).deep_view(), nid) >= 0),
        ensures
            final(self).starting_matches == old(self).starting_matches,
            final(self).match_updates@ == old(self).match_updates@.push(outcome),
            ({
                let mdv = old(self).starting_matches.deep_view();
                let pre = old(parts).deep_view();
                let f = spec_find_slot(pre, mdv[i as int].id);
                let w = pre[f].participants[outcome.winner as int];
                &&& (champion matches Some(b) ==> b@ == w)
                &&& (champion is Some <==> mdv[i as int].next_match_id is None)
                &&& (match mdv[i as int].next_match_id {
                    Option::None => final(parts).deep_view() == pre,
                    Option::Some(nid) => {
                        let t = spec_find_slot(pre, nid);
                        final(parts).deep_view() == pre.update(
                            t,
                            (MatchParticipantsView {
                                participants: pre[t].participants.push(w),
                                ..pre[t]
                            }),
                        )
                    },
                })
            }),
    {
        let ghost pre = parts.deep_view();
        let f = match find_slot(parts, &self.starting_matches[i].id) {
            Some(f) => f,
            None => vstd::pervasive::unreached(),
        };
        let winner_bot = parts[f].participants[outcome.winner].clone_bot();
        let next_id: Option<String> = match &self.starting_matches[i].next_match_id {
            Some(s) => Some(s.clone()),
            None => None,
        };
        self.match_updates.push(outcome);
        match next_id {
            None => {
                assert(parts.deep_view() =~= pre);
                Some(winner_bot)
            },
            Some(nid) => {
                let t = match find_slot(parts, &nid) {
                    Some(t) => t,
                    None => vstd::pervasive::unreached(),
                };
                let ghost w = winner_bot;
                let mut updated = MatchParticipants {
                    match_id: parts[t].match_id.clone(),
                    participants: clone_bots(&parts[t].participants),
                };
                updated.participants.push(winner_bot);
                proof {
                    assert(updated.participants.deep_view() =~= pre[t as int].participants.push(
                        w@,
                    ));
                }
                parts.set(t, updated);
                proof {
                    assert(parts.deep_view() =~= pre.update(
                        t as int,
                        (MatchParticipantsView {
                            participants: pre[t as int].participants.push(w@),
                            ..pre[t as int]
                        }),
                    ));
                }
                None
            },
        }
    }
}

} // verus!
