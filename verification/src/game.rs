//! The best-of-five match between two bots.
//!
//! A match plays up to five rounds. A round where both bots play the same
//! legal move changes nothing; a round where both play `Invalid` ends the
//! match at once with no winner yet; a round where exactly one bot plays
//! `Invalid` hands the match to the other at once; otherwise the round's
//! winner scores, and three round-wins end the match. A match that runs out
//! of rounds goes to whoever won more; a full draw is settled by coin toss.

use vstd::prelude::*;
use vstd::string::StringExecFns;

use crate::play::SPROption;
use crate::play::spec_beats;
use crate::wire::clone_plays;

verus! {

/// Where a match stands in its life.
#[derive(Clone, Copy, PartialEq, Eq, Structural, Debug)]
pub enum MatchState {
    NotStarted,
    Bye,
    InProgress,
    Finished,
}

/// A match plays at most this many rounds.
pub const MATCH_MAX_ROUNDS: usize = 5;

/// This many round-wins take the match.
pub const MATCH_WINS_NEEDED: u8 = 3;

/// One bot's side of an emitted match outcome: its name, its plays so far,
/// and whether it won.
pub struct ParticipantOutcome {
    pub name: String,
    pub moves: Vec<SPROption>,
    pub winner: bool,
}

/// One emitted update about a match: a snapshot while it runs, or the final
/// word. `winner` is the index of the winning participant; for a `Bye` it
/// is 0 without meaning a victory.
pub struct MatchOutcome {
    pub match_id: String,
    pub state: MatchState,
    pub note: Option<String>,
    pub winner: usize,
    pub participants: Vec<ParticipantOutcome>,
}

/// The note attached to an outcome settled by coin toss.
pub open spec fn spec_draw_note() -> Seq<char> {
    "5x Draw. Winner chosen by coin toss."@
}

/// The running state of one match: both bots' plays so far, both round-win
/// counts, whether the match ended before its last possible round, and the
/// winner forced by an invalid round, if any.
pub struct MatchEngine {
    pub moves1: Vec<SPROption>,
    pub moves2: Vec<SPROption>,
    pub wins1: u8,
    pub wins2: u8,
    pub ended: bool,
    pub early_winner: Option<usize>,
}

impl MatchEngine {
    /// The internal invariant: the two histories run in step, scores count
    /// decided rounds, and an early winner exists only in an ended match.
    pub open spec fn wf(self) -> bool {
        &&& self.moves1@.len() == self.moves2@.len()
        &&& self.moves1@.len() <= MATCH_MAX_ROUNDS
        &&& self.wins1 <= MATCH_WINS_NEEDED
        &&& self.wins2 <= MATCH_WINS_NEEDED
        &&& self.wins1 + self.wins2 <= self.moves1@.len()
        &&& (self.early_winner matches Some(w) ==> w < 2 && self.ended)
        &&& (!self.ended ==> self.wins1 < MATCH_WINS_NEEDED && self.wins2 < MATCH_WINS_NEEDED
            && self.early_winner is None)
    }

    /// A match is finished when it ended early or exhausted its rounds.
    pub open spec fn spec_finished(self) -> bool {
        self.ended || self.moves1@.len() == MATCH_MAX_ROUNDS
    }

    /// How many rounds have been played.
    pub open spec fn spec_rounds(self) -> nat {
        self.moves1@.len()
    }

    /// A fresh match: no rounds, no scores.
    pub fn new() -> (e: MatchEngine)
        ensures
            e.wf(),
            e.spec_rounds() == 0,
            !e.spec_finished(),
            e.wins1 == 0 && e.wins2 == 0,
            e.moves1@ == Seq::<SPROption>::empty(),
            e.moves2@ == Seq::<SPROption>::empty(),
            e.early_winner is None,
    {
        MatchEngine {
            moves1: Vec::new(),
            moves2: Vec::new(),
            wins1: 0,
            wins2: 0,
            ended: false,
            early_winner: None,
        }
    }

    /// Whether the match is finished.
    pub fn finished(&self) -> (b: bool)
        ensures
            b == self.spec_finished(),
    {
        self.ended || self.moves1.len() == MATCH_MAX_ROUNDS
    }

    /// How one adjudicated round takes the engine from `pre` to `post`:
    /// both plays are appended; a double-`Invalid` round ends the match with
    /// no winner yet; a one-sided `Invalid` round ends it for the other bot;
    /// a legal draw changes nothing; a decided round scores its winner and
    /// ends the match at three wins.
    pub open spec fn spec_round_step(
        pre: MatchEngine,
        post: MatchEngine,
        p1: SPROption,
        p2: SPROption,
    ) -> bool {
        &&& post.moves1@ == pre.moves1@.push(p1)
        &&& post.moves2@ == pre.moves2@.push(p2)
        &&& (p1 == p2 && p1 == SPROption::Invalid ==> post.ended && post.early_winner is None
            && post.wins1 == pre.wins1 && post.wins2 == pre.wins2)
        &&& (p1 == p2 && p1 != SPROption::Invalid ==> !post.ended && post.wins1 == pre.wins1
            && post.wins2 == pre.wins2)
        &&& (p1 != p2 && p1 == SPROption::Invalid ==> post.ended && post.early_winner == Some(
            1usize,
        ) && post.wins1 == pre.wins1 && post.wins2 == pre.wins2)
        &&& (p1 != p2 && p2 == SPROption::Invalid ==> post.ended && post.early_winner == Some(
            0usize,
        ) && post.wins1 == pre.wins1 && post.wins2 == pre.wins2)
        &&& (p1 != p2 && p1 != SPROption::Invalid && p2 != SPROption::Invalid && spec_beats(p1, p2)
            ==> post.wins1 == pre.wins1 + 1 && post.wins2 == pre.wins2 && post.early_winner is None
            && (post.ended <==> post.wins1 == MATCH_WINS_NEEDED))
        &&& (p1 != p2 && p1 != SPROption::Invalid && p2 != SPROption::Invalid && spec_beats(p2, p1)
            ==> post.wins2 == pre.wins2 + 1 && post.wins1 == pre.wins1 && post.early_winner is None
            && (post.ended <==> post.wins2 == MATCH_WINS_NEEDED))
    }

    /// Records one round's two plays and adjudicates it.
    ///
    /// The last `ensures` is the short-circuit law: after the round, the
    /// match is finished exactly when a bot reached three round-wins, some
    /// bot played `Invalid`, or the rounds ran out.
    pub fn record_round(&mut self, p1: SPROption, p2: SPROption)
        requires
            old(self).wf(),
            !old(self).spec_finished(),
        ensures
            final(self).wf(),
            MatchEngine::spec_round_step(*old(self), *final(self), p1, p2),
            final(self).spec_finished() <==> (final(self).wins1 == MATCH_WINS_NEEDED
                || final(self).wins2 == MATCH_WINS_NEEDED || p1 == SPROption::Invalid
                || p2 == SPROption::Invalid || final(self).spec_rounds() == MATCH_MAX_ROUNDS),
    {
        self.moves1.push(p1);
        self.moves2.push(p2);
        if p1 == p2 {
            if p1 == SPROption::Invalid {
                self.ended = true;
            }
        } else if p1 == SPROption::Invalid {
            self.ended = true;
            self.early_winner = Some(1);
        } else if p2 == SPROption::Invalid {
            self.ended = true;
            self.early_winner = Some(0);
        } else if p1.beats(&p2) {
            self.wins1 = self.wins1 + 1;
            if self.wins1 >= MATCH_WINS_NEEDED {
                self.ended = true;
            }
        } else {
            self.wins2 = self.wins2 + 1;
            if self.wins2 >= MATCH_WINS_NEEDED {
                self.ended = true;
            }
        }
    }

    /// The winner the rounds themselves decided: the early winner if an
    /// invalid round forced one, else whoever won more rounds, else nobody.
    pub open spec fn spec_scored_winner(self) -> Option<usize> {
        if self.early_winner is Some {
            self.early_winner
        } else if self.wins1 > self.wins2 {
            Some(0usize)
        } else if self.wins2 > self.wins1 {
            Some(1usize)
        } else {
            None
        }
    }

    /// The winner the rounds decided, if any.
    pub fn scored_winner(&self) -> (w: Option<usize>)
        ensures
            w == self.spec_scored_winner(),
    {
        match self.early_winner {
            Some(w) => Some(w),
            None => if self.wins1 > self.wins2 {
                Some(0)
            } else if self.wins2 > self.wins1 {
                Some(1)
            } else {
                None
            },
        }
    }

    /// Closes the match and writes its final outcome.
    ///
    /// Exactly one participant carries `winner=true`. When the rounds
    /// decided nobody — a full draw — the winner is tossed for and the
    /// outcome says so in its note.
    pub fn finalize(&self, match_id: &String, name1: &String, name2: &String) -> (o: MatchOutcome)
        requires
            self.wf(),
            self.spec_finished(),
        ensures
            o.match_id@ == match_id@,
            o.state == MatchState::Finished,
            o.winner < 2,
            o.participants@.len() == 2,
            o.participants@[0].name@ == name1@,
            o.participants@[0].moves@ == self.moves1@,
            o.participants@[0].winner == (o.winner == 0),
            o.participants@[1].name@ == name2@,
            o.participants@[1].moves@ == self.moves2@,
            o.participants@[1].winner == (o.winner == 1),
            o.participants@[0].winner != o.participants@[1].winner,
            self.spec_scored_winner() matches Some(w) ==> o.winner == w && o.note is None,
            self.spec_scored_winner() is None ==> (o.note matches Some(n) && n@
                == spec_draw_note()),
    {
        let scored = self.scored_winner();
        let winner: usize;
        let note: Option<String>;
        match scored {
            Some(w) => {
                winner = w;
                note = None;
            },
            None => {
                winner = coin_toss();
                note = Some(String::from_str("5x Draw. Winner chosen by coin toss."));
            },
        }
        let mut participants: Vec<ParticipantOutcome> = Vec::new();
        participants.push(
            ParticipantOutcome {
                name: name1.clone(),
                moves: clone_plays(&self.moves1),
                winner: winner == 0,
            },
        );
        participants.push(
            ParticipantOutcome {
                name: name2.clone(),
                moves: clone_plays(&self.moves2),
                winner: winner == 1,
            },
        );
        MatchOutcome {
            match_id: match_id.clone(),
            state: MatchState::Finished,
            note,
            winner,
            participants,
        }
    }

    /// A live snapshot of a running match: the moves so far, no winner
    /// declared.
    pub fn round_snapshot(&self, match_id: &String, name1: &String, name2: &String) -> (o:
        MatchOutcome)
        ensures
            o.match_id@ == match_id@,
            o.state == MatchState::InProgress,
            o.winner == 0,
            o.note is None,
            o.participants@.len() == 2,
            o.participants@[0].name@ == name1@,
            o.participants@[0].moves@ == self.moves1@,
            o.participants@[0].winner == false,
            o.participants@[1].name@ == name2@,
            o.participants@[1].moves@ == self.moves2@,
            o.participants@[1].winner == false,
    {
        let mut participants: Vec<ParticipantOutcome> = Vec::new();
        participants.push(
            ParticipantOutcome {
                name: name1.clone(),
                moves: clone_plays(&self.moves1),
                winner: false,
            },
        );
        participants.push(
            ParticipantOutcome {
                name: name2.clone(),
                moves: clone_plays(&self.moves2),
                winner: false,
            },
        );
        MatchOutcome {
            match_id: match_id.clone(),
            state: MatchState::InProgress,
            note: None,
            winner: 0,
            participants,
        }
    }
}

/// Relies on `rand::random_range` over `0..2`: a value drawn from that
/// range; nothing more is assumed of it.
#[verifier::external_body]
fn coin_toss() -> (r: usize)
    ensures
        r < 2,
{
    rand::random_range(0..2usize)
}

/// Whether a history contains an `Invalid` play — the flag that sends a
/// registered bot to be disabled after its match.
pub fn made_invalid_play(moves: &Vec<SPROption>) -> (b: bool)
    ensures
        b == moves@.contains(SPROption::Invalid),
{
    let n = moves.len();
    for i in 0..n
        invariant
            n == moves@.len(),
            forall|k: int| 0 <= k < i ==> moves@[k] != SPROption::Invalid,
    {
        if moves[i] == SPROption::Invalid {
            return true;
        }
    }
    false
}

} // verus!
