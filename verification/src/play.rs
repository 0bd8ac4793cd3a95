//! The plays of rock-paper-scissors and the relation that decides a round.
//!
//! `Invalid` is a first-class play meaning "the bot failed to produce a legal
//! move this round". Every legal play beats `Invalid`; `Invalid` beats
//! nothing.

use vstd::prelude::*;

verus! {

/// One play of a round: scissors, paper, rock, or the failure marker.
#[derive(Clone, Copy, PartialEq, Eq, Structural, Debug)]
pub enum SPROption {
    Scissors,
    Paper,
    Rock,
    Invalid,
}

/// The integer code a play carries on the wire: scissors 0, paper 1,
/// rock 2, invalid 3.
pub open spec fn spec_play_code(p: SPROption) -> nat {
    match p {
        SPROption::Scissors => 0,
        SPROption::Paper => 1,
        SPROption::Rock => 2,
        SPROption::Invalid => 3,
    }
}

/// A play is legal when it is one of the three real moves.
pub open spec fn is_legal(p: SPROption) -> bool {
    p != SPROption::Invalid
}

/// The beat relation: rock beats scissors, scissors beats paper, paper
/// beats rock, and every legal play beats `Invalid`.
pub open spec fn spec_beats(a: SPROption, b: SPROption) -> bool {
    match a {
        SPROption::Scissors => b == SPROption::Paper || b == SPROption::Invalid,
        SPROption::Paper => b == SPROption::Rock || b == SPROption::Invalid,
        SPROption::Rock => b == SPROption::Scissors || b == SPROption::Invalid,
        SPROption::Invalid => false,
    }
}

impl SPROption {
    /// Decides whether `self` wins a round against `other`.
    pub fn beats(&self, other: &SPROption) -> (r: bool)
        ensures
            r == spec_beats(*self, *other),
    {
        match self {
            SPROption::Scissors => match other {
                SPROption::Paper => true,
                SPROption::Invalid => true,
                _ => false,
            },
            SPROption::Paper => match other {
                SPROption::Rock => true,
                SPROption::Invalid => true,
                _ => false,
            },
            SPROption::Rock => match other {
                SPROption::Scissors => true,
                SPROption::Invalid => true,
                _ => false,
            },
            _ => false,
        }
    }

    /// The integer code of the play on the wire.
    pub fn code(&self) -> (c: u32)
        ensures
            c == spec_play_code(*self),
    {
        match self {
            SPROption::Scissors => 0,
            SPROption::Paper => 1,
            SPROption::Rock => 2,
            SPROption::Invalid => 3,
        }
    }
}

/// Every play is one of scissors, paper, rock, or invalid: the type admits
/// nothing else.
pub proof fn lemma_play_is_one_of_four(p: SPROption)
    ensures
        p == SPROption::Scissors || p == SPROption::Paper || p == SPROption::Rock
            || p == SPROption::Invalid,
{
}

/// For two distinct legal plays, exactly one of the two beats the other;
/// every legal play beats `Invalid`; `Invalid` beats nothing, itself
/// included.
pub proof fn lemma_beats_total_and_asymmetric(p: SPROption, q: SPROption)
    ensures
        is_legal(p) && is_legal(q) && p != q ==> (spec_beats(p, q) != spec_beats(q, p)),
        is_legal(p) ==> spec_beats(p, SPROption::Invalid),
        !spec_beats(SPROption::Invalid, q),
        p == q ==> !spec_beats(p, q),
{
}

} // verus!
