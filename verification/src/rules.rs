//! The number of shots that a rule allows in one volley.

use crate::board::Board;
use crate::status::Rule;
use vstd::prelude::*;

verus! {

/// The number of ships on the roster of `board` that are no longer afloat.
pub open spec fn sunk_count(board: Board) -> nat {
    (board.ships@.len() - board.afloat().len()) as nat
}

/// The most shots that a volley may hold under `rule`, for a firer with
/// the home board `home` and the tracking board `tracking`.
///
/// * `Default`: one.
/// * `SuperCharge`: one for each ship of the firer that is afloat.
/// * `Desperation`: one, and one more for each ship that the firer's
///   tracking board holds as sunk.
pub open spec fn quota(rule: Rule, home: Board, tracking: Board) -> nat {
    match rule {
        Rule::Default => 1,
        Rule::SuperCharge => home.afloat().len(),
        Rule::Desperation => sunk_count(tracking) + 1,
    }
}

/// Whether one more shot may join a volley that holds `existing_shots`
/// already.
pub open spec fn allows(rule: Rule, home: Board, tracking: Board, existing_shots: nat) -> bool {
    existing_shots < quota(rule, home, tracking)
}

/// Computes [`allows`].
pub fn allows_shot(rule: Rule, home: &Board, tracking: &Board, existing_shots: usize) -> (b: bool)
    ensures
        b == allows(rule, *home, *tracking, existing_shots as nat),
{
    match rule {
        Rule::Default => existing_shots < 1,
        Rule::SuperCharge => {
            let afloat = home.ships_alive();
            assert(crate::firing::ships_of(afloat@).len() == afloat@.len());
            existing_shots < afloat.len()
        },
        Rule::Desperation => {
            let afloat = tracking.ships_alive();
            proof {
                assert(crate::firing::ships_of(afloat@).len() == afloat@.len());
                tracking.ships@.lemma_filter_len(|s: crate::board::Ship| s.alive);
            }
            existing_shots <= tracking.ships.len() - afloat.len()
        },
    }
}

/// Computes [`quota`]. The count must fit the machine's integers.
pub fn shot_quota(rule: Rule, home: &Board, tracking: &Board) -> (q: usize)
    requires
        sunk_count(*tracking) < usize::MAX,
    ensures
        q == quota(rule, *home, *tracking),
{
    match rule {
        Rule::Default => 1,
        Rule::SuperCharge => {
            let afloat = home.ships_alive();
            assert(crate::firing::ships_of(afloat@).len() == afloat@.len());
            afloat.len()
        },
        Rule::Desperation => {
            let afloat = tracking.ships_alive();
            proof {
                assert(crate::firing::ships_of(afloat@).len() == afloat@.len());
                tracking.ships@.lemma_filter_len(|s: crate::board::Ship| s.alive);
            }
            tracking.ships.len() - afloat.len() + 1
        },
    }
}

} // verus!
