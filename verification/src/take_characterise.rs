//! Characterising the human takes the engine called illegal.
use vstd::prelude::*;
use crate::cards::Move;

verus! {

/// Which take check fired.
#[derive(Clone, Copy, Debug, PartialEq, Eq, Structural)]
pub enum TakeRejection {
    EmptySlot,
    WonderBudget,
    WonderInProgress,
    Budget,
    HandFull,
    LeaderAgeTaken,
    DuplicateCard,
}

/// The printed name of a take check's result.
pub open spec fn reject_name_spec(r: Option<TakeRejection>) -> Seq<char> {
    match r {
        None => "LEGAL (no rejection)"@,
        Some(TakeRejection::EmptySlot) => "EmptySlot"@,
        Some(TakeRejection::WonderBudget) => "WonderBudget"@,
        Some(TakeRejection::WonderInProgress) => "WonderInProgress"@,
        Some(TakeRejection::Budget) => "Budget"@,
        Some(TakeRejection::HandFull) => "HandFull"@,
        Some(TakeRejection::LeaderAgeTaken) => "LeaderAgeTaken"@,
        Some(TakeRejection::DuplicateCard) => "DuplicateCard"@,
    }
}

/// Names the take check that fired, or says the take was legal.
pub fn reject_name(r: Option<TakeRejection>) -> (s: String)
    ensures
        s@ == reject_name_spec(r),
{
    match r {
        None => String::from_str("LEGAL (no rejection)"),
        Some(TakeRejection::EmptySlot) => String::from_str("EmptySlot"),
        Some(TakeRejection::WonderBudget) => String::from_str("WonderBudget"),
        Some(TakeRejection::WonderInProgress) => String::from_str("WonderInProgress"),
        Some(TakeRejection::Budget) => String::from_str("Budget"),
        Some(TakeRejection::HandFull) => String::from_str("HandFull"),
        Some(TakeRejection::LeaderAgeTaken) => String::from_str("LeaderAgeTaken"),
        Some(TakeRejection::DuplicateCard) => String::from_str("DuplicateCard"),
    }
}

/// One replayed human decision: the move the human made and the moves the
/// engine held legal there.
pub struct Decision {
    pub human_move: Move,
    pub legal_moves: Vec<Move>,
}

/// The slot of a take the engine called illegal and overrode: the human's
/// move is a `Take` absent from the legal moves. `None` for anything else.
pub fn uncounted_take_slot(d: &Decision) -> (r: Option<usize>)
    ensures
        r == match d.human_move {
            Move::Take { slot } => if d.legal_moves@.contains(d.human_move) {
                None
            } else {
                Some(slot as usize)
            },
            _ => None,
        },
{
    let slot = match d.human_move {
        Move::Take { slot } => slot,
        _ => return None,
    };
    let mut i: usize = 0;
    while i < d.legal_moves.len()
        invariant
            i <= d.legal_moves@.len(),
            forall|j: int| 0 <= j < i ==> d.legal_moves@[j] != d.human_move,
        decreases d.legal_moves@.len() - i,
    {
        if d.legal_moves[i] == d.human_move {
            assert(d.legal_moves@[i as int] == d.human_move);
            return None;
        }
        i = i + 1;
    }
    Some(slot as usize)
}

} // verus!
