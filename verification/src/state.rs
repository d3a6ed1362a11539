//! The scheduling-state classification: a closed three-variant state and
//! the fixed, total-on-valid-input mapping from raw state codes.

use vstd::prelude::*;

verus! {

/// The review-scheduling bucket of one card.
#[derive(Clone, Copy, Debug, PartialEq, Eq, Structural)]
pub enum Queue {
    New,
    Learning,
    Review,
}

/// Why a raw record was rejected during extraction.
#[derive(Clone, Copy, Debug, PartialEq, Eq, Structural)]
pub enum ExtractError {
    /// The raw state code is outside the known mapping.
    InvalidStateCode,
    /// The raw field string split into fewer than three fields.
    MalformedRecord,
}

/// The fixed mapping from raw state codes to states: 0 is `New`, 1 and 3
/// are `Learning`, 2 is `Review`, everything else is unmapped.
pub open spec fn classify(code: u8) -> Option<Queue> {
    if code == 0 {
        Some(Queue::New)
    } else if code == 1 || code == 3 {
        Some(Queue::Learning)
    } else if code == 2 {
        Some(Queue::Review)
    } else {
        None
    }
}

/// The CSS-class-like tag of each state.
pub open spec fn class_name(q: Queue) -> Seq<char> {
    match q {
        Queue::New => "new"@,
        Queue::Learning => "learning"@,
        Queue::Review => "review"@,
    }
}

impl Queue {
    /// Classify a raw state code, failing loudly on any unmapped code.
    pub fn try_from(code: u8) -> (r: Result<Queue, ExtractError>)
        ensures
            classify(code) matches Some(q) ==> r == Ok::<Queue, ExtractError>(q),
            classify(code) is None ==> r == Err::<Queue, ExtractError>(
                ExtractError::InvalidStateCode,
            ),
    {
        match code {
            0 => Ok(Queue::New),
            1 | 3 => Ok(Queue::Learning),
            2 => Ok(Queue::Review),
            _ => Err(ExtractError::InvalidStateCode),
        }
    }

    /// The CSS-class-like tag used in rendered fragments.
    pub fn class(&self) -> (r: &'static str)
        ensures
            r@ == class_name(*self),
    {
        match self {
            Queue::New => "new",
            Queue::Learning => "learning",
            Queue::Review => "review",
        }
    }
}

} // verus!
