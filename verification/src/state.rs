//! The two regimes of the column and the per-event summary record.

use vstd::prelude::*;

verus! {

/// The regime the column is currently in.
#[derive(Copy, Clone, Debug, PartialEq, Eq, Structural)]
pub enum State {
    Precipitating,
    NotPrecipitating,
}

impl State {
    /// The regime entered when a transition fires in this regime.
    pub open spec fn spec_flip(self) -> State {
        match self {
            State::Precipitating => State::NotPrecipitating,
            State::NotPrecipitating => State::Precipitating,
        }
    }

    /// The regime entered when a transition fires in this regime.
    pub fn flip(self) -> (r: State)
        ensures
            r == self.spec_flip(),
    {
        match self {
            State::Precipitating => State::NotPrecipitating,
            State::NotPrecipitating => State::Precipitating,
        }
    }
}

/// Summary of one finished event: the regime it ran in, together with the
/// precipitation integral accumulated over the event, in fixed-point form.
/// The payload of a `NotPrecipitating` event is always zero.
#[derive(Copy, Clone, Debug, PartialEq, Eq, Structural)]
pub enum StateHistory {
    Precipitating(i64),
    NotPrecipitating(i64),
}

impl StateHistory {
    /// The regime this summary was recorded in.
    pub open spec fn spec_state(self) -> State {
        match self {
            StateHistory::Precipitating(_) => State::Precipitating,
            StateHistory::NotPrecipitating(_) => State::NotPrecipitating,
        }
    }

    /// The scalar payload: the precipitation integral for a precipitating
    /// event, zero for a non-precipitating one.
    pub open spec fn spec_total(self) -> i64 {
        match self {
            StateHistory::Precipitating(p) => p,
            StateHistory::NotPrecipitating(p) => p,
        }
    }

    /// The precipitation integral carried by this summary.
    pub fn total(self) -> (r: i64)
        ensures
            r == self.spec_total(),
    {
        match self {
            StateHistory::Precipitating(p) => p,
            StateHistory::NotPrecipitating(p) => p,
        }
    }
}

} // verus!
