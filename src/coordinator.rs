use vstd::prelude::*;

use crate::chain::CunninghamChain;
use crate::kind::CunninghamError;

verus! {

/// The number of workers that draw random seeds next to the ascending one.
pub const RANDOM_WORKERS: usize = 3;

/// The bookkeeping of a race between search workers: the first chain that
/// arrives wins, and the race fails only once every worker has given up.
pub struct RaceTally {
    outstanding: usize,
    decided: bool,
}

impl RaceTally {
    /// The workers whose outcome has not arrived yet.
    pub closed spec fn pending(&self) -> nat {
        self.outstanding as nat
    }

    /// Whether the race has an outcome already.
    pub closed spec fn is_decided(&self) -> bool {
        self.decided
    }

    /// A race between `workers` workers.
    pub fn new(workers: usize) -> (r: RaceTally)
        ensures
            r.pending() == workers,
            !r.is_decided(),
    {
        RaceTally { outstanding: workers, decided: false }
    }

    /// Takes the final outcome of one worker and says whether the race is now
    /// decided: the first chain is the result; once every worker has failed,
    /// the result is `ChainNotFound`. After a decision nothing more is returned.
    pub fn record(&mut self, outcome: Result<CunninghamChain, CunninghamError>) -> (r: Option<
        Result<CunninghamChain, CunninghamError>,
    >)
        ensures
            old(self).is_decided() ==> r is None && final(self).is_decided(),
            !old(self).is_decided() && outcome is Ok ==> r == Some(outcome)
                && final(self).is_decided(),
            !old(self).is_decided() && outcome is Err ==> {
                &&& final(self).pending() == if old(self).pending() == 0 {
                    0
                } else {
                    (old(self).pending() - 1) as nat
                }
                &&& final(self).is_decided() == (final(self).pending() == 0)
                &&& r == if final(self).pending() == 0 {
                    Some(Err::<CunninghamChain, CunninghamError>(CunninghamError::ChainNotFound))
                } else {
                    None
                }
            },
    {
        if self.decided {
            return None;
        }
        match outcome {
            Ok(c) => {
                self.decided = true;
                Some(Ok(c))
            },
            Err(_) => {
                if self.outstanding > 0 {
                    self.outstanding = self.outstanding - 1;
                }
                if self.outstanding == 0 {
                    self.decided = true;
                    Some(Err(CunninghamError::ChainNotFound))
                } else {
                    None
                }
            },
        }
    }

    /// Whether the race has an outcome.
    pub fn decided(&self) -> (r: bool)
        ensures
            r == self.is_decided(),
    {
        self.decided
    }
}

} // verus!
