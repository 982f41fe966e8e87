//! Totals by calendar window: what was recorded in the day, week or month of
//! a given instant.

use vstd::prelude::*;
use crate::instant::LocalInstant;
use crate::store::{total_in, EventLog};
use crate::window::{resolve, window_of, LogicFault, WindowKind};

verus! {

/// The total of the repetitions recorded in the window of the given kind of
/// `now`. The window is taken once, from the one instant given.
pub fn aggregate(log: &EventLog, now: LocalInstant, kind: WindowKind) -> (r: Result<u128, LogicFault>)
    requires
        now.date.valid(),
    ensures
        match window_of(now, kind) {
            Ok(w) => r matches Ok(total) && total == total_in(log@, w.start, w.end),
            Err(fault) => r == Err::<u128, LogicFault>(fault),
        },
{
    match resolve(now, kind) {
        Ok(w) => Ok(log.sum_in_range(w.start, w.end)),
        Err(fault) => Err(fault),
    }
}

} // verus!
