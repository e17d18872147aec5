//! What a progress display does with the count of finished work. The bar
//! itself and the thread that watches the count belong to the program; the
//! decisions are made here.

use vstd::prelude::*;

verus! {

/// What the watcher of a progress count does next.
#[derive(Clone, Copy, Debug, PartialEq, Eq, Structural)]
pub enum Watch {
    /// Move the bar to this position, then wait for the refresh interval.
    Show(u64),
    /// Stop watching.
    Stop,
}

/// The next step of the watcher: it goes on while someone besides itself
/// still holds the counter and the bar is not finished.
pub fn watch(holders: usize, finished: bool, count: usize) -> (step: Watch)
    ensures
        step == if holders > 1 && !finished {
            Watch::Show(count as u64)
        } else {
            Watch::Stop
        },
{
    if holders > 1 && !finished {
        Watch::Show(count as u64)
    } else {
        Watch::Stop
    }
}

/// The position to show before a bar is cleared for good, unless it is
/// finished already.
pub fn close(finished: bool, count: usize) -> (last: Option<u64>)
    ensures
        last == if finished {
            None
        } else {
            Some(count as u64)
        },
{
    if finished {
        None
    } else {
        Some(count as u64)
    }
}

} // verus!
