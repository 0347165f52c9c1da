//! The fail-stop policy: every fatal condition halts the process in an
//! infinite no-op loop. Nothing is retried, nothing is logged, and there is
//! no resume path. The hardware shell runs the loop itself; the decision it
//! replays each round lives here.

use vstd::prelude::*;

verus! {

/// One round of the fail-stop halt loop: do nothing, and go around again.
/// The result is always true — the halt never releases the process.
pub fn panic() -> (again: bool)
    ensures
        again,
{
    true
}

} // verus!
