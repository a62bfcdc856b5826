//! The webhook trigger: a script named by query parameters is pushed
//! onto the script-trigger queue, and the HTTP status says whether
//! that happened.

use vstd::prelude::*;
use crate::index::ResourceIndex;
use crate::queue::BoundedQueue;
use crate::script::Script;

verus! {

/// Handles one webhook request: exactly one trigger for the named
/// script lands on the queue if and only if the reply is 200; a
/// failed send (the scheduler side is gone) is a 500 and the queue is
/// untouched.
pub fn webhook(
    arg: ResourceIndex<Script>,
    state: &mut BoundedQueue<ResourceIndex<Script>>,
) -> (status: u16)
    ensures
        status == 200 || status == 500,
        final(state).is_closed() == old(state).is_closed(),
        final(state).spec_capacity() == old(state).spec_capacity(),
        status == 200 <==> !old(state).is_closed(),
        status == 200 ==> final(state)@ == old(state)@.push(arg),
        status == 500 ==> final(state)@ == old(state)@,
{
    if state.send(arg) {
        200
    } else {
        500
    }
}

} // verus!
