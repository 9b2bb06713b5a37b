//! What the window needs of `VecDeque` beyond what vstd says of it.

use std::collections::VecDeque;
use vstd::prelude::*;

verus! {

/// `VecDeque`'s `IndexMut`: an assignment through `deque[index]` puts the
/// value in that place and leaves the other elements as they are. Nothing
/// here is proved. An index past the end panics, so the caller keeps it
/// within the deque.
#[verifier::external_body]
pub(crate) fn set_at<T>(deque: &mut VecDeque<T>, index: usize, value: T)
    requires
        index < old(deque)@.len(),
    ensures
        final(deque)@ == old(deque)@.update(index as int, value),
{
    deque[index] = value;
}

} // verus!
