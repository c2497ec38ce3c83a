//! The sample sink: a thread-safe FIFO of encoded sample blobs, provided by
//! the crossbeam queue. Self-play producers push blobs; a writer outside the
//! core pops them and persists them.

use vstd::prelude::*;
use crossbeam_queue::SegQueue;

verus! {

/// Declares crossbeam_queue::SegQueue, the sink's queue type, so that it
/// can stand in signatures; its values are opaque to the proofs.
#[verifier::external_type_specification]
#[verifier::external_body]
#[verifier::reject_recursive_types(T)]
pub struct ExSegQueue<T>(SegQueue<T>);

/// The byte blobs a sample queue holds, oldest first.
pub uninterp spec fn queue_contents(q: SegQueue<Vec<u8>>) -> Seq<Seq<u8>>;

/// Relies on crossbeam_queue::SegQueue::push: appends at the tail; the
/// queue is unbounded, so a push always succeeds.
#[verifier::external_body]
pub fn queue_push(q: &mut SegQueue<Vec<u8>>, blob: Vec<u8>)
    ensures
        queue_contents(*final(q)) == queue_contents(*old(q)).push(blob@),
{
    q.push(blob)
}

} // verus!
