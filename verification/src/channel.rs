//! In-process queues and the rendezvous that the simulated transport is built from.

use std::sync::mpsc::{Receiver, Sender};
use std::sync::Barrier;
use vstd::prelude::*;

verus! {

/// `std::sync::mpsc::Sender`: a handle that puts messages on a queue.
#[verifier::external_type_specification]
#[verifier::external_body]
#[verifier::reject_recursive_types(T)]
pub struct ExSender<T>(Sender<T>);

/// `std::sync::mpsc::Receiver`: the handle that takes messages off a queue.
#[verifier::external_type_specification]
#[verifier::external_body]
#[verifier::reject_recursive_types(T)]
pub struct ExReceiver<T>(Receiver<T>);

/// `std::sync::Barrier`: a rendezvous for a fixed number of callers.
#[verifier::external_type_specification]
#[verifier::external_body]
pub struct ExBarrier(Barrier);

/// The queue that a sending handle feeds. Handles of one queue agree on it; nothing else is
/// known of it.
pub uninterp spec fn sender_queue(handle: Sender<Vec<u8>>) -> int;

/// The queue that a receiving handle drains.
pub uninterp spec fn receiver_queue(handle: Receiver<Vec<u8>>) -> int;

/// The number of callers that a barrier was made for.
pub uninterp spec fn barrier_parties(barrier: Barrier) -> nat;

/// `std::sync::mpsc::channel`: the two handles returned belong to one queue.
#[verifier::external_body]
pub(crate) fn open_queue() -> (ends: (Sender<Vec<u8>>, Receiver<Vec<u8>>))
    ensures
        sender_queue(ends.0) == receiver_queue(ends.1),
{
    std::sync::mpsc::channel()
}

/// `Sender::clone`: the copy feeds the queue that `handle` feeds.
#[verifier::external_body]
pub(crate) fn share_sender(handle: &Sender<Vec<u8>>) -> (copy: Sender<Vec<u8>>)
    ensures
        sender_queue(copy) == sender_queue(*handle),
{
    handle.clone()
}

/// `Sender::send`: whether the message was queued, which it is not once the receiving end is
/// gone. Nothing is claimed of which of the two happens.
#[verifier::external_body]
pub(crate) fn enqueue(handle: &Sender<Vec<u8>>, message: Vec<u8>) -> (queued: bool)
{
    handle.send(message).is_ok()
}

/// `Receiver::recv`: the oldest queued message, waiting for one if there is none, or nothing
/// once every sending end is gone and the queue is empty. Nothing is claimed of the message.
#[verifier::external_body]
pub(crate) fn dequeue(handle: &Receiver<Vec<u8>>) -> (message: Option<Vec<u8>>)
{
    handle.recv().ok()
}

/// `Barrier::new`: a rendezvous for `parties` callers.
#[verifier::external_body]
pub(crate) fn new_rendezvous(parties: usize) -> (barrier: Barrier)
    ensures
        barrier_parties(barrier) == parties,
{
    Barrier::new(parties)
}

/// `Barrier::wait`: returns once as many callers as the barrier was made for are waiting.
/// Nothing is claimed of when that is.
#[verifier::external_body]
pub(crate) fn rendezvous(barrier: &Barrier)
{
    barrier.wait();
}

} // verus!
