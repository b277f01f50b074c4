//! The five operations in their plain form, and the adapter that puts a transport of that
//! form behind the communicator contract.

use crate::communicator::{self, Call, ChannelSimCommunicator, CommError};
use vstd::prelude::*;

verus! {

/// The five operations in their plain form: the form of the transports of this crate that
/// rest on a socket or a process group, and of any transport written outside it.
///
/// A transport tells its rank and its size, and keeps, as ghost state, the list of the calls of
/// `send`, `recv` and `barrier` made on it. What else the communicator contract needs,
/// `Recorded` establishes around an implementation: that rank and size stay what they are,
/// and that a send reaches none but a rank of the transport.
///
/// An implementation outside this crate cannot keep ghost state, and inherits the three spec
/// functions as they stand here: of such an implementation the clauses of the five operations
/// are taken on trust.
pub trait Transport {
    /// The rank that this transport tells.
    open spec fn told_rank(&self) -> u32 {
        arbitrary()
    }

    /// The size that this transport tells.
    open spec fn told_size(&self) -> u32 {
        arbitrary()
    }

    /// Every call of `send`, `recv` and `barrier` made on this transport so far, oldest first.
    open spec fn handled(&self) -> Seq<Call> {
        arbitrary()
    }

    fn rank(&self) -> (r: u32)
        ensures
            r == self.told_rank(),
    ;

    fn size(&self) -> (n: u32)
        ensures
            n == self.told_size(),
    ;

    fn send(&mut self, buffer: &[u8], dest: u32) -> (res: Result<(), CommError>)
        ensures
            final(self).handled() == old(self).handled().push(
                Call::Send { dest, payload: buffer@, outcome: res },
            ),
    ;

    fn recv(&mut self, buffer: &mut [u8], source: u32) -> (res: Result<(), CommError>)
        ensures
            final(buffer)@.len() == old(buffer)@.len(),
            final(self).handled() == old(self).handled().push(
                Call::Recv { source, payload: final(buffer)@, outcome: res },
            ),
    ;

    fn barrier(&mut self) -> (res: Result<(), CommError>)
        ensures
            final(self).handled() == old(self).handled().push(Call::Barrier { outcome: res }),
    ;
}

/// A transport behind the communicator contract.
///
/// Rank and size are asked of the transport once, at construction, and stay what they were
/// then. A send to a rank that is not below that size is refused before it reaches the
/// transport; every other call is handed on to the transport as it came. Every call is
/// recorded with its outcome.
pub struct Recorded<T> {
    inner: T,
    rank: u32,
    size: u32,
    log: Ghost<Seq<Call>>,
}

impl<T: Transport> Recorded<T> {
    /// The calls that were handed on to the transport, oldest first.
    pub closed spec fn handed_on(&self) -> Seq<Call> {
        self.inner.handled()
    }

    /// Puts `inner` behind the contract, with the rank and the size that it tells now and no
    /// call recorded. No call is handed on to it.
    pub fn new(inner: T) -> (recorded: Self)
        ensures
            communicator::TestCommunicator::spec_rank(&recorded) == inner.told_rank(),
            communicator::TestCommunicator::spec_size(&recorded) == inner.told_size(),
            communicator::TestCommunicator::calls(&recorded) == Seq::<Call>::empty(),
            recorded.handed_on() == inner.handled(),
    {
        let rank = inner.rank();
        let size = inner.size();
        Recorded { inner, rank, size, log: Ghost(Seq::empty()) }
    }
}

impl<T: Transport> communicator::TestCommunicator for Recorded<T> {
    closed spec fn spec_rank(&self) -> u32 {
        self.rank
    }

    closed spec fn spec_size(&self) -> u32 {
        self.size
    }

    closed spec fn calls(&self) -> Seq<Call> {
        self.log@
    }

    fn rank(&self) -> (r: u32) {
        self.rank
    }

    fn size(&self) -> (n: u32) {
        self.size
    }

    /// Fails with `InvalidRank`, without a call of the transport, when `dest` is no rank;
    /// otherwise hands the send on as it came and returns what the transport answers.
    fn send(&mut self, buffer: &[u8], dest: u32) -> (res: Result<(), CommError>)
        ensures
            dest >= communicator::TestCommunicator::spec_size(old(self)) ==> res == Err::<
                (),
                CommError,
            >(CommError::InvalidRank) && final(self).handed_on() == old(self).handed_on(),
            dest < communicator::TestCommunicator::spec_size(old(self)) ==> final(self).handed_on()
                == old(self).handed_on().push(Call::Send { dest, payload: buffer@, outcome: res }),
    {
        let res = if dest < self.size {
            self.inner.send(buffer, dest)
        } else {
            Err(CommError::InvalidRank)
        };
        proof {
            self.log@ = self.log@.push(Call::Send { dest, payload: buffer@, outcome: res });
        }
        res
    }

    /// Hands the receive on as it came and returns what the transport answers.
    fn recv(&mut self, buffer: &mut [u8], source: u32) -> (res: Result<(), CommError>)
        ensures
            final(self).handed_on() == old(self).handed_on().push(
                Call::Recv { source, payload: final(buffer)@, outcome: res },
            ),
    {
        let res = self.inner.recv(buffer, source);
        proof {
            self.log@ = self.log@.push(Call::Recv { source, payload: buffer@, outcome: res });
        }
        res
    }

    /// Hands the wait on and returns what the transport answers.
    fn barrier(&mut self) -> (res: Result<(), CommError>)
        ensures
            final(self).handed_on() == old(self).handed_on().push(Call::Barrier { outcome: res }),
    {
        let res = self.inner.barrier();
        proof {
            self.log@ = self.log@.push(Call::Barrier { outcome: res });
        }
        res
    }
}

/// A simulated participant is a transport like any other: each operation is the
/// communicator's own, with all that the communicator's own ensures.
impl Transport for ChannelSimCommunicator {
    open spec fn told_rank(&self) -> u32 {
        communicator::TestCommunicator::spec_rank(self)
    }

    open spec fn told_size(&self) -> u32 {
        communicator::TestCommunicator::spec_size(self)
    }

    open spec fn handled(&self) -> Seq<Call> {
        communicator::TestCommunicator::calls(self)
    }

    /// The rank of the participant, which is one of the simulation's.
    fn rank(&self) -> (r: u32)
        ensures
            r == communicator::TestCommunicator::spec_rank(self),
            r < communicator::TestCommunicator::spec_size(self),
    {
        communicator::TestCommunicator::rank(self)
    }

    /// The number of participants of the simulation, which has one at least.
    fn size(&self) -> (n: u32)
        ensures
            n == communicator::TestCommunicator::spec_size(self),
            n >= 1,
    {
        communicator::TestCommunicator::size(self)
    }

    /// Puts a copy of `buffer` on the queue of `dest` and records the call.
    fn send(&mut self, buffer: &[u8], dest: u32) -> (res: Result<(), CommError>)
        ensures
            final(self).after_send(old(self), buffer@, dest, res),
    {
        communicator::TestCommunicator::send(self, buffer, dest)
    }

    /// Takes the oldest message off the inbound queue, copies it into `buffer` if it fills the
    /// buffer exactly, and records the call.
    fn recv(&mut self, buffer: &mut [u8], source: u32) -> (res: Result<(), CommError>)
        ensures
            final(self).after_recv(old(self), old(buffer)@, final(buffer)@, source, res),
    {
        communicator::TestCommunicator::recv(self, buffer, source)
    }

    /// Waits at the shared rendezvous and records the call.
    fn barrier(&mut self) -> (res: Result<(), CommError>)
        ensures
            final(self).after_barrier(old(self), res),
    {
        communicator::TestCommunicator::barrier(self)
    }
}

} // verus!
