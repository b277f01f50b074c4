//! The communicator contract, and the transport that simulates ranks inside one process.

use crate::channel::{
    barrier_parties, dequeue, enqueue, new_rendezvous, open_queue, receiver_queue, rendezvous,
    sender_queue, share_sender,
};
use std::sync::mpsc::{Receiver, Sender};
use std::sync::{Arc, Barrier};
use vstd::prelude::*;
use vstd::slice::slice_to_vec;

verus! {

/// Where a datagram peer listens, as given on the command line.
#[derive(Debug, Clone, Default)]
pub struct UdpArguments {
    pub server_address: String,
}

/// Why a communicator call did not complete.
#[derive(Clone, Copy, Debug, PartialEq, Eq, Structural)]
pub enum CommError {
    /// The rank addressed is not one of `0..size`.
    InvalidRank,
    /// The transport could not deliver or obtain a message.
    Transport,
    /// The message that arrived does not fill the buffer exactly.
    LengthMismatch,
    /// The transport offers no barrier.
    BarrierUnsupported,
}

/// One call made on a communicator: what it was given and how it ended.
///
/// For `Recv`, `payload` is what the buffer held when the call returned.
pub enum Call {
    Send { dest: u32, payload: Seq<u8>, outcome: Result<(), CommError> },
    Recv { source: u32, payload: Seq<u8>, outcome: Result<(), CommError> },
    Barrier { outcome: Result<(), CommError> },
}

/// The five operations that every transport offers.
///
/// A communicator keeps, as ghost state, the list of calls made on it. Each operation that can
/// fail appends exactly one entry, so a caller's contract can say which calls it made, in which
/// order and with which bytes. Rank and size never change.
pub trait TestCommunicator {
    /// The rank of this participant.
    spec fn spec_rank(&self) -> u32;

    /// The number of participants.
    spec fn spec_size(&self) -> u32;

    /// Every call of `send`, `recv` and `barrier` made so far, oldest first.
    spec fn calls(&self) -> Seq<Call>;

    fn rank(&self) -> (r: u32)
        ensures
            r == self.spec_rank(),
    ;

    fn size(&self) -> (n: u32)
        ensures
            n == self.spec_size(),
    ;

    /// Transmits all of `buffer` to `dest` and returns once it is handed over.
    fn send(&mut self, buffer: &[u8], dest: u32) -> (res: Result<(), CommError>)
        ensures
            final(self).spec_rank() == old(self).spec_rank(),
            final(self).spec_size() == old(self).spec_size(),
            final(self).calls() == old(self).calls().push(
                Call::Send { dest, payload: buffer@, outcome: res },
            ),
            res is Ok ==> dest < old(self).spec_size(),
    ;

    /// Waits for a message and fills `buffer` with it, which keeps its length.
    fn recv(&mut self, buffer: &mut [u8], source: u32) -> (res: Result<(), CommError>)
        ensures
            final(self).spec_rank() == old(self).spec_rank(),
            final(self).spec_size() == old(self).spec_size(),
            final(buffer)@.len() == old(buffer)@.len(),
            final(self).calls() == old(self).calls().push(
                Call::Recv { source, payload: final(buffer)@, outcome: res },
            ),
    ;

    /// Waits until every participant has called it.
    fn barrier(&mut self) -> (res: Result<(), CommError>)
        ensures
            final(self).spec_rank() == old(self).spec_rank(),
            final(self).spec_size() == old(self).spec_size(),
            final(self).calls() == old(self).calls().push(Call::Barrier { outcome: res }),
    ;
}

/// What a receive makes of what the queue or the socket handed over: a message must fill the
/// buffer of `len` bytes exactly.
pub open spec fn delivery(message: Option<Seq<u8>>, len: nat) -> Result<(), CommError> {
    match message {
        None => Err(CommError::Transport),
        Some(bytes) => if bytes.len() == len {
            Ok(())
        } else {
            Err(CommError::LengthMismatch)
        },
    }
}

/// The bytes of the message that a queue or a socket handed over, if it handed one over.
pub open spec fn contents(message: Option<Vec<u8>>) -> Option<Seq<u8>> {
    match message {
        Some(bytes) => Some(bytes@),
        None => None,
    }
}

/// Copies `message` into `buffer` if it fills the buffer exactly, and leaves the buffer as it is
/// otherwise.
pub fn deliver(message: Option<Vec<u8>>, buffer: &mut [u8]) -> (res: Result<(), CommError>)
    ensures
        res == delivery(contents(message), old(buffer)@.len()),
        res is Ok ==> contents(message) == Some(final(buffer)@),
        res is Err ==> final(buffer)@ == old(buffer)@,
{
    match message {
        None => Err(CommError::Transport),
        Some(bytes) => {
            let n: usize = buffer.len();
            if bytes.len() != n {
                return Err(CommError::LengthMismatch);
            }
            let mut i: usize = 0;
            while i < n
                invariant
                    i <= n,
                    n == bytes@.len(),
                    buffer@.len() == n,
                    forall|k: int| 0 <= k < i ==> buffer@[k] == bytes@[k],
                decreases n - i,
            {
                buffer[i] = bytes[i];
                i += 1;
            }
            Ok(())
        },
    }
}

/// A participant of the in-process simulation: one inbound queue, one outbound handle per rank,
/// and the rendezvous shared with the other participants.
pub struct ChannelSimCommunicator {
    rank: u32,
    senders: Vec<Sender<Vec<u8>>>,
    receivers: Receiver<Vec<u8>>,
    barrier: Arc<Barrier>,
    log: Ghost<Seq<Call>>,
}

impl ChannelSimCommunicator {
    #[verifier::type_invariant]
    spec fn wf(self) -> bool {
        &&& self.senders@.len() <= u32::MAX
        &&& self.rank < self.senders@.len()
    }

    /// The queue that this participant receives from.
    pub closed spec fn inbound(&self) -> int {
        receiver_queue(self.receivers)
    }

    /// The queue that a message sent to `dest` is put on.
    pub closed spec fn outbound(&self, dest: int) -> int
        recommends
            0 <= dest < self.spec_size(),
    {
        sender_queue(self.senders@[dest])
    }

    /// The number of callers that the shared rendezvous waits for.
    pub closed spec fn barrier_size(&self) -> nat {
        barrier_parties(*self.barrier)
    }

    /// Whether two participants wait at the same rendezvous.
    pub closed spec fn shares_barrier(&self, other: &ChannelSimCommunicator) -> bool {
        self.barrier == other.barrier
    }

    /// This participant receives from the queue, sends to the queues and waits at the
    /// rendezvous that `other` does.
    pub open spec fn wired_as(&self, other: &ChannelSimCommunicator) -> bool {
        &&& self.spec_size() == other.spec_size()
        &&& self.inbound() == other.inbound()
        &&& forall|dest: int|
            0 <= dest < self.spec_size() ==> self.outbound(dest) == other.outbound(dest)
        &&& self.shares_barrier(other)
        &&& self.barrier_size() == other.barrier_size()
    }

    /// A send of `buffer` to `dest` that ended with `res` led from `before` to here: it is
    /// recorded, it failed with `InvalidRank` exactly where `dest` is no rank of the simulation
    /// and with nothing but `Transport` otherwise, and the participant is wired as before.
    pub open spec fn after_send(
        &self,
        before: &ChannelSimCommunicator,
        buffer: Seq<u8>,
        dest: u32,
        res: Result<(), CommError>,
    ) -> bool {
        &&& self.spec_rank() == before.spec_rank()
        &&& self.wired_as(before)
        &&& self.calls() == before.calls().push(Call::Send { dest, payload: buffer, outcome: res })
        &&& res == Err::<(), CommError>(CommError::InvalidRank) <==> dest >= before.spec_size()
        &&& res is Err ==> res->Err_0 == CommError::InvalidRank || res->Err_0
            == CommError::Transport
    }

    /// A receive that ended with `res` led from `before` to here, and its buffer from `held` to
    /// `holds`: it is recorded, it ended as `delivery` has it for what the queue answered, the
    /// buffer holds the message if it succeeded and what it held if it failed, and the
    /// participant is wired as before.
    pub open spec fn after_recv(
        &self,
        before: &ChannelSimCommunicator,
        held: Seq<u8>,
        holds: Seq<u8>,
        source: u32,
        res: Result<(), CommError>,
    ) -> bool {
        &&& self.spec_rank() == before.spec_rank()
        &&& self.wired_as(before)
        &&& self.calls() == before.calls().push(Call::Recv { source, payload: holds, outcome: res })
        &&& holds.len() == held.len()
        &&& res is Err ==> holds == held
        &&& exists|arrived: Option<Seq<u8>>|
            {
                &&& res == #[trigger] delivery(arrived, held.len())
                &&& res is Ok ==> arrived == Some(holds)
            }
    }

    /// A wait at the rendezvous that ended with `res` led from `before` to here: it is
    /// recorded, it succeeded, and the participant is wired as before.
    pub open spec fn after_barrier(
        &self,
        before: &ChannelSimCommunicator,
        res: Result<(), CommError>,
    ) -> bool {
        &&& self.spec_rank() == before.spec_rank()
        &&& self.wired_as(before)
        &&& self.calls() == before.calls().push(Call::Barrier { outcome: res })
        &&& res is Ok
    }

    /// Builds the `n` participants of a simulation in which every rank can reach every rank.
    ///
    /// Participant `i` has rank `i`. Whatever any participant sends to rank `j` is put on the
    /// queue that participant `j` receives from, and all of them wait at one rendezvous for
    /// `n` callers.
    pub fn create_n_2_n(n: u32) -> (comms: Vec<ChannelSimCommunicator>)
        ensures
            comms@.len() == n,
            forall|i: int|
                0 <= i < n ==> {
                    &&& (#[trigger] comms@[i]).spec_rank() == i
                    &&& comms@[i].spec_size() == n
                    &&& comms@[i].calls() == Seq::<Call>::empty()
                    &&& comms@[i].barrier_size() == n
                    &&& comms@[i].shares_barrier(&comms@[0])
                },
            forall|i: int, j: int|
                0 <= i < n && 0 <= j < n ==> #[trigger] comms@[i].outbound(j) == comms@[j].inbound(),
    {
        let barrier = Arc::new(new_rendezvous(n as usize));
        let mut senders: Vec<Sender<Vec<u8>>> = Vec::new();
        let mut receivers: Vec<Receiver<Vec<u8>>> = Vec::new();
        let mut k: u32 = 0;
        while k < n
            invariant
                k <= n,
                senders@.len() == k,
                receivers@.len() == k,
                forall|j: int|
                    0 <= j < k ==> sender_queue(#[trigger] senders@[j]) == receiver_queue(
                        receivers@[j],
                    ),
            decreases n - k,
        {
            let (sender, receiver) = open_queue();
            senders.push(sender);
            receivers.push(receiver);
            k += 1;
        }
        let ghost inbound = receivers@;
        let mut comms: Vec<ChannelSimCommunicator> = Vec::new();
        let mut rank: u32 = 0;
        for receiver in it: receivers
            invariant
                rank == it.index(),
                it.seq() == inbound,
                inbound.len() == n,
                senders@.len() == n,
                barrier_parties(*barrier) == n,
                forall|j: int|
                    0 <= j < n ==> sender_queue(#[trigger] senders@[j]) == receiver_queue(
                        inbound[j],
                    ),
                comms@.len() == rank,
                forall|i: int|
                    0 <= i < rank ==> {
                        &&& (#[trigger] comms@[i]).rank == i
                        &&& comms@[i].senders@.len() == n
                        &&& comms@[i].log@ == Seq::<Call>::empty()
                        &&& comms@[i].barrier == barrier
                        &&& comms@[i].receivers == inbound[i]
                        &&& forall|j: int|
                            0 <= j < n ==> sender_queue(#[trigger] comms@[i].senders@[j])
                                == sender_queue(senders@[j])
                    },
        {
            let mut cloned_senders: Vec<Sender<Vec<u8>>> = Vec::new();
            let mut j: usize = 0;
            while j < senders.len()
                invariant
                    j <= senders@.len(),
                    cloned_senders@.len() == j,
                    forall|m: int|
                        0 <= m < j ==> sender_queue(#[trigger] cloned_senders@[m]) == sender_queue(
                            senders@[m],
                        ),
                decreases senders@.len() - j,
            {
                cloned_senders.push(share_sender(&senders[j]));
                j += 1;
            }
            let comm = ChannelSimCommunicator {
                rank,
                senders: cloned_senders,
                receivers: receiver,
                barrier: barrier.clone(),
                log: Ghost(Seq::empty()),
            };
            comms.push(comm);
            rank += 1;
        }
        comms
    }
}

impl TestCommunicator for ChannelSimCommunicator {
    closed spec fn spec_rank(&self) -> u32 {
        self.rank
    }

    closed spec fn spec_size(&self) -> u32 {
        self.senders@.len() as u32
    }

    closed spec fn calls(&self) -> Seq<Call> {
        self.log@
    }

    fn rank(&self) -> (r: u32)
        ensures
            r < self.spec_size(),
    {
        proof {
            use_type_invariant(self);
        }
        self.rank
    }

    fn size(&self) -> (n: u32)
        ensures
            n >= 1,
    {
        proof {
            use_type_invariant(self);
        }
        self.senders.len() as u32
    }

    /// Puts a copy of `buffer` on the queue of `dest`. Fails with `InvalidRank` exactly when
    /// `dest` is no rank of the simulation, and with `Transport` only when that participant is
    /// gone.
    fn send(&mut self, buffer: &[u8], dest: u32) -> (res: Result<(), CommError>)
        ensures
            res == Err::<(), CommError>(CommError::InvalidRank) <==> dest >= old(self).spec_size(),
            res is Err ==> res->Err_0 == CommError::InvalidRank || res->Err_0
                == CommError::Transport,
            final(self).wired_as(old(self)),
    {
        proof {
            use_type_invariant(&*self);
        }
        let res = if (dest as usize) < self.senders.len() {
            if enqueue(&self.senders[dest as usize], slice_to_vec(buffer)) {
                Ok(())
            } else {
                Err(CommError::Transport)
            }
        } else {
            Err(CommError::InvalidRank)
        };
        proof {
            self.log@ = self.log@.push(Call::Send { dest, payload: buffer@, outcome: res });
        }
        res
    }

    /// Takes the oldest message off the inbound queue, whoever sent it, and copies it into
    /// `buffer` if it fills the buffer exactly: what is made of the queue's answer is what
    /// `deliver` makes of it. The queue answers with nothing when no participant is left to
    /// send.
    fn recv(&mut self, buffer: &mut [u8], source: u32) -> (res: Result<(), CommError>)
        ensures
            res is Err ==> final(buffer)@ == old(buffer)@,
            exists|arrived: Option<Seq<u8>>|
                {
                    &&& res == #[trigger] delivery(arrived, old(buffer)@.len())
                    &&& res is Ok ==> arrived == Some(final(buffer)@)
                },
            final(self).wired_as(old(self)),
    {
        proof {
            use_type_invariant(&*self);
        }
        let arrived = dequeue(&self.receivers);
        let ghost witness = contents(arrived);
        let res = deliver(arrived, buffer);
        assert(res == delivery(witness, old(buffer)@.len()));
        proof {
            self.log@ = self.log@.push(Call::Recv { source, payload: buffer@, outcome: res });
        }
        res
    }

    /// Waits at the shared rendezvous, and succeeds whenever it returns.
    fn barrier(&mut self) -> (res: Result<(), CommError>)
        ensures
            res is Ok,
            final(self).wired_as(old(self)),
    {
        proof {
            use_type_invariant(&*self);
        }
        rendezvous(&self.barrier);
        let res = Ok(());
        proof {
            self.log@ = self.log@.push(Call::Barrier { outcome: res });
        }
        res
    }
}

} // verus!
