//! The collective transport: the ranks of a process group that code outside this crate has
//! set up. What the group does is left to the caller; what it is handed and asked for, and
//! what is made of its answers, is decided here.

use crate::communicator::{contents, deliver, delivery, Call, CommError};
use crate::transport::Transport;
use vstd::prelude::*;

verus! {

/// A group of processes as code outside this crate provides it, with the ranks and the
/// point-to-point operations of the message passing interface.
///
/// A group reports its rank and its size, and keeps, as ghost state, what it was handed to
/// send, which receives it was asked for and how often it was asked to wait at its barrier. An
/// implementation outside this crate cannot keep such state, and inherits the spec functions
/// as they stand here: of such an implementation the clauses of the five operations are taken
/// on trust.
pub trait ProcessGroup {
    /// The rank that the group reports for this process.
    open spec fn reported_rank(&self) -> i32 {
        arbitrary()
    }

    /// The number of processes that the group reports.
    open spec fn reported_size(&self) -> i32 {
        arbitrary()
    }

    /// Every message that the group was handed to send, with the rank it was addressed to,
    /// oldest first.
    open spec fn handed(&self) -> Seq<(i32, Seq<u8>)> {
        arbitrary()
    }

    /// Every receive that the group was asked for, as the rank to receive from and the limit,
    /// oldest first.
    open spec fn asked(&self) -> Seq<(i32, usize)> {
        arbitrary()
    }

    /// The number of times that the group was asked to wait at its barrier.
    open spec fn waits(&self) -> nat {
        arbitrary()
    }

    /// The rank of this process in the group.
    fn rank(&self) -> (r: i32)
        ensures
            r == self.reported_rank(),
    ;

    /// The number of processes in the group.
    fn size(&self) -> (n: i32)
        ensures
            n == self.reported_size(),
    ;

    /// Sends `buffer` to the process of `rank` and returns once it is handed over.
    fn send_to(&mut self, rank: i32, buffer: &[u8])
        ensures
            final(self).handed() == old(self).handed().push((rank, buffer@)),
            final(self).asked() == old(self).asked(),
            final(self).waits() == old(self).waits(),
    ;

    /// Waits for a message of the process of `rank` and returns its first `limit` bytes at
    /// most.
    fn receive_from(&mut self, rank: i32, limit: usize) -> (message: Vec<u8>)
        ensures
            final(self).asked() == old(self).asked().push((rank, limit)),
            final(self).handed() == old(self).handed(),
            final(self).waits() == old(self).waits(),
    ;

    /// Waits until every process of the group has called it.
    fn barrier(&mut self)
        ensures
            final(self).waits() == old(self).waits() + 1,
            final(self).handed() == old(self).handed(),
            final(self).asked() == old(self).asked(),
    ;
}

/// A rank or a size that a group reports, as the unsigned number that the contract counts in:
/// the number itself, or, for a negative one, the unsigned number of the same thirty-two bits.
pub open spec fn count_of(reported: i32) -> u32 {
    reported as u32
}

/// The number by which a group knows the rank `rank`: the number itself, or, beyond the
/// largest that a group counts to, the signed number of the same thirty-two bits.
pub open spec fn group_rank(rank: u32) -> i32 {
    rank as i32
}

/// A rank or a size that a group reports, as the unsigned number that the contract counts in.
pub fn to_count(reported: i32) -> (count: u32)
    ensures
        count == count_of(reported),
        reported >= 0 ==> count == reported,
{
    #[verifier::truncate]
    (reported as u32)
}

/// The number by which a group knows the rank `rank`.
pub fn to_group_rank(rank: u32) -> (known: i32)
    ensures
        known == group_rank(rank),
        rank <= i32::MAX ==> known == rank,
{
    #[verifier::truncate]
    (rank as i32)
}

/// A participant of a process group, with the rank and the size that the group reported when
/// the participant was made.
pub struct MpiCommunicator<G> {
    comm: G,
    rank: i32,
    size: i32,
    log: Ghost<Seq<Call>>,
}

impl<G: ProcessGroup> MpiCommunicator<G> {
    /// The rank of this participant.
    pub closed spec fn spec_rank(&self) -> u32 {
        count_of(self.rank)
    }

    /// The number of participants.
    pub closed spec fn spec_size(&self) -> u32 {
        count_of(self.size)
    }

    /// Every message that the group was handed to send, with the rank it was addressed to,
    /// oldest first.
    pub closed spec fn outbox(&self) -> Seq<(i32, Seq<u8>)> {
        self.comm.handed()
    }

    /// Every receive that the group was asked for, as the rank to receive from and the limit,
    /// oldest first.
    pub closed spec fn asked(&self) -> Seq<(i32, usize)> {
        self.comm.asked()
    }

    /// The number of times that the group was asked to wait at its barrier.
    pub closed spec fn waits(&self) -> nat {
        self.comm.waits()
    }

    /// Every call of `send`, `recv` and `barrier` made on this participant so far, oldest
    /// first.
    pub closed spec fn calls(&self) -> Seq<Call> {
        self.log@
    }

    /// The participant that `comm` is in its group: its rank and its size are those that the
    /// group reports. The group is handed nothing, asked for nothing and not made to wait.
    pub fn create(comm: G) -> (communicator: Self)
        ensures
            communicator.calls() == Seq::<Call>::empty(),
            communicator.spec_rank() == count_of(comm.reported_rank()),
            communicator.spec_size() == count_of(comm.reported_size()),
            communicator.outbox() == comm.handed(),
            communicator.asked() == comm.asked(),
            communicator.waits() == comm.waits(),
    {
        let rank = comm.rank();
        let size = comm.size();
        MpiCommunicator { comm, rank, size, log: Ghost(Seq::empty()) }
    }
}

impl<G: ProcessGroup> Transport for MpiCommunicator<G> {
    open spec fn told_rank(&self) -> u32 {
        self.spec_rank()
    }

    open spec fn told_size(&self) -> u32 {
        self.spec_size()
    }

    open spec fn handled(&self) -> Seq<Call> {
        self.calls()
    }

    fn rank(&self) -> (r: u32)
        ensures
            r == self.spec_rank(),
    {
        to_count(self.rank)
    }

    fn size(&self) -> (n: u32)
        ensures
            n == self.spec_size(),
    {
        to_count(self.size)
    }

    /// Hands `buffer` to the group for the rank `dest`, and succeeds once the group returns.
    /// Fails with `InvalidRank`, handing the group nothing, exactly when `dest` is no rank of
    /// the group.
    fn send(&mut self, buffer: &[u8], dest: u32) -> (res: Result<(), CommError>)
        ensures
            final(self).spec_rank() == old(self).spec_rank(),
            final(self).spec_size() == old(self).spec_size(),
            res == if dest < old(self).spec_size() {
                Ok::<(), CommError>(())
            } else {
                Err::<(), CommError>(CommError::InvalidRank)
            },
            final(self).outbox() == if dest < old(self).spec_size() {
                old(self).outbox().push((group_rank(dest), buffer@))
            } else {
                old(self).outbox()
            },
            final(self).asked() == old(self).asked(),
            final(self).waits() == old(self).waits(),
    {
        let res = if dest < to_count(self.size) {
            self.comm.send_to(to_group_rank(dest), buffer);
            Ok(())
        } else {
            Err(CommError::InvalidRank)
        };
        proof {
            self.log@ = self.log@.push(Call::Send { dest, payload: buffer@, outcome: res });
        }
        res
    }

    /// Asks the group, once, for a message of the rank `source`, of the buffer's length at
    /// most, and copies it into `buffer` if it fills the buffer exactly: what is made of the
    /// group's answer is what `deliver` makes of a message. Fails with `InvalidRank`, asking
    /// the group nothing, exactly when `source` is no rank of the group.
    fn recv(&mut self, buffer: &mut [u8], source: u32) -> (res: Result<(), CommError>)
        ensures
            final(self).spec_rank() == old(self).spec_rank(),
            final(self).spec_size() == old(self).spec_size(),
            final(self).outbox() == old(self).outbox(),
            final(self).waits() == old(self).waits(),
            final(self).asked() == if source < old(self).spec_size() {
                old(self).asked().push((group_rank(source), old(buffer)@.len() as usize))
            } else {
                old(self).asked()
            },
            res is Err ==> final(buffer)@ == old(buffer)@,
            source >= old(self).spec_size() ==> res == Err::<(), CommError>(
                CommError::InvalidRank,
            ),
            source < old(self).spec_size() ==> exists|arrived: Seq<u8>|
                {
                    &&& res == #[trigger] delivery(Some(arrived), old(buffer)@.len())
                    &&& res is Ok ==> arrived == final(buffer)@
                },
    {
        let res = if source < to_count(self.size) {
            let arrived = Some(self.comm.receive_from(to_group_rank(source), buffer.len()));
            let ghost witness = contents(arrived)->Some_0;
            let res = deliver(arrived, buffer);
            assert(res == delivery(Some(witness), old(buffer)@.len()));
            res
        } else {
            Err(CommError::InvalidRank)
        };
        proof {
            self.log@ = self.log@.push(Call::Recv { source, payload: buffer@, outcome: res });
        }
        res
    }

    /// Asks the group, once, to wait at its barrier, and succeeds once the group returns. The
    /// group is handed nothing and asked for nothing.
    fn barrier(&mut self) -> (res: Result<(), CommError>)
        ensures
            res is Ok,
            final(self).spec_rank() == old(self).spec_rank(),
            final(self).spec_size() == old(self).spec_size(),
            final(self).outbox() == old(self).outbox(),
            final(self).asked() == old(self).asked(),
            final(self).waits() == old(self).waits() + 1,
    {
        self.comm.barrier();
        let res = Ok(());
        proof {
            self.log@ = self.log@.push(Call::Barrier { outcome: res });
        }
        res
    }
}

} // verus!
