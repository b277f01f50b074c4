//! The datagram transports: one socket per participant, addressed through the table of the
//! participants' endpoints. What the socket does is left to the caller; what it is handed and
//! asked for, and what is made of its answers, is decided here.

use crate::communicator::{contents, deliver, delivery, Call, CommError};
use crate::topology::{endpoint_of, AddressTable, Endpoint};
use crate::transport::Transport;
use vstd::prelude::*;

verus! {

/// One datagram socket as code outside this crate provides it, blocking or driven by an event
/// loop.
///
/// A socket keeps, as ghost state, what it was handed to send and what it was asked to
/// receive. An implementation outside this crate cannot keep such state, and inherits the two
/// spec functions as they stand here: of such an implementation the clauses of `send_to` and
/// `recv_from` are taken on trust.
pub trait DatagramSocket {
    /// Every datagram that the socket was handed to send, with the endpoint it was addressed
    /// to, oldest first.
    open spec fn sent(&self) -> Seq<(Endpoint, Seq<u8>)> {
        arbitrary()
    }

    /// The limit of every receive that the socket was asked for, oldest first.
    open spec fn asked(&self) -> Seq<usize> {
        arbitrary()
    }

    /// Sends `buffer` to `to` as one datagram and returns the number of bytes sent, or nothing
    /// where sending failed.
    fn send_to(&mut self, buffer: &[u8], to: Endpoint) -> (written: Option<usize>)
        ensures
            final(self).sent() == old(self).sent().push((to, buffer@)),
            final(self).asked() == old(self).asked(),
    ;

    /// Waits for one datagram and returns its first `limit` bytes at most, or nothing where
    /// receiving failed. Who sent the datagram is not told.
    fn recv_from(&mut self, limit: usize) -> (datagram: Option<Vec<u8>>)
        ensures
            final(self).asked() == old(self).asked().push(limit),
            final(self).sent() == old(self).sent(),
    ;
}

/// What a send makes of the socket's answer: all of the message must have gone out.
pub open spec fn send_outcome(written: Option<usize>, len: nat) -> Result<(), CommError> {
    match written {
        Some(n) => if n == len {
            Ok(())
        } else {
            Err(CommError::Transport)
        },
        None => Err(CommError::Transport),
    }
}

/// Judges a send of `len` bytes by the socket's answer.
pub fn judge_send(written: Option<usize>, len: usize) -> (res: Result<(), CommError>)
    ensures
        res == send_outcome(written, len as nat),
{
    match written {
        Some(n) => if n == len {
            Ok(())
        } else {
            Err(CommError::Transport)
        },
        None => Err(CommError::Transport),
    }
}

/// A participant of a datagram transport: its rank, its socket, and the endpoints of all
/// participants. It has no barrier.
pub struct DatagramCommunicator<S> {
    rank: u32,
    socket: S,
    receiver: AddressTable,
    log: Ghost<Seq<Call>>,
}

impl<S: DatagramSocket> DatagramCommunicator<S> {
    /// The rank given at construction.
    pub closed spec fn spec_rank(&self) -> u32 {
        self.rank
    }

    /// The endpoints of the participants, by rank.
    pub closed spec fn table(&self) -> Seq<Endpoint> {
        self.receiver@
    }

    /// Every datagram that the socket was handed to send, with the endpoint it was addressed
    /// to, oldest first.
    pub closed spec fn outbox(&self) -> Seq<(Endpoint, Seq<u8>)> {
        self.socket.sent()
    }

    /// The limit of every receive that the socket was asked for, oldest first.
    pub closed spec fn asked(&self) -> Seq<usize> {
        self.socket.asked()
    }

    /// Every call of `send`, `recv` and `barrier` made on this participant so far, oldest
    /// first.
    pub closed spec fn calls(&self) -> Seq<Call> {
        self.log@
    }

    /// The participant `rank` of `n` on the loopback address, sending and receiving through
    /// `socket`, which the caller has bound to the endpoint of `rank`. The socket is handed
    /// nothing and asked for nothing.
    pub fn create_n_2_n(n: u32, rank: u32, socket: S) -> (communicator: Self)
        ensures
            communicator.spec_rank() == rank,
            communicator.calls() == Seq::<Call>::empty(),
            communicator.table().len() == n,
            forall|r: int|
                0 <= r < n ==> #[trigger] communicator.table()[r] == endpoint_of(r as u32),
            communicator.outbox() == socket.sent(),
            communicator.asked() == socket.asked(),
    {
        DatagramCommunicator {
            rank,
            socket,
            receiver: AddressTable::loopback(n),
            log: Ghost(Seq::empty()),
        }
    }
}

impl<S: DatagramSocket> Transport for DatagramCommunicator<S> {
    open spec fn told_rank(&self) -> u32 {
        self.spec_rank()
    }

    open spec fn told_size(&self) -> u32 {
        self.table().len() as u32
    }

    open spec fn handled(&self) -> Seq<Call> {
        self.calls()
    }

    fn rank(&self) -> (r: u32)
        ensures
            r == self.spec_rank(),
    {
        self.rank
    }

    fn size(&self) -> (n: u32)
        ensures
            n == self.table().len(),
    {
        self.receiver.size()
    }

    /// Hands `buffer` to the socket as one datagram for the endpoint of `dest`, and judges the
    /// socket's answer by `send_outcome`. Fails with `InvalidRank`, handing the socket nothing,
    /// when the table has no such rank. The socket is asked for nothing.
    fn send(&mut self, buffer: &[u8], dest: u32) -> (res: Result<(), CommError>)
        ensures
            final(self).spec_rank() == old(self).spec_rank(),
            final(self).table() == old(self).table(),
            final(self).asked() == old(self).asked(),
            dest >= old(self).table().len() ==> res == Err::<(), CommError>(CommError::InvalidRank)
                && final(self).outbox() == old(self).outbox(),
            dest < old(self).table().len() ==> final(self).outbox() == old(self).outbox().push(
                (old(self).table()[dest as int], buffer@),
            ) && exists|written: Option<usize>|
                res == #[trigger] send_outcome(written, buffer@.len()),
    {
        let res = match self.receiver.endpoint(dest) {
            None => Err(CommError::InvalidRank),
            Some(endpoint) => {
                let written = self.socket.send_to(buffer, endpoint);
                judge_send(written, buffer.len())
            },
        };
        proof {
            self.log@ = self.log@.push(Call::Send { dest, payload: buffer@, outcome: res });
        }
        res
    }

    /// Asks the socket, once, for one datagram of the buffer's length at most, whoever sent it,
    /// and copies it into `buffer` if it fills the buffer exactly: what is made of the socket's
    /// answer is what `deliver` makes of it. The socket is handed nothing.
    fn recv(&mut self, buffer: &mut [u8], source: u32) -> (res: Result<(), CommError>)
        ensures
            final(self).spec_rank() == old(self).spec_rank(),
            final(self).table() == old(self).table(),
            final(self).outbox() == old(self).outbox(),
            final(self).asked() == old(self).asked().push(old(buffer)@.len() as usize),
            res is Err ==> final(buffer)@ == old(buffer)@,
            exists|arrived: Option<Seq<u8>>|
                {
                    &&& res == #[trigger] delivery(arrived, old(buffer)@.len())
                    &&& res is Ok ==> arrived == Some(final(buffer)@)
                },
    {
        let arrived = self.socket.recv_from(buffer.len());
        let ghost witness = contents(arrived);
        let res = deliver(arrived, buffer);
        assert(res == delivery(witness, old(buffer)@.len()));
        proof {
            self.log@ = self.log@.push(Call::Recv { source, payload: buffer@, outcome: res });
        }
        res
    }

    /// Fails: a datagram transport has no barrier. The socket is left alone.
    fn barrier(&mut self) -> (res: Result<(), CommError>)
        ensures
            res == Err::<(), CommError>(CommError::BarrierUnsupported),
            final(self).spec_rank() == old(self).spec_rank(),
            final(self).table() == old(self).table(),
            final(self).outbox() == old(self).outbox(),
            final(self).asked() == old(self).asked(),
    {
        let res = Err(CommError::BarrierUnsupported);
        proof {
            self.log@ = self.log@.push(Call::Barrier { outcome: res });
        }
        res
    }
}

} // verus!
