//! What the two roles of the ping-pong protocol do, said over the calls they make.

use crate::communicator::{Call, CommError};
use vstd::prelude::*;

verus! {

/// How a call ended.
pub open spec fn outcome_of(call: Call) -> Result<(), CommError> {
    match call {
        Call::Send { outcome, .. } => outcome,
        Call::Recv { outcome, .. } => outcome,
        Call::Barrier { outcome } => outcome,
    }
}

/// The bytes that a call sent or that its buffer held afterwards; none for a barrier.
pub open spec fn payload_of(call: Call) -> Seq<u8> {
    match call {
        Call::Send { payload, .. } => payload,
        Call::Recv { payload, .. } => payload,
        Call::Barrier { .. } => Seq::empty(),
    }
}

/// `call` sent exactly `payload` to `dest`.
pub open spec fn is_send(call: Call, dest: u32, payload: Seq<u8>) -> bool {
    call matches Call::Send { dest: d, payload: p, .. } && d == dest && p == payload
}

/// `call` asked `source` for a message into a buffer of `len` bytes.
pub open spec fn is_recv(call: Call, source: u32, len: nat) -> bool {
    call matches Call::Recv { source: s, payload: p, .. } && s == source && p.len() == len
}

/// The calls of an initiator: it sends `message` to `peer` and asks `peer` for a reply of the
/// same length, in turn, starting with a send.
pub open spec fn initiator_shape(steps: Seq<Call>, peer: u32, message: Seq<u8>) -> bool {
    forall|k: int|
        0 <= k < steps.len() ==> if k % 2 == 0 {
            is_send(#[trigger] steps[k], peer, message)
        } else {
            is_recv(steps[k], peer, message.len())
        }
}

/// The calls of a responder: it asks `peer` for a message of `len` bytes and sends `peer` what
/// the buffer then holds, in turn, starting with a receive.
pub open spec fn responder_shape(steps: Seq<Call>, peer: u32, len: nat) -> bool {
    forall|k: int|
        0 <= k < steps.len() ==> if k % 2 == 0 {
            is_recv(#[trigger] steps[k], peer, len)
        } else {
            is_send(steps[k], peer, payload_of(steps[k - 1]))
        }
}

/// The failure that ends a run that made `steps`: that of its last call, if that call failed.
pub open spec fn failure_of(steps: Seq<Call>) -> Option<CommError> {
    if steps.len() == 0 {
        None
    } else {
        match outcome_of(steps.last()) {
            Ok(_) => None,
            Err(error) => Some(error),
        }
    }
}

/// `steps` are the calls of a run of `rounds` rounds of two calls each that ended with
/// `failure`: the run stops at the first call that fails and ends with that failure, and
/// otherwise makes every call of every round.
pub open spec fn run_of(steps: Seq<Call>, rounds: nat, failure: Option<CommError>) -> bool {
    &&& steps.len() <= 2 * rounds
    &&& forall|k: int| 0 <= k < steps.len() - 1 ==> outcome_of(#[trigger] steps[k]) is Ok
    &&& failure == failure_of(steps)
    &&& failure is None ==> steps.len() == 2 * rounds
}

/// The messages that `log` records as handed over for `dest`, oldest first.
pub open spec fn sent_to(log: Seq<Call>, dest: u32) -> Seq<Seq<u8>>
    decreases log.len(),
{
    if log.len() == 0 {
        Seq::empty()
    } else {
        let earlier = sent_to(log.drop_last(), dest);
        match log.last() {
            Call::Send { dest: d, payload, outcome } => if d == dest && outcome is Ok {
                earlier.push(payload)
            } else {
                earlier
            },
            _ => earlier,
        }
    }
}

/// The messages that `log` records as received, oldest first.
pub open spec fn received(log: Seq<Call>) -> Seq<Seq<u8>>
    decreases log.len(),
{
    if log.len() == 0 {
        Seq::empty()
    } else {
        let earlier = received(log.drop_last());
        match log.last() {
            Call::Recv { payload, outcome, .. } => if outcome is Ok {
                earlier.push(payload)
            } else {
                earlier
            },
            _ => earlier,
        }
    }
}

/// The transport between two participants delivers every message once, unchanged and in the
/// order of sending: what the participant with rank `dest` and the calls `receiver` has
/// received so far is what the participant with the calls `sender` sent it first.
pub open spec fn delivered_in_order(sender: Seq<Call>, dest: u32, receiver: Seq<Call>) -> bool {
    received(receiver).is_prefix_of(sent_to(sender, dest))
}

/// Dropping the last two calls of a complete run of at least one round leaves a complete run
/// of one round less, and the two calls dropped succeeded.
proof fn lemma_last_round(steps: Seq<Call>, rounds: nat)
    requires
        rounds > 0,
        run_of(steps, rounds, None),
    ensures
        run_of(steps.drop_last().drop_last(), (rounds - 1) as nat, None),
        outcome_of(steps[2 * rounds - 1]) is Ok,
        outcome_of(steps[2 * rounds - 2]) is Ok,
        forall|k: int|
            0 <= k < 2 * rounds - 2 ==> #[trigger] steps.drop_last().drop_last()[k] == steps[k],
{
    let n = steps.len() as int;
    let before = steps.drop_last().drop_last();
    assert(outcome_of(steps.last()) is Ok);
    assert(outcome_of(steps[n - 2]) is Ok);
    if before.len() > 0 {
        assert(before.last() == steps[n - 3]);
        assert(outcome_of(steps[n - 3]) is Ok);
    }
    assert forall|k: int| 0 <= k < before.len() - 1 implies outcome_of(#[trigger] before[k]) is Ok by {
        assert(before[k] == steps[k]);
    }
}

/// An initiator that completed `rounds` rounds sent `message` that many times and nothing else,
/// and received as many replies.
pub proof fn lemma_initiator_sent(steps: Seq<Call>, peer: u32, message: Seq<u8>, rounds: nat)
    requires
        initiator_shape(steps, peer, message),
        run_of(steps, rounds, None),
    ensures
        sent_to(steps, peer) == Seq::new(rounds, |i: int| message),
        received(steps).len() == rounds,
        forall|i: int| 0 <= i < rounds ==> #[trigger] received(steps)[i] == payload_of(steps[2 * i + 1]),
    decreases rounds,
{
    if rounds == 0 {
        assert(sent_to(steps, peer) =~= Seq::new(rounds, |i: int| message));
    } else {
        let n = steps.len() as int;
        let middle = steps.drop_last();
        let before = middle.drop_last();
        lemma_last_round(steps, rounds);
        assert(initiator_shape(before, peer, message)) by {
            assert forall|k: int| 0 <= k < before.len() implies if k % 2 == 0 {
                is_send(#[trigger] before[k], peer, message)
            } else {
                is_recv(before[k], peer, message.len())
            } by {
                assert(before[k] == steps[k]);
            }
        }
        lemma_initiator_sent(before, peer, message, (rounds - 1) as nat);
        assert(is_send(steps[n - 2], peer, message));
        assert(is_recv(steps[n - 1], peer, message.len()));
        assert(middle.last() == steps[n - 2]);
        assert(sent_to(middle, peer) == sent_to(before, peer).push(message));
        assert(received(middle) == received(before));
        assert(sent_to(steps, peer) == sent_to(middle, peer));
        assert(received(steps) == received(middle).push(payload_of(steps[n - 1])));
        assert(sent_to(steps, peer) =~= Seq::new(rounds, |i: int| message));
        assert forall|i: int| 0 <= i < rounds implies #[trigger] received(steps)[i] == payload_of(
            steps[2 * i + 1],
        ) by {
            if i < rounds - 1 {
                assert(received(before)[i] == payload_of(before[2 * i + 1]));
                assert(before[2 * i + 1] == steps[2 * i + 1]);
            }
        }
    }
}

/// A responder that completed `rounds` rounds sent back, message for message and in the same
/// order, exactly what it received.
pub proof fn lemma_responder_echoes(steps: Seq<Call>, peer: u32, len: nat, rounds: nat)
    requires
        responder_shape(steps, peer, len),
        run_of(steps, rounds, None),
    ensures
        sent_to(steps, peer) == received(steps),
        received(steps).len() == rounds,
    decreases rounds,
{
    if rounds > 0 {
        let n = steps.len() as int;
        let middle = steps.drop_last();
        let before = middle.drop_last();
        lemma_last_round(steps, rounds);
        assert(responder_shape(before, peer, len)) by {
            assert forall|k: int| 0 <= k < before.len() implies if k % 2 == 0 {
                is_recv(#[trigger] before[k], peer, len)
            } else {
                is_send(before[k], peer, payload_of(before[k - 1]))
            } by {
                assert(before[k] == steps[k]);
                if k % 2 != 0 {
                    assert(before[k - 1] == steps[k - 1]);
                }
            }
        }
        lemma_responder_echoes(before, peer, len, (rounds - 1) as nat);
        assert(is_recv(steps[n - 2], peer, len));
        assert(is_send(steps[n - 1], peer, payload_of(steps[n - 1 - 1])));
        assert(middle.last() == steps[n - 2]);
        assert(received(middle) == received(before).push(payload_of(steps[n - 2])));
        assert(sent_to(middle, peer) == sent_to(before, peer));
        assert(received(steps) == received(middle));
        assert(sent_to(steps, peer) == sent_to(middle, peer).push(payload_of(steps[n - 2])));
    }
}

/// Echo: when an initiator and a responder have both completed `rounds` rounds, and the
/// transport has delivered the initiator's messages once each, unchanged and in order, then the
/// responder has sent back, round for round and byte for byte, what the initiator sent.
pub proof fn lemma_echo(
    initiator: Seq<Call>,
    responder: Seq<Call>,
    initiator_rank: u32,
    responder_rank: u32,
    message: Seq<u8>,
    rounds: nat,
)
    requires
        initiator_shape(initiator, responder_rank, message),
        run_of(initiator, rounds, None),
        responder_shape(responder, initiator_rank, message.len()),
        run_of(responder, rounds, None),
        delivered_in_order(initiator, responder_rank, responder),
    ensures
        sent_to(responder, initiator_rank) == sent_to(initiator, responder_rank),
        sent_to(responder, initiator_rank) == Seq::new(rounds, |i: int| message),
{
    lemma_initiator_sent(initiator, responder_rank, message, rounds);
    lemma_responder_echoes(responder, initiator_rank, message.len(), rounds);
    assert(received(responder) =~= sent_to(initiator, responder_rank));
}

/// Echo, seen from the initiator: when the transport has delivered the messages of both
/// directions once each, unchanged and in order, then what the initiator has received is,
/// round for round and byte for byte, what it sent.
pub proof fn lemma_echo_round_trip(
    initiator: Seq<Call>,
    responder: Seq<Call>,
    initiator_rank: u32,
    responder_rank: u32,
    message: Seq<u8>,
    rounds: nat,
)
    requires
        initiator_shape(initiator, responder_rank, message),
        run_of(initiator, rounds, None),
        responder_shape(responder, initiator_rank, message.len()),
        run_of(responder, rounds, None),
        delivered_in_order(initiator, responder_rank, responder),
        delivered_in_order(responder, initiator_rank, initiator),
    ensures
        received(initiator) == sent_to(initiator, responder_rank),
        forall|i: int| 0 <= i < rounds ==> payload_of(#[trigger] initiator[2 * i + 1]) == message,
{
    lemma_echo(initiator, responder, initiator_rank, responder_rank, message, rounds);
    lemma_initiator_sent(initiator, responder_rank, message, rounds);
    assert(received(initiator) =~= sent_to(responder, initiator_rank));
    assert forall|i: int| 0 <= i < rounds implies payload_of(#[trigger] initiator[2 * i + 1])
        == message by {
        assert(received(initiator)[i] == payload_of(initiator[2 * i + 1]));
    }
}

} // verus!
