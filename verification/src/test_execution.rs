//! The ping-pong session: two roles that exchange a message of fixed length for a number of
//! rounds, the first of them timing every round.

use crate::clock::{clock_now, nanos_since};
use crate::communicator::{Call, CommError, TestCommunicator};
use crate::payload::{random_message, MESSAGE_SEED};
use crate::protocol::{initiator_shape, outcome_of, responder_shape, run_of};
use vstd::prelude::*;

verus! {

/// The number of rounds of a run that names none.
pub const DEFAULT_ITERATIONS: u32 = 90_000;

/// The number of rounds between two progress lines of a run that names none.
pub const DEFAULT_LOG_INTERVAL: u32 = 5_000;

/// The message length, in bytes, of a run that names none.
pub const DEFAULT_MESSAGE_LEN: u32 = 1024;

/// The rank that initiates.
pub const INITIATOR: u32 = 0;

/// The rank that responds.
pub const RESPONDER: u32 = 1;

/// What a run is asked to do.
#[derive(Debug, Clone)]
pub struct BasicArguments {
    /// The number of rounds.
    pub iterations: u32,
    /// The number of rounds between two progress lines.
    pub log_interval: u32,
    /// The length of the message, in bytes.
    pub message_len: u32,
    /// Where the initiator's latencies go; none are collected without it.
    pub reporting_file: Option<String>,
}

impl Default for BasicArguments {
    /// The arguments of no run at all: no round, no progress interval, an empty message and
    /// no reporting file. What a command line assumes where it names nothing are the three
    /// constants above.
    fn default() -> (arguments: Self)
        ensures
            arguments.iterations == 0,
            arguments.log_interval == 0,
            arguments.message_len == 0,
            arguments.reporting_file is None,
    {
        BasicArguments { iterations: 0, log_interval: 0, message_len: 0, reporting_file: None }
    }
}

/// The time one round took.
#[derive(Debug, Clone, Copy, PartialEq, Eq)]
pub struct LatencySample {
    /// The round, counted from zero.
    pub index: u32,
    /// From just before the send to just after the paired receive, in nanoseconds.
    pub elapsed_ns: u128,
}

/// What the initiator measured.
#[derive(Debug, Clone)]
pub struct ClientReport {
    /// The time the whole loop took, in nanoseconds.
    pub elapsed_ns: u128,
    /// One sample per round, in the order of the rounds, if a reporting file is named; none
    /// otherwise.
    pub samples: Vec<LatencySample>,
}

/// Why a ping-pong run ended early.
#[derive(Clone, Copy, Debug, PartialEq, Eq)]
pub enum PingPongError {
    /// The communicator does not have exactly two participants.
    NotTwoParty,
    /// A call on the communicator failed.
    Communicator(CommError),
}

/// Whether a progress line is due at the start of round `index`: at every `log_interval`-th
/// round, counted from the first.
pub fn logs_round(index: u32, log_interval: u32) -> (due: bool)
    requires
        log_interval != 0,
    ensures
        due == (index % log_interval == 0),
{
    index % log_interval == 0
}

/// The number of the round that follows round `index`, and whether a progress line is due at
/// the start of round `index`. After the last number that a round can have, the count starts
/// again at zero.
pub fn progress_step(index: u32, log_interval: u32) -> (step: (u32, bool))
    requires
        log_interval != 0,
    ensures
        step.0 == if index == u32::MAX {
            0
        } else {
            index + 1
        },
        step.1 == (index % log_interval == 0),
{
    let next: u32 = if index == u32::MAX {
        0
    } else {
        index + 1
    };
    (next, logs_round(index, log_interval))
}

/// The error of a result, if it is one.
pub open spec fn failure<T>(res: Result<T, PingPongError>) -> Option<PingPongError> {
    match res {
        Ok(_) => None,
        Err(error) => Some(error),
    }
}

/// Sample `i` belongs to round `i`, and there is one per round if `reporting`, none otherwise.
pub open spec fn samples_complete(samples: Seq<LatencySample>, rounds: nat, reporting: bool) -> bool {
    &&& samples.len() == if reporting {
        rounds
    } else {
        0
    }
    &&& forall|i: int| 0 <= i < samples.len() ==> (#[trigger] samples[i]).index == i
}

/// One communicator and the arguments of the run it is used for.
#[derive(Debug)]
pub struct TestExecution<C> {
    communicator: C,
    arguments: BasicArguments,
}

impl<C: TestCommunicator> TestExecution<C> {
    /// The arguments of the run.
    pub closed spec fn arguments(&self) -> BasicArguments {
        self.arguments
    }

    /// The number of participants of the communicator.
    pub closed spec fn spec_size(&self) -> u32 {
        self.communicator.spec_size()
    }

    /// The rank of the communicator.
    pub closed spec fn spec_rank(&self) -> u32 {
        self.communicator.spec_rank()
    }

    /// The calls made on the communicator so far.
    pub closed spec fn calls(&self) -> Seq<Call> {
        self.communicator.calls()
    }

    /// The calls made since `before`.
    pub open spec fn calls_since(&self, before: &Self) -> Seq<Call> {
        self.calls().skip(before.calls().len() as int)
    }

    /// Nothing but the list of calls differs from `before`, and that list has only grown.
    pub open spec fn continues(&self, before: &Self) -> bool {
        &&& self.arguments() == before.arguments()
        &&& self.spec_size() == before.spec_size()
        &&& self.spec_rank() == before.spec_rank()
        &&& before.calls().is_prefix_of(self.calls())
    }

    /// A run of the arguments' number of rounds led from `before` to here and ended with
    /// `failure`. On a communicator that does not have exactly two participants it made no call
    /// and ended with `NotTwoParty`. On any other it made the calls of its rounds up to the first
    /// that failed, and ended with that failure or, where none failed, without one.
    pub open spec fn ran(&self, before: &Self, failure: Option<PingPongError>) -> bool {
        &&& self.continues(before)
        &&& match failure {
            Some(PingPongError::NotTwoParty) => {
                &&& before.spec_size() != 2
                &&& self.calls() == before.calls()
            },
            Some(PingPongError::Communicator(error)) => {
                &&& before.spec_size() == 2
                &&& run_of(
                    self.calls_since(before),
                    before.arguments().iterations as nat,
                    Some(error),
                )
            },
            None => {
                &&& before.spec_size() == 2
                &&& run_of(self.calls_since(before), before.arguments().iterations as nat, None)
            },
        }
    }

    /// Size check: a run ends with `NotTwoParty` exactly when the communicator does not have
    /// exactly two participants, and such a run has made no call of `send`, `recv` or
    /// `barrier`.
    pub proof fn lemma_size_check(&self, before: &Self, failure: Option<PingPongError>)
        requires
            self.ran(before, failure),
        ensures
            before.spec_size() != 2 <==> failure == Some(PingPongError::NotTwoParty),
            before.spec_size() != 2 ==> self.calls() == before.calls(),
            before.spec_size() != 2 ==> self.calls_since(before) == Seq::<Call>::empty(),
    {
        if before.spec_size() != 2 {
            assert(self.calls_since(before) =~= Seq::<Call>::empty());
        }
    }

    pub fn new(communicator: C, arguments: BasicArguments) -> (execution: Self)
        ensures
            execution.arguments() == arguments,
            execution.spec_size() == communicator.spec_size(),
            execution.spec_rank() == communicator.spec_rank(),
            execution.calls() == communicator.calls(),
    {
        TestExecution { communicator, arguments }
    }

    /// Runs the initiator with a message of `message_len` bytes drawn from `MESSAGE_SEED`.
    ///
    /// Makes no call on a communicator that does not have exactly two participants. Otherwise
    /// the calls made are those of `ping_pong_client_with` for some message of `message_len`
    /// bytes.
    pub fn ping_pong_client(&mut self) -> (res: Result<ClientReport, PingPongError>)
        ensures
            final(self).ran(old(self), failure(res)),
            old(self).spec_size() != 2 <==> res matches Err(PingPongError::NotTwoParty),
            old(self).spec_size() != 2 ==> final(self).calls() == old(self).calls(),
            res matches Ok(report) ==> samples_complete(
                report.samples@,
                old(self).arguments().iterations as nat,
                old(self).arguments().reporting_file is Some,
            ),
            exists|message: Seq<u8>|
                message.len() == old(self).arguments().message_len && #[trigger] initiator_shape(
                    final(self).calls_since(old(self)),
                    RESPONDER,
                    message,
                ),
    {
        if let Err(e) = self.check_ping_pong() {
            assert(initiator_shape(
                final(self).calls_since(old(self)),
                RESPONDER,
                Seq::new(old(self).arguments().message_len as nat, |i: int| 0u8),
            ));
            return Err(e);
        }
        let message = random_message(MESSAGE_SEED, self.arguments.message_len);
        self.ping_pong_client_with(message.as_slice())
    }

    /// Runs the initiator: in each of `iterations` rounds it sends `message` to the responder and
    /// then receives a reply of the same length, timing the round.
    ///
    /// Makes no call on a communicator that does not have exactly two participants. Otherwise
    /// it stops at the first call that fails, with that failure, and succeeds when none does.
    pub fn ping_pong_client_with(&mut self, message: &[u8]) -> (res: Result<
        ClientReport,
        PingPongError,
    >)
        ensures
            final(self).ran(old(self), failure(res)),
            old(self).spec_size() != 2 <==> res matches Err(PingPongError::NotTwoParty),
            old(self).spec_size() != 2 ==> final(self).calls() == old(self).calls(),
            res matches Ok(report) ==> samples_complete(
                report.samples@,
                old(self).arguments().iterations as nat,
                old(self).arguments().reporting_file is Some,
            ),
            initiator_shape(final(self).calls_since(old(self)), RESPONDER, message@),
    {
        if let Err(e) = self.check_ping_pong() {
            return Err(e);
        }
        let other = RESPONDER;
        let iterations = self.arguments.iterations;
        let reporting = self.arguments.reporting_file.is_some();
        let ghost base = self.communicator.calls();
        let ghost mut steps: Seq<Call> = Seq::empty();
        let mut samples: Vec<LatencySample> = Vec::new();

        let start = clock_now();
        let mut i: u32 = 0;
        while i < iterations
            invariant
                i <= iterations,
                other == RESPONDER,
                iterations == old(self).arguments.iterations,
                reporting == (old(self).arguments.reporting_file is Some),
                base == old(self).communicator.calls(),
                self.arguments == old(self).arguments,
                self.communicator.spec_size() == old(self).communicator.spec_size(),
                self.communicator.spec_rank() == old(self).communicator.spec_rank(),
                self.communicator.spec_size() == 2,
                self.communicator.calls() == base + steps,
                steps.len() == 2 * i,
                initiator_shape(steps, other, message@),
                forall|k: int| 0 <= k < steps.len() ==> outcome_of(#[trigger] steps[k]) is Ok,
                samples_complete(samples@, i as nat, reporting),
            decreases iterations - i,
        {
            let start_i = clock_now();
            let sent = self.communicator.send(message, other);
            proof {
                steps = steps.push(Call::Send { dest: other, payload: message@, outcome: sent });
                assert(self.communicator.calls() =~= base + steps);
            }
            if let Err(e) = sent {
                assert(final(self).calls_since(old(self)) =~= steps);
                return Err(PingPongError::Communicator(e));
            }
            let mut in_buffer: Vec<u8> = vec![0u8; message.len()];
            let received = self.communicator.recv(in_buffer.as_mut_slice(), other);
            proof {
                steps = steps.push(
                    Call::Recv { source: other, payload: in_buffer@, outcome: received },
                );
                assert(self.communicator.calls() =~= base + steps);
            }
            if let Err(e) = received {
                assert(final(self).calls_since(old(self)) =~= steps);
                return Err(PingPongError::Communicator(e));
            }
            let elapsed_i = nanos_since(&start_i);
            if reporting {
                samples.push(LatencySample { index: i, elapsed_ns: elapsed_i });
            }
            i += 1;
        }
        let elapsed = nanos_since(&start);
        assert(final(self).calls_since(old(self)) =~= steps);
        Ok(ClientReport { elapsed_ns: elapsed, samples })
    }

    /// Runs the responder: in each of `iterations` rounds it receives a message of `message_len`
    /// bytes from the initiator and sends the same bytes back.
    ///
    /// Makes no call on a communicator that does not have exactly two participants. Otherwise
    /// it stops at the first call that fails, with that failure, and succeeds when none does.
    pub fn ping_pong_server(&mut self) -> (res: Result<(), PingPongError>)
        ensures
            final(self).ran(old(self), failure(res)),
            old(self).spec_size() != 2 <==> res matches Err(PingPongError::NotTwoParty),
            old(self).spec_size() != 2 ==> final(self).calls() == old(self).calls(),
            responder_shape(
                final(self).calls_since(old(self)),
                INITIATOR,
                old(self).arguments().message_len as nat,
            ),
    {
        if let Err(e) = self.check_ping_pong() {
            return Err(e);
        }
        let other = INITIATOR;
        let iterations = self.arguments.iterations;
        let message_len = self.arguments.message_len;
        let ghost base = self.communicator.calls();
        let ghost mut steps: Seq<Call> = Seq::empty();

        let mut i: u32 = 0;
        while i < iterations
            invariant
                i <= iterations,
                other == INITIATOR,
                iterations == old(self).arguments.iterations,
                message_len == old(self).arguments.message_len,
                base == old(self).communicator.calls(),
                self.arguments == old(self).arguments,
                self.communicator.spec_size() == old(self).communicator.spec_size(),
                self.communicator.spec_rank() == old(self).communicator.spec_rank(),
                self.communicator.spec_size() == 2,
                self.communicator.calls() == base + steps,
                steps.len() == 2 * i,
                responder_shape(steps, other, message_len as nat),
                forall|k: int| 0 <= k < steps.len() ==> outcome_of(#[trigger] steps[k]) is Ok,
            decreases iterations - i,
        {
            let mut in_buffer: Vec<u8> = vec![0u8; message_len as usize];
            let received = self.communicator.recv(in_buffer.as_mut_slice(), other);
            proof {
                steps = steps.push(
                    Call::Recv { source: other, payload: in_buffer@, outcome: received },
                );
                assert(self.communicator.calls() =~= base + steps);
            }
            if let Err(e) = received {
                assert(final(self).calls_since(old(self)) =~= steps);
                return Err(PingPongError::Communicator(e));
            }
            let sent = self.communicator.send(in_buffer.as_slice(), other);
            proof {
                steps = steps.push(Call::Send { dest: other, payload: in_buffer@, outcome: sent });
                assert(self.communicator.calls() =~= base + steps);
            }
            if let Err(e) = sent {
                assert(final(self).calls_since(old(self)) =~= steps);
                return Err(PingPongError::Communicator(e));
            }
            i += 1;
        }
        assert(final(self).calls_since(old(self)) =~= steps);
        Ok(())
    }

    /// Waits until every participant has reached the barrier, and hands on how that ended.
    pub fn barrier(&mut self) -> (res: Result<(), CommError>)
        ensures
            final(self).continues(old(self)),
            final(self).calls() == old(self).calls().push(Call::Barrier { outcome: res }),
    {
        self.communicator.barrier()
    }

    /// Whether the communicator has the two participants that ping-pong is played between. It
    /// asks the communicator for its size and for nothing else: the communicator is not
    /// changed, so no call of `send`, `recv` or `barrier` is made.
    pub fn check_ping_pong(&self) -> (res: Result<(), PingPongError>)
        ensures
            res == if self.spec_size() == 2 {
                Ok::<(), PingPongError>(())
            } else {
                Err::<(), PingPongError>(PingPongError::NotTwoParty)
            },
    {
        if self.communicator.size() != 2 {
            Err(PingPongError::NotTwoParty)
        } else {
            Ok(())
        }
    }
}

} // verus!
