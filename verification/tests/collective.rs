use rust_hpc_communication_test::collective::{
    to_count, to_group_rank, MpiCommunicator, ProcessGroup,
};
use rust_hpc_communication_test::communicator::{CommError, TestCommunicator};
use rust_hpc_communication_test::test_execution::{BasicArguments, PingPongError, TestExecution};
use rust_hpc_communication_test::transport::{Recorded, Transport};
use std::cell::RefCell;
use std::collections::VecDeque;
use std::rc::Rc;

/// What a scripted group was asked to do and what it will answer.
#[derive(Default)]
struct Script {
    sent: Vec<(i32, Vec<u8>)>,
    asked: Vec<(i32, usize)>,
    arriving: VecDeque<Vec<u8>>,
    barriers: usize,
}

/// A process group that answers from a script.
struct ScriptedGroup {
    rank: i32,
    size: i32,
    script: Rc<RefCell<Script>>,
}

impl ProcessGroup for ScriptedGroup {
    fn rank(&self) -> i32 {
        self.rank
    }

    fn size(&self) -> i32 {
        self.size
    }

    fn send_to(&mut self, rank: i32, buffer: &[u8]) {
        self.script.borrow_mut().sent.push((rank, buffer.to_vec()));
    }

    fn receive_from(&mut self, rank: i32, limit: usize) -> Vec<u8> {
        let mut script = self.script.borrow_mut();
        script.asked.push((rank, limit));
        let mut message = script.arriving.pop_front().unwrap_or_default();
        message.truncate(limit);
        message
    }

    fn barrier(&mut self) {
        self.script.borrow_mut().barriers += 1;
    }
}

fn participant(rank: i32, size: i32) -> (MpiCommunicator<ScriptedGroup>, Rc<RefCell<Script>>) {
    let script = Rc::new(RefCell::new(Script::default()));
    (MpiCommunicator::create(ScriptedGroup { rank, size, script: script.clone() }), script)
}

#[test]
fn reported_numbers_are_counted_unsigned() {
    assert_eq!(to_count(0), 0);
    assert_eq!(to_count(1), 1);
    assert_eq!(to_count(i32::MAX), i32::MAX as u32);
    assert_eq!(to_count(-1), u32::MAX);
    assert_eq!(to_count(i32::MIN), 1 << 31);
}

#[test]
fn ranks_are_known_to_the_group_by_the_same_bits() {
    assert_eq!(to_group_rank(0), 0);
    assert_eq!(to_group_rank(7), 7);
    assert_eq!(to_group_rank(i32::MAX as u32), i32::MAX);
    assert_eq!(to_group_rank(1 << 31), i32::MIN);
    assert_eq!(to_group_rank(u32::MAX), -1);
}

#[test]
fn rank_and_size_are_the_groups() {
    let (communicator, _script) = participant(3, 8);
    assert_eq!(communicator.rank(), 3);
    assert_eq!(communicator.size(), 8);
}

#[test]
fn send_is_addressed_by_rank() {
    let (mut communicator, script) = participant(0, 4);
    assert_eq!(communicator.send(b"to three", 3), Ok(()));
    assert_eq!(communicator.send(b"", 1), Ok(()));
    assert_eq!(script.borrow().sent, vec![(3, b"to three".to_vec()), (1, Vec::new())]);
}

#[test]
fn rank_that_the_group_does_not_have_is_refused() {
    let (mut communicator, script) = participant(0, 2);
    assert_eq!(communicator.send(b"x", 2), Err(CommError::InvalidRank));
    assert_eq!(communicator.send(b"x", u32::MAX), Err(CommError::InvalidRank));
    let mut buffer = [5u8; 2];
    assert_eq!(communicator.recv(&mut buffer, 2), Err(CommError::InvalidRank));
    assert_eq!(communicator.recv(&mut buffer, 1 << 31), Err(CommError::InvalidRank));
    assert_eq!(buffer, [5u8; 2]);
    assert!(script.borrow().sent.is_empty());
    assert!(script.borrow().asked.is_empty());
}

#[test]
fn negative_reports_are_read_as_unsigned() {
    let (communicator, _script) = participant(-4, -1);
    assert_eq!(communicator.rank(), (-4i32) as u32);
    assert_eq!(communicator.size(), u32::MAX);
}

#[test]
fn recv_asks_the_rank_named_and_fills_the_buffer() {
    let (mut communicator, script) = participant(0, 2);
    script.borrow_mut().arriving.push_back(b"pong!".to_vec());
    let mut buffer = [0u8; 5];
    assert_eq!(communicator.recv(&mut buffer, 1), Ok(()));
    assert_eq!(&buffer, b"pong!");
    assert_eq!(script.borrow().asked, vec![(1, 5)]);
}

#[test]
fn short_message_is_a_length_mismatch() {
    let (mut communicator, script) = participant(0, 2);
    script.borrow_mut().arriving.push_back(b"abc".to_vec());
    let mut buffer = [1u8; 5];
    assert_eq!(communicator.recv(&mut buffer, 1), Err(CommError::LengthMismatch));
    assert_eq!(buffer, [1u8; 5]);
}

#[test]
fn barrier_is_the_groups() {
    let (mut communicator, script) = participant(0, 2);
    assert_eq!(communicator.barrier(), Ok(()));
    assert_eq!(script.borrow().barriers, 1);
}

#[test]
fn rank_one_of_two_serves_after_the_barrier() {
    let (communicator, script) = participant(1, 2);
    for i in 0..4u8 {
        script.borrow_mut().arriving.push_back(vec![i; 6]);
    }
    let recorded = Recorded::new(communicator);
    assert_eq!(recorded.rank(), 1);
    let mut execution = TestExecution::new(
        recorded,
        BasicArguments { iterations: 4, log_interval: 2, message_len: 6, reporting_file: None },
    );
    assert_eq!(execution.barrier(), Ok(()));
    assert_eq!(execution.ping_pong_server(), Ok(()));
    let script = script.borrow();
    assert_eq!(script.barriers, 1);
    assert_eq!(script.asked, vec![(0, 6); 4]);
    let expected: Vec<(i32, Vec<u8>)> = (0..4u8).map(|i| (0, vec![i; 6])).collect();
    assert_eq!(script.sent, expected);
}

#[test]
fn group_of_three_is_refused_by_the_session() {
    let (communicator, script) = participant(0, 3);
    let mut execution = TestExecution::new(
        Recorded::new(communicator),
        BasicArguments { iterations: 4, log_interval: 2, message_len: 6, reporting_file: None },
    );
    assert_eq!(execution.ping_pong_client().unwrap_err(), PingPongError::NotTwoParty);
    assert!(script.borrow().sent.is_empty());
    assert!(script.borrow().asked.is_empty());
}
