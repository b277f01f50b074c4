use rust_hpc_communication_test::communicator::CommError;
use rust_hpc_communication_test::datagram::{judge_send, DatagramCommunicator, DatagramSocket};
use rust_hpc_communication_test::test_execution::{BasicArguments, PingPongError, TestExecution};
use rust_hpc_communication_test::topology::Endpoint;
use rust_hpc_communication_test::transport::{Recorded, Transport};
use std::cell::RefCell;
use std::collections::VecDeque;
use std::rc::Rc;

/// What a scripted socket was handed and what it will answer.
#[derive(Default)]
struct Wire {
    sent: Vec<(Endpoint, Vec<u8>)>,
    arriving: VecDeque<Vec<u8>>,
    send_fails: bool,
    sends_short: bool,
}

/// A socket that keeps what it is handed and answers from a list of datagrams.
struct ScriptedSocket(Rc<RefCell<Wire>>);

impl DatagramSocket for ScriptedSocket {
    fn send_to(&mut self, buffer: &[u8], to: Endpoint) -> Option<usize> {
        let mut wire = self.0.borrow_mut();
        wire.sent.push((to, buffer.to_vec()));
        if wire.send_fails {
            None
        } else if wire.sends_short {
            Some(buffer.len().saturating_sub(1))
        } else {
            Some(buffer.len())
        }
    }

    fn recv_from(&mut self, limit: usize) -> Option<Vec<u8>> {
        let mut datagram = self.0.borrow_mut().arriving.pop_front()?;
        datagram.truncate(limit);
        Some(datagram)
    }
}

fn participant(n: u32, rank: u32) -> (DatagramCommunicator<ScriptedSocket>, Rc<RefCell<Wire>>) {
    let wire = Rc::new(RefCell::new(Wire::default()));
    (DatagramCommunicator::create_n_2_n(n, rank, ScriptedSocket(wire.clone())), wire)
}

fn loopback(port: u16) -> Endpoint {
    Endpoint { octets: [127, 0, 0, 1], port }
}

#[test]
fn judge_send_wants_every_byte_out() {
    assert_eq!(judge_send(Some(13), 13), Ok(()));
    assert_eq!(judge_send(Some(0), 0), Ok(()));
    assert_eq!(judge_send(Some(12), 13), Err(CommError::Transport));
    assert_eq!(judge_send(Some(14), 13), Err(CommError::Transport));
    assert_eq!(judge_send(None, 13), Err(CommError::Transport));
    assert_eq!(judge_send(None, 0), Err(CommError::Transport));
}

#[test]
fn participant_has_the_rank_given_and_the_size_of_the_table() {
    let (communicator, _wire) = participant(2, 1);
    assert_eq!(communicator.rank(), 1);
    assert_eq!(communicator.size(), 2);
    let (outsider, _wire) = participant(2, 5);
    assert_eq!(outsider.rank(), 5);
    assert_eq!(outsider.size(), 2);
}

#[test]
fn send_goes_to_the_port_of_the_rank() {
    let (mut communicator, wire) = participant(3, 0);
    assert_eq!(communicator.send(b"to one", 1), Ok(()));
    assert_eq!(communicator.send(b"to two", 2), Ok(()));
    assert_eq!(communicator.send(b"to self", 0), Ok(()));
    assert_eq!(
        wire.borrow().sent,
        vec![
            (loopback(8081), b"to one".to_vec()),
            (loopback(8082), b"to two".to_vec()),
            (loopback(8080), b"to self".to_vec()),
        ]
    );
}

#[test]
fn send_to_a_rank_out_of_the_table_leaves_the_socket_alone() {
    let (mut communicator, wire) = participant(2, 0);
    assert_eq!(communicator.send(b"x", 2), Err(CommError::InvalidRank));
    assert_eq!(communicator.send(b"x", u32::MAX), Err(CommError::InvalidRank));
    assert!(wire.borrow().sent.is_empty());
}

#[test]
fn send_that_fails_or_falls_short_is_a_transport_failure() {
    let (mut communicator, wire) = participant(2, 0);
    wire.borrow_mut().send_fails = true;
    assert_eq!(communicator.send(b"abc", 1), Err(CommError::Transport));
    wire.borrow_mut().send_fails = false;
    wire.borrow_mut().sends_short = true;
    assert_eq!(communicator.send(b"abc", 1), Err(CommError::Transport));
}

#[test]
fn recv_takes_the_next_datagram_whoever_is_named() {
    let (mut communicator, wire) = participant(2, 1);
    wire.borrow_mut().arriving.push_back(b"first".to_vec());
    wire.borrow_mut().arriving.push_back(b"later".to_vec());
    let mut buffer = [0u8; 5];
    assert_eq!(communicator.recv(&mut buffer, 0), Ok(()));
    assert_eq!(&buffer, b"first");
    assert_eq!(communicator.recv(&mut buffer, 99), Ok(()));
    assert_eq!(&buffer, b"later");
}

#[test]
fn short_datagram_is_a_length_mismatch() {
    let (mut communicator, wire) = participant(2, 1);
    wire.borrow_mut().arriving.push_back(b"abc".to_vec());
    let mut buffer = [9u8; 5];
    assert_eq!(communicator.recv(&mut buffer, 0), Err(CommError::LengthMismatch));
    assert_eq!(buffer, [9u8; 5]);
}

#[test]
fn long_datagram_is_cut_to_the_buffer() {
    let (mut communicator, wire) = participant(2, 1);
    wire.borrow_mut().arriving.push_back(b"abcdefgh".to_vec());
    let mut buffer = [0u8; 5];
    assert_eq!(communicator.recv(&mut buffer, 0), Ok(()));
    assert_eq!(&buffer, b"abcde");
}

#[test]
fn recv_that_fails_is_a_transport_failure() {
    let (mut communicator, _wire) = participant(2, 1);
    let mut buffer = [0u8; 5];
    assert_eq!(communicator.recv(&mut buffer, 0), Err(CommError::Transport));
}

#[test]
fn datagram_transport_has_no_barrier() {
    let (mut communicator, wire) = participant(2, 0);
    assert_eq!(communicator.barrier(), Err(CommError::BarrierUnsupported));
    assert!(wire.borrow().sent.is_empty());
    let mut execution = TestExecution::new(
        Recorded::new(communicator),
        BasicArguments { iterations: 1, log_interval: 1, message_len: 1, reporting_file: None },
    );
    assert_eq!(execution.barrier(), Err(CommError::BarrierUnsupported));
}

#[test]
fn responder_over_datagrams_echoes_to_the_initiators_port() {
    let (communicator, wire) = participant(2, 1);
    for i in 0..10u8 {
        wire.borrow_mut().arriving.push_back(vec![i; 13]);
    }
    let mut execution = TestExecution::new(
        Recorded::new(communicator),
        BasicArguments { iterations: 10, log_interval: 5, message_len: 13, reporting_file: None },
    );
    assert_eq!(execution.ping_pong_server(), Ok(()));
    let wire = wire.borrow();
    assert_eq!(wire.sent.len(), 10);
    for (i, (to, bytes)) in wire.sent.iter().enumerate() {
        assert_eq!(*to, loopback(8080));
        assert_eq!(bytes, &vec![i as u8; 13]);
    }
}

#[test]
fn initiator_over_datagrams_stops_at_a_short_reply() {
    let (communicator, wire) = participant(2, 0);
    wire.borrow_mut().arriving.push_back(vec![7; 13]);
    wire.borrow_mut().arriving.push_back(vec![7; 12]);
    let mut execution = TestExecution::new(
        Recorded::new(communicator),
        BasicArguments { iterations: 10, log_interval: 5, message_len: 13, reporting_file: None },
    );
    assert_eq!(
        execution.ping_pong_client_with(b"Hello, World!").unwrap_err(),
        PingPongError::Communicator(CommError::LengthMismatch)
    );
    assert_eq!(wire.borrow().sent.len(), 2);
    assert!(wire.borrow().sent.iter().all(|(to, bytes)| *to == loopback(8081)
        && bytes == b"Hello, World!"));
}
