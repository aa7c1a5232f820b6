use constellation::peer::{keeps_connection, peer_step, retry_delay_ms, PeerAction, PeerEvent, PeerState};
use constellation::{
    choose_ready, decode_frame, encode_end, encode_frame, next_message, run, select, select_ready,
    ChannelError, Decoded, Direction, EndpointError, Endpoints, IpAddress, Pid, Resources,
    Runtime, Selectable,
};
use std::cell::RefCell;

fn local(port: u16) -> Pid {
    Pid::new(IpAddress::V4(0x7f00_0001), port)
}

#[test]
fn frame_layout() {
    let f = encode_frame(&[7, 8, 9]);
    assert_eq!(f, vec![3, 0, 0, 0, 0, 0, 0, 0, 7, 8, 9]);
    assert_eq!(encode_end(), vec![0; 8]);
    let mut long = vec![1u8; 300];
    long[299] = 2;
    let g = encode_frame(&long);
    assert_eq!(&g[..8], &[44, 1, 0, 0, 0, 0, 0, 0]);
    assert_eq!(g.len(), 308);
}

#[test]
fn frame_round_trip() {
    let payload = b"hello".to_vec();
    let mut wire = encode_frame(&payload);
    wire.extend_from_slice(&[1, 2, 3]);
    match decode_frame(&wire) {
        Decoded::Message(m, used) => {
            assert_eq!(m, payload);
            assert_eq!(used, 13);
        }
        _ => panic!("expected a message"),
    }
}

#[test]
fn partial_frame_is_incomplete() {
    let wire = encode_frame(b"hello");
    assert!(matches!(decode_frame(&wire[..4]), Decoded::Incomplete));
    assert!(matches!(decode_frame(&wire[..12]), Decoded::Incomplete));
    assert!(matches!(decode_frame(&[]), Decoded::Incomplete));
    assert!(matches!(decode_frame(&encode_end()), Decoded::End));
}

fn read_all(mut wire: &[u8], closed: bool) -> (Vec<Vec<u8>>, Option<ChannelError>) {
    let mut out = Vec::new();
    loop {
        match next_message(wire, closed) {
            None => return (out, None),
            Some(Ok((m, used))) => {
                out.push(m);
                wire = &wire[used..];
            }
            Some(Err(e)) => return (out, Some(e)),
        }
    }
}

#[test]
fn stream_keeps_order_and_ends_with_exited() {
    let msgs: Vec<Vec<u8>> = vec![b"a".to_vec(), b"bc".to_vec(), b"def".to_vec()];
    let mut wire = Vec::new();
    for m in &msgs {
        wire.extend(encode_frame(m));
    }
    wire.extend(encode_end());
    assert_eq!(read_all(&wire, false), (msgs.clone(), Some(ChannelError::Exited)));
    assert_eq!(read_all(&wire, true), (msgs, Some(ChannelError::Exited)));
}

#[test]
fn byte_stream_reads_back_the_same_bytes() {
    let bytes = b"any byte sequence\x00\xff".to_vec();
    let mut wire = Vec::new();
    for b in &bytes {
        wire.extend(encode_frame(&[*b]));
    }
    wire.extend(encode_end());
    let (msgs, end) = read_all(&wire, true);
    let back: Vec<u8> = msgs.into_iter().map(|m| m[0]).collect();
    assert_eq!(back, bytes);
    assert_eq!(end, Some(ChannelError::Exited));
}

#[test]
fn dead_peer_yields_error_at_receive() {
    let mut wire = encode_frame(b"one");
    wire.extend(encode_frame(b"two"));
    let cut = &wire[..wire.len() - 1];
    assert_eq!(read_all(cut, true), (vec![b"one".to_vec()], Some(ChannelError::Error)));
    assert_eq!(read_all(cut, false), (vec![b"one".to_vec()], None));
    assert_eq!(read_all(&wire, true), (vec![b"one".to_vec(), b"two".to_vec()], Some(ChannelError::Error)));
}

#[test]
fn self_channel_is_refused() {
    let me = local(1000);
    let mut endpoints = Endpoints::new(me);
    assert_eq!(endpoints.register(me, Direction::Send), Err(EndpointError::SelfChannel));
    assert_eq!(endpoints.register(me, Direction::Recv), Err(EndpointError::SelfChannel));
    assert!(!endpoints.is_live(me, Direction::Send));
}

#[test]
fn second_endpoint_is_refused_while_first_lives() {
    let mut endpoints = Endpoints::new(local(1000));
    let other = local(2000);
    assert_eq!(endpoints.register(other, Direction::Send), Ok(()));
    assert_eq!(endpoints.register(other, Direction::Send), Err(EndpointError::Duplicate));
    assert_eq!(endpoints.register(other, Direction::Recv), Ok(()));
    assert_eq!(endpoints.register(other, Direction::Recv), Err(EndpointError::Duplicate));
    endpoints.unregister(other, Direction::Send);
    assert!(!endpoints.is_live(other, Direction::Send));
    assert!(endpoints.is_live(other, Direction::Recv));
    assert_eq!(endpoints.register(other, Direction::Send), Ok(()));
}

#[test]
fn runtime_checks_endpoints() {
    let me = local(1000);
    let res = Resources { mem: 20 * 1024 * 1024, cpu: 50 };
    let mut rt = Runtime::new(me, local(999), false, res);
    assert_eq!(constellation::resources(&rt), res);
    assert_eq!(rt.pid(), me);
    assert_eq!(rt.bridge(), local(999));
    assert!(!rt.deployed());
    assert_eq!(rt.open_endpoint(me, Direction::Send), Err(EndpointError::SelfChannel));
    assert_eq!(rt.open_endpoint(local(5), Direction::Recv), Ok(()));
    assert_eq!(rt.open_endpoint(local(5), Direction::Recv), Err(EndpointError::Duplicate));
    rt.close_endpoint(local(5), Direction::Recv);
    assert_eq!(rt.open_endpoint(local(5), Direction::Recv), Ok(()));
}

#[test]
fn smaller_pid_initiates() {
    let a = local(1000);
    let b = local(2000);
    assert!(a.initiates(&b));
    assert!(!b.initiates(&a));
    let v6 = Pid::new(IpAddress::V6(1), 1);
    assert!(b.initiates(&v6));
    assert!(!v6.initiates(&b));
    assert!(!a.initiates(&a));
}

struct Token<'a> {
    id: usize,
    ready: bool,
    log: &'a RefCell<Vec<usize>>,
}

impl<'a> Selectable for Token<'a> {
    fn is_ready(&self) -> bool {
        self.ready
    }

    fn commit(self) {
        self.log.borrow_mut().push(self.id);
    }
}

#[test]
fn select_commits_exactly_one() {
    for _ in 0..50 {
        let log = RefCell::new(Vec::new());
        let tokens: Vec<Token> = (0..5)
            .map(|id| Token { id, ready: id % 2 == 1, log: &log })
            .collect();
        let rest = match select(tokens) {
            Ok(rest) => rest,
            Err(_) => panic!("a token was ready"),
        };
        assert_eq!(rest.len(), 4);
        let committed = log.borrow().clone();
        assert_eq!(committed.len(), 1);
        assert!(committed[0] == 1 || committed[0] == 3);
        let mut ids: Vec<usize> = rest.iter().map(|t| t.id).collect();
        ids.push(committed[0]);
        ids.sort();
        assert_eq!(ids, vec![0, 1, 2, 3, 4]);
    }
}

#[test]
fn select_without_ready_token_changes_nothing() {
    let log = RefCell::new(Vec::new());
    let tokens: Vec<Token> = (0..3).map(|id| Token { id, ready: false, log: &log }).collect();
    match select(tokens) {
        Ok(_) => panic!("no token was ready"),
        Err(same) => assert_eq!(same.iter().map(|t| t.id).collect::<Vec<_>>(), vec![0, 1, 2]),
    }
    assert!(log.borrow().is_empty());
    let none: Vec<Token> = Vec::new();
    assert!(select(none).is_err());
}

#[test]
fn run_drains_every_token() {
    let log = RefCell::new(Vec::new());
    let tokens: Vec<Token> = (0..6).map(|id| Token { id, ready: true, log: &log }).collect();
    let left = run(tokens);
    assert!(left.is_empty());
    let mut done = log.borrow().clone();
    done.sort();
    assert_eq!(done, vec![0, 1, 2, 3, 4, 5]);
    let stuck: Vec<Token> = (0..2).map(|id| Token { id, ready: false, log: &log }).collect();
    assert_eq!(run(stuck).len(), 2);
}

#[test]
fn choose_picks_only_ready_entries() {
    assert_eq!(choose_ready(&vec![false, false]), None);
    assert_eq!(choose_ready(&vec![]), None);
    assert_eq!(choose_ready(&vec![false, true, false]), Some(1));
    let mut seen = [false; 3];
    for _ in 0..200 {
        let i = choose_ready(&vec![true, false, true]).unwrap();
        assert!(i == 0 || i == 2);
        seen[i] = true;
    }
    assert!(seen[0] && seen[2]);
    match select_ready(vec!['a', 'b', 'c'], &vec![false, false, true]) {
        Ok((t, rest)) => {
            assert_eq!(t, 'c');
            assert_eq!(rest, vec!['a', 'b']);
        }
        Err(_) => panic!("one was ready"),
    }
}

#[test]
fn inbox_reads_messages_in_order() {
    let mut inbox = constellation::Inbox::new();
    let mut wire = encode_frame(b"first");
    wire.extend(encode_frame(b"second"));
    wire.extend(encode_end());
    inbox.feed(&wire[..3]);
    assert_eq!(inbox.recv(), None);
    inbox.feed(&wire[3..15]);
    assert_eq!(inbox.recv(), Some(Ok(b"first".to_vec())));
    assert_eq!(inbox.recv(), None);
    inbox.feed(&wire[15..]);
    assert_eq!(inbox.recv(), Some(Ok(b"second".to_vec())));
    assert_eq!(inbox.recv(), Some(Err(ChannelError::Exited)));
    assert_eq!(inbox.recv(), Some(Err(ChannelError::Exited)));
}

#[test]
fn inbox_of_dead_peer_fails() {
    let mut inbox = constellation::Inbox::new();
    let wire = encode_frame(b"only");
    inbox.feed(&wire);
    inbox.feed(&encode_frame(b"cut")[..5]);
    inbox.close();
    assert_eq!(inbox.recv(), Some(Ok(b"only".to_vec())));
    assert_eq!(inbox.recv(), Some(Err(ChannelError::Error)));
    let mut empty = constellation::Inbox::new();
    empty.close();
    assert_eq!(empty.recv(), Some(Err(ChannelError::Error)));
}

#[test]
fn peer_connection_lifecycle() {
    let a = local(1000);
    let b = local(2000);
    assert_eq!(peer_step(a, b, PeerState::Unconnected, PeerEvent::Needed), (PeerState::Connecting, PeerAction::Connect));
    assert_eq!(peer_step(a, b, PeerState::Connecting, PeerEvent::ConnectFailed), (PeerState::Unconnected, PeerAction::RetryLater));
    assert_eq!(peer_step(a, b, PeerState::Connecting, PeerEvent::ConnectSucceeded), (PeerState::Connected, PeerAction::Nothing));
    assert_eq!(peer_step(a, b, PeerState::Unconnected, PeerEvent::Accepted), (PeerState::Connected, PeerAction::Nothing));
    assert_eq!(peer_step(a, b, PeerState::Connected, PeerEvent::RemoteEnded), (PeerState::Draining, PeerAction::Nothing));
    assert_eq!(peer_step(a, b, PeerState::Connected, PeerEvent::LocalClosed), (PeerState::Draining, PeerAction::Nothing));
    assert_eq!(peer_step(a, b, PeerState::Draining, PeerEvent::Drained), (PeerState::Closed, PeerAction::Shutdown));
    assert_eq!(peer_step(a, b, PeerState::Closed, PeerEvent::Needed), (PeerState::Closed, PeerAction::Nothing));
}

#[test]
fn peer_race_keeps_smaller_pids_connection() {
    let a = local(1000);
    let b = local(2000);
    assert_eq!(peer_step(a, b, PeerState::Connecting, PeerEvent::Accepted), (PeerState::Connecting, PeerAction::DropAccepted));
    assert_eq!(peer_step(b, a, PeerState::Connecting, PeerEvent::Accepted), (PeerState::Connected, PeerAction::DropOutbound));
    assert!(keeps_connection(a, b, true));
    assert!(keeps_connection(b, a, false));
    assert!(!keeps_connection(a, b, false));
    assert!(!keeps_connection(b, a, true));
}

#[test]
fn retry_backoff() {
    assert_eq!(retry_delay_ms(0), 100);
    assert_eq!(retry_delay_ms(1), 200);
    assert_eq!(retry_delay_ms(3), 800);
    assert_eq!(retry_delay_ms(8), 25600);
    assert_eq!(retry_delay_ms(9), 30000);
    assert_eq!(retry_delay_ms(1000), 30000);
}

#[test]
fn byte_stream_encoding() {
    let wire = constellation::encode_bytes(&[5, 6]);
    assert_eq!(wire, vec![1, 0, 0, 0, 0, 0, 0, 0, 5, 1, 0, 0, 0, 0, 0, 0, 0, 6]);
    assert!(constellation::encode_bytes(&[]).is_empty());
}

#[test]
fn inbox_reads_byte_stream() {
    let bytes = b"stream of bytes".to_vec();
    let mut inbox = constellation::Inbox::new();
    assert_eq!(inbox.read_bytes(4), None);
    inbox.feed(&constellation::encode_bytes(&bytes));
    inbox.feed(&encode_end());
    let mut back = Vec::new();
    loop {
        match inbox.read_bytes(4) {
            Some(Ok(b)) => {
                assert!(!b.is_empty() && b.len() <= 4);
                back.extend(b);
            }
            Some(Err(e)) => {
                assert_eq!(e, ChannelError::Exited);
                break;
            }
            None => panic!("all bytes have arrived"),
        }
    }
    assert_eq!(back, bytes);
}

#[test]
fn inbox_byte_read_stops_at_partial_frame() {
    let mut inbox = constellation::Inbox::new();
    let wire = constellation::encode_bytes(&[1, 2, 3]);
    inbox.feed(&wire[..20]);
    assert_eq!(inbox.read_bytes(10), Some(Ok(vec![1, 2])));
    assert_eq!(inbox.read_bytes(10), None);
    inbox.feed(&wire[20..]);
    assert_eq!(inbox.read_bytes(10), Some(Ok(vec![3])));
    inbox.close();
    assert_eq!(inbox.read_bytes(10), Some(Err(ChannelError::Error)));
}

#[test]
fn inbox_byte_read_refuses_longer_message() {
    let mut inbox = constellation::Inbox::new();
    inbox.feed(&constellation::encode_bytes(&[9]));
    inbox.feed(&encode_frame(b"xy"));
    assert_eq!(inbox.read_bytes(5), Some(Ok(vec![9])));
    assert_eq!(inbox.read_bytes(5), Some(Err(ChannelError::Error)));
    assert_eq!(inbox.recv(), Some(Ok(b"xy".to_vec())));
}

#[test]
fn run_keeps_order_of_tokens_left() {
    let log = RefCell::new(Vec::new());
    let tokens: Vec<Token> = (0..6).map(|id| Token { id, ready: id % 3 == 0, log: &log }).collect();
    let left = run(tokens);
    assert_eq!(left.iter().map(|t| t.id).collect::<Vec<_>>(), vec![1, 2, 4, 5]);
    let mut done = log.borrow().clone();
    done.sort();
    assert_eq!(done, vec![0, 3]);
}
