use niping::packet::icmp::{IcmpBuilder, PacketType};
use niping::packet::ip::{IPV4Builder, Ipv4Address, Protocol};
use niping::ping::{take_probe, PacketInfo, Ping, PingError, Step, DATA_SIZE};
use niping::stats::Statistics;
use std::collections::HashMap;
use std::io;

/// A socket that answers each request with the reply its builder writes,
/// wrapped in an IPv4 header.
#[derive(Default)]
struct TestSocket {
    builder: IcmpBuilder,
    recv_errors: HashMap<usize, io::ErrorKind>,
    send_errors: HashMap<usize, io::ErrorKind>,
    changer: HashMap<usize, fn(&mut IcmpBuilder)>,
    replies: HashMap<usize, Vec<u8>>,
    recv: usize,
    send: usize,
    /// Reply with the sequence number of the request last sent.
    echo: bool,
}

fn wrap_in_ip(icmp: &[u8], buf: &mut [u8]) -> usize {
    IPV4Builder::new(
        0,
        Protocol::ICMP,
        Ipv4Address::new(127, 0, 0, 1),
        Ipv4Address::new(127, 0, 0, 1),
        icmp,
    )
    .build(buf)
    .unwrap()
}

impl TestSocket {
    fn recv(&mut self, buf: &mut [u8]) -> io::Result<usize> {
        self.recv += 1;
        if let Some(kind) = self.recv_errors.get(&self.recv) {
            return Err(io::Error::new(*kind, "recv failed"));
        }
        if let Some(bytes) = self.replies.get(&self.recv) {
            return Ok(wrap_in_ip(bytes, buf));
        }
        if let Some(callback) = self.changer.get(&self.recv) {
            callback(&mut self.builder);
        }
        let mut icmp = [0; 300];
        let icmp_size = self.builder.build(&mut icmp).unwrap();
        Ok(wrap_in_ip(&icmp[..icmp_size], buf))
    }

    fn send(&mut self, buf: &[u8]) -> io::Result<usize> {
        self.send += 1;
        match self.send_errors.get(&self.send) {
            Some(kind) => Err(io::Error::new(*kind, "send failed")),
            None => {
                if self.echo {
                    self.builder.seq = u16::from_be_bytes([buf[6], buf[7]]);
                } else {
                    self.builder.seq += 1;
                }
                Ok(buf.len())
            }
        }
    }
}

fn test_ping() -> (Ping, TestSocket) {
    let ping = Ping::new();
    let mut builder = ping.request().clone();
    builder.tp = PacketType::EchoReply.value();
    let sock = TestSocket {
        builder,
        ..TestSocket::default()
    };
    (ping, sock)
}

/// One probe: what a caller of the engine does around the socket.
fn run(ping: &mut Ping, sock: &mut TestSocket) -> Result<PacketInfo, PingError> {
    let mut buf = vec![0; 300];
    let size = ping.run(&mut buf);
    let mut step = ping.on_send(sock.send(&buf[..size]));
    loop {
        match step {
            Step::Done(result) => return result,
            Step::Receive => {
                let received = sock.recv(&mut buf);
                step = ping.on_recv(received.map(|n| &buf[..n]), 7);
            }
        }
    }
}

fn counts(sock: &TestSocket) -> (usize, usize) {
    (sock.send, sock.recv)
}

#[test]
fn ping_ping() {
    let (mut ping, mut sock) = test_ping();

    for seq in 1..=2 {
        let packet = run(&mut ping, &mut sock);
        assert!(packet.is_ok());
        assert_eq!(packet.unwrap().icmp_seq, seq);
    }

    let (send, recv) = counts(&sock);
    assert_eq!(send, 2);
    assert_eq!(recv, 2);
}

#[test]
fn ping_send_error() {
    let (mut ping, mut sock) = test_ping();

    sock.send_errors.insert(2, io::ErrorKind::Other);

    let packet = run(&mut ping, &mut sock);
    assert!(packet.is_ok());
    assert_eq!(packet.unwrap().icmp_seq, 1);

    let packet = run(&mut ping, &mut sock);
    assert!(packet.is_err());

    let packet = run(&mut ping, &mut sock);
    assert!(packet.is_ok());
    assert_eq!(packet.unwrap().icmp_seq, 2);

    let (send, recv) = counts(&sock);
    assert_eq!(send, 3);
    assert_eq!(recv, 2);
}

#[test]
fn ping_recv_error() {
    let (mut ping, mut sock) = test_ping();

    sock.recv_errors.insert(2, io::ErrorKind::Other);

    let packet = run(&mut ping, &mut sock);
    assert!(packet.is_ok());
    assert_eq!(packet.unwrap().icmp_seq, 1);

    let packet = run(&mut ping, &mut sock);
    assert!(packet.is_err());

    let packet = run(&mut ping, &mut sock);
    assert!(packet.is_ok());
    assert_eq!(packet.unwrap().icmp_seq, 3);

    let (send, recv) = counts(&sock);
    assert_eq!(send, 3);
    assert_eq!(recv, 3);
}

#[test]
fn ping_recv_unexpected_icmp_packet() {
    let (mut ping, mut sock) = test_ping();

    // spoil the playground
    sock.changer.insert(2, |builder| {
        builder.payload.as_mut().map(|p| p.reverse());
    });
    sock.changer.insert(4, |builder| {
        builder.payload.as_mut().map(|p| p.reverse());
    });

    let packet = run(&mut ping, &mut sock);
    assert!(packet.is_ok());
    assert_eq!(packet.unwrap().icmp_seq, 1);

    let packet = run(&mut ping, &mut sock);
    assert!(packet.is_ok());
    assert_eq!(packet.unwrap().icmp_seq, 2);

    let (send, recv) = counts(&sock);
    assert_eq!(send, 2);
    assert_eq!(recv, 4);
}

#[test]
fn errors_carry_their_side() {
    let (mut ping, mut sock) = test_ping();
    sock.send_errors.insert(1, io::ErrorKind::Other);
    sock.recv_errors.insert(1, io::ErrorKind::TimedOut);

    assert!(matches!(run(&mut ping, &mut sock), Err(PingError::Send(_))));
    match run(&mut ping, &mut sock) {
        Err(PingError::Recv(e)) => assert_eq!(e.kind(), io::ErrorKind::TimedOut),
        _ => panic!("expected a receive error"),
    }
}

#[test]
fn time_exceeded_from_gateway_is_accepted() {
    let (mut ping, mut sock) = test_ping();

    // The gateway quotes the IPv4 header and the ICMP header of the request,
    // without its payload.
    let quoted = IcmpBuilder::new()
        .with_type(PacketType::EchoRequest.value())
        .with_ident(ping.ident())
        .with_seq(1);
    let mut inner = [0u8; 8];
    quoted.build(&mut inner).unwrap();
    let mut inner_ip = [0u8; 28];
    wrap_in_ip(&inner, &mut inner_ip);
    let outer = IcmpBuilder::new()
        .with_type(PacketType::TimeExceeded.value())
        .with_payload(&inner_ip);
    let mut reply = [0u8; 36];
    outer.build(&mut reply).unwrap();
    sock.replies.insert(1, reply.to_vec());

    let info = run(&mut ping, &mut sock).unwrap();
    assert_eq!(info.icmp_type, PacketType::TimeExceeded.value());
    assert_eq!(info.icmp_seq, 1);
    assert_eq!(info.received_bytes, 56);
    assert_eq!(info.ip_source_ip, Ipv4Address::new(127, 0, 0, 1));
    assert_eq!(counts(&sock), (1, 1));

    let mut stats = Statistics::new(String::from("gateway"), Ipv4Address::new(127, 0, 0, 1));
    stats.record(&Ok(info));
    assert_eq!(stats.transmitted(), 1);
    assert_eq!(stats.received(), 0);
    assert_eq!(stats.samples(), &[7]);
}

#[test]
fn time_exceeded_for_another_ident_is_skipped() {
    let (mut ping, mut sock) = test_ping();

    let quoted = IcmpBuilder::new()
        .with_type(PacketType::EchoRequest.value())
        .with_ident(ping.ident().wrapping_add(1))
        .with_seq(1);
    let mut inner = [0u8; 8];
    quoted.build(&mut inner).unwrap();
    let mut inner_ip = [0u8; 28];
    wrap_in_ip(&inner, &mut inner_ip);
    let outer = IcmpBuilder::new()
        .with_type(PacketType::TimeExceeded.value())
        .with_payload(&inner_ip);
    let mut reply = [0u8; 36];
    outer.build(&mut reply).unwrap();
    sock.replies.insert(1, reply.to_vec());

    let info = run(&mut ping, &mut sock).unwrap();
    assert_eq!(info.icmp_type, PacketType::EchoReply.value());
    assert_eq!(counts(&sock), (1, 2));
}

#[test]
fn own_request_looped_back_is_skipped() {
    let (mut ping, mut sock) = test_ping();

    let mut own = ping.request().clone();
    own.seq = 1;
    let mut request = [0u8; 40];
    own.build(&mut request).unwrap();
    sock.replies.insert(1, request.to_vec());

    let info = run(&mut ping, &mut sock).unwrap();
    assert_eq!(info.icmp_type, PacketType::EchoReply.value());
    assert_eq!(info.icmp_seq, 1);
    assert_eq!(counts(&sock), (1, 2));
}

#[test]
fn garbage_and_other_types() {
    let ping = Ping::new();
    // Not IPv4: skipped.
    assert!(matches!(ping.on_recv(Ok(&[1, 2, 3]), 0), Step::Receive));
    // IPv4 carrying fewer than eight bytes: skipped.
    let mut buf = [0u8; 64];
    let n = wrap_in_ip(&[0, 0, 0], &mut buf);
    assert!(matches!(ping.on_recv(Ok(&buf[..n]), 0), Step::Receive));
    // A destination-unreachable message is shown.
    let mut icmp = [0u8; 8];
    IcmpBuilder::new().with_type(3).with_seq(9).build(&mut icmp).unwrap();
    let n = wrap_in_ip(&icmp, &mut buf);
    match ping.on_recv(Ok(&buf[..n]), 5) {
        Step::Done(Ok(info)) => {
            assert_eq!(info.icmp_type, 3);
            assert_eq!(info.icmp_seq, 9);
            assert_eq!(info.time, 5);
            assert_eq!(info.received_bytes, 28);
        }
        _ => panic!("expected a reply"),
    }
    // An unknown type is shown as well.
    IcmpBuilder::new().with_type(200).build(&mut icmp).unwrap();
    let n = wrap_in_ip(&icmp, &mut buf);
    assert!(matches!(ping.on_recv(Ok(&buf[..n]), 0), Step::Done(Ok(_))));
}

#[test]
fn sequence_advances_and_wraps() {
    let mut ping = Ping::new();
    assert_eq!(ping.seq(), 0);
    assert_eq!(ping.request().payload.as_ref().unwrap().len(), DATA_SIZE);
    let mut buf = [0u8; 40];
    assert_eq!(ping.run(&mut buf), 40);
    assert_eq!(ping.seq(), 1);
    assert_eq!(buf[0], 8);
    assert_eq!(&buf[6..8], &[0, 1]);
    assert_eq!(&buf[8..], &ping.request().payload.as_ref().unwrap()[..]);
    for _ in 1..0x10000 {
        ping.run(&mut buf);
    }
    assert_eq!(ping.seq(), 0);
}

#[test]
fn probe_budget() {
    let mut budget = Some(2);
    assert!(take_probe(false, &mut budget));
    assert_eq!(budget, Some(1));
    assert!(take_probe(false, &mut budget));
    assert_eq!(budget, Some(0));
    assert!(!take_probe(false, &mut budget));
    assert_eq!(budget, Some(0));

    let mut unbounded = None;
    assert!(take_probe(false, &mut unbounded));
    assert_eq!(unbounded, None);
    let mut budget = Some(3);
    assert!(!take_probe(true, &mut budget));
    assert_eq!(budget, Some(3));
}

#[test]
fn emitted_sequences_increase_with_gaps_at_errors() {
    let (mut ping, mut sock) = test_ping();
    sock.echo = true;
    sock.send_errors.insert(3, io::ErrorKind::Other);
    sock.recv_errors.insert(5, io::ErrorKind::TimedOut);

    let mut emitted = Vec::new();
    let mut budget = Some(8);
    while take_probe(false, &mut budget) {
        match run(&mut ping, &mut sock) {
            Ok(info) => emitted.push(Some(info.icmp_seq)),
            Err(_) => emitted.push(None),
        }
    }
    // Probe 3 fails to send and probe 6 to receive (the fifth receive).
    assert_eq!(ping.seq(), 8);
    assert_eq!(
        emitted,
        vec![Some(1), Some(2), None, Some(4), Some(5), None, Some(7), Some(8)]
    );
}

#[test]
fn engine_from_given_parts() {
    let payload: Vec<u8> = (100..132).collect();
    let mut ping = Ping::from_parts(0x1234, &payload);
    assert_eq!(ping.ident(), 0x1234);
    assert_eq!(ping.seq(), 0);
    let req = ping.request();
    assert_eq!(req.tp, PacketType::EchoRequest.value());
    assert_eq!(req.code, 0);
    assert_eq!(req.payload.as_deref(), Some(&payload[..]));
    let mut buf = [0u8; 40];
    assert_eq!(ping.run(&mut buf), 40);
    assert_eq!(&buf[4..8], &[0x12, 0x34, 0, 1]);
    assert_eq!(&buf[8..], &payload[..]);
}
