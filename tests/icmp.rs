use niping::packet::icmp::{EchoRequest, IcmpBuilder, IcmpPacket, PacketType};
use niping::packet::PacketError;

fn default_setup() -> (Vec<u8>, IcmpBuilder) {
    let buffer = vec![20, 0, 228, 3, 7, 228, 0, 24];
    let builder = IcmpBuilder::new()
        .with_type(20)
        .with_code(0)
        .with_ident(2020)
        .with_seq(24);

    (buffer, builder)
}

#[test]
fn icmp_build() {
    let mut buf = [0; 8];
    let (expected, builder) = default_setup();
    let res = builder.build(&mut buf);

    assert!(res.is_ok());
    assert_eq!(res.unwrap(), 8);
    assert_eq!(expected, buf);
}

#[test]
fn build_cleaning_checksum_bytes() {
    let mut buf = [0; 8];
    buf[2] = 1;
    buf[3] = 2;

    let (expected, builder) = default_setup();
    let res = builder.build(&mut buf);

    assert!(res.is_ok());
    assert_eq!(res.unwrap(), 8);
    assert_eq!(expected, buf);
}

#[test]
fn build_in_small_buffer() {
    let mut buf = [0; 3];
    let (_, builder) = default_setup();

    let res = builder.build(&mut buf);
    assert!(res.is_err());
}

#[test]
fn icmp_parse() {
    let (buf, buffer) = default_setup();

    let packet = IcmpPacket::parse(&buf);

    assert!(packet.is_ok());
    let packet = packet.unwrap();
    assert_eq!(packet.tp(), buffer.tp);
    assert_eq!(packet.code(), buffer.code);
    assert_eq!(packet.ident(), buffer.ident);
    assert_eq!(packet.seq(), buffer.seq);
    assert!(packet.payload().is_empty());
}

#[test]
fn icmp_parse_cut_buffer() {
    let buf = [20, 0, 228];
    let p = IcmpPacket::parse(&buf);

    assert!(p.is_err());
}

#[test]
fn checksum_validity() {
    let (mut buf, _) = default_setup();
    let packet = IcmpPacket::parse(&buf);
    assert!(packet.is_ok());
    assert!(packet.unwrap().is_checksum_correct());

    buf[2] = 0;
    let packet = IcmpPacket::parse(&buf);
    assert!(packet.is_ok());
    assert!(!packet.unwrap().is_checksum_correct());
}

#[test]
fn checksum() {
    let buffer = [0, 0, 0, 1, 2, 3, 4];
    let sum = niping::packet::icmp::checksum(&buffer);

    assert_eq!(65015, sum);
}

#[test]
fn checksum_of_empty_buffer_is_all_ones() {
    assert_eq!(niping::packet::icmp::checksum(&[]), 0xffff);
}

#[test]
fn checksum_folds_the_carry() {
    // 0xffff + 0x0001 = 0x10000, folded to 0x0001, complemented to 0xfffe.
    assert_eq!(niping::packet::icmp::checksum(&[0xff, 0xff, 0x00, 0x01]), 0xfffe);
}

#[test]
fn checksum_written_into_its_field_verifies() {
    let mut buf = vec![8, 0, 0, 0, 1, 2, 3, 4, 5, 6, 7];
    let sum = niping::packet::icmp::checksum(&buf);
    buf[2] = (sum >> 8) as u8;
    buf[3] = sum as u8;
    assert_eq!(niping::packet::icmp::checksum(&buf), 0);
}

#[test]
fn parse_seven_bytes_is_invalid_buffer_size() {
    let buf = [0u8; 7];
    assert!(matches!(
        IcmpPacket::parse(&buf),
        Err(PacketError::InvalidBufferSize)
    ));
}

#[test]
fn build_then_parse_gives_fields_back() {
    let payload: Vec<u8> = (0..32).collect();
    let builder = IcmpBuilder::new()
        .with_type(8)
        .with_code(3)
        .with_ident(0xbeef)
        .with_seq(513)
        .with_payload(&payload);
    let mut buf = vec![0xaa; 100];
    let size = builder.build(&mut buf).unwrap();
    assert_eq!(size, 40);
    assert!(buf[40..].iter().all(|&b| b == 0xaa));

    let p = IcmpPacket::parse(&buf[..size]).unwrap();
    assert_eq!(p.tp(), 8);
    assert_eq!(p.code(), 3);
    assert_eq!(p.ident(), 0xbeef);
    assert_eq!(p.seq(), 513);
    assert_eq!(p.payload(), &payload[..]);
    assert!(p.is_checksum_correct());
}

#[test]
fn build_checksums_only_the_written_bytes() {
    let builder = IcmpBuilder::new().with_type(8);
    let mut buf = vec![9u8; 1024];
    let size = builder.build(&mut buf).unwrap();
    assert_eq!(size, 8);
    assert_eq!(&buf[..size], &[8, 0, 247, 255, 0, 0, 0, 0]);
    assert_eq!(IcmpPacket::parse(&buf).unwrap().tp(), PacketType::EchoRequest.value());
}

#[test]
fn build_with_payload_into_short_buffer_fails() {
    let builder = IcmpBuilder::new().with_payload(&[1, 2, 3]);
    let mut buf = [7u8; 10];
    assert!(matches!(
        builder.build(&mut buf),
        Err(PacketError::InvalidBufferSize)
    ));
    assert_eq!(buf, [7u8; 10]);
}

#[test]
fn echo_request_fields() {
    let b = EchoRequest::new(77, 5);
    assert_eq!(b.tp, 8);
    assert_eq!(b.code, 0);
    assert_eq!(b.ident, 77);
    assert_eq!(b.seq, 5);
    assert!(b.payload.is_none());
}

#[test]
fn packet_type_from_wire_values() {
    assert_eq!(PacketType::new(0), Some(PacketType::EchoReply));
    assert_eq!(PacketType::new(11), Some(PacketType::TimeExceeded));
    assert_eq!(PacketType::new(43), Some(PacketType::ExtendedEchoReply));
    assert_eq!(PacketType::new(1), None);
    assert_eq!(PacketType::new(255), None);
    assert_eq!(PacketType::TimeExceeded.value(), 11);
    assert_eq!(PacketType::TimeExceeded.description(), "time to live exceeded");
}

#[test]
fn checksum_appended_to_even_buffer_verifies() {
    let mut buf = vec![0x45, 0x00, 0x12, 0x34, 0xff, 0xfe];
    let sum = niping::packet::icmp::checksum(&buf);
    buf.push((sum >> 8) as u8);
    buf.push(sum as u8);
    assert_eq!(niping::packet::icmp::checksum(&buf), 0);
}
