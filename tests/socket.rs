use udp::datagram::{encode_datagram, read_be, set_checksum, MAX_PAYLOAD_LEN};
use udp::{IpAddress, SocketAddress, UdpError, UdpSocket, LOOPBACK};

fn loopback(port: u16) -> SocketAddress {
    SocketAddress::new(IpAddress::V4(LOOPBACK), port)
}

fn pnet_checksum(bytes: &[u8], source: u32, destination: u32) -> u16 {
    let packet = pnet::packet::udp::UdpPacket::new(bytes).unwrap();
    pnet::packet::udp::ipv4_checksum(&packet, &source.into(), &destination.into())
}

#[test]
fn length_field_is_header_plus_payload() {
    let socket = UdpSocket::new(9999);
    for len in [0usize, 1, 5, 1000, MAX_PAYLOAD_LEN] {
        let payload = vec![0xabu8; len];
        let out = socket.send_to(&payload, &[loopback(8888)]).unwrap();
        assert_eq!(out.bytes.len(), 8 + len);
        assert_eq!(read_be(&out.bytes, 4) as usize, 8 + len);
        assert_eq!(&out.bytes[8..], &payload[..]);
    }
}

#[test]
fn payload_too_large_is_refused() {
    let socket = UdpSocket::new(9999);
    for len in [MAX_PAYLOAD_LEN + 1, 65535, 70000] {
        let payload = vec![1u8; len];
        let r = socket.send_to(&payload, &[loopback(8888)]);
        assert!(matches!(r, Err(UdpError::PayloadTooLarge)));
    }
}

#[test]
fn ipv6_destination_is_refused() {
    let socket = UdpSocket::new(9999);
    let dest = SocketAddress::new(IpAddress::V6(1), 8888);
    let r = socket.send_to(b"hello", &[dest]);
    assert!(matches!(r, Err(UdpError::UnsupportedAddressFamily)));
    let big = vec![0u8; 70000];
    let r = socket.send_to(&big, &[dest]);
    assert!(matches!(r, Err(UdpError::UnsupportedAddressFamily)));
}

#[test]
fn unresolved_destination_is_refused() {
    let socket = UdpSocket::new(9999);
    let r = socket.send_to(b"hello", &[]);
    assert!(matches!(r, Err(UdpError::AddressResolution)));
}

#[test]
fn first_resolved_address_is_used() {
    let socket = UdpSocket::new(9999);
    let first = SocketAddress::new(IpAddress::V4(0x0a00_0001), 53);
    let out = socket.send_to(b"x", &[first, SocketAddress::new(IpAddress::V6(1), 54)]).unwrap();
    assert_eq!(out.destination, 0x0a00_0001);
    assert_eq!(read_be(&out.bytes, 2), 53);
}

#[test]
fn hello_datagram_bytes() {
    let socket = UdpSocket::new(9999);
    assert_eq!(socket.port(), 9999);
    let out = socket.send_to(b"hello", &[loopback(8888)]).unwrap();
    assert_eq!(out.destination, LOOPBACK);
    assert_eq!(
        out.bytes,
        vec![0x27, 0x0f, 0x22, 0xb8, 0x00, 0x0d, 0x74, 0x38, b'h', b'e', b'l', b'l', b'o']
    );
}

#[test]
fn sent_checksum_recomputes() {
    let socket = UdpSocket::new(4000);
    for payload in [&b""[..], &b"a"[..], &b"hello"[..], &b"an odd-length payload"[..]] {
        let dest = 0xc0a8_00c7u32;
        let out = socket.send_to(payload, &[SocketAddress::new(IpAddress::V4(dest), 5000)]).unwrap();
        let carried = read_be(&out.bytes, 6);
        assert_ne!(carried, 0);
        assert_eq!(pnet_checksum(&out.bytes, LOOPBACK, dest), carried);
    }
}

#[test]
fn end_to_end_hello_over_loopback() {
    let sender = UdpSocket::new(9999);
    let receiver = UdpSocket::new(8888);
    let out = sender.send_to(b"hello", &[loopback(8888)]).unwrap();
    let mut buffer = [0u8; 64];
    let r = receiver.recv_from(&out.bytes, IpAddress::V4(out.destination), &mut buffer);
    assert_eq!(r, Ok(Some((5, loopback(9999)))));
    assert_eq!(&buffer[..5], b"hello");
}

#[test]
fn other_port_is_skipped() {
    let sender = UdpSocket::new(9999);
    let receiver = UdpSocket::new(8888);
    let mut buffer = [7u8; 16];
    for port in [0u16, 8887, 8889, 65535] {
        let out = sender.send_to(b"hello", &[loopback(port)]).unwrap();
        let r = receiver.recv_from(&out.bytes, IpAddress::V4(LOOPBACK), &mut buffer);
        assert_eq!(r, Ok(None));
    }
    assert_eq!(buffer, [7u8; 16]);
}

#[test]
fn bad_checksum_is_skipped() {
    let sender = UdpSocket::new(9999);
    let receiver = UdpSocket::new(8888);
    let mut out = sender.send_to(b"hello", &[loopback(8888)]).unwrap();
    let good = read_be(&out.bytes, 6);
    set_checksum(&mut out.bytes, good ^ 0x0100);
    let mut buffer = [0u8; 16];
    let r = receiver.recv_from(&out.bytes, IpAddress::V4(LOOPBACK), &mut buffer);
    assert_eq!(r, Ok(None));
    assert_eq!(buffer, [0u8; 16]);

    let mut corrupted = sender.send_to(b"hello", &[loopback(8888)]).unwrap().bytes;
    corrupted[9] = b'a';
    assert_eq!(receiver.recv_from(&corrupted, IpAddress::V4(LOOPBACK), &mut buffer), Ok(None));
}

#[test]
fn zero_checksum_is_accepted() {
    let receiver = UdpSocket::new(8888);
    let packet = encode_datagram(1234, 8888, 0, b"any bytes");
    let mut buffer = [0u8; 16];
    let r = receiver.recv_from(&packet, IpAddress::V4(0x0a00_0002), &mut buffer);
    assert_eq!(r, Ok(Some((9, SocketAddress::new(IpAddress::V4(0x0a00_0002), 1234)))));
    assert_eq!(&buffer[..9], b"any bytes");
}

#[test]
fn checksum_from_other_source_is_skipped() {
    let sender = UdpSocket::new(9999);
    let receiver = UdpSocket::new(8888);
    let out = sender.send_to(b"hello", &[loopback(8888)]).unwrap();
    let mut buffer = [0u8; 16];
    let r = receiver.recv_from(&out.bytes, IpAddress::V4(0x0a00_0001), &mut buffer);
    assert_eq!(r, Ok(None));
}

#[test]
fn ipv6_source_is_skipped() {
    let receiver = UdpSocket::new(8888);
    let packet = encode_datagram(1234, 8888, 0, b"hi");
    let mut buffer = [0u8; 4];
    assert_eq!(receiver.recv_from(&packet, IpAddress::V6(1), &mut buffer), Ok(None));
}

#[test]
fn short_packet_is_skipped() {
    let receiver = UdpSocket::new(8888);
    let mut buffer = [0u8; 4];
    let packet = [0x04u8, 0xd2, 0x22, 0xb8, 0x00, 0x08, 0x00];
    assert_eq!(receiver.recv_from(&packet, IpAddress::V4(LOOPBACK), &mut buffer), Ok(None));
    assert_eq!(receiver.recv_from(&[], IpAddress::V4(LOOPBACK), &mut buffer), Ok(None));
}

#[test]
fn small_buffer_is_an_error() {
    let receiver = UdpSocket::new(8888);
    let packet = encode_datagram(1234, 8888, 0, b"hello");
    let mut buffer = [9u8; 4];
    let r = receiver.recv_from(&packet, IpAddress::V4(LOOPBACK), &mut buffer);
    assert_eq!(r, Err(UdpError::BufferTooSmall));
    assert_eq!(buffer, [9u8; 4]);
}

#[test]
fn buffer_tail_is_kept() {
    let receiver = UdpSocket::new(8888);
    let packet = encode_datagram(1234, 8888, 0, b"ab");
    let mut buffer = [9u8; 5];
    let r = receiver.recv_from(&packet, IpAddress::V4(LOOPBACK), &mut buffer);
    assert_eq!(r, Ok(Some((2, SocketAddress::new(IpAddress::V4(LOOPBACK), 1234)))));
    assert_eq!(buffer, [b'a', b'b', 9, 9, 9]);
}

#[test]
fn empty_payload_is_delivered() {
    let sender = UdpSocket::new(1);
    let receiver = UdpSocket::new(2);
    let out = sender.send_to(b"", &[loopback(2)]).unwrap();
    let mut buffer: [u8; 0] = [];
    let r = receiver.recv_from(&out.bytes, IpAddress::V4(LOOPBACK), &mut buffer);
    assert_eq!(r, Ok(Some((0, loopback(1)))));
}

#[test]
fn checked_receive_uses_given_checksum() {
    let receiver = UdpSocket::new(8888);
    let mut packet = encode_datagram(1234, 8888, 0, b"xy");
    set_checksum(&mut packet, 0x1234);
    let mut buffer = [0u8; 4];
    let r = receiver.recv_checked(&packet, 7, 0x1234, &mut buffer);
    assert_eq!(r, Ok(Some((2, SocketAddress::new(IpAddress::V4(7), 1234)))));
    assert_eq!(receiver.recv_checked(&packet, 7, 0x1235, &mut buffer), Ok(None));
    let other = encode_datagram(1234, 8887, 0, b"xy");
    assert_eq!(receiver.recv_checked(&other, 7, 0, &mut buffer), Ok(None));
}

#[test]
fn datagram_codec() {
    let d = encode_datagram(0x0102, 0x0304, 0x0506, &[0xaa, 0xbb, 0xcc]);
    assert_eq!(d, vec![0x01, 0x02, 0x03, 0x04, 0x00, 0x0b, 0x05, 0x06, 0xaa, 0xbb, 0xcc]);
    assert_eq!(read_be(&d, 0), 0x0102);
    assert_eq!(read_be(&d, 4), 11);
    let mut e = d.clone();
    set_checksum(&mut e, 0xfffe);
    assert_eq!(&e[6..8], &[0xff, 0xfe]);
    assert_eq!(&e[..6], &d[..6]);
    assert_eq!(&e[8..], &d[8..]);
}
