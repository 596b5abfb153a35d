use crate::address::{IpAddress, SocketAddress, LOOPBACK};
use crate::checksum::{ipv4_checksum, udp_ipv4_checksum};
use crate::datagram::{
    checksum_field, destination_port, encode, length_field, encode_datagram, lemma_checksum_field_update,
    lemma_encode_fields, payload, read_be, set_checksum, source_port, without_checksum, HEADER_LEN,
    MAX_DATAGRAM_LEN, MAX_PAYLOAD_LEN,
};
use vstd::prelude::*;

verus! {

/// Why a socket operation failed.
#[derive(Clone, Copy, Debug, PartialEq, Eq, Structural)]
pub enum UdpError {
    /// The raw channel could not be opened.
    SocketOpen,
    /// The destination resolved to no address.
    AddressResolution,
    /// The destination resolved to an IPv6 address.
    UnsupportedAddressFamily,
    /// The payload does not fit the 16-bit length field.
    PayloadTooLarge,
    /// The transport failed to transmit the datagram.
    Send,
    /// The transport failed while waiting for packets.
    Receive,
    /// The caller's buffer cannot hold the payload.
    BufferTooSmall,
}

/// A datagram ready for the transport, and the IPv4 address to send it to.
pub struct OutgoingDatagram {
    pub bytes: Vec<u8>,
    pub destination: u32,
}

/// The datagram that a socket bound to `source_port` sends: its checksum is
/// computed with the other fields in place and the checksum field zero.
pub open spec fn sealed_datagram(
    source_port: u16,
    destination_port: u16,
    source_ip: u32,
    destination_ip: u32,
    p: Seq<u8>,
) -> Seq<u8> {
    let c = udp_ipv4_checksum(encode(source_port, destination_port, 0, p), source_ip, destination_ip);
    encode(source_port, destination_port, c, p)
}

/// The checksum field is zero (checking disabled) or matches the checksum
/// recomputed for the given pseudo-header addresses.
pub open spec fn checksum_verifies(d: Seq<u8>, source_ip: u32, destination_ip: u32) -> bool {
    checksum_field(d) == 0 || checksum_field(d) == udp_ipv4_checksum(without_checksum(d), source_ip, destination_ip)
}

/// `d` holds a whole UDP header and fits the 16-bit length field.
pub open spec fn well_sized(d: Seq<u8>) -> bool {
    HEADER_LEN <= d.len() <= MAX_DATAGRAM_LEN
}

/// A socket bound to `port` takes the packet `d` that came from `source`:
/// IPv4, addressed to the port, with a checksum that verifies against the
/// source address and the loopback address.
pub open spec fn accepts(port: u16, d: Seq<u8>, source: IpAddress) -> bool {
    &&& source is V4
    &&& well_sized(d)
    &&& destination_port(d) == port
    &&& checksum_verifies(d, source->V4_0, LOOPBACK)
}

/// What `recv_from` does with a packet: skip it, fail, or deliver its
/// payload into the buffer and report its origin.
pub open spec fn receive_outcome(
    accepted: bool,
    d: Seq<u8>,
    source: IpAddress,
    before: Seq<u8>,
    after: Seq<u8>,
    r: Result<Option<(usize, SocketAddress)>, UdpError>,
) -> bool {
    if !accepted {
        r == Ok::<Option<(usize, SocketAddress)>, UdpError>(None) && after == before
    } else if payload(d).len() > before.len() {
        r == Err::<Option<(usize, SocketAddress)>, UdpError>(UdpError::BufferTooSmall) && after == before
    } else {
        &&& r == Ok::<Option<(usize, SocketAddress)>, UdpError>(
            Some((payload(d).len() as usize, SocketAddress { ip: source, port: source_port(d) })),
        )
        &&& after == payload(d) + before.subrange(payload(d).len() as int, before.len() as int)
    }
}

/// A UDP socket's binding: the local port it sends from and receives on.
pub struct UdpSocket {
    port: u16,
}

impl UdpSocket {
    pub closed spec fn bound_port(&self) -> u16 {
        self.port
    }

    /// A socket bound to `port`.
    pub fn new(port: u16) -> (r: UdpSocket)
        ensures
            r.bound_port() == port,
    {
        UdpSocket { port }
    }

    pub fn port(&self) -> (r: u16)
        ensures
            r == self.bound_port(),
    {
        self.port
    }

    /// Builds the datagram that sends `payload` to the first of the addresses
    /// that the destination resolved to. The checksum takes the loopback
    /// address as the source.
    pub fn send_to(&self, payload: &[u8], resolved: &[SocketAddress]) -> (r: Result<OutgoingDatagram, UdpError>)
        ensures
            resolved@.len() == 0 ==> r == Err::<OutgoingDatagram, UdpError>(UdpError::AddressResolution),
            resolved@.len() > 0 && resolved@[0].ip is V6 ==> r == Err::<OutgoingDatagram, UdpError>(
                UdpError::UnsupportedAddressFamily,
            ),
            resolved@.len() > 0 && resolved@[0].ip is V4 && payload@.len() > MAX_PAYLOAD_LEN ==> r == Err::<
                OutgoingDatagram,
                UdpError,
            >(UdpError::PayloadTooLarge),
            resolved@.len() > 0 && resolved@[0].ip is V4 && payload@.len() <= MAX_PAYLOAD_LEN ==> {
                &&& r is Ok
                &&& r->Ok_0.destination == resolved@[0].ip->V4_0
                &&& r->Ok_0.bytes@ == sealed_datagram(
                    self.bound_port(),
                    resolved@[0].port,
                    LOOPBACK,
                    resolved@[0].ip->V4_0,
                    payload@,
                )
            },
    {
        if resolved.len() == 0 {
            return Err(UdpError::AddressResolution);
        }
        let dest = resolved[0];
        let ip = match dest.ip {
            IpAddress::V4(a) => a,
            IpAddress::V6(_) => {
                return Err(UdpError::UnsupportedAddressFamily);
            },
        };
        if payload.len() > MAX_PAYLOAD_LEN {
            return Err(UdpError::PayloadTooLarge);
        }
        let mut bytes = encode_datagram(self.port, dest.port, 0, payload);
        proof {
            lemma_encode_fields(self.port, dest.port, 0, payload@);
            lemma_checksum_field_update(self.port, dest.port, 0, 0, payload@);
        }
        let c = ipv4_checksum(bytes.as_slice(), LOOPBACK, ip);
        set_checksum(&mut bytes, c);
        proof {
            lemma_checksum_field_update(self.port, dest.port, 0, c, payload@);
        }
        Ok(OutgoingDatagram { bytes, destination: ip })
    }

    /// Decides on one packet that arrived from `source`: skips it unless it is
    /// IPv4, addressed to this socket's port and its checksum verifies (or is
    /// zero); otherwise copies its payload into `buffer` and returns the
    /// payload's length and the packet's origin.
    pub fn recv_from(&self, packet: &[u8], source: IpAddress, buffer: &mut [u8]) -> (r: Result<
        Option<(usize, SocketAddress)>,
        UdpError,
    >)
        ensures
            receive_outcome(
                accepts(self.bound_port(), packet@, source),
                packet@,
                source,
                old(buffer)@,
                final(buffer)@,
                r,
            ),
    {
        let ip = match source {
            IpAddress::V4(a) => a,
            IpAddress::V6(_) => {
                return Ok(None);
            },
        };
        if packet.len() < HEADER_LEN || packet.len() > MAX_DATAGRAM_LEN {
            return Ok(None);
        }
        let field = read_be(packet, 6);
        let expected = if field == 0 {
            0
        } else {
            ipv4_checksum(packet, ip, LOOPBACK)
        };
        self.recv_checked(packet, ip, expected, buffer)
    }

    /// As `recv_from`, for a packet from the IPv4 address `source`, with the
    /// checksum that verification expects already computed: `expected` is
    /// what a nonzero checksum field must equal.
    pub fn recv_checked(&self, packet: &[u8], source: u32, expected: u16, buffer: &mut [u8]) -> (r: Result<
        Option<(usize, SocketAddress)>,
        UdpError,
    >)
        ensures
            receive_outcome(
                well_sized(packet@) && destination_port(packet@) == self.bound_port() && (checksum_field(
                    packet@,
                ) == 0 || checksum_field(packet@) == expected),
                packet@,
                IpAddress::V4(source),
                old(buffer)@,
                final(buffer)@,
                r,
            ),
    {
        if packet.len() < HEADER_LEN || packet.len() > MAX_DATAGRAM_LEN {
            return Ok(None);
        }
        if read_be(packet, 2) != self.port {
            return Ok(None);
        }
        let field = read_be(packet, 6);
        if field != 0 && field != expected {
            return Ok(None);
        }
        let n = packet.len() - HEADER_LEN;
        if n > buffer.len() {
            return Err(UdpError::BufferTooSmall);
        }
        let ghost before = buffer@;
        let mut i: usize = 0;
        while i < n
            invariant
                n == packet@.len() - HEADER_LEN,
                packet@.len() <= MAX_DATAGRAM_LEN,
                n <= before.len(),
                i <= n,
                buffer@ == packet@.subrange(HEADER_LEN as int, HEADER_LEN + i) + before.subrange(
                    i as int,
                    before.len() as int,
                ),
            decreases n - i,
        {
            buffer[i] = packet[HEADER_LEN + i];
            assert(buffer@ =~= packet@.subrange(HEADER_LEN as int, HEADER_LEN + i + 1) + before.subrange(
                i + 1,
                before.len() as int,
            ));
            i = i + 1;
        }
        assert(payload(packet@) =~= packet@.subrange(HEADER_LEN as int, HEADER_LEN + n));
        Ok(Some((n, SocketAddress { ip: IpAddress::V4(source), port: read_be(packet, 0) })))
    }
}

/// A datagram sent with a payload of at most `MAX_PAYLOAD_LEN` bytes is
/// `HEADER_LEN` bytes longer than the payload and says so in its length field;
/// its ports and payload are the ones it was built with.
pub proof fn lemma_sealed_length(sp: u16, dp: u16, source_ip: u32, destination_ip: u32, p: Seq<u8>)
    requires
        p.len() <= MAX_PAYLOAD_LEN,
    ensures
        sealed_datagram(sp, dp, source_ip, destination_ip, p).len() == HEADER_LEN + p.len(),
        length_field(sealed_datagram(sp, dp, source_ip, destination_ip, p)) == HEADER_LEN + p.len(),
        source_port(sealed_datagram(sp, dp, source_ip, destination_ip, p)) == sp,
        destination_port(sealed_datagram(sp, dp, source_ip, destination_ip, p)) == dp,
        payload(sealed_datagram(sp, dp, source_ip, destination_ip, p)) == p,
{
    let c = udp_ipv4_checksum(encode(sp, dp, 0, p), source_ip, destination_ip);
    lemma_encode_fields(sp, dp, c, p);
}

/// The checksum of a sent datagram, recomputed with the same pseudo-header
/// addresses, equals the checksum it carries: the datagram verifies.
pub proof fn lemma_sealed_checksum_recomputes(sp: u16, dp: u16, source_ip: u32, destination_ip: u32, p: Seq<u8>)
    requires
        p.len() <= MAX_PAYLOAD_LEN,
    ensures
        checksum_field(sealed_datagram(sp, dp, source_ip, destination_ip, p)) == udp_ipv4_checksum(
            without_checksum(sealed_datagram(sp, dp, source_ip, destination_ip, p)),
            source_ip,
            destination_ip,
        ),
        checksum_verifies(sealed_datagram(sp, dp, source_ip, destination_ip, p), source_ip, destination_ip),
{
    let c = udp_ipv4_checksum(encode(sp, dp, 0, p), source_ip, destination_ip);
    lemma_encode_fields(sp, dp, c, p);
    lemma_checksum_field_update(sp, dp, c, 0, p);
}

/// A socket accepts only packets addressed to its own port.
pub proof fn lemma_accepted_port(port: u16, d: Seq<u8>, source: IpAddress)
    ensures
        accepts(port, d, source) ==> destination_port(d) == port,
{
}

/// A packet with a nonzero checksum that does not verify is not accepted, so
/// `recv_from` skips it without an error.
pub proof fn lemma_bad_checksum_skipped(port: u16, d: Seq<u8>, source_ip: u32)
    requires
        checksum_field(d) != 0,
        checksum_field(d) != udp_ipv4_checksum(without_checksum(d), source_ip, LOOPBACK),
    ensures
        !accepts(port, d, IpAddress::V4(source_ip)),
{
}

/// A whole IPv4 packet addressed to the port with a zero checksum field is
/// accepted, whatever its contents.
pub proof fn lemma_zero_checksum_accepted(port: u16, d: Seq<u8>, source_ip: u32)
    requires
        well_sized(d),
        destination_port(d) == port,
        checksum_field(d) == 0,
    ensures
        accepts(port, d, IpAddress::V4(source_ip)),
{
}

/// Over loopback, what a socket bound to `sp` sends to port `dp` is accepted
/// by a socket bound to `dp`, which sees the payload and the origin port `sp`.
pub proof fn lemma_loopback_round_trip(sp: u16, dp: u16, p: Seq<u8>)
    requires
        p.len() <= MAX_PAYLOAD_LEN,
    ensures
        accepts(dp, sealed_datagram(sp, dp, LOOPBACK, LOOPBACK, p), IpAddress::V4(LOOPBACK)),
        payload(sealed_datagram(sp, dp, LOOPBACK, LOOPBACK, p)) == p,
        source_port(sealed_datagram(sp, dp, LOOPBACK, LOOPBACK, p)) == sp,
{
    lemma_sealed_length(sp, dp, LOOPBACK, LOOPBACK, p);
    lemma_sealed_checksum_recomputes(sp, dp, LOOPBACK, LOOPBACK, p);
}

} // verus!
