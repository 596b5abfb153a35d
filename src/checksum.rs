use crate::datagram::{without_checksum, HEADER_LEN, MAX_DATAGRAM_LEN};
use vstd::prelude::*;

verus! {

/// The IPv4 UDP pseudo-header checksum of a datagram whose checksum field is
/// zero, for the given source and destination addresses.
pub uninterp spec fn udp_ipv4_checksum(datagram: Seq<u8>, source: u32, destination: u32) -> u16;

/// Relies on `pnet::packet::udp::ipv4_checksum` for the pseudo-header checksum
/// of `datagram` between `source` and `destination` (big-endian IPv4
/// addresses). pnet skips the checksum word when summing, so the result is
/// that of the datagram with its checksum field cleared. Its 32-bit sum
/// cannot overflow for a datagram of at most 65535 bytes.
#[verifier::external_body]
pub(crate) fn ipv4_checksum(datagram: &[u8], source: u32, destination: u32) -> (r: u16)
    requires
        HEADER_LEN <= datagram@.len() <= MAX_DATAGRAM_LEN,
    ensures
        r == udp_ipv4_checksum(without_checksum(datagram@), source, destination),
{
    let packet = pnet::packet::udp::UdpPacket::new(datagram).unwrap();
    pnet::packet::udp::ipv4_checksum(&packet, &source.into(), &destination.into())
}

} // verus!
