//! A UDP socket built on a raw IPv4 transport: the datagram encoding, the
//! pseudo-header checksum and the receive-side filtering, with contracts.

pub mod address;
pub mod checksum;
pub mod datagram;
pub mod socket;

pub use address::{IpAddress, SocketAddress, LOOPBACK};
pub use socket::{OutgoingDatagram, UdpError, UdpSocket};
