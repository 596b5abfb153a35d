use vstd::prelude::*;

verus! {

/// Size of the UDP header in bytes.
pub const HEADER_LEN: usize = 8;

/// Largest payload whose datagram length still fits the 16-bit length field.
pub const MAX_PAYLOAD_LEN: usize = 65527;

/// Largest datagram: the largest value of the 16-bit length field.
pub const MAX_DATAGRAM_LEN: usize = 65535;

/// The two bytes of `v`, most significant first.
pub open spec fn be_bytes(v: u16) -> Seq<u8> {
    seq![(v / 256) as u8, (v % 256) as u8]
}

/// The 16-bit big-endian value stored at `d[i]`, `d[i + 1]`.
pub open spec fn be_value(d: Seq<u8>, i: int) -> u16 {
    (d[i] as int * 256 + d[i + 1] as int) as u16
}

/// A UDP datagram: source port, destination port, length (header included)
/// and checksum, each 16 bits big-endian, then the payload.
pub open spec fn encode(source_port: u16, destination_port: u16, checksum: u16, payload: Seq<u8>) -> Seq<u8> {
    be_bytes(source_port) + be_bytes(destination_port) + be_bytes((HEADER_LEN + payload.len()) as u16)
        + be_bytes(checksum) + payload
}

pub open spec fn source_port(d: Seq<u8>) -> u16 {
    be_value(d, 0)
}

pub open spec fn destination_port(d: Seq<u8>) -> u16 {
    be_value(d, 2)
}

pub open spec fn length_field(d: Seq<u8>) -> u16 {
    be_value(d, 4)
}

pub open spec fn checksum_field(d: Seq<u8>) -> u16 {
    be_value(d, 6)
}

/// Everything after the header.
pub open spec fn payload(d: Seq<u8>) -> Seq<u8> {
    d.subrange(HEADER_LEN as int, d.len() as int)
}

/// The datagram with its checksum field set to zero.
pub open spec fn without_checksum(d: Seq<u8>) -> Seq<u8> {
    d.update(6, 0).update(7, 0)
}

/// The datagram with its checksum field set to `c`.
pub open spec fn with_checksum(d: Seq<u8>, c: u16) -> Seq<u8> {
    d.update(6, be_bytes(c)[0]).update(7, be_bytes(c)[1])
}

pub proof fn lemma_be_round_trip(v: u16)
    ensures
        be_value(be_bytes(v), 0) == v,
{
}

/// Every header field reads back what `encode` wrote, and the payload follows it.
pub proof fn lemma_encode_fields(source: u16, destination: u16, checksum: u16, p: Seq<u8>)
    requires
        p.len() <= MAX_PAYLOAD_LEN,
    ensures
        encode(source, destination, checksum, p).len() == HEADER_LEN + p.len(),
        source_port(encode(source, destination, checksum, p)) == source,
        destination_port(encode(source, destination, checksum, p)) == destination,
        length_field(encode(source, destination, checksum, p)) == HEADER_LEN + p.len(),
        checksum_field(encode(source, destination, checksum, p)) == checksum,
        payload(encode(source, destination, checksum, p)) == p,
{
    let d = encode(source, destination, checksum, p);
    lemma_be_round_trip(source);
    lemma_be_round_trip(destination);
    lemma_be_round_trip((HEADER_LEN + p.len()) as u16);
    lemma_be_round_trip(checksum);
    assert(payload(d) =~= p);
}

/// Setting or clearing the checksum field of an encoded datagram encodes the
/// same datagram with the new checksum.
pub proof fn lemma_checksum_field_update(source: u16, destination: u16, c: u16, c2: u16, p: Seq<u8>)
    ensures
        with_checksum(encode(source, destination, c, p), c2) == encode(source, destination, c2, p),
        without_checksum(encode(source, destination, c, p)) == encode(source, destination, 0, p),
{
    assert(with_checksum(encode(source, destination, c, p), c2) =~= encode(source, destination, c2, p));
    assert(without_checksum(encode(source, destination, c, p)) =~= encode(source, destination, 0, p));
}

/// Appends the two big-endian bytes of `v`.
fn push_be(buf: &mut Vec<u8>, v: u16)
    ensures
        final(buf)@ == old(buf)@ + be_bytes(v),
{
    buf.push((v / 256) as u8);
    buf.push((v % 256) as u8);
    assert(final(buf)@ =~= old(buf)@ + be_bytes(v));
}

/// Reads the 16-bit big-endian value at `d[i]`, `d[i + 1]`.
pub fn read_be(d: &[u8], i: usize) -> (r: u16)
    requires
        i + 1 < d@.len(),
    ensures
        r == be_value(d@, i as int),
{
    let hi = d[i] as u16;
    let lo = d[i + 1] as u16;
    assert(hi * 256 + lo <= 65535) by (nonlinear_arith)
        requires
            hi <= 255,
            lo <= 255,
    ;
    hi * 256 + lo
}

/// Builds the datagram with the given header fields and payload; its length
/// field is `HEADER_LEN + payload.len()`.
pub fn encode_datagram(source_port: u16, destination_port: u16, checksum: u16, payload: &[u8]) -> (r: Vec<u8>)
    requires
        payload@.len() <= MAX_PAYLOAD_LEN,
    ensures
        r@ == encode(source_port, destination_port, checksum, payload@),
{
    let mut d: Vec<u8> = Vec::with_capacity(HEADER_LEN + payload.len());
    push_be(&mut d, source_port);
    push_be(&mut d, destination_port);
    push_be(&mut d, (HEADER_LEN + payload.len()) as u16);
    push_be(&mut d, checksum);
    let ghost header = d@;
    let mut i: usize = 0;
    while i < payload.len()
        invariant
            i <= payload@.len(),
            d@ == header + payload@.subrange(0, i as int),
        decreases payload@.len() - i,
    {
        d.push(payload[i]);
        assert(payload@.subrange(0, i + 1) =~= payload@.subrange(0, i as int).push(payload@[i as int]));
        i = i + 1;
    }
    assert(payload@.subrange(0, i as int) =~= payload@);
    d
}

/// Writes `c` into the checksum field.
pub fn set_checksum(d: &mut Vec<u8>, c: u16)
    requires
        old(d)@.len() >= HEADER_LEN,
    ensures
        final(d)@ == with_checksum(old(d)@, c),
{
    d.set(6, (c / 256) as u8);
    d.set(7, (c % 256) as u8);
}

} // verus!
