//! The UDP wire format: an 8-byte big-endian header followed by one codec payload.
//! The header is `seq` then `timestamp`, both 32 bits. `seq` drives ordering and
//! gap detection; `timestamp` is a sample count that gives the expected spacing
//! between arrivals.

use vstd::prelude::*;
use vstd::slice::slice_subrange;

verus! {

/// Size of the fixed header in bytes.
pub const HEADER_LEN: usize = 8;

/// A parsed datagram: the header fields and a borrowed view of the payload.
pub struct Packet<'a> {
    pub seq: u32,
    /// Sample count of the frame's first sample.
    pub timestamp: u32,
    pub payload: &'a [u8],
}

/// The four bytes of `x`, most significant first.
pub open spec fn be_bytes(x: u32) -> Seq<u8> {
    seq![
        (x as int / 0x100_0000) as u8,
        (x as int / 0x1_0000 % 0x100) as u8,
        (x as int / 0x100 % 0x100) as u8,
        (x as int % 0x100) as u8,
    ]
}

/// The number that four bytes spell, most significant first.
pub open spec fn be_number(b: Seq<u8>) -> int {
    b[0] * 0x100_0000 + b[1] * 0x1_0000 + b[2] * 0x100 + b[3]
}

/// The eight header bytes of a frame.
pub open spec fn header(seq: u32, timestamp: u32) -> Seq<u8> {
    be_bytes(seq) + be_bytes(timestamp)
}

/// A whole datagram.
pub open spec fn datagram(seq: u32, timestamp: u32, payload: Seq<u8>) -> Seq<u8> {
    header(seq, timestamp) + payload
}

/// What a datagram long enough for a header says.
pub open spec fn seq_of(buf: Seq<u8>) -> u32 {
    be_number(buf.take(4)) as u32
}

pub open spec fn timestamp_of(buf: Seq<u8>) -> u32 {
    be_number(buf.subrange(4, 8)) as u32
}

pub open spec fn payload_of(buf: Seq<u8>) -> Seq<u8> {
    buf.skip(HEADER_LEN as int)
}

/// How far `later` is ahead of `earlier` on the 32-bit circle.
pub open spec fn ahead(later: u32, earlier: u32) -> int {
    (later - earlier) % 0x1_0000_0000
}

/// A distance on the 32-bit circle that counts as being behind.
pub open spec fn is_behind(distance: int) -> bool {
    distance >= u32::MAX / 2
}

/// Write the header into the front of `out`, leaving the rest of it alone. The
/// payload is expected to occupy what follows the header.
pub fn write_header(seq: u32, timestamp: u32, out: &mut [u8])
    requires
        old(out)@.len() >= HEADER_LEN,
    ensures
        final(out)@ == datagram(seq, timestamp, old(out)@.skip(HEADER_LEN as int)),
{
    out[0] = (seq / 0x100_0000) as u8;
    out[1] = (seq / 0x1_0000 % 0x100) as u8;
    out[2] = (seq / 0x100 % 0x100) as u8;
    out[3] = (seq % 0x100) as u8;
    out[4] = (timestamp / 0x100_0000) as u8;
    out[5] = (timestamp / 0x1_0000 % 0x100) as u8;
    out[6] = (timestamp / 0x100 % 0x100) as u8;
    out[7] = (timestamp % 0x100) as u8;
}

/// The big-endian number at `at`.
fn read_number(buf: &[u8], at: usize) -> (n: u32)
    requires
        at + 4 <= buf@.len(),
    ensures
        n == be_number(buf@.subrange(at as int, at + 4)),
{
    let high: u32 = buf[at] as u32 * 0x100_0000 + buf[at + 1] as u32 * 0x1_0000;
    let low: u32 = buf[at + 2] as u32 * 0x100 + buf[at + 3] as u32;
    high + low
}

/// Parse a received datagram. `None` if it is too short to hold a header.
pub fn parse(buf: &[u8]) -> (packet: Option<Packet<'_>>)
    ensures
        packet is Some <==> buf@.len() >= HEADER_LEN,
        packet matches Some(p) ==> {
            &&& p.seq == seq_of(buf@)
            &&& p.timestamp == timestamp_of(buf@)
            &&& p.payload@ == payload_of(buf@)
        },
{
    if buf.len() < HEADER_LEN {
        return None;
    }
    let seq: u32 = read_number(buf, 0);
    let timestamp: u32 = read_number(buf, 4);
    Some(Packet { seq, timestamp, payload: slice_subrange(buf, HEADER_LEN, buf.len()) })
}

proof fn lemma_number_of_bytes(x: u32)
    ensures
        be_number(be_bytes(x)) == x,
{
    let x = x as int;
    let (a, b, c) = (x / 0x100, x / 0x1_0000, x / 0x100_0000);
    assert(x == a * 0x100 + x % 0x100);
    assert(a == b * 0x100 + a % 0x100);
    assert(b == c * 0x100 + b % 0x100);
}

proof fn lemma_bytes_of_number(bytes: Seq<u8>)
    requires
        bytes.len() == 4,
    ensures
        0 <= be_number(bytes) <= u32::MAX,
        be_bytes(be_number(bytes) as u32) == bytes,
{
    let x = be_number(bytes);
    let (a, b, c) = (x / 0x100, x / 0x1_0000, x / 0x100_0000);
    assert(a == bytes[0] * 0x1_0000 + bytes[1] * 0x100 + bytes[2]);
    assert(b == bytes[0] * 0x100 + bytes[1]);
    assert(c == bytes[0]);
    assert(be_bytes(x as u32) =~= bytes);
}

/// A receiver reads back exactly what a sender wrote, for every sequence number,
/// timestamp and payload.
pub proof fn parsing_undoes_writing(seq: u32, timestamp: u32, payload: Seq<u8>)
    ensures
        datagram(seq, timestamp, payload).len() == HEADER_LEN + payload.len(),
        seq_of(datagram(seq, timestamp, payload)) == seq,
        timestamp_of(datagram(seq, timestamp, payload)) == timestamp,
        payload_of(datagram(seq, timestamp, payload)) == payload,
{
    let (s, t) = (be_bytes(seq), be_bytes(timestamp));
    assert((s + t + payload).take(4) =~= s);
    assert((s + t + payload).subrange(4, 8) =~= t);
    assert((s + t + payload).skip(HEADER_LEN as int) =~= payload);
    lemma_number_of_bytes(seq);
    lemma_number_of_bytes(timestamp);
}

/// Writing back what was parsed gives the same datagram, so no two datagrams with
/// a header mean the same.
pub proof fn writing_undoes_parsing(buf: Seq<u8>)
    requires
        buf.len() >= HEADER_LEN,
    ensures
        datagram(seq_of(buf), timestamp_of(buf), payload_of(buf)) == buf,
{
    lemma_bytes_of_number(buf.take(4));
    lemma_bytes_of_number(buf.subrange(4, 8));
    assert(buf.take(4) + buf.subrange(4, 8) + buf.skip(HEADER_LEN as int) =~= buf);
}

/// The layout on the wire, byte by byte: four bytes that spell the sequence number, four
/// that spell the timestamp, both with the most significant byte first, and then the
/// payload as it is.
pub proof fn the_wire_is_big_endian(seq: u32, timestamp: u32, payload: Seq<u8>)
    ensures
        ({
            let d = datagram(seq, timestamp, payload);
            &&& d.len() == 8 + payload.len()
            &&& d[0] * 16777216 + d[1] * 65536 + d[2] * 256 + d[3] == seq
            &&& d[4] * 16777216 + d[5] * 65536 + d[6] * 256 + d[7] == timestamp
            &&& forall|i: int| 0 <= i < payload.len() ==> #[trigger] payload[i] == d[8 + i]
        }),
{
    lemma_number_of_bytes(seq);
    lemma_number_of_bytes(timestamp);
    let (s, t) = (be_bytes(seq), be_bytes(timestamp));
    let d = datagram(seq, timestamp, payload);
    assert(d[0] == s[0] && d[1] == s[1] && d[2] == s[2] && d[3] == s[3]);
    assert(d[4] == t[0] && d[5] == t[1] && d[6] == t[2] && d[7] == t[3]);
    assert forall|i: int| 0 <= i < payload.len() implies #[trigger] payload[i] == d[8 + i] by {}
}

/// What is read from a datagram, byte by byte.
pub proof fn datagrams_are_read_big_endian(buf: Seq<u8>)
    requires
        buf.len() >= 8,
    ensures
        seq_of(buf) == buf[0] * 16777216 + buf[1] * 65536 + buf[2] * 256 + buf[3],
        timestamp_of(buf) == buf[4] * 16777216 + buf[5] * 65536 + buf[6] * 256 + buf[7],
        payload_of(buf).len() == buf.len() - 8,
        forall|i: int| 0 <= i < buf.len() - 8 ==> #[trigger] payload_of(buf)[i] == buf[8 + i],
{
    lemma_bytes_of_number(buf.take(4));
    lemma_bytes_of_number(buf.subrange(4, 8));
}

/// A distance on the circle leads from the earlier number to the later one, in less than
/// a turn; half a turn or more counts as being behind.
pub proof fn distances_lead_there(later: u32, earlier: u32)
    ensures
        0 <= ahead(later, earlier) < 0x1_0000_0000,
        (earlier + ahead(later, earlier)) % 0x1_0000_0000 == later,
        is_behind(ahead(later, earlier)) <==> ahead(later, earlier) >= 0x7FFF_FFFF,
{
    let distance = if later >= earlier {
        later - earlier
    } else {
        later - earlier + 0x1_0000_0000
    };
    assert(ahead(later, earlier) == distance);
}

} // verus!
