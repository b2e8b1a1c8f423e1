//! Byte-level primitives shared by the request encoder and the response
//! decoder: big-endian integer views of byte sequences, their executable
//! readers and writers, and the error type of the whole library.

use vstd::prelude::*;

verus! {

/// Every way a query against a switch can fail, from interface resolution
/// through transport to decoding of the reply.
#[derive(Clone, Copy, Debug, PartialEq, Eq, Structural)]
pub enum QueryError {
    InterfaceNotFound,
    NoIPv4Address,
    InterfaceQueryFailed,
    SocketBindFailed,
    HostnameResolutionFailed,
    NoResponse,
    MalformedHeader,
    TruncatedRecord,
    MalformedPayload,
}

/// The 16-bit value that two bytes hold in big-endian order.
pub open spec fn be16_of(hi: u8, lo: u8) -> u16 {
    (hi * 256 + lo) as u16
}

/// The 64-bit value that eight bytes hold in big-endian order.
pub open spec fn be64_of(s: Seq<u8>) -> u64
    recommends
        s.len() == 8,
{
    (s[0] * 0x100000000000000 + s[1] * 0x1000000000000 + s[2] * 0x10000000000 + s[3] * 0x100000000
        + s[4] * 0x1000000 + s[5] * 0x10000 + s[6] * 0x100 + s[7]) as u64
}

/// The two bytes of a 16-bit value in big-endian order.
pub open spec fn be16_bytes(x: u16) -> Seq<u8> {
    seq![(x / 256) as u8, (x % 256) as u8]
}

/// The four bytes of a 32-bit value in big-endian order.
pub open spec fn be32_bytes(x: u32) -> Seq<u8> {
    seq![
        (x / 0x1000000) as u8,
        ((x / 0x10000) % 256) as u8,
        ((x / 256) % 256) as u8,
        (x % 256) as u8,
    ]
}

/// Reads the big-endian 16-bit field at `off`.
pub fn read_be_u16(b: &[u8], off: usize) -> (r: u16)
    requires
        off + 2 <= b@.len(),
    ensures
        r == be16_of(b@[off as int], b@[off as int + 1]),
{
    (b[off] as u16) * 256 + (b[off + 1] as u16)
}

/// Reads the big-endian 64-bit field at `off`.
pub fn read_be_u64(b: &[u8], off: usize) -> (r: u64)
    requires
        off + 8 <= b@.len(),
    ensures
        r == be64_of(b@.subrange(off as int, off as int + 8)),
{
    let r: u64 = (b[off] as u64) * 0x100000000000000 + (b[off + 1] as u64) * 0x1000000000000
        + (b[off + 2] as u64) * 0x10000000000 + (b[off + 3] as u64) * 0x100000000
        + (b[off + 4] as u64) * 0x1000000 + (b[off + 5] as u64) * 0x10000
        + (b[off + 6] as u64) * 0x100 + (b[off + 7] as u64);
    proof {
        let s = b@.subrange(off as int, off as int + 8);
        assert(s[0] == b@[off as int]);
        assert(s[1] == b@[off as int + 1]);
        assert(s[2] == b@[off as int + 2]);
        assert(s[3] == b@[off as int + 3]);
        assert(s[4] == b@[off as int + 4]);
        assert(s[5] == b@[off as int + 5]);
        assert(s[6] == b@[off as int + 6]);
        assert(s[7] == b@[off as int + 7]);
    }
    r
}

/// Appends the big-endian bytes of a 16-bit value.
pub fn push_be_u16(v: &mut Vec<u8>, x: u16)
    ensures
        final(v)@ == old(v)@ + be16_bytes(x),
{
    v.push((x / 256) as u8);
    v.push((x % 256) as u8);
    assert(v@ =~= old(v)@ + be16_bytes(x));
}

/// Appends the big-endian bytes of a 32-bit value.
pub fn push_be_u32(v: &mut Vec<u8>, x: u32)
    ensures
        final(v)@ == old(v)@ + be32_bytes(x),
{
    v.push((x / 0x1000000) as u8);
    v.push(((x / 0x10000) % 256) as u8);
    v.push(((x / 256) % 256) as u8);
    v.push((x % 256) as u8);
    assert(v@ =~= old(v)@ + be32_bytes(x));
}

/// Appends a run of bytes unchanged.
pub fn push_bytes(v: &mut Vec<u8>, b: &[u8])
    ensures
        final(v)@ == old(v)@ + b@,
{
    let mut i: usize = 0;
    while i < b.len()
        invariant
            i <= b@.len(),
            v@ == old(v)@ + b@.subrange(0, i as int),
        decreases b@.len() - i,
    {
        v.push(b[i]);
        assert(b@.subrange(0, i as int + 1) =~= b@.subrange(0, i as int) + seq![b@[i as int]]);
        i = i + 1;
    }
    assert(b@.subrange(0, b@.len() as int) =~= b@);
}

/// Copies `b[start..end]` into a fresh vector.
pub fn bytes_range_to_vec(b: &[u8], start: usize, end: usize) -> (r: Vec<u8>)
    requires
        start <= end <= b@.len(),
    ensures
        r@ == b@.subrange(start as int, end as int),
{
    let mut r: Vec<u8> = Vec::new();
    let mut i: usize = start;
    while i < end
        invariant
            start <= i <= end <= b@.len(),
            r@ == b@.subrange(start as int, i as int),
        decreases end - i,
    {
        r.push(b[i]);
        assert(b@.subrange(start as int, i as int + 1) =~= b@.subrange(start as int, i as int)
            + seq![b@[i as int]]);
        i = i + 1;
    }
    r
}

/// True when the two byte strings are equal.
pub fn bytes_eq(a: &[u8], b: &[u8]) -> (r: bool)
    ensures
        r <==> a@ == b@,
{
    if a.len() != b.len() {
        return false;
    }
    let mut i: usize = 0;
    while i < a.len()
        invariant
            i <= a@.len(),
            a@.len() == b@.len(),
            forall|j: int| 0 <= j < i ==> a@[j] == b@[j],
        decreases a@.len() - i,
    {
        if a[i] != b[i] {
            return false;
        }
        i = i + 1;
    }
    proof {
        assert(a@ =~= b@);
    }
    true
}

} // verus!
