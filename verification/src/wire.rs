//! Big-endian numbers in byte strings, the clock and chance.

use vstd::prelude::*;

verus! {

/// The 16-bit number at position `i`.
pub open spec fn be16(b: Seq<u8>, i: int) -> int {
    b[i] * 256 + b[i + 1]
}

/// The 32-bit number at position `i`.
pub open spec fn be32(b: Seq<u8>, i: int) -> int {
    be16(b, i) * 65536 + be16(b, i + 2)
}

/// Reads the 16-bit number at position `i`.
pub fn read_be16(b: &[u8], i: usize) -> (v: u16)
    requires
        i + 2 <= b.len(),
    ensures
        v == be16(b@, i as int),
{
    (b[i] as u16) * 256 + b[i + 1] as u16
}

/// Reads the 32-bit number at position `i`.
pub fn read_be32(b: &[u8], i: usize) -> (v: u32)
    requires
        i + 4 <= b.len(),
    ensures
        v == be32(b@, i as int),
{
    (read_be16(b, i) as u32) * 65536 + read_be16(b, i + 2) as u32
}

/// The two bytes of a 16-bit number.
pub open spec fn bytes16(v: u16) -> Seq<u8> {
    seq![(v as int / 256) as u8, (v as int % 256) as u8]
}

/// The four bytes of a 32-bit number.
pub open spec fn bytes32(v: u32) -> Seq<u8> {
    seq![
        (v as int / 16777216) as u8,
        ((v as int / 65536) % 256) as u8,
        ((v as int / 256) % 256) as u8,
        (v as int % 256) as u8,
    ]
}

/// The eight bytes of a 64-bit number.
pub open spec fn bytes64(v: u64) -> Seq<u8> {
    bytes32((v as int / 4294967296) as u32) + bytes32((v as int % 4294967296) as u32)
}

/// Appends a 16-bit number.
pub fn push_be16(out: &mut Vec<u8>, v: u16)
    ensures
        final(out)@ == old(out)@ + bytes16(v),
{
    let ghost before = out@;
    out.push((v / 256) as u8);
    out.push((v % 256) as u8);
    assert(out@ =~= before + bytes16(v));
}

/// Appends a 32-bit number.
pub fn push_be32(out: &mut Vec<u8>, v: u32)
    ensures
        final(out)@ == old(out)@ + bytes32(v),
{
    let ghost before = out@;
    out.push((v / 16777216) as u8);
    out.push(((v / 65536) % 256) as u8);
    out.push(((v / 256) % 256) as u8);
    out.push((v % 256) as u8);
    assert(out@ =~= before + bytes32(v));
}

/// The eight bytes of a 64-bit number.
pub fn be64(v: u64) -> (out: Vec<u8>)
    ensures
        out@ == bytes64(v),
        out.len() == 8,
{
    let mut out: Vec<u8> = Vec::new();
    push_be32(&mut out, (v / 4294967296) as u32);
    push_be32(&mut out, (v % 4294967296) as u32);
    assert(out@ =~= bytes64(v));
    out
}

/// Reading a written number gives it back.
pub proof fn big_endian_round_trips(v: u16, w: u32)
    ensures
        be16(bytes16(v), 0) == v,
        be32(bytes32(w), 0) == w,
{
    let b = bytes32(w);
    assert(be16(b, 0) == w as int / 65536) by {
        assert(w as int / 16777216 == (w as int / 65536) / 256);
    }
    assert(be16(b, 2) == w as int % 65536) by {
        assert((w as int / 256) % 256 * 256 + w as int % 256 == w as int % 65536);
    }
}

/// Whether two byte strings hold the same bytes.
pub fn same_bytes(a: &[u8], b: &[u8]) -> (same: bool)
    ensures
        same == (a@ == b@),
{
    if a.len() != b.len() {
        return false;
    }
    let mut i: usize = 0;
    while i < a.len()
        invariant
            i <= a.len(),
            a.len() == b.len(),
            forall|k: int| 0 <= k < i ==> a@[k] == b@[k],
        decreases a.len() - i,
    {
        if a[i] != b[i] {
            return false;
        }
        i += 1;
    }
    assert(a@ =~= b@);
    true
}

/// The bytes at positions `from` up to `to`.
pub fn sub_bytes(b: &[u8], from: usize, to: usize) -> (out: Vec<u8>)
    requires
        from <= to <= b.len(),
    ensures
        out@ == b@.subrange(from as int, to as int),
{
    let mut out: Vec<u8> = Vec::new();
    let mut i: usize = from;
    while i < to
        invariant
            from <= i <= to <= b.len(),
            out@ == b@.subrange(from as int, i as int),
        decreases to - i,
    {
        out.push(b[i]);
        i += 1;
    }
    out
}

/// A number from `std::collections::hash_map::RandomState`: the hash of `salt` under keys that
/// each call draws anew. Nothing is claimed of its value.
#[verifier::external_body]
pub(crate) fn random_u64(salt: u64) -> (v: u64) {
    std::hash::BuildHasher::hash_one(&std::collections::hash_map::RandomState::new(), salt)
}

/// The lower half of a random 64-bit number.
pub(crate) fn random_u32() -> (v: u32) {
    (random_u64(0) % 4294967296) as u32
}

/// The time since the Unix epoch in milliseconds, from `std::time::SystemTime::now`; `None` while
/// the clock is set before the epoch. Nothing is claimed of its value.
#[verifier::external_body]
fn clock_millis() -> (ms: Option<u128>) {
    std::time::SystemTime::now().duration_since(std::time::UNIX_EPOCH).ok().map(|d| d.as_millis())
}

/// A clock reading as a signed number; a clock before the epoch counts as zero.
pub open spec fn epoch_of(reading: Option<u128>) -> i64 {
    match reading {
        Some(v) => v as i64,
        None => 0,
    }
}

/// A clock reading as a signed number.
pub fn epoch_millis(reading: Option<u128>) -> (ms: i64)
    ensures
        ms == epoch_of(reading),
{
    match reading {
        Some(v) => v as i64,
        None => 0,
    }
}

/// The time since the Unix epoch in milliseconds: some clock reading.
pub fn now_millis() -> (ms: i64)
    ensures
        exists|reading: Option<u128>| ms == #[trigger] epoch_of(reading),
{
    epoch_millis(clock_millis())
}

/// The highest byte of a number comes first.
pub proof fn highest_byte_comes_first(a: u8, b: u8, c: u8, d: u8, v: u16, w: u32, x: u64)
    ensures
        be16(seq![a, b], 0) == a * 0x100 + b,
        be32(seq![a, b, c, d], 0) == a * 0x100_0000 + b * 0x1_0000 + c * 0x100 + d,
        bytes16(v).len() == 2,
        bytes16(v)[0] * 0x100 + bytes16(v)[1] == v,
        bytes32(w).len() == 4,
        bytes32(w)[0] * 0x100_0000 + bytes32(w)[1] * 0x1_0000 + bytes32(w)[2] * 0x100 + bytes32(
            w,
        )[3] == w,
        bytes64(x).len() == 8,
        be32(bytes64(x), 0) * 0x1_0000_0000 + be32(bytes64(x), 4) == x,
{
}

} // verus!
