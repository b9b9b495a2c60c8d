//! Little-endian primitive reads from the hive image, with bounds checks.
//!
//! All integers stored in a hive are little-endian.  The spec functions
//! `le16` and `le32` give the mathematical value of a field; the executable
//! readers are proved to return exactly that value, or `Truncated` when the
//! image ends before the field does.

use vstd::prelude::*;

use crate::error::HiveError;

verus! {

/// The little-endian 16-bit value stored at byte offset `i`.
pub open spec fn le16(h: Seq<u8>, i: int) -> int
    recommends
        0 <= i,
        i + 2 <= h.len(),
{
    h[i] + 0x100 * h[i + 1]
}

/// The little-endian 32-bit value stored at byte offset `i`.
pub open spec fn le32(h: Seq<u8>, i: int) -> int
    recommends
        0 <= i,
        i + 4 <= h.len(),
{
    h[i] + 0x100 * h[i + 1] + 0x1_0000 * h[i + 2] + 0x100_0000 * h[i + 3]
}

/// The four bytes of `x` in little-endian order.
pub open spec fn le_bytes_of_u32(x: u32) -> Seq<u8> {
    seq![
        (x % 0x100) as u8,
        ((x / 0x100) % 0x100) as u8,
        ((x / 0x1_0000) % 0x100) as u8,
        ((x / 0x100_0000) % 0x100) as u8,
    ]
}

/// Re-encoding a decoded 32-bit field gives back exactly the four bytes it
/// was read from.
pub proof fn lemma_le32_to_le_bytes(h: Seq<u8>, i: int)
    requires
        0 <= i,
        i + 4 <= h.len(),
    ensures
        le_bytes_of_u32(le32(h, i) as u32) == h.subrange(i, i + 4),
{
    let c0 = h[i] as u32;
    let c1 = h[i + 1] as u32;
    let c2 = h[i + 2] as u32;
    let c3 = h[i + 3] as u32;
    let x = le32(h, i) as u32;
    assert(x == c0 + 0x100 * c1 + 0x1_0000 * c2 + 0x100_0000 * c3);
    assert((c0 < 0x100 && c1 < 0x100 && c2 < 0x100 && c3 < 0x100 && x == c0 + 0x100 * c1 + 0x1_0000
        * c2 + 0x100_0000 * c3) ==> (x % 0x100 == c0 && (x / 0x100) % 0x100 == c1 && (x / 0x1_0000)
        % 0x100 == c2 && (x / 0x100_0000) % 0x100 == c3)) by (bit_vector);
    assert(le_bytes_of_u32(x) =~= h.subrange(i, i + 4));
}

/// Relates an executable byte read to its specified outcome.
pub open spec fn bytes_result_matches(
    r: Result<Vec<u8>, HiveError>,
    s: Result<Seq<u8>, HiveError>,
) -> bool {
    match r {
        Ok(v) => s is Ok && v@ == s->Ok_0,
        Err(e) => s is Err && e == s->Err_0,
    }
}

/// Reads the little-endian 16-bit field at absolute offset `off`.
pub fn read_u16(h: &Vec<u8>, off: u64) -> (r: Result<u16, HiveError>)
    ensures
        off + 2 <= h@.len() ==> r == Ok::<u16, HiveError>(le16(h@, off as int) as u16),
        off + 2 > h@.len() ==> r == Err::<u16, HiveError>(HiveError::Truncated),
{
    let len: u64 = h.len() as u64;
    if len < 2 || off > len - 2 {
        return Err(HiveError::Truncated);
    }
    let i: usize = off as usize;
    let b0: u16 = h[i] as u16;
    let b1: u16 = h[i + 1] as u16;
    Ok(b0 + 0x100 * b1)
}

/// Reads the little-endian 32-bit field at absolute offset `off`.
pub fn read_u32(h: &Vec<u8>, off: u64) -> (r: Result<u32, HiveError>)
    ensures
        off + 4 <= h@.len() ==> r == Ok::<u32, HiveError>(le32(h@, off as int) as u32),
        off + 4 > h@.len() ==> r == Err::<u32, HiveError>(HiveError::Truncated),
{
    let len: u64 = h.len() as u64;
    if len < 4 || off > len - 4 {
        return Err(HiveError::Truncated);
    }
    let i: usize = off as usize;
    let b0: u32 = h[i] as u32;
    let b1: u32 = h[i + 1] as u32;
    let b2: u32 = h[i + 2] as u32;
    let b3: u32 = h[i + 3] as u32;
    Ok(b0 + 0x100 * b1 + 0x1_0000 * b2 + 0x100_0000 * b3)
}

/// Copies exactly `n` bytes starting at absolute offset `off`.
pub fn read_exact(h: &Vec<u8>, off: u64, n: u64) -> (r: Result<Vec<u8>, HiveError>)
    ensures
        off + n <= h@.len() ==> (r matches Ok(v) && v@ == h@.subrange(
            off as int,
            off as int + n as int,
        )),
        off + n > h@.len() ==> r == Err::<Vec<u8>, HiveError>(HiveError::Truncated),
{
    let len: u64 = h.len() as u64;
    if n > len || off > len - n {
        return Err(HiveError::Truncated);
    }
    let start: usize = off as usize;
    let count: usize = n as usize;
    let mut out: Vec<u8> = Vec::new();
    let mut i: usize = 0;
    while i < count
        invariant
            start + count <= h@.len(),
            start + count <= usize::MAX,
            i <= count,
            out@ == h@.subrange(start as int, start as int + i as int),
        decreases count - i,
    {
        out.push(h[start + i]);
        proof {
            assert(out@ =~= h@.subrange(start as int, start as int + i as int + 1));
        }
        i = i + 1;
    }
    proof {
        assert(out@ =~= h@.subrange(off as int, off as int + n as int));
    }
    Ok(out)
}

} // verus!
