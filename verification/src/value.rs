//! The value extractor: resolving a named value record under a key node
//! and materializing its payload.
//!
//! A key node's value list is a flat array of four-byte value-record
//! offsets, its length given by the node's value count.  A payload is
//! stored in one of three ways: inline in the record's own offset field
//! (top bit of the size field set), in a single cell, or — for payloads
//! over 16344 bytes in a hive of minor version above 3 — split across the
//! segment cells of a "big data" structure, concatenated in list order.

use vstd::prelude::*;

use crate::error::HiveError;
use crate::name::points_of_str;
use crate::raw::{le16, le32, le_bytes_of_u32, bytes_result_matches, read_u16, read_u32, read_exact};
use crate::record::{
    spec_read_key_value, spec_key_value_name, read_key_value, read_key_value_name, KeyNode,
    KeyValue, HIVE_BINS_BASE,
};

verus! {

/// Whether the value's payload is stored inline in the offset field: the
/// top bit of the stored size is reused as the inline flag.
pub open spec fn spec_inline_flag(kv: KeyValue) -> bool {
    kv.data_size >= 0x8000_0000
}

/// The payload's true byte length: the stored size with the inline flag
/// cleared.
pub open spec fn spec_data_length(kv: KeyValue) -> int {
    if kv.data_size >= 0x8000_0000 {
        kv.data_size - 0x8000_0000
    } else {
        kv.data_size as int
    }
}

/// The magnitude of a cell's stored signed size: a value with the top bit
/// set is negative (the cell is in use) and its magnitude is taken.
pub open spec fn spec_cell_magnitude(raw: int) -> int
    recommends
        0 <= raw < 0x1_0000_0000,
{
    if raw >= 0x8000_0000 {
        0x1_0000_0000 - raw
    } else {
        raw
    }
}

/// What scanning `n` value-list entries from absolute offset `off` yields:
/// the first value record bearing the name, `ValueNotFound` once the count
/// is exhausted, and otherwise the first entry's own failure.
pub open spec fn spec_scan_values(h: Seq<u8>, off: int, n: int, name: Seq<char>) -> Result<
    KeyValue,
    HiveError,
>
    decreases n,
{
    if n <= 0 {
        Err(HiveError::ValueNotFound)
    } else if off < 0 || off + 4 > h.len() {
        Err(HiveError::Truncated)
    } else {
        let vo = HIVE_BINS_BASE as int + le32(h, off);
        match spec_read_key_value(h, vo) {
            Err(e) => Err(e),
            Ok(kv) => match spec_key_value_name(h, vo, kv) {
                Err(e) => Err(e),
                Ok(pts) => if pts == points_of_str(name) {
                    Ok(kv)
                } else {
                    spec_scan_values(h, off + 4, n - 1, name)
                },
            },
        }
    }
}

/// What resolving the value `name` under key node `kn` yields.  A value-list
/// offset of all ones means "no values" and short-circuits to
/// `ValueListAbsent` without any read.
pub open spec fn spec_find_key_value(h: Seq<u8>, kn: KeyNode, name: Seq<char>) -> Result<
    KeyValue,
    HiveError,
> {
    if kn.key_values_list_offset == 0xFFFF_FFFFu32 {
        Err(HiveError::ValueListAbsent)
    } else {
        spec_scan_values(
            h,
            HIVE_BINS_BASE as int + kn.key_values_list_offset,
            kn.number_of_key_values as int,
            name,
        )
    }
}

/// What reading `n` big-data segments, their offsets listed from absolute
/// offset `off`, yields: each segment cell's payload is its size magnitude
/// less the four-byte size prefix, and the payloads concatenate in list
/// order.
pub open spec fn spec_read_segments(h: Seq<u8>, off: int, n: int) -> Result<Seq<u8>, HiveError>
    decreases n,
{
    if n <= 0 {
        Ok(Seq::empty())
    } else if off < 0 || off + 4 > h.len() {
        Err(HiveError::Truncated)
    } else {
        let so = HIVE_BINS_BASE as int + le32(h, off);
        if so + 4 > h.len() {
            Err(HiveError::Truncated)
        } else {
            let mag = spec_cell_magnitude(le32(h, so));
            if mag < 4 {
                Err(HiveError::MalformedRecord)
            } else if so + mag > h.len() {
                Err(HiveError::Truncated)
            } else {
                match spec_read_segments(h, off + 4, n - 1) {
                    Err(e) => Err(e),
                    Ok(rest) => Ok(h.subrange(so + 4, so + mag) + rest),
                }
            }
        }
    }
}

/// What reading the big-data structure at absolute offset `off` yields:
/// after its two-byte tag stand a two-byte segment count and the offset of
/// the segment list.
pub open spec fn spec_read_big_data(h: Seq<u8>, off: int) -> Result<Seq<u8>, HiveError> {
    if off < 0 || off + 2 > h.len() {
        Err(HiveError::Truncated)
    } else if !(h[off] == 0x64u8 && h[off + 1] == 0x62u8) {
        Err(HiveError::MalformedRecord)
    } else if off + 8 > h.len() {
        Err(HiveError::Truncated)
    } else {
        spec_read_segments(h, HIVE_BINS_BASE as int + le32(h, off + 4), le16(h, off + 2))
    }
}

/// What materializing the payload of `kv` yields.  Inline payloads are the
/// leading bytes of the offset field itself, at most four.  Otherwise a
/// payload of at most 16344 bytes — or any payload in a hive of minor
/// version 3 or below, which never uses segmented storage — is read whole
/// from its cell, and only a larger one in a newer hive goes through the
/// big-data structure.  Both threshold conditions are hard rules of the
/// on-disk format.
pub open spec fn spec_extract_key_value_data(h: Seq<u8>, kv: KeyValue, minor_version: u32) -> Result<
    Seq<u8>,
    HiveError,
> {
    let dlen = spec_data_length(kv);
    if spec_inline_flag(kv) {
        let take = if dlen > 4 {
            4
        } else {
            dlen
        };
        Ok(le_bytes_of_u32(kv.data_offset).take(take))
    } else {
        let doff = HIVE_BINS_BASE as int + kv.data_offset;
        if dlen <= 16344 || minor_version <= 3 {
            if doff + dlen > h.len() {
                Err(HiveError::Truncated)
            } else {
                Ok(h.subrange(doff, doff + dlen))
            }
        } else {
            spec_read_big_data(h, doff)
        }
    }
}

/// A key node whose value-list offset is the all-ones sentinel holds no
/// values: on every image and for every name the lookup is
/// `ValueListAbsent`, so the sentinel offset is never dereferenced.
pub proof fn lemma_absent_value_list(h: Seq<u8>, kn: KeyNode, name: Seq<char>)
    requires
        kn.key_values_list_offset == 0xFFFF_FFFFu32,
    ensures
        spec_find_key_value(h, kn, name) == Err::<KeyValue, HiveError>(HiveError::ValueListAbsent),
{
}

/// An inline payload is exactly the leading bytes of the value record's
/// stored offset field, in the order they stand in the image: for a value
/// record decoded at absolute offset `off` with the inline flag set,
/// materializing returns the first bytes of the field at `off + 8`.
pub proof fn lemma_inline_payload(h: Seq<u8>, off: int, minor_version: u32)
    requires
        spec_read_key_value(h, off) is Ok,
        spec_inline_flag(spec_read_key_value(h, off)->Ok_0),
    ensures
        ({
            let kv = spec_read_key_value(h, off)->Ok_0;
            let dlen = spec_data_length(kv);
            let take = if dlen > 4 {
                4
            } else {
                dlen
            };
            spec_extract_key_value_data(h, kv, minor_version) == Ok::<Seq<u8>, HiveError>(
                h.subrange(off + 8, off + 8 + take),
            )
        }),
{
    let kv = spec_read_key_value(h, off)->Ok_0;
    let dlen = spec_data_length(kv);
    let take = if dlen > 4 {
        4
    } else {
        dlen
    };
    crate::raw::lemma_le32_to_le_bytes(h, off + 8);
    assert(le_bytes_of_u32(kv.data_offset).take(take) =~= h.subrange(off + 8, off + 8 + take));
}

/// A payload of at most 16344 bytes, or any payload in a hive of minor
/// version 3 or below, is read whole from its single cell; segmented
/// storage is never consulted.
pub proof fn lemma_direct_single_cell(h: Seq<u8>, kv: KeyValue, minor_version: u32)
    requires
        !spec_inline_flag(kv),
        spec_data_length(kv) <= 16344 || minor_version <= 3,
    ensures
        ({
            let doff = HIVE_BINS_BASE as int + kv.data_offset;
            let dlen = spec_data_length(kv);
            spec_extract_key_value_data(h, kv, minor_version) == if doff + dlen > h.len() {
                Err::<Seq<u8>, HiveError>(HiveError::Truncated)
            } else {
                Ok::<Seq<u8>, HiveError>(h.subrange(doff, doff + dlen))
            }
        }),
{
}

/// A payload over 16344 bytes in a hive of minor version above 3 goes
/// through the big-data structure at its stored offset; both threshold
/// conditions must hold for that route.
pub proof fn lemma_segmented_route(h: Seq<u8>, kv: KeyValue, minor_version: u32)
    requires
        !spec_inline_flag(kv),
        spec_data_length(kv) > 16344,
        minor_version > 3,
    ensures
        spec_extract_key_value_data(h, kv, minor_version) == spec_read_big_data(
            h,
            HIVE_BINS_BASE as int + kv.data_offset,
        ),
{
}

/// Resolves the value `name` under `kn`, scanning exactly the declared
/// number of value-list entries in order.
pub fn find_key_value(h: &Vec<u8>, kn: &KeyNode, name: &str) -> (r: Result<KeyValue, HiveError>)
    ensures
        r == spec_find_key_value(h@, *kn, name@),
{
    if kn.key_values_list_offset == 0xFFFF_FFFF {
        return Err(HiveError::ValueListAbsent);
    }
    let base: u64 = HIVE_BINS_BASE + kn.key_values_list_offset as u64;
    let n: u32 = kn.number_of_key_values;
    let mut i: u64 = 0;
    let mut cur: u64 = base;
    while i < n as u64
        invariant
            i <= n,
            cur == HIVE_BINS_BASE + kn.key_values_list_offset + 4 * i,
            spec_find_key_value(h@, *kn, name@) == spec_scan_values(h@, cur as int, n - i, name@),
        decreases n - i,
    {
        let vo: u32 = match read_u32(h, cur) {
            Ok(v) => v,
            Err(e) => return Err(e),
        };
        let vabs: u64 = HIVE_BINS_BASE + vo as u64;
        let kv = match read_key_value(h, vabs) {
            Ok(kv) => kv,
            Err(e) => return Err(e),
        };
        let decoded = match read_key_value_name(h, vabs, &kv) {
            Ok(d) => d,
            Err(e) => return Err(e),
        };
        if crate::name::name_matches(&decoded, name) {
            return Ok(kv);
        }
        i = i + 1;
        cur = cur + 4;
    }
    Err(HiveError::ValueNotFound)
}

/// Materializes the payload of `kv` under the file's minor version.
pub fn extract_key_value_data(h: &Vec<u8>, kv: &KeyValue, minor_version: u32) -> (r: Result<
    Vec<u8>,
    HiveError,
>)
    ensures
        bytes_result_matches(r, spec_extract_key_value_data(h@, *kv, minor_version)),
{
    if kv.data_size >= 0x8000_0000 {
        let dlen: u32 = kv.data_size - 0x8000_0000;
        let take: usize = if dlen > 4 {
            4
        } else {
            dlen as usize
        };
        let x: u32 = kv.data_offset;
        let mut bytes4: Vec<u8> = Vec::new();
        bytes4.push((x % 0x100) as u8);
        bytes4.push(((x / 0x100) % 0x100) as u8);
        bytes4.push(((x / 0x1_0000) % 0x100) as u8);
        bytes4.push(((x / 0x100_0000) % 0x100) as u8);
        proof {
            assert(bytes4@ =~= le_bytes_of_u32(x));
        }
        let mut out: Vec<u8> = Vec::new();
        let mut i: usize = 0;
        while i < take
            invariant
                take <= 4,
                bytes4@ == le_bytes_of_u32(x),
                bytes4@.len() == 4,
                i <= take,
                out@ == bytes4@.take(i as int),
            decreases take - i,
        {
            out.push(bytes4[i]);
            proof {
                assert(out@ =~= bytes4@.take(i + 1));
            }
            i = i + 1;
        }
        Ok(out)
    } else {
        let dlen: u32 = kv.data_size;
        let doff: u64 = HIVE_BINS_BASE + kv.data_offset as u64;
        if dlen <= 16344 || minor_version <= 3 {
            read_exact(h, doff, dlen as u64)
        } else {
            read_big_data(h, doff)
        }
    }
}

/// Reads and reassembles the big-data structure at absolute offset `off`.
pub fn read_big_data(h: &Vec<u8>, off: u64) -> (r: Result<Vec<u8>, HiveError>)
    ensures
        bytes_result_matches(r, spec_read_big_data(h@, off as int)),
{
    let total: u64 = h.len() as u64;
    if total < 2 || off > total - 2 {
        return Err(HiveError::Truncated);
    }
    let bi: usize = off as usize;
    if !(h[bi] == 0x64 && h[bi + 1] == 0x62) {
        return Err(HiveError::MalformedRecord);
    }
    let n: u16 = match read_u16(h, off + 2) {
        Ok(v) => v,
        Err(e) => return Err(e),
    };
    let list_off: u32 = match read_u32(h, off + 4) {
        Ok(v) => v,
        Err(e) => return Err(e),
    };
    let start: u64 = HIVE_BINS_BASE + list_off as u64;
    let mut out: Vec<u8> = Vec::new();
    let mut i: u64 = 0;
    let mut cur: u64 = start;
    while i < n as u64
        invariant
            i <= n,
            cur == HIVE_BINS_BASE + list_off + 4 * i,
            spec_read_big_data(h@, off as int) == spec_read_segments(h@, start as int, n as int),
            spec_read_segments(h@, start as int, n as int) is Ok <==> spec_read_segments(
                h@,
                cur as int,
                n - i,
            ) is Ok,
            spec_read_segments(h@, start as int, n as int) is Ok ==> spec_read_segments(
                h@,
                start as int,
                n as int,
            )->Ok_0 == out@ + spec_read_segments(h@, cur as int, n - i)->Ok_0,
            spec_read_segments(h@, start as int, n as int) is Err ==> spec_read_segments(
                h@,
                start as int,
                n as int,
            )->Err_0 == spec_read_segments(h@, cur as int, n - i)->Err_0,
        decreases n - i,
    {
        let so: u32 = match read_u32(h, cur) {
            Ok(v) => v,
            Err(e) => return Err(e),
        };
        let sabs: u64 = HIVE_BINS_BASE + so as u64;
        let raw: u32 = match read_u32(h, sabs) {
            Ok(v) => v,
            Err(e) => return Err(e),
        };
        let mag: u64 = if raw >= 0x8000_0000 {
            0x1_0000_0000u64 - raw as u64
        } else {
            raw as u64
        };
        if mag < 4 {
            return Err(HiveError::MalformedRecord);
        }
        let mut seg = match read_exact(h, sabs + 4, mag - 4) {
            Ok(v) => v,
            Err(e) => return Err(e),
        };
        let ghost before: Seq<u8> = out@;
        out.append(&mut seg);
        proof {
            if spec_read_segments(h@, cur as int, n - i) is Ok {
                assert(out@ + spec_read_segments(h@, cur + 4, n - i - 1)->Ok_0 =~= before
                    + spec_read_segments(h@, cur as int, n - i)->Ok_0);
            }
        }
        i = i + 1;
        cur = cur + 4;
    }
    proof {
        assert(out@ + spec_read_segments(h@, cur as int, 0)->Ok_0 =~= out@);
    }
    Ok(out)
}

} // verus!
