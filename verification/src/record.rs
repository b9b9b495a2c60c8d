//! Fixed-layout record decoders: key nodes and value records.
//!
//! Every structural record lives inside a cell of the hive-bins region.
//! Offsets stored inside records are relative to the start of that region,
//! which begins at absolute byte 4096, directly after the file header; the
//! navigation code adds [`HIVE_BINS_BASE`] before dereferencing one.

use vstd::prelude::*;

use crate::error::HiveError;
use crate::name::{spec_decode_name, decode_name, points_result_matches};
use crate::raw::{le16, le32, read_u16, read_u32};

verus! {

/// Absolute offset of the hive-bins region: stored offsets are relative to it.
pub const HIVE_BINS_BASE: u64 = 4096;

/// The fields of a key-node header that navigation reads.  The header is 76
/// bytes; the key's name follows it directly.
#[derive(Clone, Copy, Debug, PartialEq, Eq, Structural)]
pub struct KeyNode {
    /// Flag bits; bit 0x0020 selects the extended-ASCII name encoding.
    pub flags: u16,
    /// Declared number of subkeys.
    pub number_of_subkeys: u32,
    /// Offset of the subkey list, or all-ones for "no subkeys".
    pub subkeys_list_offset: u32,
    /// Declared number of values.
    pub number_of_key_values: u32,
    /// Offset of the value list, or all-ones for "no values".
    pub key_values_list_offset: u32,
    /// Byte length of the name that follows the header.
    pub key_name_length: u16,
}

/// Byte length of a key-node header.
pub const KEY_NODE_HEADER_LEN: u64 = 76;

/// The fields of a value-record header.  The header is 20 bytes; the value's
/// name follows it directly.
#[derive(Clone, Copy, Debug, PartialEq, Eq, Structural)]
pub struct KeyValue {
    /// Byte length of the name that follows the header.
    pub name_length: u16,
    /// Data size; the top bit set means the data is inline in `data_offset`.
    pub data_size: u32,
    /// Offset of the data cell, or the inline payload bytes themselves.
    pub data_offset: u32,
    /// The value's declared data type.
    pub data_type: u32,
    /// Flag bits; bit 0x0001 selects the extended-ASCII name encoding.
    pub flags: u16,
}

/// Byte length of a value-record header.
pub const KEY_VALUE_HEADER_LEN: u64 = 20;

/// Whether a full key-node header fits at absolute offset `off`.
pub open spec fn key_node_fits(h: Seq<u8>, off: int) -> bool {
    0 <= off && off + 76 <= h.len()
}

/// Whether the two-byte key-node magic stands at absolute offset `off`.
pub open spec fn key_node_sig_ok(h: Seq<u8>, off: int) -> bool
    recommends
        key_node_fits(h, off),
{
    h[off] == 0x6eu8 && h[off + 1] == 0x6bu8
}

/// The key node decoded from the header at absolute offset `off`.
pub open spec fn spec_key_node_at(h: Seq<u8>, off: int) -> KeyNode
    recommends
        key_node_fits(h, off),
{
    KeyNode {
        flags: le16(h, off + 2) as u16,
        number_of_subkeys: le32(h, off + 20) as u32,
        subkeys_list_offset: le32(h, off + 28) as u32,
        number_of_key_values: le32(h, off + 36) as u32,
        key_values_list_offset: le32(h, off + 40) as u32,
        key_name_length: le16(h, off + 72) as u16,
    }
}

/// What reading a key node at absolute offset `off` yields.
pub open spec fn spec_read_key_node(h: Seq<u8>, off: int) -> Result<KeyNode, HiveError> {
    if !key_node_fits(h, off) {
        Err(HiveError::Truncated)
    } else if !key_node_sig_ok(h, off) {
        Err(HiveError::MalformedRecord)
    } else {
        Ok(spec_key_node_at(h, off))
    }
}

/// Whether a full value-record header fits at absolute offset `off`.
pub open spec fn key_value_fits(h: Seq<u8>, off: int) -> bool {
    0 <= off && off + 20 <= h.len()
}

/// Whether the two-byte value-record magic stands at absolute offset `off`.
pub open spec fn key_value_sig_ok(h: Seq<u8>, off: int) -> bool
    recommends
        key_value_fits(h, off),
{
    h[off] == 0x76u8 && h[off + 1] == 0x6bu8
}

/// The value record decoded from the header at absolute offset `off`.
pub open spec fn spec_key_value_at(h: Seq<u8>, off: int) -> KeyValue
    recommends
        key_value_fits(h, off),
{
    KeyValue {
        name_length: le16(h, off + 2) as u16,
        data_size: le32(h, off + 4) as u32,
        data_offset: le32(h, off + 8) as u32,
        data_type: le32(h, off + 12) as u32,
        flags: le16(h, off + 16) as u16,
    }
}

/// What reading a value record at absolute offset `off` yields.
pub open spec fn spec_read_key_value(h: Seq<u8>, off: int) -> Result<KeyValue, HiveError> {
    if !key_value_fits(h, off) {
        Err(HiveError::Truncated)
    } else if !key_value_sig_ok(h, off) {
        Err(HiveError::MalformedRecord)
    } else {
        Ok(spec_key_value_at(h, off))
    }
}

/// Reads and signature-checks the key-node header at absolute offset `off`.
pub fn read_key_node(h: &Vec<u8>, off: u64) -> (r: Result<KeyNode, HiveError>)
    ensures
        r == spec_read_key_node(h@, off as int),
{
    let total: u64 = h.len() as u64;
    if total < KEY_NODE_HEADER_LEN || off > total - KEY_NODE_HEADER_LEN {
        return Err(HiveError::Truncated);
    }
    let i: usize = off as usize;
    if !(h[i] == 0x6e && h[i + 1] == 0x6b) {
        return Err(HiveError::MalformedRecord);
    }
    let flags = match read_u16(h, off + 2) {
        Ok(v) => v,
        Err(e) => return Err(e),
    };
    let number_of_subkeys = match read_u32(h, off + 20) {
        Ok(v) => v,
        Err(e) => return Err(e),
    };
    let subkeys_list_offset = match read_u32(h, off + 28) {
        Ok(v) => v,
        Err(e) => return Err(e),
    };
    let number_of_key_values = match read_u32(h, off + 36) {
        Ok(v) => v,
        Err(e) => return Err(e),
    };
    let key_values_list_offset = match read_u32(h, off + 40) {
        Ok(v) => v,
        Err(e) => return Err(e),
    };
    let key_name_length = match read_u16(h, off + 72) {
        Ok(v) => v,
        Err(e) => return Err(e),
    };
    Ok(
        KeyNode {
            flags,
            number_of_subkeys,
            subkeys_list_offset,
            number_of_key_values,
            key_values_list_offset,
            key_name_length,
        },
    )
}

/// Reads and signature-checks the value-record header at absolute offset
/// `off`.
pub fn read_key_value(h: &Vec<u8>, off: u64) -> (r: Result<KeyValue, HiveError>)
    ensures
        r == spec_read_key_value(h@, off as int),
{
    let total: u64 = h.len() as u64;
    if total < KEY_VALUE_HEADER_LEN || off > total - KEY_VALUE_HEADER_LEN {
        return Err(HiveError::Truncated);
    }
    let i: usize = off as usize;
    if !(h[i] == 0x76 && h[i + 1] == 0x6b) {
        return Err(HiveError::MalformedRecord);
    }
    let name_length = match read_u16(h, off + 2) {
        Ok(v) => v,
        Err(e) => return Err(e),
    };
    let data_size = match read_u32(h, off + 4) {
        Ok(v) => v,
        Err(e) => return Err(e),
    };
    let data_offset = match read_u32(h, off + 8) {
        Ok(v) => v,
        Err(e) => return Err(e),
    };
    let data_type = match read_u32(h, off + 12) {
        Ok(v) => v,
        Err(e) => return Err(e),
    };
    let flags = match read_u16(h, off + 16) {
        Ok(v) => v,
        Err(e) => return Err(e),
    };
    Ok(KeyValue { name_length, data_size, data_offset, data_type, flags })
}

/// What decoding the name of the key node at absolute offset `off` yields:
/// the name field follows the 76-byte header, under the encoding that flag
/// bit 0x0020 selects.
pub open spec fn spec_key_node_name(h: Seq<u8>, off: int, kn: KeyNode) -> Result<
    Seq<u32>,
    HiveError,
> {
    spec_decode_name(h, off + 76, kn.key_name_length as int, kn.flags & 0x0020 == 0x0020)
}

/// Decodes the name of the key node whose header stands at absolute offset
/// `off`.
pub fn read_key_name(h: &Vec<u8>, off: u64, kn: &KeyNode) -> (r: Result<Vec<u32>, HiveError>)
    requires
        off + 76 <= u64::MAX,
    ensures
        points_result_matches(r, spec_key_node_name(h@, off as int, *kn)),
{
    decode_name(h, off + KEY_NODE_HEADER_LEN, kn.key_name_length as u64, kn.flags & 0x0020
        == 0x0020)
}

/// What decoding the name of the value record at absolute offset `off`
/// yields: the name field follows the 20-byte header, under the encoding
/// that flag bit 0x0001 selects.
pub open spec fn spec_key_value_name(h: Seq<u8>, off: int, kv: KeyValue) -> Result<
    Seq<u32>,
    HiveError,
> {
    spec_decode_name(h, off + 20, kv.name_length as int, kv.flags & 0x0001 == 0x0001)
}

/// Decodes the name of the value record whose header stands at absolute
/// offset `off`.
pub fn read_key_value_name(h: &Vec<u8>, off: u64, kv: &KeyValue) -> (r: Result<
    Vec<u32>,
    HiveError,
>)
    requires
        off + 20 <= u64::MAX,
    ensures
        points_result_matches(r, spec_key_value_name(h@, off as int, *kv)),
{
    decode_name(h, off + KEY_VALUE_HEADER_LEN, kv.name_length as u64, kv.flags & 0x0001 == 0x0001)
}

} // verus!
