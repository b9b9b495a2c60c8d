//! The file header and the path descender that ties the components
//! together: from the hive image to the raw bytes of one named value.

use vstd::prelude::*;

use crate::error::HiveError;
use crate::list::spec_find_subkey;
use crate::list::find_subkey;
use crate::raw::{le32, bytes_result_matches, read_u32};
use crate::record::{spec_read_key_node, read_key_node, KeyNode, HIVE_BINS_BASE};
use crate::value::{
    spec_find_key_value, spec_extract_key_value_data, find_key_value, extract_key_value_data,
};

verus! {

/// The fields of the 4096-byte file header that extraction reads.  The
/// hive-bins region begins directly after it.
#[derive(Clone, Copy, Debug, PartialEq, Eq, Structural)]
pub struct BaseBlock {
    /// Format minor version; it governs the big-data size threshold.
    pub minor_version: u32,
    /// Offset of the root cell, relative to the hive-bins region.
    pub root_cell_offset: u32,
    /// Declared total size of the hive-bins data.
    pub hive_bins_data_size: u32,
}

/// What reading the file header yields.  The four-byte magic and the
/// format flag — whose single supported value means direct memory load —
/// are checked before anything else; a corrupted magic fails before any
/// read into the hive-bins region.
pub open spec fn spec_read_base_block(h: Seq<u8>) -> Result<BaseBlock, HiveError> {
    if h.len() < 4096 {
        Err(HiveError::Truncated)
    } else if !(h[0] == 0x72u8 && h[1] == 0x65u8 && h[2] == 0x67u8 && h[3] == 0x66u8) {
        Err(HiveError::MalformedRecord)
    } else if le32(h, 32) != 1 {
        Err(HiveError::UnsupportedFormat)
    } else {
        Ok(
            BaseBlock {
                minor_version: le32(h, 24) as u32,
                root_cell_offset: le32(h, 36) as u32,
                hive_bins_data_size: le32(h, 40) as u32,
            },
        )
    }
}

/// What descending the path segments from index `i` on yields: the key
/// node reached after resolving each remaining segment in order.
pub open spec fn spec_descend_from(h: Seq<u8>, kn: KeyNode, path: Seq<Seq<char>>, i: int) -> Result<
    KeyNode,
    HiveError,
>
    recommends
        0 <= i,
    decreases path.len() - i,
{
    if i >= path.len() {
        Ok(kn)
    } else {
        match spec_find_subkey(h, kn, path[i]) {
            Err(e) => Err(e),
            Ok(k2) => spec_descend_from(h, k2, path, i + 1),
        }
    }
}

/// What descending the whole path from key node `kn` yields.
pub open spec fn spec_descend(h: Seq<u8>, kn: KeyNode, path: Seq<Seq<char>>) -> Result<
    KeyNode,
    HiveError,
> {
    spec_descend_from(h, kn, path, 0)
}

/// What extracting the value `value_name` under the key path `path` from
/// the hive image yields: validate the header, load the root key node at
/// the header's root-cell offset, descend the path, resolve the value, and
/// materialize its payload.  Any failure of any step is the result,
/// unchanged.
pub open spec fn spec_extract(h: Seq<u8>, path: Seq<Seq<char>>, value_name: Seq<char>) -> Result<
    Seq<u8>,
    HiveError,
> {
    match spec_read_base_block(h) {
        Err(e) => Err(e),
        Ok(bb) => match spec_read_key_node(h, HIVE_BINS_BASE as int + bb.root_cell_offset) {
            Err(e) => Err(e),
            Ok(root) => match spec_descend(h, root, path) {
                Err(e) => Err(e),
                Ok(kn) => match spec_find_key_value(h, kn, value_name) {
                    Err(e) => Err(e),
                    Ok(kv) => spec_extract_key_value_data(h, kv, bb.minor_version),
                },
            },
        },
    }
}

/// The key path under which the syskey material lives, with value name
/// "JD".
pub open spec fn spec_syskey_path() -> Seq<Seq<char>> {
    seq!["CurrentControlSet"@, "Control"@, "Lsa"@]
}

/// Header validation comes before everything else: an image too short for
/// the fixed header, a corrupted magic, or an unsupported format flag makes
/// the whole extraction fail with that header error, for every path and
/// every value name — no hive-bins content is ever consulted.
pub proof fn lemma_header_rejected_first(h: Seq<u8>, path: Seq<Seq<char>>, value_name: Seq<char>)
    ensures
        h.len() < 4096 ==> spec_extract(h, path, value_name) == Err::<Seq<u8>, HiveError>(
            HiveError::Truncated,
        ),
        h.len() >= 4096 && !(h[0] == 0x72u8 && h[1] == 0x65u8 && h[2] == 0x67u8 && h[3] == 0x66u8)
            ==> spec_extract(h, path, value_name) == Err::<Seq<u8>, HiveError>(
            HiveError::MalformedRecord,
        ),
        h.len() >= 4096 && (h[0] == 0x72u8 && h[1] == 0x65u8 && h[2] == 0x67u8 && h[3] == 0x66u8)
            && le32(h, 32) != 1 ==> spec_extract(h, path, value_name) == Err::<Seq<u8>, HiveError>(
            HiveError::UnsupportedFormat,
        ),
{
}

/// Reads and validates the 4096-byte file header.
pub fn read_base_block(h: &Vec<u8>) -> (r: Result<BaseBlock, HiveError>)
    ensures
        r == spec_read_base_block(h@),
{
    if h.len() < 4096 {
        return Err(HiveError::Truncated);
    }
    if !(h[0] == 0x72 && h[1] == 0x65 && h[2] == 0x67 && h[3] == 0x66) {
        return Err(HiveError::MalformedRecord);
    }
    let file_format: u32 = match read_u32(h, 32) {
        Ok(v) => v,
        Err(e) => return Err(e),
    };
    if file_format != 1 {
        return Err(HiveError::UnsupportedFormat);
    }
    let minor_version: u32 = match read_u32(h, 24) {
        Ok(v) => v,
        Err(e) => return Err(e),
    };
    let root_cell_offset: u32 = match read_u32(h, 36) {
        Ok(v) => v,
        Err(e) => return Err(e),
    };
    let hive_bins_data_size: u32 = match read_u32(h, 40) {
        Ok(v) => v,
        Err(e) => return Err(e),
    };
    Ok(BaseBlock { minor_version, root_cell_offset, hive_bins_data_size })
}

/// Extracts the raw bytes of the value `value_name` under the key path
/// `path` from the hive image `h`.
pub fn extract(h: &Vec<u8>, path: &Vec<String>, value_name: &str) -> (r: Result<Vec<u8>, HiveError>)
    ensures
        bytes_result_matches(r, spec_extract(h@, path.deep_view(), value_name@)),
{
    let bb = match read_base_block(h) {
        Ok(bb) => bb,
        Err(e) => return Err(e),
    };
    let root = match read_key_node(h, HIVE_BINS_BASE + bb.root_cell_offset as u64) {
        Ok(kn) => kn,
        Err(e) => return Err(e),
    };
    let mut kn: KeyNode = root;
    let mut i: usize = 0;
    while i < path.len()
        invariant
            i <= path@.len(),
            spec_read_base_block(h@) == Ok::<BaseBlock, HiveError>(bb),
            spec_read_key_node(h@, HIVE_BINS_BASE as int + bb.root_cell_offset) == Ok::<
                KeyNode,
                HiveError,
            >(root),
            spec_descend(h@, root, path.deep_view()) == spec_descend_from(
                h@,
                kn,
                path.deep_view(),
                i as int,
            ),
        decreases path@.len() - i,
    {
        kn = match find_subkey(h, &kn, path[i].as_str()) {
            Ok(k2) => k2,
            Err(e) => return Err(e),
        };
        i = i + 1;
    }
    let kv = match find_key_value(h, &kn, value_name) {
        Ok(kv) => kv,
        Err(e) => return Err(e),
    };
    extract_key_value_data(h, &kv, bb.minor_version)
}

/// Extracts the syskey material: the bytes of the value "JD" under the key
/// path CurrentControlSet, Control, Lsa.
pub fn extract_syskey(h: &Vec<u8>) -> (r: Result<Vec<u8>, HiveError>)
    ensures
        bytes_result_matches(r, spec_extract(h@, spec_syskey_path(), "JD"@)),
{
    let mut path: Vec<String> = Vec::new();
    path.push("CurrentControlSet".to_owned());
    path.push("Control".to_owned());
    path.push("Lsa".to_owned());
    proof {
        assert(path.deep_view() =~= spec_syskey_path());
    }
    extract(h, &path, "JD")
}

} // verus!
