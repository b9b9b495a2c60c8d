//! The subkey-list navigator: classifying the four on-disk subkey-list
//! encodings and resolving a child name to a key-node offset.
//!
//! A leaf list holds a two-byte tag, a two-byte element count, and that many
//! fixed-size entries.  Every entry begins with the four-byte offset of a
//! candidate key node; fast-leaf and hash-leaf entries carry four further
//! bytes (a name hint or a name hash) that the scan steps over, so entries
//! are four or eight bytes wide by list type.  An index root instead lists
//! offsets of further subkey lists and exists so one key can hold more
//! children than a single leaf's count field addresses; a name missing from
//! one sub-list is looked for in the next.

use vstd::prelude::*;

use crate::error::HiveError;
use crate::name::{name_matches, points_of_str};
use crate::raw::{le16, le32, read_u16, read_u32};
use crate::record::{
    spec_read_key_node, spec_key_node_name, read_key_node, read_key_name, KeyNode, HIVE_BINS_BASE,
};

verus! {

/// The four recognized subkey-list encodings, and the case of a tag outside
/// them.
#[derive(Clone, Copy, Debug, PartialEq, Eq, Structural)]
pub enum SubkeyListType {
    /// Tag "li": entries are bare key-node offsets.
    IndexLeaf,
    /// Tag "lf": each entry carries a four-byte name hint after the offset.
    FastLeaf,
    /// Tag "lh": each entry carries a four-byte name hash after the offset.
    HashLeaf,
    /// Tag "ri": entries are offsets of further subkey lists.
    IndexRoot,
    /// Any other tag.  Not a format error by itself: callers decide.
    Unknown,
}

/// Whether the type is one of the three leaf encodings.
pub open spec fn is_leaf_type(t: SubkeyListType) -> bool {
    t is IndexLeaf || t is FastLeaf || t is HashLeaf
}

/// Byte width of one leaf entry: the four-byte key-node offset, plus four
/// trailing hint or hash bytes in the fast-leaf and hash-leaf forms.
pub open spec fn spec_leaf_entry_width(t: SubkeyListType) -> int
    recommends
        is_leaf_type(t),
{
    if t is IndexLeaf {
        4
    } else {
        8
    }
}

/// What classifying the list at stored offset `list_off` yields.
pub open spec fn spec_list_type(h: Seq<u8>, list_off: u32) -> Result<SubkeyListType, HiveError> {
    let off = HIVE_BINS_BASE as int + list_off;
    if off + 2 > h.len() {
        Err(HiveError::Truncated)
    } else if h[off] == 0x6cu8 && h[off + 1] == 0x69u8 {
        Ok(SubkeyListType::IndexLeaf)
    } else if h[off] == 0x6cu8 && h[off + 1] == 0x66u8 {
        Ok(SubkeyListType::FastLeaf)
    } else if h[off] == 0x6cu8 && h[off + 1] == 0x68u8 {
        Ok(SubkeyListType::HashLeaf)
    } else if h[off] == 0x72u8 && h[off + 1] == 0x69u8 {
        Ok(SubkeyListType::IndexRoot)
    } else {
        Ok(SubkeyListType::Unknown)
    }
}

/// Whether the key node at stored offset `ko` bears the requested name:
/// load its signature-checked header, decode the name that follows it, and
/// compare case-sensitively.  Any failure of those steps is the result.
pub open spec fn spec_match_key_node(h: Seq<u8>, ko: u32, name: Seq<char>) -> Result<
    bool,
    HiveError,
> {
    let off = HIVE_BINS_BASE as int + ko;
    match spec_read_key_node(h, off) {
        Err(e) => Err(e),
        Ok(kn) => match spec_key_node_name(h, off, kn) {
            Err(e) => Err(e),
            Ok(pts) => Ok(pts == points_of_str(name)),
        },
    }
}

/// What scanning `n` leaf entries of width `width` from absolute offset
/// `off` yields: the stored offset of the first entry whose key node bears
/// the name, `SubkeyNotFound` once all entries are exhausted, and otherwise
/// the first entry's own failure.
pub open spec fn spec_scan_leaf(h: Seq<u8>, off: int, width: int, n: int, name: Seq<char>) -> Result<
    u32,
    HiveError,
>
    decreases n,
{
    if n <= 0 {
        Err(HiveError::SubkeyNotFound)
    } else if off < 0 || off + 4 > h.len() {
        Err(HiveError::Truncated)
    } else {
        let ko = le32(h, off) as u32;
        match spec_match_key_node(h, ko, name) {
            Err(e) => Err(e),
            Ok(true) => Ok(ko),
            Ok(false) => spec_scan_leaf(h, off + width, width, n - 1, name),
        }
    }
}

/// What resolving `name` in the leaf list at stored offset `list_off`
/// yields.  The element count stands two bytes in; the entries follow it.
pub open spec fn spec_find_subkey_in_list(
    h: Seq<u8>,
    list_off: u32,
    name: Seq<char>,
    t: SubkeyListType,
) -> Result<u32, HiveError> {
    if !is_leaf_type(t) {
        Err(HiveError::UnsupportedListType)
    } else {
        let base = HIVE_BINS_BASE as int + list_off;
        if base + 4 > h.len() {
            Err(HiveError::Truncated)
        } else {
            spec_scan_leaf(h, base + 4, spec_leaf_entry_width(t), le16(h, base + 2), name)
        }
    }
}

/// What scanning `n` index-root entries from absolute offset `off` yields:
/// each entry names a sub-list, which is classified and searched; a
/// not-found or unsupported-type outcome moves the scan to the next
/// sibling, any other failure is genuine corruption and ends it.
pub open spec fn spec_scan_root(h: Seq<u8>, off: int, n: int, name: Seq<char>) -> Result<
    u32,
    HiveError,
>
    decreases n,
{
    if n <= 0 {
        Err(HiveError::SubkeyNotFound)
    } else if off < 0 || off + 4 > h.len() {
        Err(HiveError::Truncated)
    } else {
        let lo = le32(h, off) as u32;
        match spec_list_type(h, lo) {
            Err(e) => Err(e),
            Ok(t) => match spec_find_subkey_in_list(h, lo, name, t) {
                Ok(ko) => Ok(ko),
                Err(e) => if e == HiveError::SubkeyNotFound || e == HiveError::UnsupportedListType {
                    spec_scan_root(h, off + 4, n - 1, name)
                } else {
                    Err(e)
                },
            },
        }
    }
}

/// What resolving `name` through the index root at stored offset `root_off`
/// yields.
pub open spec fn spec_find_subkey_in_index_root(h: Seq<u8>, root_off: u32, name: Seq<char>) -> Result<
    u32,
    HiveError,
> {
    let base = HIVE_BINS_BASE as int + root_off;
    if base + 2 > h.len() {
        Err(HiveError::Truncated)
    } else if !(h[base] == 0x72u8 && h[base + 1] == 0x69u8) {
        Err(HiveError::MalformedRecord)
    } else if base + 4 > h.len() {
        Err(HiveError::Truncated)
    } else {
        spec_scan_root(h, base + 4, le16(h, base + 2), name)
    }
}

/// What resolving the child `name` of key node `kn` yields: the child's
/// decoded key node.  A subkey-list offset of all ones means "no subkeys"
/// and short-circuits to `SubkeyNotFound` without any read.
pub open spec fn spec_find_subkey(h: Seq<u8>, kn: KeyNode, name: Seq<char>) -> Result<
    KeyNode,
    HiveError,
> {
    if kn.subkeys_list_offset == 0xFFFF_FFFFu32 {
        Err(HiveError::SubkeyNotFound)
    } else {
        match spec_list_type(h, kn.subkeys_list_offset) {
            Err(e) => Err(e),
            Ok(t) => if is_leaf_type(t) {
                match spec_find_subkey_in_list(h, kn.subkeys_list_offset, name, t) {
                    Err(e) => Err(e),
                    Ok(ko) => spec_read_key_node(h, HIVE_BINS_BASE as int + ko),
                }
            } else if t is IndexRoot {
                match spec_find_subkey_in_index_root(h, kn.subkeys_list_offset, name) {
                    Err(e) => Err(e),
                    Ok(ko) => spec_read_key_node(h, HIVE_BINS_BASE as int + ko),
                }
            } else {
                Err(HiveError::UnsupportedListType)
            },
        }
    }
}

/// A leaf scan returns the first matching entry, wherever it stands: if
/// the key nodes of the first `j` entries do not bear the name and entry
/// `j`'s does, the scan yields entry `j`'s stored key-node offset.  The
/// entry width — four bytes, or eight where a name hint or hash trails the
/// offset — steps the scan without desynchronizing it.
pub proof fn lemma_scan_leaf_first_match(
    h: Seq<u8>,
    off: int,
    width: int,
    n: int,
    name: Seq<char>,
    j: int,
)
    requires
        0 <= off,
        width == 4 || width == 8,
        0 <= j < n,
        forall|k: int| 0 <= k <= j ==> off + #[trigger] (width * k) + 4 <= h.len(),
        forall|k: int|
            0 <= k < j ==> spec_match_key_node(h, le32(h, off + #[trigger] (width * k)) as u32, name)
                == Ok::<bool, HiveError>(false),
        spec_match_key_node(h, le32(h, off + width * j) as u32, name) == Ok::<bool, HiveError>(
            true,
        ),
    ensures
        spec_scan_leaf(h, off, width, n, name) == Ok::<u32, HiveError>(
            le32(h, off + width * j) as u32,
        ),
    decreases j,
{
    assert(off + width * 0 + 4 <= h.len());
    if j == 0 {
    } else {
        assert(spec_match_key_node(h, le32(h, off + width * 0) as u32, name) == Ok::<
            bool,
            HiveError,
        >(false));
        assert forall|k: int| 0 <= k <= j - 1 implies (off + width) + #[trigger] (width * k) + 4
            <= h.len() by {
            assert((off + width) + width * k == off + width * (k + 1)) by (nonlinear_arith);
            assert(off + width * (k + 1) + 4 <= h.len());
        }
        assert forall|k: int| 0 <= k < j - 1 implies spec_match_key_node(
            h,
            le32(h, (off + width) + #[trigger] (width * k)) as u32,
            name,
        ) == Ok::<bool, HiveError>(false) by {
            assert((off + width) + width * k == off + width * (k + 1)) by (nonlinear_arith);
            assert(spec_match_key_node(h, le32(h, off + width * (k + 1)) as u32, name) == Ok::<
                bool,
                HiveError,
            >(false));
        }
        assert((off + width) + width * (j - 1) == off + width * j) by (nonlinear_arith);
        lemma_scan_leaf_first_match(h, off + width, width, n - 1, name, j - 1);
    }
}

/// The first-match law lifted to a whole leaf list: a name borne by the
/// key node of entry `j`, and by none before it, resolves to entry `j`'s
/// stored key-node offset, in each of the three leaf encodings.
pub proof fn lemma_leaf_list_finds_match(
    h: Seq<u8>,
    list_off: u32,
    name: Seq<char>,
    t: SubkeyListType,
    j: int,
)
    requires
        is_leaf_type(t),
        HIVE_BINS_BASE + list_off + 4 <= h.len(),
        0 <= j < le16(h, HIVE_BINS_BASE as int + list_off + 2),
        forall|k: int|
            0 <= k <= j ==> HIVE_BINS_BASE + list_off + 4 + #[trigger] (spec_leaf_entry_width(t)
                * k) + 4 <= h.len(),
        forall|k: int|
            0 <= k < j ==> spec_match_key_node(
                h,
                le32(
                    h,
                    HIVE_BINS_BASE as int + list_off + 4 + #[trigger] (spec_leaf_entry_width(t)
                        * k),
                ) as u32,
                name,
            ) == Ok::<bool, HiveError>(false),
        spec_match_key_node(
            h,
            le32(h, HIVE_BINS_BASE as int + list_off + 4 + spec_leaf_entry_width(t) * j) as u32,
            name,
        ) == Ok::<bool, HiveError>(true),
    ensures
        spec_find_subkey_in_list(h, list_off, name, t) == Ok::<u32, HiveError>(
            le32(h, HIVE_BINS_BASE as int + list_off + 4 + spec_leaf_entry_width(t) * j) as u32,
        ),
{
    lemma_scan_leaf_first_match(
        h,
        HIVE_BINS_BASE as int + list_off + 4,
        spec_leaf_entry_width(t),
        le16(h, HIVE_BINS_BASE as int + list_off + 2),
        name,
        j,
    );
}

/// A key node whose subkey-list offset is the all-ones sentinel resolves no
/// name: on every image and for every name the lookup is `SubkeyNotFound`,
/// so the sentinel offset is never dereferenced.
pub proof fn lemma_absent_subkey_list(h: Seq<u8>, kn: KeyNode, name: Seq<char>)
    requires
        kn.subkeys_list_offset == 0xFFFF_FFFFu32,
    ensures
        spec_find_subkey(h, kn, name) == Err::<KeyNode, HiveError>(HiveError::SubkeyNotFound),
{
}

/// An index root keeps looking after a sub-list without the name: with two
/// sub-lists, a name absent from the first and found in the second is still
/// found, at the key-node offset the second sub-list gives.
pub proof fn lemma_index_root_continues_to_sibling(
    h: Seq<u8>,
    root_off: u32,
    name: Seq<char>,
    ko: u32,
)
    requires
        HIVE_BINS_BASE + root_off + 12 <= h.len(),
        h[HIVE_BINS_BASE as int + root_off] == 0x72u8,
        h[HIVE_BINS_BASE as int + root_off + 1] == 0x69u8,
        le16(h, HIVE_BINS_BASE as int + root_off + 2) == 2,
        ({
            let l0 = le32(h, HIVE_BINS_BASE as int + root_off + 4) as u32;
            spec_list_type(h, l0) is Ok && spec_find_subkey_in_list(
                h,
                l0,
                name,
                spec_list_type(h, l0)->Ok_0,
            ) == Err::<u32, HiveError>(HiveError::SubkeyNotFound)
        }),
        ({
            let l1 = le32(h, HIVE_BINS_BASE as int + root_off + 8) as u32;
            spec_list_type(h, l1) is Ok && spec_find_subkey_in_list(
                h,
                l1,
                name,
                spec_list_type(h, l1)->Ok_0,
            ) == Ok::<u32, HiveError>(ko)
        }),
    ensures
        spec_find_subkey_in_index_root(h, root_off, name) == Ok::<u32, HiveError>(ko),
{
    let base = HIVE_BINS_BASE as int + root_off;
    assert(spec_scan_root(h, base + 4, 2, name) == spec_scan_root(h, base + 8, 1, name));
    assert(spec_scan_root(h, base + 8, 1, name) == Ok::<u32, HiveError>(ko));
}

/// Reads the two-byte tag of the subkey list at stored offset `list_off`
/// and classifies the list.
pub fn get_subkey_list_type(h: &Vec<u8>, list_off: u32) -> (r: Result<SubkeyListType, HiveError>)
    ensures
        r == spec_list_type(h@, list_off),
{
    let off: u64 = HIVE_BINS_BASE + list_off as u64;
    let total: u64 = h.len() as u64;
    if total < 2 || off > total - 2 {
        return Err(HiveError::Truncated);
    }
    let i: usize = off as usize;
    let b0: u8 = h[i];
    let b1: u8 = h[i + 1];
    if b0 == 0x6c && b1 == 0x69 {
        Ok(SubkeyListType::IndexLeaf)
    } else if b0 == 0x6c && b1 == 0x66 {
        Ok(SubkeyListType::FastLeaf)
    } else if b0 == 0x6c && b1 == 0x68 {
        Ok(SubkeyListType::HashLeaf)
    } else if b0 == 0x72 && b1 == 0x69 {
        Ok(SubkeyListType::IndexRoot)
    } else {
        Ok(SubkeyListType::Unknown)
    }
}

/// Whether the key node at stored offset `ko` bears `name`.
fn match_key_node(h: &Vec<u8>, ko: u32, name: &str) -> (r: Result<bool, HiveError>)
    ensures
        r == spec_match_key_node(h@, ko, name@),
{
    let off: u64 = HIVE_BINS_BASE + ko as u64;
    let kn = match read_key_node(h, off) {
        Ok(kn) => kn,
        Err(e) => return Err(e),
    };
    let decoded = match read_key_name(h, off, &kn) {
        Ok(d) => d,
        Err(e) => return Err(e),
    };
    Ok(name_matches(&decoded, name))
}

/// Resolves `name` in the leaf list at stored offset `list_off`, scanning
/// exactly the declared number of entries in order and returning the stored
/// key-node offset of the first match.
pub fn find_subkey_in_list(h: &Vec<u8>, list_off: u32, name: &str, t: SubkeyListType) -> (r: Result<
    u32,
    HiveError,
>)
    ensures
        r == spec_find_subkey_in_list(h@, list_off, name@, t),
{
    let width: u64 = match t {
        SubkeyListType::IndexLeaf => 4,
        SubkeyListType::FastLeaf => 8,
        SubkeyListType::HashLeaf => 8,
        _ => return Err(HiveError::UnsupportedListType),
    };
    let base: u64 = HIVE_BINS_BASE + list_off as u64;
    let n: u16 = match read_u16(h, base + 2) {
        Ok(v) => v,
        Err(e) => return Err(e),
    };
    let mut i: u64 = 0;
    let mut cur: u64 = base + 4;
    while i < n as u64
        invariant
            is_leaf_type(t),
            width == spec_leaf_entry_width(t),
            i <= n,
            cur == HIVE_BINS_BASE + list_off + 4 + width * i,
            spec_find_subkey_in_list(h@, list_off, name@, t) == spec_scan_leaf(
                h@,
                cur as int,
                width as int,
                n - i,
                name@,
            ),
        decreases n - i,
    {
        let ko: u32 = match read_u32(h, cur) {
            Ok(v) => v,
            Err(e) => return Err(e),
        };
        match match_key_node(h, ko, name) {
            Err(e) => return Err(e),
            Ok(true) => return Ok(ko),
            Ok(false) => {},
        }
        i = i + 1;
        cur = cur + width;
    }
    Err(HiveError::SubkeyNotFound)
}

/// Resolves `name` through the index root at stored offset `root_off`,
/// trying each sub-list in order and moving to the next sibling when one
/// reports the name missing or its tag unsupported.
pub fn find_subkey_in_index_root(h: &Vec<u8>, root_off: u32, name: &str) -> (r: Result<
    u32,
    HiveError,
>)
    ensures
        r == spec_find_subkey_in_index_root(h@, root_off, name@),
{
    let base: u64 = HIVE_BINS_BASE + root_off as u64;
    let total: u64 = h.len() as u64;
    if total < 2 || base > total - 2 {
        return Err(HiveError::Truncated);
    }
    let bi: usize = base as usize;
    if !(h[bi] == 0x72 && h[bi + 1] == 0x69) {
        return Err(HiveError::MalformedRecord);
    }
    let n: u16 = match read_u16(h, base + 2) {
        Ok(v) => v,
        Err(e) => return Err(e),
    };
    let mut i: u64 = 0;
    let mut cur: u64 = base + 4;
    while i < n as u64
        invariant
            i <= n,
            cur == HIVE_BINS_BASE + root_off + 4 + 4 * i,
            spec_find_subkey_in_index_root(h@, root_off, name@) == spec_scan_root(
                h@,
                cur as int,
                n - i,
                name@,
            ),
        decreases n - i,
    {
        let lo: u32 = match read_u32(h, cur) {
            Ok(v) => v,
            Err(e) => return Err(e),
        };
        let t = match get_subkey_list_type(h, lo) {
            Ok(t) => t,
            Err(e) => return Err(e),
        };
        match find_subkey_in_list(h, lo, name, t) {
            Ok(ko) => return Ok(ko),
            Err(e) => if !(e == HiveError::SubkeyNotFound || e == HiveError::UnsupportedListType) {
                return Err(e);
            },
        }
        i = i + 1;
        cur = cur + 4;
    }
    Err(HiveError::SubkeyNotFound)
}

/// Resolves the child `name` of `kn`: classifies the key node's subkey
/// list, searches it, and decodes the child's key node.
pub fn find_subkey(h: &Vec<u8>, kn: &KeyNode, name: &str) -> (r: Result<KeyNode, HiveError>)
    ensures
        r == spec_find_subkey(h@, *kn, name@),
{
    if kn.subkeys_list_offset == 0xFFFF_FFFF {
        return Err(HiveError::SubkeyNotFound);
    }
    let t = match get_subkey_list_type(h, kn.subkeys_list_offset) {
        Ok(t) => t,
        Err(e) => return Err(e),
    };
    let ko: u32 = match t {
        SubkeyListType::IndexLeaf | SubkeyListType::FastLeaf | SubkeyListType::HashLeaf => {
            match find_subkey_in_list(h, kn.subkeys_list_offset, name, t) {
                Ok(ko) => ko,
                Err(e) => return Err(e),
            }
        },
        SubkeyListType::IndexRoot => {
            match find_subkey_in_index_root(h, kn.subkeys_list_offset, name) {
                Ok(ko) => ko,
                Err(e) => return Err(e),
            }
        },
        SubkeyListType::Unknown => {
            return Err(HiveError::UnsupportedListType);
        },
    };
    read_key_node(h, HIVE_BINS_BASE + ko as u64)
}

} // verus!
