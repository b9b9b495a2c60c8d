use hivedigger::error::HiveError;
use hivedigger::hive::{extract, extract_syskey};
use hivedigger::list::{find_subkey, find_subkey_in_index_root, find_subkey_in_list, SubkeyListType};
use hivedigger::record::{read_key_node, KeyNode, KeyValue};
use hivedigger::value::{extract_key_value_data, find_key_value, read_big_data};

const NONE32: u32 = 0xFFFF_FFFF;

fn set_u16(h: &mut Vec<u8>, off: usize, v: u16) {
    h[off..off + 2].copy_from_slice(&v.to_le_bytes());
}

fn set_u32(h: &mut Vec<u8>, off: usize, v: u32) {
    h[off..off + 4].copy_from_slice(&v.to_le_bytes());
}

fn new_hive(minor: u32, root_rel: u32, size: usize) -> Vec<u8> {
    let mut h = vec![0u8; size];
    h[0..4].copy_from_slice(b"regf");
    set_u32(&mut h, 24, minor);
    set_u32(&mut h, 32, 1);
    set_u32(&mut h, 36, root_rel);
    set_u32(&mut h, 40, (size - 4096) as u32);
    h
}

fn put_key_node(
    h: &mut Vec<u8>,
    rel: u32,
    name: &str,
    ascii: bool,
    subkeys_list: u32,
    n_values: u32,
    values_list: u32,
) {
    let o = 4096 + rel as usize;
    h[o] = b'n';
    h[o + 1] = b'k';
    set_u16(h, o + 2, if ascii { 0x0020 } else { 0 });
    set_u32(h, o + 28, subkeys_list);
    set_u32(h, o + 36, n_values);
    set_u32(h, o + 40, values_list);
    let bytes: Vec<u8> = if ascii {
        name.bytes().collect()
    } else {
        name.encode_utf16().flat_map(|u| u.to_le_bytes()).collect()
    };
    set_u16(h, o + 72, bytes.len() as u16);
    h[o + 76..o + 76 + bytes.len()].copy_from_slice(&bytes);
}

fn put_value_record(
    h: &mut Vec<u8>,
    rel: u32,
    name: &str,
    ascii: bool,
    data_size: u32,
    data_offset: u32,
) {
    let o = 4096 + rel as usize;
    h[o] = b'v';
    h[o + 1] = b'k';
    let bytes: Vec<u8> = if ascii {
        name.bytes().collect()
    } else {
        name.encode_utf16().flat_map(|u| u.to_le_bytes()).collect()
    };
    set_u16(h, o + 2, bytes.len() as u16);
    set_u32(h, o + 4, data_size);
    set_u32(h, o + 8, data_offset);
    set_u32(h, o + 12, 3);
    set_u16(h, o + 16, if ascii { 0x0001 } else { 0 });
    h[o + 20..o + 20 + bytes.len()].copy_from_slice(&bytes);
}

// Writes a leaf list; in the fast-leaf and hash-leaf forms each entry gets
// four junk trailing bytes, so a scan that mis-steps would read garbage.
fn put_leaf_list(h: &mut Vec<u8>, rel: u32, tag: &[u8; 2], entries: &[u32]) {
    let o = 4096 + rel as usize;
    h[o] = tag[0];
    h[o + 1] = tag[1];
    set_u16(h, o + 2, entries.len() as u16);
    let wide = tag != b"li";
    let width = if wide { 8 } else { 4 };
    for (k, e) in entries.iter().enumerate() {
        let eo = o + 4 + width * k;
        set_u32(h, eo, *e);
        if wide {
            set_u32(h, eo + 4, 0xEEEE_EEEE);
        }
    }
}

fn put_index_root(h: &mut Vec<u8>, rel: u32, subs: &[u32]) {
    let o = 4096 + rel as usize;
    h[o] = b'r';
    h[o + 1] = b'i';
    set_u16(h, o + 2, subs.len() as u16);
    for (k, s) in subs.iter().enumerate() {
        set_u32(h, o + 4 + 4 * k, *s);
    }
}

fn put_value_list(h: &mut Vec<u8>, rel: u32, entries: &[u32]) {
    let o = 4096 + rel as usize;
    for (k, e) in entries.iter().enumerate() {
        set_u32(h, o + 4 * k, *e);
    }
}

// A hive with one leaf list of `n` entries under the root; entry `pos`
// points at a key node named "Target", the others at decoys.
fn leaf_position_hive(tag: &[u8; 2], n: u32, pos: u32) -> (Vec<u8>, u32) {
    let mut h = new_hive(5, 0x20, 65536);
    put_key_node(&mut h, 0x20, "ROOT", true, 0x1000, 0, NONE32);
    let mut entries: Vec<u32> = Vec::new();
    for k in 0..n {
        let node_rel = 0x2000 + 0x100 * k;
        let name = if k == pos { "Target".to_string() } else { format!("Node{}", k) };
        put_key_node(&mut h, node_rel, &name, true, NONE32, 0, NONE32);
        entries.push(node_rel);
    }
    put_leaf_list(&mut h, 0x1000, tag, &entries);
    (h, 0x2000 + 0x100 * pos)
}

fn list_type_of(tag: &[u8; 2]) -> SubkeyListType {
    match tag {
        b"li" => SubkeyListType::IndexLeaf,
        b"lf" => SubkeyListType::FastLeaf,
        b"lh" => SubkeyListType::HashLeaf,
        _ => SubkeyListType::IndexRoot,
    }
}

fn check_leaf_positions(tag: &[u8; 2]) {
    for pos in [0u32, 2, 4] {
        let (h, want) = leaf_position_hive(tag, 5, pos);
        let got = find_subkey_in_list(&h, 0x1000, "Target", list_type_of(tag));
        assert_eq!(got, Ok(want));
        let root = read_key_node(&h, 4096 + 0x20).unwrap();
        let node = find_subkey(&h, &root, "Target").unwrap();
        assert_eq!(node.key_name_length, 6);
    }
}

#[test]
fn index_leaf_finds_first_middle_last() {
    check_leaf_positions(b"li");
}

#[test]
fn fast_leaf_finds_first_middle_last() {
    check_leaf_positions(b"lf");
}

#[test]
fn hash_leaf_finds_first_middle_last() {
    check_leaf_positions(b"lh");
}

#[test]
fn index_root_finds_first_middle_last() {
    // Five entries split over two leaf sub-lists, target in each position.
    for pos in [0u32, 2, 4] {
        let mut h = new_hive(5, 0x20, 65536);
        put_key_node(&mut h, 0x20, "ROOT", true, 0x1000, 0, NONE32);
        let mut all: Vec<u32> = Vec::new();
        for k in 0..5u32 {
            let node_rel = 0x2000 + 0x100 * k;
            let name = if k == pos { "Target".to_string() } else { format!("Node{}", k) };
            put_key_node(&mut h, node_rel, &name, true, NONE32, 0, NONE32);
            all.push(node_rel);
        }
        put_leaf_list(&mut h, 0x1100, b"lf", &all[0..3]);
        put_leaf_list(&mut h, 0x1200, b"lh", &all[3..5]);
        put_index_root(&mut h, 0x1000, &[0x1100, 0x1200]);
        let got = find_subkey_in_index_root(&h, 0x1000, "Target");
        assert_eq!(got, Ok(0x2000 + 0x100 * pos));
    }
}

#[test]
fn index_root_continues_to_second_sublist() {
    let mut h = new_hive(5, 0x20, 65536);
    put_key_node(&mut h, 0x2000, "Alpha", true, NONE32, 0, NONE32);
    put_key_node(&mut h, 0x2100, "Beta", true, NONE32, 0, NONE32);
    put_leaf_list(&mut h, 0x1100, b"li", &[0x2000]);
    put_leaf_list(&mut h, 0x1200, b"li", &[0x2100]);
    put_index_root(&mut h, 0x1000, &[0x1100, 0x1200]);
    assert_eq!(find_subkey_in_index_root(&h, 0x1000, "Beta"), Ok(0x2100));
    assert_eq!(
        find_subkey_in_index_root(&h, 0x1000, "Gamma"),
        Err(HiveError::SubkeyNotFound)
    );
}

#[test]
fn sentinel_subkey_list_reports_not_found() {
    // The empty image shows that the sentinel is never dereferenced.
    let empty: Vec<u8> = Vec::new();
    let kn = KeyNode {
        flags: 0x0020,
        number_of_subkeys: 0,
        subkeys_list_offset: NONE32,
        number_of_key_values: 0,
        key_values_list_offset: NONE32,
        key_name_length: 0,
    };
    assert_eq!(find_subkey(&empty, &kn, "anything"), Err(HiveError::SubkeyNotFound));
}

#[test]
fn sentinel_value_list_reports_absent() {
    let empty: Vec<u8> = Vec::new();
    let kn = KeyNode {
        flags: 0x0020,
        number_of_subkeys: 0,
        subkeys_list_offset: NONE32,
        number_of_key_values: 5,
        key_values_list_offset: NONE32,
        key_name_length: 0,
    };
    assert_eq!(find_key_value(&empty, &kn, "anything"), Err(HiveError::ValueListAbsent));
}

#[test]
fn unknown_list_tag_unsupported() {
    let mut h = new_hive(5, 0x20, 16384);
    put_key_node(&mut h, 0x20, "ROOT", true, 0x1000, 0, NONE32);
    h[4096 + 0x1000] = b'z';
    h[4096 + 0x1001] = b'z';
    let root = read_key_node(&h, 4096 + 0x20).unwrap();
    assert_eq!(find_subkey(&h, &root, "x"), Err(HiveError::UnsupportedListType));
}

#[test]
fn missing_subkey_not_found() {
    let (h, _) = leaf_position_hive(b"li", 3, 1);
    let got = find_subkey_in_list(&h, 0x1000, "Absent", SubkeyListType::IndexLeaf);
    assert_eq!(got, Err(HiveError::SubkeyNotFound));
}

#[test]
fn declared_count_beyond_file_truncated() {
    let mut h = new_hive(5, 0x20, 16384);
    put_key_node(&mut h, 0x20, "ROOT", true, 0x1000, 0, NONE32);
    // A leaf whose declared count implies entries past the end of the image.
    let list_rel: u32 = 16384 - 4096 - 6;
    let o = 4096 + list_rel as usize;
    h[o] = b'l';
    h[o + 1] = b'i';
    set_u16(&mut h, o + 2, 40);
    let got = find_subkey_in_list(&h, list_rel, "x", SubkeyListType::IndexLeaf);
    assert_eq!(got, Err(HiveError::Truncated));
}

#[test]
fn utf16_node_name_found() {
    let mut h = new_hive(5, 0x20, 65536);
    put_key_node(&mut h, 0x20, "ROOT", true, 0x1000, 0, NONE32);
    put_key_node(&mut h, 0x2000, "K\u{00E9}\u{1F600}", false, NONE32, 0, NONE32);
    put_leaf_list(&mut h, 0x1000, b"li", &[0x2000]);
    let got = find_subkey_in_list(&h, 0x1000, "K\u{00E9}\u{1F600}", SubkeyListType::IndexLeaf);
    assert_eq!(got, Ok(0x2000));
}

#[test]
fn inline_value_lengths_one_to_four() {
    let empty: Vec<u8> = Vec::new();
    let le = [0xAAu8, 0xBB, 0xCC, 0xDD];
    for len in 0u32..5 {
        let kv = KeyValue {
            name_length: 0,
            data_size: 0x8000_0000 + len,
            data_offset: 0xDDCC_BBAA,
            data_type: 3,
            flags: 0x0001,
        };
        let got = extract_key_value_data(&empty, &kv, 5).unwrap();
        assert_eq!(got, le[0..len as usize].to_vec());
    }
}

#[test]
fn inline_length_clamped_to_four() {
    let empty: Vec<u8> = Vec::new();
    let kv = KeyValue {
        name_length: 0,
        data_size: 0x8000_0007,
        data_offset: 0x0403_0201,
        data_type: 3,
        flags: 0x0001,
    };
    assert_eq!(extract_key_value_data(&empty, &kv, 5).unwrap(), vec![1, 2, 3, 4]);
}

fn patterned(n: usize, seed: u8) -> Vec<u8> {
    (0..n).map(|i| (i as u8).wrapping_mul(31).wrapping_add(seed)).collect()
}

#[test]
fn boundary_16344_direct_read() {
    let data = patterned(16344, 7);
    let mut h = new_hive(4, 0x20, 4096 + 0x100 + 16344);
    h[4096 + 0x100..].copy_from_slice(&data);
    let kv = KeyValue {
        name_length: 0,
        data_size: 16344,
        data_offset: 0x100,
        data_type: 3,
        flags: 0,
    };
    assert_eq!(extract_key_value_data(&h, &kv, 4).unwrap(), data);
}

// Lays out a big-data structure with the given segment payloads and returns
// their concatenation.
fn put_big_data(h: &mut Vec<u8>, rel: u32, payloads: &[&[u8]]) -> Vec<u8> {
    let o = 4096 + rel as usize;
    h[o] = b'd';
    h[o + 1] = b'b';
    set_u16(h, o + 2, payloads.len() as u16);
    let list_rel = rel + 16;
    set_u32(h, o + 4, list_rel);
    let mut seg_rel = list_rel + 16 * (payloads.len() as u32);
    let mut whole: Vec<u8> = Vec::new();
    for (k, p) in payloads.iter().enumerate() {
        set_u32(h, 4096 + (list_rel as usize) + 4 * k, seg_rel);
        let cell_len = (p.len() + 4) as i32;
        set_u32(h, 4096 + seg_rel as usize, (-cell_len) as u32);
        let start = 4096 + seg_rel as usize + 4;
        h[start..start + p.len()].copy_from_slice(p);
        whole.extend_from_slice(p);
        seg_rel += (p.len() as u32) + 16;
    }
    whole
}

#[test]
fn big_data_concatenates_segments_in_order() {
    let s0 = patterned(8000, 1);
    let s1 = patterned(8000, 2);
    let s2 = patterned(345, 3);
    let mut h = new_hive(4, 0x20, 65536);
    let whole = put_big_data(&mut h, 0x1000, &[&s0, &s1, &s2]);
    assert_eq!(whole.len(), 16345);
    let got = read_big_data(&h, 4096 + 0x1000).unwrap();
    assert_eq!(got, whole);
}

#[test]
fn boundary_16345_uses_big_data() {
    let s0 = patterned(8000, 1);
    let s1 = patterned(8000, 2);
    let s2 = patterned(345, 3);
    let mut h = new_hive(4, 0x20, 65536);
    let whole = put_big_data(&mut h, 0x1000, &[&s0, &s1, &s2]);
    let kv = KeyValue {
        name_length: 0,
        data_size: 16345,
        data_offset: 0x1000,
        data_type: 3,
        flags: 0,
    };
    assert_eq!(extract_key_value_data(&h, &kv, 4).unwrap(), whole);
}

#[test]
fn minor_version_3_always_direct() {
    // Same declared size as the segmented case, but a minor version of 3
    // must read the payload whole from its cell.
    let data = patterned(16345, 9);
    let mut h = new_hive(3, 0x20, 4096 + 0x100 + 16345);
    h[4096 + 0x100..].copy_from_slice(&data);
    let kv = KeyValue {
        name_length: 0,
        data_size: 16345,
        data_offset: 0x100,
        data_type: 3,
        flags: 0,
    };
    assert_eq!(extract_key_value_data(&h, &kv, 3).unwrap(), data);
}

#[test]
fn bad_big_data_signature() {
    let mut h = new_hive(4, 0x20, 16384);
    h[4096 + 0x1000] = b'x';
    h[4096 + 0x1001] = b'b';
    assert_eq!(read_big_data(&h, 4096 + 0x1000), Err(HiveError::MalformedRecord));
}

#[test]
fn undersized_segment_cell_malformed() {
    let mut h = new_hive(4, 0x20, 16384);
    let o = 4096 + 0x1000;
    h[o] = b'd';
    h[o + 1] = b'b';
    set_u16(&mut h, o + 2, 1);
    set_u32(&mut h, o + 4, 0x1010);
    set_u32(&mut h, 4096 + 0x1010, 0x1020);
    set_u32(&mut h, 4096 + 0x1020, (-2i32) as u32);
    assert_eq!(read_big_data(&h, 4096 + 0x1000), Err(HiveError::MalformedRecord));
}

#[test]
fn missing_value_not_found() {
    let mut h = new_hive(5, 0x20, 16384);
    put_key_node(&mut h, 0x20, "ROOT", true, NONE32, 1, 0x1000);
    put_value_list(&mut h, 0x1000, &[0x1100]);
    put_value_record(&mut h, 0x1100, "JD", true, 0x8000_0000, 0);
    let root = read_key_node(&h, 4096 + 0x20).unwrap();
    assert_eq!(find_key_value(&h, &root, "GBG"), Err(HiveError::ValueNotFound));
    assert!(find_key_value(&h, &root, "JD").is_ok());
}

// A complete synthetic hive with the shipped key path and the value "JD".
fn syskey_hive(data_size: u32, data_offset: u32) -> Vec<u8> {
    let mut h = new_hive(5, 0x20, 65536);
    put_key_node(&mut h, 0x20, "ROOT", true, 0x1000, 0, NONE32);
    put_leaf_list(&mut h, 0x1000, b"lf", &[0x2000]);
    put_key_node(&mut h, 0x2000, "CurrentControlSet", true, 0x1100, 0, NONE32);
    put_leaf_list(&mut h, 0x1100, b"lh", &[0x2100]);
    put_key_node(&mut h, 0x2100, "Control", true, 0x1200, 0, NONE32);
    put_leaf_list(&mut h, 0x1200, b"li", &[0x2200]);
    put_key_node(&mut h, 0x2200, "Lsa", true, NONE32, 1, 0x1300);
    put_value_list(&mut h, 0x1300, &[0x1400]);
    put_value_record(&mut h, 0x1400, "JD", true, data_size, data_offset);
    h
}

#[test]
fn extract_round_trip_planted_value() {
    // Inline payload: the first four bytes of the offset field itself.
    let h = syskey_hive(0x8000_0004, 0x0403_0201);
    assert_eq!(extract_syskey(&h).unwrap(), vec![1, 2, 3, 4]);
}

#[test]
fn extract_round_trip_cell_payload() {
    let mut h = syskey_hive(6, 0x3000);
    let data = [0x10u8, 0x20, 0x30, 0x40, 0x50, 0x60];
    h[4096 + 0x3000..4096 + 0x3006].copy_from_slice(&data);
    let path: Vec<String> =
        vec!["CurrentControlSet".to_string(), "Control".to_string(), "Lsa".to_string()];
    assert_eq!(extract(&h, &path, "JD").unwrap(), data.to_vec());
}

#[test]
fn extract_missing_path_segment() {
    let h = syskey_hive(0x8000_0001, 0);
    let path: Vec<String> = vec!["CurrentControlSet".to_string(), "Wrong".to_string()];
    assert_eq!(extract(&h, &path, "JD"), Err(HiveError::SubkeyNotFound));
}

#[test]
fn extract_rejects_corrupted_header_first() {
    let mut h = syskey_hive(0x8000_0004, 0x0403_0201);
    h[2] = b'X';
    assert_eq!(extract_syskey(&h), Err(HiveError::MalformedRecord));
}

#[test]
fn extract_rejects_unsupported_format() {
    let mut h = syskey_hive(0x8000_0004, 0x0403_0201);
    set_u32(&mut h, 32, 0);
    assert_eq!(extract_syskey(&h), Err(HiveError::UnsupportedFormat));
}

#[test]
fn case_sensitive_name_comparison() {
    let h = syskey_hive(0x8000_0004, 0x0403_0201);
    let path: Vec<String> =
        vec!["currentcontrolset".to_string(), "Control".to_string(), "Lsa".to_string()];
    assert_eq!(extract(&h, &path, "JD"), Err(HiveError::SubkeyNotFound));
}
