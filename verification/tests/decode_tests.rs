use hivedigger::error::HiveError;
use hivedigger::hive::read_base_block;
use hivedigger::list::get_subkey_list_type;
use hivedigger::list::SubkeyListType;
use hivedigger::name::decode_name;
use hivedigger::record::read_key_node;
use hivedigger::record::read_key_value;

fn set_u16(h: &mut Vec<u8>, off: usize, v: u16) {
    h[off..off + 2].copy_from_slice(&v.to_le_bytes());
}

fn set_u32(h: &mut Vec<u8>, off: usize, v: u32) {
    h[off..off + 4].copy_from_slice(&v.to_le_bytes());
}

fn new_header(minor: u32, root_rel: u32) -> Vec<u8> {
    let mut h = vec![0u8; 4096];
    h[0..4].copy_from_slice(b"regf");
    set_u32(&mut h, 24, minor);
    set_u32(&mut h, 32, 1);
    set_u32(&mut h, 36, root_rel);
    set_u32(&mut h, 40, 0x1000);
    h
}

#[test]
fn base_block_fields_decoded() {
    let mut h = new_header(5, 0x20);
    h.resize(4200, 0);
    let bb = read_base_block(&h).unwrap();
    assert_eq!(bb.minor_version, 5);
    assert_eq!(bb.root_cell_offset, 0x20);
    assert_eq!(bb.hive_bins_data_size, 0x1000);
}

#[test]
fn corrupted_signature_fails_malformed() {
    let mut h = new_header(5, 0x20);
    h[0] = b'x';
    assert_eq!(read_base_block(&h), Err(HiveError::MalformedRecord));
}

#[test]
fn short_file_truncated() {
    let h = vec![0u8; 100];
    assert_eq!(read_base_block(&h), Err(HiveError::Truncated));
}

#[test]
fn unsupported_format_flag() {
    let mut h = new_header(5, 0x20);
    set_u32(&mut h, 32, 2);
    assert_eq!(read_base_block(&h), Err(HiveError::UnsupportedFormat));
}

#[test]
fn key_node_fields_decoded() {
    let mut h = vec![0u8; 8192];
    let o = 5000usize;
    h[o] = b'n';
    h[o + 1] = b'k';
    set_u16(&mut h, o + 2, 0x0020);
    set_u32(&mut h, o + 20, 7);
    set_u32(&mut h, o + 28, 0x123);
    set_u32(&mut h, o + 36, 2);
    set_u32(&mut h, o + 40, 0x456);
    set_u16(&mut h, o + 72, 3);
    let kn = read_key_node(&h, o as u64).unwrap();
    assert_eq!(kn.flags, 0x0020);
    assert_eq!(kn.number_of_subkeys, 7);
    assert_eq!(kn.subkeys_list_offset, 0x123);
    assert_eq!(kn.number_of_key_values, 2);
    assert_eq!(kn.key_values_list_offset, 0x456);
    assert_eq!(kn.key_name_length, 3);
}

#[test]
fn bad_key_node_signature() {
    let h = vec![0u8; 8192];
    assert_eq!(read_key_node(&h, 5000), Err(HiveError::MalformedRecord));
}

#[test]
fn key_node_header_truncated() {
    let h = vec![0u8; 100];
    assert_eq!(read_key_node(&h, 60), Err(HiveError::Truncated));
}

#[test]
fn key_value_fields_decoded() {
    let mut h = vec![0u8; 8192];
    let o = 5000usize;
    h[o] = b'v';
    h[o + 1] = b'k';
    set_u16(&mut h, o + 2, 2);
    set_u32(&mut h, o + 4, 0x80000004);
    set_u32(&mut h, o + 8, 0xAABBCCDD);
    set_u32(&mut h, o + 12, 3);
    set_u16(&mut h, o + 16, 0x0001);
    let kv = read_key_value(&h, o as u64).unwrap();
    assert_eq!(kv.name_length, 2);
    assert_eq!(kv.data_size, 0x80000004);
    assert_eq!(kv.data_offset, 0xAABBCCDD);
    assert_eq!(kv.data_type, 3);
    assert_eq!(kv.flags, 0x0001);
}

#[test]
fn bad_key_value_signature() {
    let h = vec![0u8; 8192];
    assert_eq!(read_key_value(&h, 5000), Err(HiveError::MalformedRecord));
}

#[test]
fn list_tags_classify() {
    let mut h = vec![0u8; 8192];
    for (tag, want) in [
        (*b"li", SubkeyListType::IndexLeaf),
        (*b"lf", SubkeyListType::FastLeaf),
        (*b"lh", SubkeyListType::HashLeaf),
        (*b"ri", SubkeyListType::IndexRoot),
        (*b"zz", SubkeyListType::Unknown),
    ] {
        h[4196] = tag[0];
        h[4197] = tag[1];
        assert_eq!(get_subkey_list_type(&h, 100), Ok(want));
    }
}

#[test]
fn extended_ascii_name_decodes_bytewise() {
    let h: Vec<u8> = vec![b'L', b's', b'a', 0xE9, 0x80];
    let got = decode_name(&h, 0, 5, true).unwrap();
    assert_eq!(got, vec![0x4C, 0x73, 0x61, 0xE9, 0x80]);
}

#[test]
fn utf16_name_with_non_ascii_round_trips() {
    let name = "Ké\u{4E2D}";
    let bytes: Vec<u8> = name.encode_utf16().flat_map(|u| u.to_le_bytes()).collect();
    let got = decode_name(&bytes, 0, bytes.len() as u64, false).unwrap();
    let want: Vec<u32> = name.chars().map(|c| c as u32).collect();
    assert_eq!(got, want);
}

#[test]
fn utf16_surrogate_pair_decodes() {
    let name = "a\u{1F600}b";
    let bytes: Vec<u8> = name.encode_utf16().flat_map(|u| u.to_le_bytes()).collect();
    assert_eq!(bytes.len(), 8);
    let got = decode_name(&bytes, 0, 8, false).unwrap();
    assert_eq!(got, vec![0x61, 0x1F600, 0x62]);
}

#[test]
fn odd_utf16_name_is_invalid_text() {
    let h: Vec<u8> = vec![0x4C, 0x00, 0x73];
    assert_eq!(decode_name(&h, 0, 3, false), Err(HiveError::InvalidText));
}

#[test]
fn unpaired_surrogate_is_invalid_text() {
    let h: Vec<u8> = vec![0x00, 0xD8, 0x41, 0x00];
    assert_eq!(decode_name(&h, 0, 4, false), Err(HiveError::InvalidText));
    let lone_low: Vec<u8> = vec![0x00, 0xDC];
    assert_eq!(decode_name(&lone_low, 0, 2, false), Err(HiveError::InvalidText));
}

#[test]
fn name_decode_beyond_end_truncated() {
    let h: Vec<u8> = vec![0x41, 0x42];
    assert_eq!(decode_name(&h, 1, 4, true), Err(HiveError::Truncated));
}
