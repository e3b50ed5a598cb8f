use inventory_backend::bearer::{
    decode_hex, encode_hex, read_bearer, token_from_header, write_bearer,
};

#[test]
fn hex_text_has_two_lower_case_digits_per_byte() {
    assert_eq!(encode_hex(&[]), b"".to_vec());
    assert_eq!(encode_hex(&[0x00, 0xff, 0x1a, 0xa1, 0x09, 0x90]), b"00ff1aa10990".to_vec());
    assert_eq!(encode_hex(b"bolt"), b"626f6c74".to_vec());
}

#[test]
fn hex_text_reads_in_either_case() {
    assert_eq!(decode_hex(b""), Some(vec![]));
    assert_eq!(decode_hex(b"00ff1a"), Some(vec![0x00, 0xff, 0x1a]));
    assert_eq!(decode_hex(b"00FF1A"), Some(vec![0x00, 0xff, 0x1a]));
    assert_eq!(decode_hex(b"aBcDeF"), Some(vec![0xab, 0xcd, 0xef]));
    assert_eq!(decode_hex(b"0123456789"), Some(vec![0x01, 0x23, 0x45, 0x67, 0x89]));
}

#[test]
fn hex_text_of_odd_length_or_with_other_characters_is_refused() {
    assert_eq!(decode_hex(b"0"), None);
    assert_eq!(decode_hex(b"abc"), None);
    assert_eq!(decode_hex(b"0g"), None);
    assert_eq!(decode_hex(b"g0"), None);
    assert_eq!(decode_hex(b"0 "), None);
    assert_eq!(decode_hex(b"/0"), None);
    assert_eq!(decode_hex(b":0"), None);
    assert_eq!(decode_hex(b"@0"), None);
    assert_eq!(decode_hex(b"G0"), None);
    assert_eq!(decode_hex(b"`0"), None);
    assert_eq!(decode_hex(&[0x30, 0xc3]), None);
}

#[test]
fn every_byte_survives_hex() {
    let all: Vec<u8> = (0u8..=255).collect();
    let text = encode_hex(&all);
    assert_eq!(text.len(), 512);
    assert_eq!(decode_hex(&text), Some(all));
}

#[test]
fn bearer_header_round_trip() {
    let header = write_bearer(&[0xde, 0xad, 0xbe, 0xef]);
    assert_eq!(header, b"Bearer deadbeef".to_vec());
    assert_eq!(read_bearer(&header), Some(vec![0xde, 0xad, 0xbe, 0xef]));
    assert_eq!(read_bearer(b"Bearer "), Some(vec![]));
}

#[test]
fn bearer_header_needs_the_exact_prefix() {
    assert_eq!(read_bearer(b""), None);
    assert_eq!(read_bearer(b"Bearer"), None);
    assert_eq!(read_bearer(b"bearer deadbeef"), None);
    assert_eq!(read_bearer(b"Bearer  deadbeef"), None);
    assert_eq!(read_bearer(b"Basic deadbeef"), None);
    assert_eq!(read_bearer(b"Bearer deadbee"), None);
    assert_eq!(read_bearer(b"Bearer deadbeef "), None);
    assert_eq!(read_bearer(b"Bearer xyz"), None);
    assert_eq!(read_bearer(b"Bearerxdeadbeef"), None);
}

#[test]
fn missing_or_unreadable_header_presents_no_bytes() {
    assert_eq!(token_from_header(None), Vec::<u8>::new());
    assert_eq!(token_from_header(Some(b"")), Vec::<u8>::new());
    assert_eq!(token_from_header(Some(b"Basic abcd")), Vec::<u8>::new());
    assert_eq!(token_from_header(Some(b"Bearer 0102")), vec![1, 2]);
}
