use seth_rpc::errors::ErrorKind;
use seth_rpc::transform::{
    decode_data, decode_quantity, encode_data, encode_quantity, from_state_address,
    hex_digit_value, parse_address, parse_block_ref, to_state_address, BlockRef,
};

#[test]
fn quantity_encodings_are_canonical() {
    assert_eq!(encode_quantity(0), "0x00");
    assert_eq!(encode_quantity(1), "0x01");
    assert_eq!(encode_quantity(0xabc), "0x0abc");
    assert_eq!(encode_quantity(255), "0xff");
    assert_eq!(encode_quantity(4096), "0x1000");
    assert_eq!(encode_quantity(u64::MAX), "0xffffffffffffffff");
}

#[test]
fn quantity_round_trip_on_samples() {
    for n in [0u64, 1, 15, 16, 255, 256, 1_000_000, 0xdead_beef, u64::MAX - 1, u64::MAX] {
        assert_eq!(decode_quantity(&encode_quantity(n)), Ok(n));
    }
}

#[test]
fn quantity_decoding_accepts_upper_case_and_leading_zeros() {
    assert_eq!(decode_quantity("0xFF"), Ok(255));
    assert_eq!(decode_quantity("0x000a"), Ok(10));
}

#[test]
fn malformed_quantities_are_validation_errors() {
    assert_eq!(decode_quantity("ff"), Err(ErrorKind::ValidationError));
    assert_eq!(decode_quantity("0x"), Err(ErrorKind::ValidationError));
    assert_eq!(decode_quantity(""), Err(ErrorKind::ValidationError));
    assert_eq!(decode_quantity("0xg1"), Err(ErrorKind::ValidationError));
    assert_eq!(decode_quantity("0xabc"), Err(ErrorKind::ValidationError));
    assert_eq!(decode_quantity("0x1"), Err(ErrorKind::ValidationError));
    assert_eq!(decode_quantity("0X10"), Err(ErrorKind::ValidationError));
    assert_eq!(decode_quantity("0x010000000000000000"), Err(ErrorKind::ValidationError));
}

#[test]
fn data_round_trip_and_errors() {
    assert_eq!(encode_data(&[0xde, 0xad, 0x00, 0x0f]), "0xdead000f");
    assert_eq!(encode_data(&[]), "0x");
    assert_eq!(decode_data("0xdead000f"), Ok(vec![0xde, 0xad, 0x00, 0x0f]));
    assert_eq!(decode_data("0x"), Ok(vec![]));
    let bytes: Vec<u8> = (0u8..=255).collect();
    assert_eq!(decode_data(&encode_data(&bytes)), Ok(bytes));
    assert_eq!(decode_data("0xabc"), Err(ErrorKind::ValidationError));
    assert_eq!(decode_data("abcd"), Err(ErrorKind::ValidationError));
    assert_eq!(decode_data("0xzz"), Err(ErrorKind::ValidationError));
}

#[test]
fn hex_digit_values() {
    assert_eq!(hex_digit_value('0'), Some(0));
    assert_eq!(hex_digit_value('a'), Some(10));
    assert_eq!(hex_digit_value('F'), Some(15));
    assert_eq!(hex_digit_value('g'), None);
}

#[test]
fn address_round_trip() {
    let addr: Vec<u8> = (1u8..=20).collect();
    let state = to_state_address(&addr).unwrap();
    assert_eq!(state.len(), 35);
    assert_eq!(&state[0..3], &[0xa6, 0x8b, 0x06]);
    assert_eq!(&state[3..23], addr.as_slice());
    assert!(state[23..].iter().all(|b| *b == 0));
    assert_eq!(from_state_address(&state), Ok(addr));
}

#[test]
fn bad_addresses_are_rejected() {
    assert_eq!(to_state_address(&[1, 2, 3]), Err(ErrorKind::ValidationError));
    let mut state = to_state_address(&[7u8; 20]).unwrap();
    state[0] = 0;
    assert_eq!(from_state_address(&state), Err(ErrorKind::ValidationError));
    let mut padded = to_state_address(&[7u8; 20]).unwrap();
    padded[30] = 1;
    assert_eq!(from_state_address(&padded), Err(ErrorKind::ValidationError));
    assert_eq!(from_state_address(&[0xa6, 0x8b, 0x06]), Err(ErrorKind::ValidationError));
}

#[test]
fn address_parameters() {
    let text = "0x00112233445566778899aabbccddeeff00112233";
    let parsed = parse_address(text).unwrap();
    assert_eq!(parsed.len(), 20);
    assert_eq!(parsed[1], 0x11);
    assert_eq!(parse_address("0x0011"), Err(ErrorKind::ValidationError));
    assert_eq!(parse_address("00112233445566778899aabbccddeeff00112233"), Err(ErrorKind::ValidationError));
}

#[test]
fn block_references() {
    assert_eq!(parse_block_ref("latest"), Ok(BlockRef::Latest));
    assert_eq!(parse_block_ref("earliest"), Ok(BlockRef::Earliest));
    assert_eq!(parse_block_ref("pending"), Ok(BlockRef::Pending));
    assert_eq!(parse_block_ref("0x01b4"), Ok(BlockRef::Number(436)));
    assert_eq!(parse_block_ref("0x1b4"), Err(ErrorKind::ValidationError));
    assert_eq!(parse_block_ref("newest"), Err(ErrorKind::ValidationError));
}
