use seth_rpc::calls::{balance_request, balance_response, filter_change_blocks};
use seth_rpc::errors::ErrorKind;
use seth_rpc::records::{block_record, transaction_record, LedgerBlock, LedgerTransaction};
use seth_rpc::transform::to_state_address;

#[test]
fn balance_request_is_state_address() {
    let text = "0x7e5f4552091a69125d5dfcb7b8c2659029395bdf";
    let q = balance_request(text).unwrap();
    let addr = seth_rpc::transform::decode_data(text).unwrap();
    assert_eq!(q, to_state_address(&addr).unwrap());
    assert_eq!(balance_request("0xabc"), Err(ErrorKind::ValidationError));
    assert_eq!(balance_request("0xzz"), Err(ErrorKind::ValidationError));
    assert_eq!(balance_request("7e5f4552091a69125d5dfcb7b8c2659029395bdf"), Err(ErrorKind::ValidationError));
}

#[test]
fn balance_response_is_hex_of_raw_balance() {
    let raw: u64 = 1_000_000_000_000_000_000;
    assert_eq!(balance_response(&raw.to_be_bytes()), Ok("0x0de0b6b3a7640000".to_string()));
    assert_eq!(balance_response(&0u64.to_be_bytes()), Ok("0x00".to_string()));
    assert_eq!(balance_response(&[1, 2, 3]), Err(ErrorKind::ValidationError));
}

#[test]
fn filter_change_block_numbers() {
    assert_eq!(filter_change_blocks(10, 13), vec![11, 12, 13]);
    assert!(filter_change_blocks(13, 13).is_empty());
    assert!(filter_change_blocks(14, 13).is_empty());
    assert_eq!(filter_change_blocks(u64::MAX - 1, u64::MAX), vec![u64::MAX]);
}

#[test]
fn transaction_record_uses_defaults() {
    let t = LedgerTransaction {
        block_number: 5,
        index: 0,
        from: vec![0x11; 20],
        to: None,
        nonce: 3,
        gas: 90000,
        value: 256,
        data: vec![0xca, 0xfe],
    };
    let r = transaction_record(&t);
    assert_eq!(r.block_number, "0x05");
    assert_eq!(r.transaction_index, "0x00");
    assert_eq!(r.from, format!("0x{}", "11".repeat(20)));
    assert!(r.to.is_none());
    assert_eq!(r.nonce, "0x03");
    assert_eq!(r.gas, "0x015f90");
    assert_eq!(r.gas_price, "0x01");
    assert_eq!(r.value, "0x0100");
    assert_eq!(r.input, "0xcafe");
}

#[test]
fn block_record_uses_defaults() {
    let b = LedgerBlock { number: 300, block_id: vec![0xab; 4], previous_id: vec![0x01, 0x02], transaction_count: 2 };
    let r = block_record(&b);
    assert_eq!(r.number, "0x012c");
    assert_eq!(r.hash, "0xabababab");
    assert_eq!(r.parent_hash, "0x0102");
    assert_eq!(r.transaction_count, "0x02");
    assert_eq!(r.gas_limit, "0x7fffffff");
    assert_eq!(r.gas_used, "0x00");
}
