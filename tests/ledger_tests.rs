use seth_rpc::accounts::{Account, AccountStore};
use seth_rpc::errors::ErrorKind;
use seth_rpc::executor::{respond, sanitize, Failure, MethodRegistry, GENERIC_ERROR_CODE};
use seth_rpc::filters::{select_logs, FilterCriteria, FilterRegistry, LogEntry};
use seth_rpc::transactions::{assemble, prepare_transaction, TransactionRequest};
use seth_rpc::transform::{decode_data, decode_quantity, encode_quantity};

fn generator_public_key() -> Vec<u8> {
    let x = "0x79be667ef9dcbbac55a06295ce870b07029bfcdb2dce28d959f2815b16f81798";
    let y = "483ada7726a3c4655da4fbfc0e1108a8fd17b448a68554199c47d08ffb10d4b8";
    decode_data(&format!("{}{}", x, y)).unwrap()
}

fn alice() -> Account {
    Account::new("alice".to_string(), generator_public_key(), vec![1u8; 32])
}

#[test]
fn address_is_derived_by_keccak() {
    let a = alice();
    assert_eq!(a.address_hex(), "0x7e5f4552091a69125d5dfcb7b8c2659029395bdf");
    assert_eq!(a.alias(), "alice");
    assert_eq!(a.address().len(), 20);
    let empty = Account::new("e".to_string(), vec![], vec![]);
    assert_eq!(empty.address_hex(), "0xdcc703c0e500b653ca82273b7bfad8045d85a470");
}

#[test]
fn store_lookups() {
    let mut store = AccountStore::new();
    assert_eq!(store.unlock(alice()), Ok(()));
    assert_eq!(store.unlock(alice()), Err(ErrorKind::ValidationError));
    assert_eq!(store.len(), 1);
    assert_eq!(store.find_by_alias("alice"), Ok(0));
    assert_eq!(store.find_by_alias("bob"), Err(ErrorKind::AccountNotFound));
    let addr = store.get(0).address().to_vec();
    assert_eq!(store.signer_for(&addr), Ok(0));
    assert_eq!(store.signer_for(&[0u8; 20]), Err(ErrorKind::AccountLocked));
}

#[test]
fn unlocked_balance_query_is_hex_of_raw_balance() {
    let mut store = AccountStore::new();
    store.unlock(alice()).unwrap();
    let i = store.find_by_alias("alice").unwrap();
    assert_eq!(store.get(i).address_hex(), "0x7e5f4552091a69125d5dfcb7b8c2659029395bdf");
    let raw_balance: u64 = 1_000_000_000_000_000_000;
    let answer = encode_quantity(raw_balance);
    assert_eq!(answer, "0x0de0b6b3a7640000");
    assert_eq!(decode_quantity(&answer), Ok(raw_balance));
}

fn transfer(from: Vec<u8>) -> TransactionRequest {
    TransactionRequest {
        from,
        to: Some(vec![0x22; 20]),
        nonce: 1,
        gas: 2,
        gas_price: 3,
        value: 0x0102,
        data: vec![0xaa],
    }
}

#[test]
fn locked_sender_fails_without_transaction() {
    let mut store = AccountStore::new();
    store.unlock(alice()).unwrap();
    let r = prepare_transaction(&store, &transfer(vec![0x33; 20]));
    assert!(matches!(r, Err(ErrorKind::AccountLocked)));
}

#[test]
fn transfer_payload_layout() {
    let mut store = AccountStore::new();
    store.unlock(alice()).unwrap();
    let from = store.get(0).address().to_vec();
    let p = prepare_transaction(&store, &transfer(from.clone())).unwrap();
    assert_eq!(p.signer, 0);
    let mut want = vec![1u8];
    for n in [1u64, 2, 3, 0x0102] {
        want.extend_from_slice(&n.to_be_bytes());
    }
    want.extend_from_slice(&[0x22; 20]);
    want.push(0xaa);
    assert_eq!(p.payload, want);

    let mut bad = transfer(from.clone());
    bad.to = Some(vec![1, 2]);
    assert!(matches!(prepare_transaction(&store, &bad), Err(ErrorKind::ValidationError)));

    let mut create = transfer(from);
    create.to = None;
    let c = prepare_transaction(&store, &create).unwrap();
    assert_eq!(c.payload[0], 0);
    assert_eq!(c.payload.len(), 1 + 32 + 1);
}

#[test]
fn assembling_signed_transactions() {
    let mut store = AccountStore::new();
    store.unlock(alice()).unwrap();
    let from = store.get(0).address().to_vec();
    let p = prepare_transaction(&store, &transfer(from.clone())).unwrap();
    let payload = p.payload.clone();
    let t = assemble(p, vec![2, 3], Some(vec![9, 9, 9])).unwrap();
    assert_eq!(t.payload, payload);
    assert_eq!(t.signature, vec![9, 9, 9]);
    assert_eq!(t.signer_public_key, vec![2, 3]);
    assert_eq!(t.family_name, "seth");
    assert_eq!(t.family_version, "1.0");
    let p2 = prepare_transaction(&store, &transfer(from)).unwrap();
    assert!(matches!(assemble(p2, vec![2, 3], None), Err(ErrorKind::SigningError)));
}

#[test]
fn failures_are_sanitized() {
    for (kind, detail) in [
        (ErrorKind::Timeout, "validator did not answer request 17 at tcp://10.0.0.4:4004"),
        (ErrorKind::TransportError, "socket closed: connection reset by peer"),
        (ErrorKind::SigningError, "bad private key 0x0101010101"),
    ] {
        let f = Failure { kind, summary: "Internal error".to_string(), detail: detail.to_string() };
        let e = sanitize(f);
        assert_eq!(e.code, GENERIC_ERROR_CODE);
        assert_eq!(e.code, -32069);
        assert_eq!(e.message, "Internal error");
        assert!(!e.message.contains(detail));
    }
    let ok: Result<u32, Failure> = Ok(5);
    assert!(matches!(respond(ok), Ok(5)));
    let bad: Result<u32, Failure> = Err(Failure {
        kind: ErrorKind::NotFound,
        summary: "Block not found".to_string(),
        detail: "no block 0x99".to_string(),
    });
    match respond(bad) {
        Err(e) => {
            assert_eq!(e.code, -32069);
            assert_eq!(e.message, "Block not found");
        }
        Ok(_) => panic!("expected an error"),
    }
}

#[test]
fn method_registry_rejects_duplicates() {
    let mut r = MethodRegistry::new();
    assert_eq!(r.register("eth_getBalance".to_string()), Ok(0));
    assert_eq!(r.register("eth_blockNumber".to_string()), Ok(1));
    assert_eq!(r.register("eth_getBalance".to_string()), Err(ErrorKind::ValidationError));
    assert_eq!(r.len(), 2);
    assert_eq!(r.lookup("eth_blockNumber"), Some(1));
    assert_eq!(r.lookup("eth_nothing"), None);
}

fn entry(block: u64, address: u8, topic: u8) -> LogEntry {
    LogEntry { block_number: block, address: vec![address; 20], topics: vec![vec![topic; 32]], data: vec![] }
}

#[test]
fn filter_poll_returns_new_entries_once() {
    let mut reg = FilterRegistry::new();
    let criteria = FilterCriteria { addresses: vec![vec![1u8; 20]], topics: vec![] };
    let id = reg.create(criteria, 10).unwrap();
    // The ledger advances by 3 blocks with 2 matching entries.
    let logs = vec![entry(9, 1, 0), entry(11, 1, 0), entry(12, 2, 0), entry(13, 1, 5)];
    let (from, to) = reg.poll(id, 13).unwrap();
    assert_eq!((from, to), (10, 13));
    let got = select_logs(reg.criteria(id).unwrap(), &logs, from, to);
    assert_eq!(got, vec![1, 3]);
    let (from2, to2) = reg.poll(id, 13).unwrap();
    assert_eq!((from2, to2), (13, 13));
    assert!(select_logs(reg.criteria(id).unwrap(), &logs, from2, to2).is_empty());
}

#[test]
fn filter_topics_and_removal() {
    let mut reg = FilterRegistry::new();
    let criteria = FilterCriteria { addresses: vec![], topics: vec![Some(vec![5u8; 32])] };
    let id = reg.create(criteria, 0).unwrap();
    let other = reg.create(FilterCriteria { addresses: vec![], topics: vec![] }, 0).unwrap();
    assert_ne!(id, other);
    let logs = vec![entry(1, 1, 5), entry(2, 2, 6), entry(3, 3, 5)];
    let (from, to) = reg.poll(id, 3).unwrap();
    assert_eq!(select_logs(reg.criteria(id).unwrap(), &logs, from, to), vec![0, 2]);
    assert_eq!(reg.poll(id, 2), Ok((3, 3)));
    assert_eq!(reg.remove(id), Ok(()));
    assert_eq!(reg.poll(id, 4), Err(ErrorKind::NotFound));
    assert_eq!(reg.remove(id), Err(ErrorKind::NotFound));
    assert_eq!(reg.poll(other, 4), Ok((0, 4)));
}
