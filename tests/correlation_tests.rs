use seth_rpc::client::ValidatorClient;
use seth_rpc::codec::{read_quantity, Envelope};
use seth_rpc::errors::ErrorKind;
use seth_rpc::pending::PendingTable;

#[test]
fn registered_ids_are_distinct() {
    let mut t = PendingTable::new();
    let mut seen = Vec::new();
    for _ in 0..100 {
        let id = t.register().unwrap();
        assert!(!seen.contains(&id));
        assert!(t.is_pending(id));
        seen.push(id);
    }
    t.cancel(seen[3]);
    let again = t.register().unwrap();
    assert!(!seen.contains(&again));
}

#[test]
fn reply_goes_to_its_own_slot_once() {
    let mut t = PendingTable::new();
    let a = t.register().unwrap();
    let b = t.register().unwrap();
    assert!(t.deliver(b, vec![2]));
    assert!(!t.deliver(b, vec![3]));
    assert_eq!(t.take_reply(a), None);
    assert_eq!(t.take_reply(b), Some(vec![2]));
    assert!(!t.is_pending(b));
    assert!(t.is_pending(a));
    assert!(!t.deliver(b, vec![4]));
    assert!(!t.deliver(999, vec![5]));
}

#[test]
fn timed_out_slot_never_receives() {
    let mut t = PendingTable::new();
    let id = t.register().unwrap();
    assert_eq!(t.poll_reply(id, 5, 10, true), Ok(None));
    assert_eq!(t.poll_reply(id, 10, 10, true), Err(ErrorKind::Timeout));
    assert!(!t.is_pending(id));
    assert!(!t.deliver(id, vec![1]));
    assert_eq!(t.poll_reply(id, 0, 10, true), Err(ErrorKind::TransportError));
}

#[test]
fn disconnect_fails_every_pending_request() {
    let mut t = PendingTable::new();
    let a = t.register().unwrap();
    let b = t.register().unwrap();
    assert_eq!(t.poll_reply(a, 0, 10, false), Err(ErrorKind::TransportError));
    assert!(!t.is_pending(b));
    assert_eq!(t.poll_reply(b, 0, 10, true), Err(ErrorKind::TransportError));
    let c = t.register().unwrap();
    assert!(c != a && c != b);
}

#[test]
fn reply_ready_is_returned() {
    let mut t = PendingTable::new();
    let id = t.register().unwrap();
    assert!(t.deliver(id, vec![9, 9]));
    assert_eq!(t.poll_reply(id, 100, 10, true), Ok(Some(vec![9, 9])));
}

#[test]
fn envelope_wire_form() {
    let e = Envelope { message_type: 0x0102, correlation_id: 0x0a0b0c0d0e0f1011, payload: vec![7, 8] };
    let wire = e.encode();
    assert_eq!(wire, vec![1, 2, 0x0a, 0x0b, 0x0c, 0x0d, 0x0e, 0x0f, 0x10, 0x11, 7, 8]);
    let back = Envelope::decode(&wire).unwrap();
    assert_eq!(back.message_type, 0x0102);
    assert_eq!(back.correlation_id, 0x0a0b0c0d0e0f1011);
    assert_eq!(back.payload, vec![7, 8]);
    assert!(matches!(Envelope::decode(&wire[..9]), Err(ErrorKind::ValidationError)));
}

#[test]
fn client_routes_replies_by_correlation() {
    let mut c = ValidatorClient::new();
    let (a, wire_a) = c.send(3, vec![1]).unwrap();
    let (b, wire_b) = c.send(3, vec![2]).unwrap();
    assert_ne!(a, b);
    assert_eq!(Envelope::decode(&wire_a).unwrap().correlation_id, a);
    assert_eq!(Envelope::decode(&wire_b).unwrap().payload, vec![2]);
    let reply_b = Envelope { message_type: 4, correlation_id: b, payload: vec![42] }.encode();
    assert!(c.receive(&reply_b));
    assert!(!c.receive(&reply_b));
    let stray = Envelope { message_type: 4, correlation_id: 777, payload: vec![0] }.encode();
    assert!(!c.receive(&stray));
    assert!(!c.receive(&[1, 2, 3]));
    assert_eq!(c.poll_reply(a, 0, 10, true), Ok(None));
    assert_eq!(c.poll_reply(b, 0, 10, true), Ok(Some(vec![42])));
    c.disconnect();
    assert_eq!(c.poll_reply(a, 0, 10, true), Err(ErrorKind::TransportError));
}

#[test]
fn quantities_read_from_replies() {
    assert_eq!(read_quantity(&[0, 0, 0, 0, 0, 0, 1, 2]), Ok(258));
    assert_eq!(read_quantity(&u64::MAX.to_be_bytes()), Ok(u64::MAX));
    assert_eq!(read_quantity(&[1, 2]), Err(ErrorKind::ValidationError));
}
