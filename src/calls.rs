use vstd::prelude::*;
use crate::codec::{be_bytes, be_value, lemma_be_round_trip, pow256, read_quantity};
use crate::errors::ErrorKind;
use crate::transform::{
    bytes_hex, decoded_data, decoded_quantity, encode_quantity, hex_prefix,
    lemma_data_round_trip, lemma_quantity_round_trip, parse_address, quantity_text,
    state_address_of, to_state_address,
};

verus! {

/// The ledger query for an account's balance: the state address of the
/// address parameter `address`. A parameter that is not the data text of a
/// 20-byte address is a validation error, and nothing is to be sent.
pub fn balance_request(address: &str) -> (r: Result<Vec<u8>, ErrorKind>)
    ensures
        r is Ok <==> (decoded_data(address@) matches Some(b) && b.len() == 20),
        r matches Ok(q) ==> q@ == state_address_of(decoded_data(address@).unwrap()),
        r matches Err(e) ==> e == ErrorKind::ValidationError,
{
    let addr = parse_address(address)?;
    to_state_address(addr.as_slice())
}

/// The answer to a balance query: the ledger's raw balance, sent as eight
/// big-endian bytes, as quantity text. A reply of another length is a
/// validation error.
pub fn balance_response(reply: &[u8]) -> (r: Result<String, ErrorKind>)
    ensures
        r is Ok <==> reply@.len() == 8,
        r matches Ok(s) ==> s@ == quantity_text(be_value(reply@)),
        r matches Err(e) ==> e == ErrorKind::ValidationError,
{
    let balance = read_quantity(reply)?;
    Ok(encode_quantity(balance))
}

/// A balance query for an address `a` asks the ledger for `a`'s state
/// address, and when the ledger answers with raw balance `b` the result is
/// quantity text that decodes to `b`.
pub proof fn lemma_balance_query(a: Seq<u8>, b: u64)
    requires
        a.len() == 20,
    ensures
        decoded_data(hex_prefix() + bytes_hex(a)) == Some(a),
        be_bytes(b as nat, 8).len() == 8,
        be_value(be_bytes(b as nat, 8)) == b,
        decoded_quantity(quantity_text(be_value(be_bytes(b as nat, 8)))) == Some(b as nat),
{
    lemma_data_round_trip(a);
    reveal_with_fuel(pow256, 9);
    lemma_be_round_trip(b as nat, 8);
    lemma_quantity_round_trip(b as nat);
}

/// The block numbers a block filter reports for a poll over `(from, to]`:
/// each block after `from` up to `to`, in order.
pub fn filter_change_blocks(from: u64, to: u64) -> (r: Vec<u64>)
    ensures
        from <= to ==> r@ == Seq::new((to - from) as nat, |i: int| (from + 1 + i) as u64),
        from > to ==> r@.len() == 0,
{
    let mut out: Vec<u64> = Vec::new();
    if from > to {
        return out;
    }
    let mut b: u64 = from;
    while b < to
        invariant
            from <= b <= to,
            out@ == Seq::new((b - from) as nat, |i: int| (from + 1 + i) as u64),
        decreases to - b,
    {
        b = b + 1;
        out.push(b);
        assert(out@ =~= Seq::new((b - from) as nat, |i: int| (from + 1 + i) as u64));
    }
    out
}

} // verus!
