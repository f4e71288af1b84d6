use vstd::prelude::*;
use crate::transform::{bytes_hex, encode_data, encode_quantity, hex_prefix, quantity_text};

verus! {

/// The gas price reported for every transaction: the ledger charges no gas
/// fee, so a fixed price of one unit is shown.
pub const DEFAULT_GAS_PRICE: u64 = 1;

/// The gas limit reported for every block, which the ledger does not have.
pub const DEFAULT_BLOCK_GAS_LIMIT: u64 = 0x7fff_ffff;

/// A transaction as the ledger records it.
pub struct LedgerTransaction {
    pub block_number: u64,
    pub index: u64,
    pub from: Vec<u8>,
    pub to: Option<Vec<u8>>,
    pub nonce: u64,
    pub gas: u64,
    pub value: u64,
    pub data: Vec<u8>,
}

/// A transaction in the field shape Ethereum clients expect, all as hex text.
pub struct EthTransaction {
    pub block_number: String,
    pub transaction_index: String,
    pub from: String,
    pub to: Option<String>,
    pub nonce: String,
    pub gas: String,
    pub gas_price: String,
    pub value: String,
    pub input: String,
}

/// A block as the ledger records it.
pub struct LedgerBlock {
    pub number: u64,
    pub block_id: Vec<u8>,
    pub previous_id: Vec<u8>,
    pub transaction_count: u64,
}

/// A block in the field shape Ethereum clients expect, all as hex text.
pub struct EthBlock {
    pub number: String,
    pub hash: String,
    pub parent_hash: String,
    pub transaction_count: String,
    pub gas_limit: String,
    pub gas_used: String,
}

pub open spec fn data_text(b: Seq<u8>) -> Seq<char> {
    hex_prefix() + bytes_hex(b)
}

/// The Ethereum shape of a ledger transaction; the gas price, which the
/// ledger does not record, is `DEFAULT_GAS_PRICE`.
pub fn transaction_record(t: &LedgerTransaction) -> (r: EthTransaction)
    ensures
        r.block_number@ == quantity_text(t.block_number as nat),
        r.transaction_index@ == quantity_text(t.index as nat),
        r.from@ == data_text(t.from@),
        t.to is None ==> r.to is None,
        t.to matches Some(a) ==> (r.to matches Some(s) && s@ == data_text(a@)),
        r.nonce@ == quantity_text(t.nonce as nat),
        r.gas@ == quantity_text(t.gas as nat),
        r.gas_price@ == quantity_text(DEFAULT_GAS_PRICE as nat),
        r.value@ == quantity_text(t.value as nat),
        r.input@ == data_text(t.data@),
{
    let to = match &t.to {
        None => None,
        Some(a) => Some(encode_data(a.as_slice())),
    };
    EthTransaction {
        block_number: encode_quantity(t.block_number),
        transaction_index: encode_quantity(t.index),
        from: encode_data(t.from.as_slice()),
        to,
        nonce: encode_quantity(t.nonce),
        gas: encode_quantity(t.gas),
        gas_price: encode_quantity(DEFAULT_GAS_PRICE),
        value: encode_quantity(t.value),
        input: encode_data(t.data.as_slice()),
    }
}

/// The Ethereum shape of a ledger block; the gas limit is
/// `DEFAULT_BLOCK_GAS_LIMIT` and the gas used is zero, which the ledger does
/// not record.
pub fn block_record(b: &LedgerBlock) -> (r: EthBlock)
    ensures
        r.number@ == quantity_text(b.number as nat),
        r.hash@ == data_text(b.block_id@),
        r.parent_hash@ == data_text(b.previous_id@),
        r.transaction_count@ == quantity_text(b.transaction_count as nat),
        r.gas_limit@ == quantity_text(DEFAULT_BLOCK_GAS_LIMIT as nat),
        r.gas_used@ == quantity_text(0),
{
    EthBlock {
        number: encode_quantity(b.number),
        hash: encode_data(b.block_id.as_slice()),
        parent_hash: encode_data(b.previous_id.as_slice()),
        transaction_count: encode_quantity(b.transaction_count),
        gas_limit: encode_quantity(DEFAULT_BLOCK_GAS_LIMIT),
        gas_used: encode_quantity(0),
    }
}

} // verus!
