use vstd::prelude::*;
use crate::accounts::{has_address, AccountStore};
use crate::codec::{append_bytes, be_bytes, push_be};
use crate::errors::ErrorKind;

verus! {

/// A state-changing call as it arrives, in Ethereum shape. Without `to` it
/// creates a contract; with it, it calls the account at `to`.
pub struct TransactionRequest {
    pub from: Vec<u8>,
    pub to: Option<Vec<u8>>,
    pub nonce: u64,
    pub gas: u64,
    pub gas_price: u64,
    pub value: u64,
    pub data: Vec<u8>,
}

/// A payload ready to be signed by the unlocked account at `signer`.
pub struct PreparedTransaction {
    pub signer: usize,
    pub payload: Vec<u8>,
}

/// A signed submission, ready for dispatch to the validator.
pub struct SignedTransaction {
    pub payload: Vec<u8>,
    pub signer_public_key: Vec<u8>,
    pub signature: Vec<u8>,
    pub family_name: String,
    pub family_version: String,
}

/// The numeric fields of a request in their wire order.
pub open spec fn numeric_fields(r: TransactionRequest) -> Seq<u8> {
    be_bytes(r.nonce as nat, 8) + be_bytes(r.gas as nat, 8) + be_bytes(r.gas_price as nat, 8)
        + be_bytes(r.value as nat, 8)
}

/// The ledger-native payload of a request: a tag (0 creates, 1 calls), the
/// numeric fields, the target if any, and the input data.
pub open spec fn payload_of(r: TransactionRequest) -> Seq<u8> {
    match r.to {
        None => seq![0u8] + numeric_fields(r) + r.data@,
        Some(t) => seq![1u8] + numeric_fields(r) + t@ + r.data@,
    }
}

/// Whether the target, if any, is a 20-byte address.
pub open spec fn target_valid(r: TransactionRequest) -> bool {
    match r.to {
        None => true,
        Some(t) => t@.len() == 20,
    }
}

/// Resolves the signer and builds the payload. A sender that is not an
/// unlocked account is `AccountLocked`; a target that is not 20 bytes long
/// is a validation error. Nothing is sent either way.
pub fn prepare_transaction(store: &AccountStore, req: &TransactionRequest) -> (r: Result<
    PreparedTransaction,
    ErrorKind,
>)
    ensures
        !has_address(store.accounts(), req.from@) ==> r == Err::<PreparedTransaction, ErrorKind>(
            ErrorKind::AccountLocked,
        ),
        has_address(store.accounts(), req.from@) && !target_valid(*req) ==> r == Err::<
            PreparedTransaction,
            ErrorKind,
        >(ErrorKind::ValidationError),
        r matches Ok(p) ==> {
            &&& has_address(store.accounts(), req.from@)
            &&& target_valid(*req)
            &&& p.signer < store.accounts().len()
            &&& store.accounts()[p.signer as int].address_view() == req.from@
            &&& p.payload@ == payload_of(*req)
        },
        has_address(store.accounts(), req.from@) && target_valid(*req) ==> r is Ok,
{
    let signer = match store.signer_for(req.from.as_slice()) {
        Ok(i) => i,
        Err(e) => {
            return Err(e);
        },
    };
    let mut payload: Vec<u8> = Vec::new();
    match &req.to {
        None => payload.push(0u8),
        Some(t) => {
            if t.len() != 20 {
                return Err(ErrorKind::ValidationError);
            }
            payload.push(1u8);
        },
    }
    push_be(req.nonce, 8, &mut payload);
    push_be(req.gas, 8, &mut payload);
    push_be(req.gas_price, 8, &mut payload);
    push_be(req.value, 8, &mut payload);
    match &req.to {
        None => {},
        Some(t) => append_bytes(&mut payload, t.as_slice()),
    }
    append_bytes(&mut payload, req.data.as_slice());
    assert(payload@ =~= payload_of(*req));
    Ok(PreparedTransaction { signer, payload })
}

/// Wraps a prepared payload with the signer's public key and the signature
/// made over it; a signer that produced no signature is `SigningError`.
/// The signature comes from the caller's secp256k1 signer: this library
/// holds no elliptic-curve code and links no signing crate.
pub fn assemble(prepared: PreparedTransaction, public_key: Vec<u8>, signature: Option<Vec<u8>>) -> (r:
    Result<SignedTransaction, ErrorKind>)
    ensures
        signature is None ==> r == Err::<SignedTransaction, ErrorKind>(ErrorKind::SigningError),
        signature matches Some(sig) ==> r matches Ok(t) && t.payload@ == prepared.payload@
            && t.signer_public_key@ == public_key@ && t.signature@ == sig@ && t.family_name@
            == seq!['s', 'e', 't', 'h'] && t.family_version@ == seq!['1', '.', '0'],
{
    match signature {
        None => Err(ErrorKind::SigningError),
        Some(sig) => {
            proof {
                reveal_strlit("seth");
                reveal_strlit("1.0");
            }
            let mut family_name = String::new();
            family_name.append("seth");
            let mut family_version = String::new();
            family_version.append("1.0");
            Ok(
                SignedTransaction {
                    payload: prepared.payload,
                    signer_public_key: public_key,
                    signature: sig,
                    family_name,
                    family_version,
                },
            )
        },
    }
}

} // verus!
