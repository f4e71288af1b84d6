use vstd::prelude::*;
use tiny_keccak::Hasher;
use crate::compare::{bytes_equal, text_equal};
use crate::errors::ErrorKind;
use crate::transform::{bytes_hex, encode_data, hex_prefix};

verus! {

/// The Keccak-256 digest of a byte string.
pub uninterp spec fn keccak256_of(data: Seq<u8>) -> Seq<u8>;

/// Relies on tiny_keccak's `Keccak::v256` with `update` and `finalize`: it
/// fills the 32-byte output with a digest that depends on the input alone.
#[verifier::external_body]
fn keccak256(data: &[u8]) -> (r: Vec<u8>)
    ensures
        r@ == keccak256_of(data@),
        r@.len() == 32,
{
    let mut hasher = tiny_keccak::Keccak::v256();
    let mut out = [0u8; 32];
    hasher.update(data);
    hasher.finalize(&mut out);
    out.to_vec()
}

/// The Ethereum address of a public key: the last 20 bytes of its Keccak-256 digest.
pub open spec fn eth_address_of(public_key: Seq<u8>) -> Seq<u8> {
    keccak256_of(public_key).subrange(12, 32)
}

/// A signing identity: an alias, its key pair and the address derived from the public key.
pub struct Account {
    alias: String,
    public_key: Vec<u8>,
    private_key: Vec<u8>,
    address: Vec<u8>,
}

impl Account {
    pub closed spec fn alias_view(&self) -> Seq<char> {
        self.alias@
    }

    pub closed spec fn public_key_view(&self) -> Seq<u8> {
        self.public_key@
    }

    pub closed spec fn private_key_view(&self) -> Seq<u8> {
        self.private_key@
    }

    pub closed spec fn address_view(&self) -> Seq<u8> {
        self.address@
    }

    /// The address is the one derived from the public key.
    pub open spec fn wf(&self) -> bool {
        self.address_view() == eth_address_of(self.public_key_view())
    }

    /// An account whose address is derived from `public_key`.
    pub fn new(alias: String, public_key: Vec<u8>, private_key: Vec<u8>) -> (r: Account)
        ensures
            r.wf(),
            r.alias_view() == alias@,
            r.public_key_view() == public_key@,
            r.private_key_view() == private_key@,
    {
        let digest = keccak256(public_key.as_slice());
        let mut address: Vec<u8> = Vec::new();
        let mut i: usize = 12;
        while i < 32
            invariant
                12 <= i <= 32,
                digest@.len() == 32,
                address@ == digest@.subrange(12, i as int),
            decreases 32 - i,
        {
            address.push(digest[i]);
            i = i + 1;
            assert(address@ =~= digest@.subrange(12, i as int));
        }
        Account { alias, public_key, private_key, address }
    }

    pub fn alias(&self) -> (r: &str)
        ensures
            r@ == self.alias_view(),
    {
        self.alias.as_str()
    }

    pub fn address(&self) -> (r: &[u8])
        ensures
            r@ == self.address_view(),
    {
        self.address.as_slice()
    }

    /// The address as `0x`-prefixed hex text.
    pub fn address_hex(&self) -> (r: String)
        ensures
            r@ == hex_prefix() + bytes_hex(self.address_view()),
    {
        encode_data(self.address.as_slice())
    }

    pub fn public_key(&self) -> (r: &[u8])
        ensures
            r@ == self.public_key_view(),
    {
        self.public_key.as_slice()
    }

    /// The private key, for the signer only.
    pub fn private_key(&self) -> (r: &[u8])
        ensures
            r@ == self.private_key_view(),
    {
        self.private_key.as_slice()
    }
}

/// Whether some account in `s` has alias `alias`.
pub open spec fn has_alias(s: Seq<Account>, alias: Seq<char>) -> bool {
    exists|i: int| 0 <= i < s.len() && #[trigger] s[i].alias_view() == alias
}

/// Whether some account in `s` has address `addr`.
pub open spec fn has_address(s: Seq<Account>, addr: Seq<u8>) -> bool {
    exists|i: int| 0 <= i < s.len() && #[trigger] s[i].address_view() == addr
}

/// The accounts unlocked at startup, with distinct aliases and addresses.
pub struct AccountStore {
    accounts: Vec<Account>,
}

impl AccountStore {
    pub closed spec fn accounts(&self) -> Seq<Account> {
        self.accounts@
    }

    pub open spec fn wf(&self) -> bool {
        &&& forall|i: int| 0 <= i < self.accounts().len() ==> #[trigger] self.accounts()[i].wf()
        &&& forall|i: int, j: int|
            0 <= i < j < self.accounts().len() ==> #[trigger] self.accounts()[i].alias_view()
                != #[trigger] self.accounts()[j].alias_view()
        &&& forall|i: int, j: int|
            0 <= i < j < self.accounts().len() ==> #[trigger] self.accounts()[i].address_view()
                != #[trigger] self.accounts()[j].address_view()
    }

    pub fn new() -> (r: AccountStore)
        ensures
            r.wf(),
            r.accounts().len() == 0,
    {
        AccountStore { accounts: Vec::new() }
    }

    pub fn len(&self) -> (r: usize)
        ensures
            r == self.accounts().len(),
    {
        self.accounts.len()
    }

    pub fn get(&self, i: usize) -> (r: &Account)
        requires
            i < self.accounts().len(),
        ensures
            *r == self.accounts()[i as int],
    {
        &self.accounts[i]
    }

    /// The position of the account with alias `alias`; `AccountNotFound` if none has it.
    pub fn find_by_alias(&self, alias: &str) -> (r: Result<usize, ErrorKind>)
        ensures
            r is Ok <==> has_alias(self.accounts(), alias@),
            r matches Ok(i) ==> i < self.accounts().len() && self.accounts()[i as int].alias_view()
                == alias@,
            r matches Err(e) ==> e == ErrorKind::AccountNotFound,
    {
        let mut i: usize = 0;
        while i < self.accounts.len()
            invariant
                i <= self.accounts@.len(),
                forall|k: int| 0 <= k < i ==> self.accounts@[k].alias_view() != alias@,
            decreases self.accounts@.len() - i,
        {
            if text_equal(self.accounts[i].alias.as_str(), alias) {
                assert(self.accounts()[i as int].alias_view() == alias@);
                return Ok(i);
            }
            i = i + 1;
        }
        Err(ErrorKind::AccountNotFound)
    }

    /// The position of the unlocked account with address `addr`; `AccountLocked`
    /// if no unlocked account has it.
    pub fn signer_for(&self, addr: &[u8]) -> (r: Result<usize, ErrorKind>)
        ensures
            r is Ok <==> has_address(self.accounts(), addr@),
            r matches Ok(i) ==> i < self.accounts().len()
                && self.accounts()[i as int].address_view() == addr@,
            r matches Err(e) ==> e == ErrorKind::AccountLocked,
    {
        let mut i: usize = 0;
        while i < self.accounts.len()
            invariant
                i <= self.accounts@.len(),
                forall|k: int| 0 <= k < i ==> self.accounts@[k].address_view() != addr@,
            decreases self.accounts@.len() - i,
        {
            if bytes_equal(self.accounts[i].address.as_slice(), addr) {
                assert(self.accounts()[i as int].address_view() == addr@);
                return Ok(i);
            }
            i = i + 1;
        }
        Err(ErrorKind::AccountLocked)
    }

    /// Adds an unlocked account; one whose alias or address is already
    /// present is refused with a validation error and the store is unchanged.
    pub fn unlock(&mut self, account: Account) -> (r: Result<(), ErrorKind>)
        requires
            old(self).wf(),
            account.wf(),
        ensures
            final(self).wf(),
            r is Ok <==> !has_alias(old(self).accounts(), account.alias_view()) && !has_address(
                old(self).accounts(),
                account.address_view(),
            ),
            r is Ok ==> final(self).accounts() == old(self).accounts().push(account),
            r matches Err(e) ==> e == ErrorKind::ValidationError && final(self).accounts() == old(
                self,
            ).accounts(),
    {
        if self.find_by_alias(account.alias.as_str()).is_ok() {
            return Err(ErrorKind::ValidationError);
        }
        if self.signer_for(account.address.as_slice()).is_ok() {
            return Err(ErrorKind::ValidationError);
        }
        let ghost before = self.accounts@;
        self.accounts.push(account);
        assert forall|i: int, j: int| 0 <= i < j < self.accounts@.len() implies #[trigger] self.accounts@[i].alias_view()
            != #[trigger] self.accounts@[j].alias_view() by {
            if j == before.len() {
                assert(before[i].alias_view() != account.alias_view());
            }
        }
        assert forall|i: int, j: int| 0 <= i < j < self.accounts@.len() implies #[trigger] self.accounts@[i].address_view()
            != #[trigger] self.accounts@[j].address_view() by {
            if j == before.len() {
                assert(before[i].address_view() != account.address_view());
            }
        }
        Ok(())
    }
}

} // verus!
