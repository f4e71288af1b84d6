use vstd::prelude::*;
use crate::errors::ErrorKind;

verus! {

/// The length of the fixed envelope header: a 2-byte message type and an
/// 8-byte correlation identifier.
pub const HEADER_LEN: usize = 10;

pub open spec fn pow256(k: nat) -> nat
    decreases k,
{
    if k == 0 {
        1
    } else {
        256 * pow256((k - 1) as nat)
    }
}

/// The `k` low bytes of `n`, most significant first.
pub open spec fn be_bytes(n: nat, k: nat) -> Seq<u8>
    decreases k,
{
    if k == 0 {
        Seq::empty()
    } else {
        be_bytes(n / 256, (k - 1) as nat).push((n % 256) as u8)
    }
}

/// The number that big-endian bytes denote.
pub open spec fn be_value(s: Seq<u8>) -> nat
    decreases s.len(),
{
    if s.len() == 0 {
        0
    } else {
        be_value(s.drop_last()) * 256 + s.last() as nat
    }
}

pub proof fn lemma_be_round_trip(n: nat, k: nat)
    requires
        n < pow256(k),
    ensures
        be_bytes(n, k).len() == k,
        be_value(be_bytes(n, k)) == n,
    decreases k,
{
    if k > 0 {
        let p = pow256((k - 1) as nat);
        assert(n / 256 < p) by (nonlinear_arith)
            requires
                n < 256 * p,
        ;
        lemma_be_round_trip(n / 256, (k - 1) as nat);
        let s = be_bytes(n, k);
        assert(s.drop_last() =~= be_bytes(n / 256, (k - 1) as nat));
        assert(n == (n / 256) * 256 + n % 256);
    }
}

proof fn lemma_be_value_bound(s: Seq<u8>)
    ensures
        be_value(s) < pow256(s.len()),
    decreases s.len(),
{
    if s.len() > 0 {
        lemma_be_value_bound(s.drop_last());
        let v = be_value(s.drop_last());
        let p = pow256(s.drop_last().len());
        let b = s.last() as nat;
        assert(v * 256 + b < 256 * p) by (nonlinear_arith)
            requires
                v < p,
                b < 256,
        ;
    }
}

/// A message exchanged with the validator, in this gateway's own framing:
/// a 2-byte message type, an 8-byte correlation identifier, then the payload
/// bytes, which the library carries without reading them.
pub struct Envelope {
    pub message_type: u16,
    pub correlation_id: u64,
    pub payload: Vec<u8>,
}

/// The wire form of an envelope: type, correlation identifier, payload.
pub open spec fn envelope_bytes(message_type: u16, correlation_id: u64, payload: Seq<u8>) -> Seq<u8> {
    be_bytes(message_type as nat, 2) + be_bytes(correlation_id as nat, 8) + payload
}

/// Appends the `k` low bytes of `n`, most significant first.
pub(crate) fn push_be(n: u64, k: usize, out: &mut Vec<u8>)
    requires
        k <= 8,
    ensures
        final(out)@ == old(out)@ + be_bytes(n as nat, k as nat),
    decreases k,
{
    if k > 0 {
        push_be(n / 256, k - 1, out);
        out.push((n % 256) as u8);
        assert(final(out)@ =~= old(out)@ + be_bytes(n as nat, k as nat));
    } else {
        assert(final(out)@ =~= old(out)@ + be_bytes(n as nat, k as nat));
    }
}

fn read_be(b: &[u8], start: usize, k: usize) -> (r: u64)
    requires
        k <= 8,
        start + k <= b@.len(),
    ensures
        r as nat == be_value(b@.subrange(start as int, start + k)),
{
    let n = b.len();
    let mut v: u64 = 0;
    let mut i: usize = 0;
    while i < k
        invariant
            n == b@.len(),
            i <= k <= 8,
            start + k <= b@.len(),
            v as nat == be_value(b@.subrange(start as int, start + i)),
        decreases k - i,
    {
        let ghost s = b@.subrange(start as int, start + i + 1);
        assert(s.drop_last() =~= b@.subrange(start as int, start + i));
        proof {
            lemma_be_value_bound(b@.subrange(start as int, start + i));
            lemma_pow256_le(i as nat, 7);
            reveal_with_fuel(pow256, 8);
            assert(pow256(7) == 0x100000000000000);
            assert(v * 256 + 255 <= u64::MAX) by (nonlinear_arith)
                requires
                    v < 0x100000000000000nat,
            ;
        }
        v = v * 256 + b[start + i] as u64;
        i = i + 1;
    }
    v
}

proof fn lemma_pow256_le(i: nat, k: nat)
    requires
        i <= k,
    ensures
        pow256(i) <= pow256(k),
    decreases k,
{
    if i < k {
        lemma_pow256_le(i, (k - 1) as nat);
    }
}

/// Appends `b` to `out`.
pub(crate) fn append_bytes(out: &mut Vec<u8>, b: &[u8])
    ensures
        final(out)@ == old(out)@ + b@,
{
    let mut i: usize = 0;
    while i < b.len()
        invariant
            i <= b@.len(),
            out@ == old(out)@ + b@.subrange(0, i as int),
        decreases b@.len() - i,
    {
        out.push(b[i]);
        i = i + 1;
        assert(out@ =~= old(out)@ + b@.subrange(0, i as int));
    }
    assert(b@.subrange(0, i as int) =~= b@);
}

impl Envelope {
    /// The wire form of this envelope.
    pub fn encode(&self) -> (r: Vec<u8>)
        ensures
            r@ == envelope_bytes(self.message_type, self.correlation_id, self.payload@),
    {
        let mut out: Vec<u8> = Vec::new();
        push_be(self.message_type as u64, 2, &mut out);
        push_be(self.correlation_id, 8, &mut out);
        append_bytes(&mut out, self.payload.as_slice());
        assert(out@ =~= envelope_bytes(self.message_type, self.correlation_id, self.payload@));
        out
    }

    /// Parses the wire form; input shorter than the header is a validation error.
    pub fn decode(b: &[u8]) -> (r: Result<Envelope, ErrorKind>)
        ensures
            r is Ok <==> b@.len() >= 10,
            r matches Ok(e) ==> e.message_type as nat == be_value(b@.subrange(0, 2))
                && e.correlation_id as nat == be_value(b@.subrange(2, 10)) && e.payload@
                == b@.subrange(10, b@.len() as int),
            r matches Err(k) ==> k == ErrorKind::ValidationError,
    {
        if b.len() < HEADER_LEN {
            return Err(ErrorKind::ValidationError);
        }
        let t = read_be(b, 0, 2);
        proof {
            lemma_be_value_bound(b@.subrange(0, 2));
            reveal_with_fuel(pow256, 3);
        }
        let id = read_be(b, 2, 8);
        let mut payload: Vec<u8> = Vec::new();
        let mut i: usize = HEADER_LEN;
        while i < b.len()
            invariant
                10 <= i <= b@.len(),
                payload@ == b@.subrange(10, i as int),
            decreases b@.len() - i,
        {
            payload.push(b[i]);
            i = i + 1;
            assert(payload@ =~= b@.subrange(10, i as int));
        }
        Ok(Envelope { message_type: t as u16, correlation_id: id, payload })
    }
}

/// Decoding the wire form of an envelope gives back its type, correlation
/// identifier and payload.
pub proof fn lemma_envelope_round_trip(message_type: u16, correlation_id: u64, payload: Seq<u8>)
    ensures
        ({
            let b = envelope_bytes(message_type, correlation_id, payload);
            &&& b.len() >= 10
            &&& be_value(b.subrange(0, 2)) == message_type
            &&& be_value(b.subrange(2, 10)) == correlation_id
            &&& b.subrange(10, b.len() as int) == payload
        }),
{
    reveal_with_fuel(pow256, 9);
    lemma_be_round_trip(message_type as nat, 2);
    lemma_be_round_trip(correlation_id as nat, 8);
    let b = envelope_bytes(message_type, correlation_id, payload);
    assert(b.subrange(0, 2) =~= be_bytes(message_type as nat, 2));
    assert(b.subrange(2, 10) =~= be_bytes(correlation_id as nat, 8));
    assert(b.subrange(10, b.len() as int) =~= payload);
}

} // verus!

verus! {

/// Reads a quantity sent as eight big-endian bytes; any other length is a
/// validation error.
pub fn read_quantity(b: &[u8]) -> (r: Result<u64, ErrorKind>)
    ensures
        r is Ok <==> b@.len() == 8,
        r matches Ok(v) ==> v as nat == be_value(b@),
        r matches Err(e) ==> e == ErrorKind::ValidationError,
{
    if b.len() != 8 {
        return Err(ErrorKind::ValidationError);
    }
    let v = read_be(b, 0, 8);
    assert(b@.subrange(0, 8) =~= b@);
    Ok(v)
}

} // verus!
