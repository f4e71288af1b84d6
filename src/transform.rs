use vstd::prelude::*;
use crate::errors::ErrorKind;

verus! {

/// The sixteen lower-case hex digits, in order of value.
pub open spec fn hex_alphabet() -> Seq<char> {
    seq!['0', '1', '2', '3', '4', '5', '6', '7', '8', '9', 'a', 'b', 'c', 'd', 'e', 'f']
}

/// The lower-case hex digit of a value below sixteen.
pub open spec fn hex_char(d: nat) -> char
    recommends
        d < 16,
{
    hex_alphabet()[d as int]
}

/// Whether `c` is a hex digit, in either case.
pub open spec fn is_hex_char(c: char) -> bool {
    ('0' <= c && c <= '9') || ('a' <= c && c <= 'f') || ('A' <= c && c <= 'F')
}

/// The value of a hex digit.
pub open spec fn hex_val(c: char) -> nat {
    if '0' <= c && c <= '9' {
        (c as u32 - '0' as u32) as nat
    } else if 'a' <= c && c <= 'f' {
        (c as u32 - 'a' as u32 + 10) as nat
    } else if 'A' <= c && c <= 'F' {
        (c as u32 - 'A' as u32 + 10) as nat
    } else {
        0
    }
}

/// The prefix that every hex-encoded value carries.
pub open spec fn hex_prefix() -> Seq<char> {
    seq!['0', 'x']
}

/// Whether `s` starts with the `0x` prefix.
pub open spec fn has_hex_prefix(s: Seq<char>) -> bool {
    s.len() >= 2 && s[0] == '0' && s[1] == 'x'
}

/// Whether every character of `s` is a hex digit.
pub open spec fn all_hex(s: Seq<char>) -> bool {
    forall|i: int| 0 <= i < s.len() ==> #[trigger] is_hex_char(s[i])
}

/// The canonical digits of a quantity: most significant first, no leading zeros.
pub open spec fn quantity_digits(n: nat) -> Seq<char>
    decreases n,
{
    if n < 16 {
        seq![hex_char(n)]
    } else {
        quantity_digits(n / 16).push(hex_char(n % 16))
    }
}

/// The digits of a quantity padded to an even count: a leading `0` is added
/// when the canonical digits are odd in number.
pub open spec fn even_digits(n: nat) -> Seq<char> {
    if quantity_digits(n).len() % 2 == 1 {
        seq!['0'] + quantity_digits(n)
    } else {
        quantity_digits(n)
    }
}

/// The text of a quantity: `0x` followed by an even number of digits
/// (`0x00`, `0x1f`, `0x0100`, ...).
pub open spec fn quantity_text(n: nat) -> Seq<char> {
    hex_prefix() + even_digits(n)
}

/// The number that a sequence of hex digits denotes.
pub open spec fn digits_value(s: Seq<char>) -> nat
    decreases s.len(),
{
    if s.len() == 0 {
        0
    } else {
        digits_value(s.drop_last()) * 16 + hex_val(s.last())
    }
}

/// Whether `s` is well-formed quantity text: `0x` and a positive, even
/// number of hex digits.
pub open spec fn is_quantity_text(s: Seq<char>) -> bool {
    has_hex_prefix(s) && s.len() > 2 && s.len() % 2 == 0 && all_hex(s.skip(2))
}

/// The quantity that `s` denotes, if it is well-formed.
pub open spec fn decoded_quantity(s: Seq<char>) -> Option<nat> {
    if is_quantity_text(s) {
        Some(digits_value(s.skip(2)))
    } else {
        None
    }
}

/// Two hex digits for each byte, high nibble first.
pub open spec fn bytes_hex(b: Seq<u8>) -> Seq<char>
    decreases b.len(),
{
    if b.len() == 0 {
        Seq::empty()
    } else {
        bytes_hex(b.drop_last()) + seq![hex_char(b.last() as nat / 16), hex_char(b.last() as nat % 16)]
    }
}

/// The bytes that an even-length run of hex digits denotes.
pub open spec fn hex_bytes(s: Seq<char>) -> Seq<u8>
    decreases s.len(),
{
    if s.len() < 2 {
        Seq::empty()
    } else {
        hex_bytes(s.subrange(0, s.len() - 2)).push(
            (hex_val(s[s.len() - 2]) * 16 + hex_val(s[s.len() - 1])) as u8,
        )
    }
}

/// Whether `s` is well-formed data text: `0x` and an even number of hex digits.
pub open spec fn is_data_text(s: Seq<char>) -> bool {
    has_hex_prefix(s) && s.len() % 2 == 0 && all_hex(s.skip(2))
}

/// The bytes that `s` denotes, if it is well-formed data text.
pub open spec fn decoded_data(s: Seq<char>) -> Option<Seq<u8>> {
    if is_data_text(s) {
        Some(hex_bytes(s.skip(2)))
    } else {
        None
    }
}

pub proof fn lemma_hex_char_is_hex(d: nat)
    requires
        d < 16,
    ensures
        is_hex_char(hex_char(d)),
        hex_val(hex_char(d)) == d,
{
    assert(hex_alphabet()[0] == '0');
    assert(hex_alphabet()[1] == '1');
    assert(hex_alphabet()[2] == '2');
    assert(hex_alphabet()[3] == '3');
    assert(hex_alphabet()[4] == '4');
    assert(hex_alphabet()[5] == '5');
    assert(hex_alphabet()[6] == '6');
    assert(hex_alphabet()[7] == '7');
    assert(hex_alphabet()[8] == '8');
    assert(hex_alphabet()[9] == '9');
    assert(hex_alphabet()[10] == 'a');
    assert(hex_alphabet()[11] == 'b');
    assert(hex_alphabet()[12] == 'c');
    assert(hex_alphabet()[13] == 'd');
    assert(hex_alphabet()[14] == 'e');
    assert(hex_alphabet()[15] == 'f');
}

proof fn lemma_quantity_digits(n: nat)
    ensures
        quantity_digits(n).len() >= 1,
        all_hex(quantity_digits(n)),
        digits_value(quantity_digits(n)) == n,
    decreases n,
{
    lemma_hex_char_is_hex(n % 16);
    if n < 16 {
        let s = quantity_digits(n);
        assert(s.drop_last() =~= Seq::<char>::empty());
        assert(s.last() == hex_char(n));
        assert(digits_value(Seq::<char>::empty()) == 0);
    } else {
        lemma_quantity_digits(n / 16);
        let s = quantity_digits(n);
        assert(s.drop_last() =~= quantity_digits(n / 16));
        assert(s.last() == hex_char(n % 16));
        assert(n == (n / 16) * 16 + n % 16);
    }
}

proof fn lemma_leading_zero(d: Seq<char>)
    requires
        all_hex(d),
    ensures
        all_hex(seq!['0'] + d),
        digits_value(seq!['0'] + d) == digits_value(d),
    decreases d.len(),
{
    let z = seq!['0'] + d;
    assert(is_hex_char(z[0]));
    assert forall|i: int| 0 <= i < z.len() implies #[trigger] is_hex_char(z[i]) by {
        if i > 0 {
            assert(z[i] == d[i - 1]);
        }
    }
    if d.len() == 0 {
        assert(z.drop_last() =~= Seq::<char>::empty());
        assert(z.last() == '0');
        assert(digits_value(Seq::<char>::empty()) == 0);
        assert(digits_value(z) == digits_value(z.drop_last()) * 16 + hex_val(z.last()));
    } else {
        let dl = d.drop_last();
        assert(all_hex(dl)) by {
            assert forall|i: int| 0 <= i < dl.len() implies #[trigger] is_hex_char(dl[i]) by {
                assert(dl[i] == d[i]);
            }
        }
        lemma_leading_zero(dl);
        assert(z.drop_last() =~= seq!['0'] + dl);
        assert(z.last() == d.last());
        assert(digits_value(z) == digits_value(z.drop_last()) * 16 + hex_val(z.last()));
        assert(digits_value(d) == digits_value(dl) * 16 + hex_val(d.last()));
    }
}

/// Encoding a quantity and decoding the text gives the quantity back.
pub proof fn lemma_quantity_round_trip(n: nat)
    ensures
        is_quantity_text(quantity_text(n)),
        decoded_quantity(quantity_text(n)) == Some(n),
{
    lemma_quantity_digits(n);
    lemma_leading_zero(quantity_digits(n));
    assert(quantity_text(n).skip(2) =~= even_digits(n));
}

proof fn lemma_bytes_hex(b: Seq<u8>)
    ensures
        bytes_hex(b).len() == 2 * b.len(),
        all_hex(bytes_hex(b)),
        hex_bytes(bytes_hex(b)) =~= b,
    decreases b.len(),
{
    if b.len() > 0 {
        let x = b.last() as nat;
        lemma_bytes_hex(b.drop_last());
        lemma_hex_char_is_hex(x / 16);
        lemma_hex_char_is_hex(x % 16);
        let s = bytes_hex(b);
        assert(s.subrange(0, s.len() - 2) =~= bytes_hex(b.drop_last()));
        assert(b =~= b.drop_last().push(b.last()));
    }
}

/// Encoding bytes and decoding the text gives the bytes back.
pub proof fn lemma_data_round_trip(b: Seq<u8>)
    ensures
        is_data_text(hex_prefix() + bytes_hex(b)),
        decoded_data(hex_prefix() + bytes_hex(b)) == Some(b),
{
    lemma_bytes_hex(b);
    assert((hex_prefix() + bytes_hex(b)).skip(2) =~= bytes_hex(b));
}

/// Text without the `0x` prefix, with a character that is no hex digit, or
/// with an odd number of digits never decodes, as a quantity or as data.
pub proof fn lemma_malformed_rejected(s: Seq<char>)
    requires
        !has_hex_prefix(s) || !all_hex(s.skip(2)) || s.len() % 2 == 1,
    ensures
        decoded_quantity(s) is None,
        decoded_data(s) is None,
{
}

/// The one-character text of a hex digit.
fn digit_str(d: u8) -> (r: &'static str)
    requires
        d < 16,
    ensures
        r@ == seq![hex_char(d as nat)],
{
    match d {
        0 => { proof { reveal_strlit("0"); } "0" },
        1 => { proof { reveal_strlit("1"); } "1" },
        2 => { proof { reveal_strlit("2"); } "2" },
        3 => { proof { reveal_strlit("3"); } "3" },
        4 => { proof { reveal_strlit("4"); } "4" },
        5 => { proof { reveal_strlit("5"); } "5" },
        6 => { proof { reveal_strlit("6"); } "6" },
        7 => { proof { reveal_strlit("7"); } "7" },
        8 => { proof { reveal_strlit("8"); } "8" },
        9 => { proof { reveal_strlit("9"); } "9" },
        10 => { proof { reveal_strlit("a"); } "a" },
        11 => { proof { reveal_strlit("b"); } "b" },
        12 => { proof { reveal_strlit("c"); } "c" },
        13 => { proof { reveal_strlit("d"); } "d" },
        14 => { proof { reveal_strlit("e"); } "e" },
        _ => { proof { reveal_strlit("f"); } "f" },
    }
}

/// The value of a character, if it is a hex digit.
pub fn hex_digit_value(c: char) -> (r: Option<u8>)
    ensures
        r is Some <==> is_hex_char(c),
        r matches Some(v) ==> v as nat == hex_val(c) && v < 16,
{
    if '0' <= c && c <= '9' {
        Some((c as u32 - '0' as u32) as u8)
    } else if 'a' <= c && c <= 'f' {
        Some((c as u32 - 'a' as u32 + 10) as u8)
    } else if 'A' <= c && c <= 'F' {
        Some((c as u32 - 'A' as u32 + 10) as u8)
    } else {
        None
    }
}

fn push_quantity_digits(n: u64, out: &mut String)
    ensures
        final(out)@ == old(out)@ + quantity_digits(n as nat),
    decreases n,
{
    if n >= 16 {
        push_quantity_digits(n / 16, out);
    }
    out.append(digit_str((n % 16) as u8));
    assert(final(out)@ =~= old(out)@ + quantity_digits(n as nat));
}

fn digit_count(n: u64) -> (r: usize)
    ensures
        r == quantity_digits(n as nat).len(),
        r <= 16,
    decreases n,
{
    if n < 16 {
        1
    } else {
        let c = digit_count(n / 16);
        proof {
            if c == 16 {
                lemma_digit_count_bound(n as nat);
            }
        }
        c + 1
    }
}

proof fn lemma_digit_count_bound(n: nat)
    requires
        n <= u64::MAX,
    ensures
        quantity_digits(n).len() <= 16,
{
    reveal_with_fuel(pow16, 17);
    assert(pow16(16) == 0x1_0000_0000_0000_0000);
    lemma_digits_len_pow(n, 16);
}

proof fn lemma_digits_len_pow(n: nat, k: nat)
    requires
        n < pow16(k),
        k >= 1,
    ensures
        quantity_digits(n).len() <= k,
    decreases k,
{
    if n >= 16 {
        assert(n / 16 < pow16((k - 1) as nat)) by (nonlinear_arith)
            requires
                n < 16 * pow16((k - 1) as nat),
        ;
        if k == 1 {
            assert(pow16(0) == 1);
        } else {
            lemma_digits_len_pow(n / 16, (k - 1) as nat);
        }
    }
}

pub open spec fn pow16(k: nat) -> nat
    decreases k,
{
    if k == 0 {
        1
    } else {
        16 * pow16((k - 1) as nat)
    }
}

/// The hex text of a quantity, with an even number of digits.
pub fn encode_quantity(n: u64) -> (r: String)
    ensures
        r@ == quantity_text(n as nat),
{
    let mut out = String::new();
    out.append("0x");
    proof { reveal_strlit("0x"); }
    if digit_count(n) % 2 == 1 {
        out.append("0");
        proof { reveal_strlit("0"); }
    }
    push_quantity_digits(n, &mut out);
    assert(out@ =~= quantity_text(n as nat));
    out
}

proof fn lemma_digits_value_prefix_monotone(s: Seq<char>, j: int)
    requires
        0 <= j <= s.len(),
    ensures
        digits_value(s.subrange(0, j)) <= digits_value(s),
    decreases s.len(),
{
    if j < s.len() {
        lemma_digits_value_prefix_monotone(s.drop_last(), j);
        assert(s.drop_last().subrange(0, j) =~= s.subrange(0, j));
    } else {
        assert(s.subrange(0, j) =~= s);
    }
}

/// Decodes quantity text; anything that is not `0x` followed by a positive,
/// even number of hex digits, or that does not fit 64 bits, is a validation error.
pub fn decode_quantity(s: &str) -> (r: Result<u64, ErrorKind>)
    ensures
        r matches Ok(v) ==> decoded_quantity(s@) == Some(v as nat),
        r is Err <==> (decoded_quantity(s@) is None || decoded_quantity(s@).unwrap() > u64::MAX),
        r matches Err(e) ==> e == ErrorKind::ValidationError,
{
    let len = s.unicode_len();
    if len <= 2 || s.get_char(0) != '0' || s.get_char(1) != 'x' || len % 2 != 0 {
        return Err(ErrorKind::ValidationError);
    }
    let ghost digits = s@.skip(2);
    let mut value: u64 = 0;
    let mut i: usize = 2;
    while i < len
        invariant
            2 <= i <= len,
            len == s@.len(),
            digits == s@.skip(2),
            all_hex(s@.subrange(2, i as int)),
            value as nat == digits_value(s@.subrange(2, i as int)),
        decreases len - i,
    {
        let c = s.get_char(i);
        let d = match hex_digit_value(c) {
            Some(d) => d,
            None => {
                assert(!is_hex_char(digits[i - 2]));
                return Err(ErrorKind::ValidationError);
            },
        };
        let ghost next = s@.subrange(2, i + 1);
        assert(next.drop_last() =~= s@.subrange(2, i as int));
        if value > (u64::MAX - d as u64) / 16 {
            proof {
                if all_hex(digits) {
                    assert(next =~= digits.subrange(0, i - 1));
                    lemma_digits_value_prefix_monotone(digits, i - 1);
                }
            }
            return Err(ErrorKind::ValidationError);
        }
        value = value * 16 + d as u64;
        i = i + 1;
        assert(all_hex(s@.subrange(2, i as int))) by {
            assert forall|k: int| 0 <= k < next.len() implies #[trigger] is_hex_char(next[k]) by {
                if k < next.len() - 1 {
                    assert(next[k] == s@.subrange(2, i - 1)[k]);
                }
            }
        }
    }
    assert(s@.subrange(2, len as int) =~= digits);
    Ok(value)
}

/// The hex text of a byte string: `0x` and two digits for each byte.
pub fn encode_data(b: &[u8]) -> (r: String)
    ensures
        r@ == hex_prefix() + bytes_hex(b@),
{
    let mut out = String::new();
    out.append("0x");
    proof { reveal_strlit("0x"); }
    let mut i: usize = 0;
    while i < b.len()
        invariant
            i <= b@.len(),
            out@ == hex_prefix() + bytes_hex(b@.subrange(0, i as int)),
        decreases b@.len() - i,
    {
        let ghost before = out@;
        out.append(digit_str(b[i] / 16));
        out.append(digit_str(b[i] % 16));
        proof {
            let p = b@.subrange(0, i + 1);
            assert(p.drop_last() =~= b@.subrange(0, i as int));
        }
        i = i + 1;
        assert(out@ =~= hex_prefix() + bytes_hex(b@.subrange(0, i as int)));
    }
    assert(b@.subrange(0, b@.len() as int) =~= b@);
    out
}

/// Decodes data text; anything that is not `0x` followed by an even number of
/// hex digits is a validation error.
pub fn decode_data(s: &str) -> (r: Result<Vec<u8>, ErrorKind>)
    ensures
        r matches Ok(v) ==> decoded_data(s@) == Some(v@),
        r is Err <==> decoded_data(s@) is None,
        r matches Err(e) ==> e == ErrorKind::ValidationError,
{
    let len = s.unicode_len();
    if len < 2 || s.get_char(0) != '0' || s.get_char(1) != 'x' || len % 2 != 0 {
        return Err(ErrorKind::ValidationError);
    }
    let ghost digits = s@.skip(2);
    let mut out: Vec<u8> = Vec::new();
    let mut i: usize = 2;
    while i < len
        invariant
            2 <= i <= len,
            i % 2 == 0,
            len % 2 == 0,
            len == s@.len(),
            digits == s@.skip(2),
            all_hex(s@.subrange(2, i as int)),
            out@ == hex_bytes(s@.subrange(2, i as int)),
        decreases len - i,
    {
        let hi = match hex_digit_value(s.get_char(i)) {
            Some(d) => d,
            None => {
                assert(!is_hex_char(digits[i - 2]));
                return Err(ErrorKind::ValidationError);
            },
        };
        let lo = match hex_digit_value(s.get_char(i + 1)) {
            Some(d) => d,
            None => {
                assert(!is_hex_char(digits[i - 1]));
                return Err(ErrorKind::ValidationError);
            },
        };
        out.push(hi * 16 + lo);
        let ghost next = s@.subrange(2, i + 2);
        assert(next.subrange(0, next.len() - 2) =~= s@.subrange(2, i as int));
        i = i + 2;
        assert(all_hex(s@.subrange(2, i as int))) by {
            assert forall|k: int| 0 <= k < next.len() implies #[trigger] is_hex_char(next[k]) by {
                if k < next.len() - 2 {
                    assert(next[k] == s@.subrange(2, i - 2)[k]);
                }
            }
        }
    }
    assert(s@.subrange(2, len as int) =~= digits);
    Ok(out)
}

} // verus!

verus! {

/// The length of an Ethereum address in bytes.
pub const ADDRESS_LEN: usize = 20;

/// The length of a ledger state address in bytes.
pub const STATE_ADDRESS_LEN: usize = 35;

/// The namespace tag that starts every account's state address.
pub open spec fn namespace_prefix() -> Seq<u8> {
    seq![0xa6u8, 0x8bu8, 0x06u8]
}

/// The zero bytes that close every account's state address.
pub open spec fn state_padding() -> Seq<u8> {
    Seq::new(12, |i: int| 0u8)
}

/// The ledger state address of an Ethereum address, in the account layout of
/// the ledger's EVM transaction family: the 3-byte namespace tag `a68b06`,
/// the 20-byte address, and 12 zero bytes. The hash-derived part is the
/// address itself, the tail of the Keccak-256 digest of the account's public
/// key (see `accounts::eth_address_of`); this layout keeps it whole, so the
/// mapping is invertible.
pub open spec fn state_address_of(a: Seq<u8>) -> Seq<u8> {
    namespace_prefix() + a + state_padding()
}

/// The Ethereum address that a state address belongs to, if it is one of an account.
pub open spec fn address_of_state(s: Seq<u8>) -> Option<Seq<u8>> {
    if s.len() == 35 && s.subrange(0, 3) == namespace_prefix() && s.subrange(23, 35)
        == state_padding() {
        Some(s.subrange(3, 23))
    } else {
        None
    }
}

/// Mapping an address to its state address and back gives the address.
pub proof fn lemma_address_round_trip(a: Seq<u8>)
    requires
        a.len() == 20,
    ensures
        address_of_state(state_address_of(a)) == Some(a),
{
    let s = state_address_of(a);
    assert(s.subrange(0, 3) =~= namespace_prefix());
    assert(s.subrange(23, 35) =~= state_padding());
    assert(s.subrange(3, 23) =~= a);
}

/// The state address of an Ethereum address; an address that is not 20
/// bytes long is a validation error.
pub fn to_state_address(addr: &[u8]) -> (r: Result<Vec<u8>, ErrorKind>)
    ensures
        r is Ok <==> addr@.len() == 20,
        r matches Ok(v) ==> v@ == state_address_of(addr@),
        r matches Err(e) ==> e == ErrorKind::ValidationError,
{
    if addr.len() != ADDRESS_LEN {
        return Err(ErrorKind::ValidationError);
    }
    let mut out: Vec<u8> = vec![0xa6u8, 0x8bu8, 0x06u8];
    let mut i: usize = 0;
    while i < ADDRESS_LEN
        invariant
            i <= 20,
            addr@.len() == 20,
            out@ == namespace_prefix() + addr@.subrange(0, i as int),
        decreases 20 - i,
    {
        out.push(addr[i]);
        i = i + 1;
        assert(out@ =~= namespace_prefix() + addr@.subrange(0, i as int));
    }
    let mut k: usize = 0;
    while k < 12
        invariant
            k <= 12,
            out@ == namespace_prefix() + addr@ + Seq::new(k as nat, |j: int| 0u8),
        decreases 12 - k,
    {
        out.push(0u8);
        k = k + 1;
        assert(out@ =~= namespace_prefix() + addr@ + Seq::new(k as nat, |j: int| 0u8));
    }
    assert(out@ =~= state_address_of(addr@));
    Ok(out)
}

/// The Ethereum address inside a state address; a state address of another
/// shape is a validation error.
pub fn from_state_address(s: &[u8]) -> (r: Result<Vec<u8>, ErrorKind>)
    ensures
        r is Ok <==> address_of_state(s@) is Some,
        r matches Ok(v) ==> address_of_state(s@) == Some(v@),
        r matches Err(e) ==> e == ErrorKind::ValidationError,
{
    if s.len() != STATE_ADDRESS_LEN || s[0] != 0xa6u8 || s[1] != 0x8bu8 || s[2] != 0x06u8 {
        proof {
            if s@.len() == 35 {
                assert(s@.subrange(0, 3)[0] == s@[0]);
                assert(s@.subrange(0, 3)[1] == s@[1]);
                assert(s@.subrange(0, 3)[2] == s@[2]);
            }
        }
        return Err(ErrorKind::ValidationError);
    }
    assert(s@.subrange(0, 3) =~= namespace_prefix());
    let mut k: usize = 23;
    while k < STATE_ADDRESS_LEN
        invariant
            23 <= k <= 35,
            s@.len() == 35,
            forall|j: int| 23 <= j < k ==> s@[j] == 0u8,
        decreases 35 - k,
    {
        if s[k] != 0u8 {
            assert(s@.subrange(23, 35)[k - 23] != state_padding()[k - 23]);
            return Err(ErrorKind::ValidationError);
        }
        k = k + 1;
    }
    assert(s@.subrange(23, 35) =~= state_padding());
    let mut out: Vec<u8> = Vec::new();
    let mut i: usize = 3;
    while i < 23
        invariant
            3 <= i <= 23,
            s@.len() == 35,
            out@ == s@.subrange(3, i as int),
        decreases 23 - i,
    {
        out.push(s[i]);
        i = i + 1;
        assert(out@ =~= s@.subrange(3, i as int));
    }
    Ok(out)
}

} // verus!

verus! {

/// Parses an address parameter: data text of exactly 20 bytes.
pub fn parse_address(s: &str) -> (r: Result<Vec<u8>, ErrorKind>)
    ensures
        r is Ok <==> (decoded_data(s@) matches Some(b) && b.len() == 20),
        r matches Ok(v) ==> decoded_data(s@) == Some(v@),
        r matches Err(e) ==> e == ErrorKind::ValidationError,
{
    let b = decode_data(s)?;
    if b.len() != ADDRESS_LEN {
        return Err(ErrorKind::ValidationError);
    }
    Ok(b)
}

/// A block named by a call's parameter.
#[derive(Clone, Copy, Debug, PartialEq, Eq, Structural)]
pub enum BlockRef {
    Earliest,
    Latest,
    Pending,
    Number(u64),
}

/// The block that `s` names: a tag, or quantity text that fits 64 bits.
pub open spec fn block_ref_of(s: Seq<char>) -> Option<BlockRef> {
    if s == seq!['e', 'a', 'r', 'l', 'i', 'e', 's', 't'] {
        Some(BlockRef::Earliest)
    } else if s == seq!['l', 'a', 't', 'e', 's', 't'] {
        Some(BlockRef::Latest)
    } else if s == seq!['p', 'e', 'n', 'd', 'i', 'n', 'g'] {
        Some(BlockRef::Pending)
    } else {
        match decoded_quantity(s) {
            Some(n) => if n <= u64::MAX {
                Some(BlockRef::Number(n as u64))
            } else {
                None
            },
            None => None,
        }
    }
}

/// Parses a block parameter; anything else is a validation error.
pub fn parse_block_ref(s: &str) -> (r: Result<BlockRef, ErrorKind>)
    ensures
        r is Ok <==> block_ref_of(s@) is Some,
        r matches Ok(b) ==> block_ref_of(s@) == Some(b),
        r matches Err(e) ==> e == ErrorKind::ValidationError,
{
    proof {
        reveal_strlit("earliest");
        reveal_strlit("latest");
        reveal_strlit("pending");
        assert("earliest"@ =~= seq!['e', 'a', 'r', 'l', 'i', 'e', 's', 't']);
        assert("latest"@ =~= seq!['l', 'a', 't', 'e', 's', 't']);
        assert("pending"@ =~= seq!['p', 'e', 'n', 'd', 'i', 'n', 'g']);
    }
    if crate::compare::text_equal(s, "earliest") {
        return Ok(BlockRef::Earliest);
    }
    if crate::compare::text_equal(s, "latest") {
        return Ok(BlockRef::Latest);
    }
    if crate::compare::text_equal(s, "pending") {
        return Ok(BlockRef::Pending);
    }
    match decode_quantity(s) {
        Ok(n) => Ok(BlockRef::Number(n)),
        Err(e) => Err(e),
    }
}

} // verus!
