//! Canonical byte forms of the values that go into identifiers, and the
//! format rules for commitments and foreign addresses.

use vstd::prelude::*;
use vstd::utf8::*;

verus! {

/// The bytes of a text: its UTF-8 encoding.
pub open spec fn text_bytes(s: Seq<char>) -> Seq<u8> {
    encode_utf8(s)
}

/// The decimal digits of `n` as ASCII bytes, most significant first, without
/// leading zeros (`0` is the single digit `0`).
pub open spec fn decimal_digits(n: nat) -> Seq<u8>
    decreases n,
{
    if n < 10 {
        seq![(48 + n) as u8]
    } else {
        decimal_digits(n / 10).push((48 + n % 10) as u8)
    }
}

/// Whether a byte is an ASCII hexadecimal digit of either case.
pub open spec fn is_hex_byte(b: u8) -> bool {
    (48 <= b <= 57) || (97 <= b <= 102) || (65 <= b <= 70)
}

/// A textual commitment is well formed when it consists of exactly 64
/// hexadecimal digits, the textual form of a 32-byte hash.
pub open spec fn commitment_well_formed(c: Seq<char>) -> bool {
    &&& text_bytes(c).len() == 64
    &&& forall|i: int| 0 <= i < 64 ==> is_hex_byte(#[trigger] text_bytes(c)[i])
}

/// A foreign-ledger address is well formed when it is 42 bytes long and
/// starts with `0x`.
pub open spec fn foreign_address_well_formed(a: Seq<char>) -> bool {
    &&& text_bytes(a).len() == 42
    &&& text_bytes(a)[0] == 48
    &&& text_bytes(a)[1] == 120
}

/// Appends the bytes of `s` to `buf`.
pub fn push_text(buf: &mut Vec<u8>, s: &str)
    ensures
        final(buf)@ == old(buf)@ + text_bytes(s@),
{
    let bytes = s.as_bytes();
    let n = bytes.len();
    let mut i: usize = 0;
    while i < n
        invariant
            n == bytes@.len(),
            bytes@ == text_bytes(s@),
            i <= n,
            buf@ == old(buf)@ + bytes@.take(i as int),
        decreases n - i,
    {
        buf.push(bytes[i]);
        assert(bytes@.take(i + 1) =~= bytes@.take(i as int).push(bytes@[i as int]));
        i = i + 1;
    }
    assert(bytes@.take(n as int) =~= bytes@);
}

/// Appends the decimal form of `n` to `buf`.
pub fn push_decimal(buf: &mut Vec<u8>, n: u128)
    ensures
        final(buf)@ == old(buf)@ + decimal_digits(n as nat),
    decreases n,
{
    if n >= 10 {
        push_decimal(buf, n / 10);
    }
    let d: u8 = (n % 10) as u8;
    buf.push(48 + d);
    assert(buf@ =~= old(buf)@ + decimal_digits(n as nat));
}

/// Decides whether a textual commitment is well formed.
pub fn is_commitment_well_formed(c: &str) -> (ok: bool)
    ensures
        ok == commitment_well_formed(c@),
{
    let bytes = c.as_bytes();
    if bytes.len() != 64 {
        return false;
    }
    let mut i: usize = 0;
    while i < 64
        invariant
            bytes@ == text_bytes(c@),
            bytes@.len() == 64,
            i <= 64,
            forall|j: int| 0 <= j < i ==> is_hex_byte(#[trigger] bytes@[j]),
        decreases 64 - i,
    {
        let b: u8 = bytes[i];
        let hex = (48 <= b && b <= 57) || (97 <= b && b <= 102) || (65 <= b && b <= 70);
        if !hex {
            assert(!is_hex_byte(text_bytes(c@)[i as int]));
            return false;
        }
        i = i + 1;
    }
    true
}

/// Decides whether a foreign-ledger address is well formed.
pub fn is_foreign_address_well_formed(a: &str) -> (ok: bool)
    ensures
        ok == foreign_address_well_formed(a@),
{
    let bytes = a.as_bytes();
    bytes.len() == 42 && bytes[0] == 48 && bytes[1] == 120
}

/// Compares two byte strings.
pub fn bytes_equal(a: &[u8], b: &[u8]) -> (same: bool)
    ensures
        same == (a@ == b@),
{
    if a.len() != b.len() {
        return false;
    }
    let n = a.len();
    let mut i: usize = 0;
    while i < n
        invariant
            n == a@.len(),
            n == b@.len(),
            i <= n,
            forall|j: int| 0 <= j < i ==> a@[j] == b@[j],
        decreases n - i,
    {
        if a[i] != b[i] {
            return false;
        }
        i = i + 1;
    }
    assert(a@ =~= b@);
    true
}

} // verus!
