//! Checksums as hexadecimal text, the form in which a release manifest carries them.

use vstd::prelude::*;
use vstd::string::*;
use crate::error::{SvmError, SvmErrorView};

verus! {

/// `const_hex::FromHexError`: why a text stands for no bytes. It is carried, never read.
#[verifier::external_type_specification]
#[verifier::external_body]
pub struct ExFromHexError(const_hex::FromHexError);

/// Whether `c` is one of `0-9`, `a-f`, `A-F`.
pub open spec fn is_hex_digit(c: char) -> bool {
    ('0' <= c <= '9') || ('a' <= c <= 'f') || ('A' <= c <= 'F')
}

/// The number that a hexadecimal digit stands for.
pub open spec fn hex_digit_value(c: char) -> int {
    if '0' <= c <= '9' {
        c as int - '0' as int
    } else if 'a' <= c <= 'f' {
        c as int - 'a' as int + 10
    } else {
        c as int - 'A' as int + 10
    }
}

/// The lowercase digit for a number below 16.
pub open spec fn hex_digit(n: int) -> char {
    if n < 10 {
        (n + '0' as int) as char
    } else {
        (n - 10 + 'a' as int) as char
    }
}

/// The text with a leading `0x` or `0X` taken off, if it has one.
pub open spec fn strip_hex_prefix(s: Seq<char>) -> Seq<char> {
    if s.len() >= 2 && s[0] == '0' && (s[1] == 'x' || s[1] == 'X') {
        s.skip(2)
    } else {
        s
    }
}

/// Whether the text stands for bytes: after the optional prefix, an even
/// number of hexadecimal digits and nothing else.
pub open spec fn is_hex_text(s: Seq<char>) -> bool {
    let t = strip_hex_prefix(s);
    &&& t.len() % 2 == 0
    &&& forall|i: int| 0 <= i < t.len() ==> is_hex_digit(#[trigger] t[i])
}

/// The bytes that a hexadecimal text stands for, two digits to a byte.
pub open spec fn hex_bytes(s: Seq<char>) -> Seq<u8> {
    let t = strip_hex_prefix(s);
    Seq::new(
        (t.len() / 2) as nat,
        |i: int| (16 * hex_digit_value(t[2 * i]) + hex_digit_value(t[2 * i + 1])) as u8,
    )
}

/// The bytes in lowercase hexadecimal, two digits to a byte, without a prefix.
pub open spec fn hex_text(b: Seq<u8>) -> Seq<char> {
    Seq::new(
        2 * b.len(),
        |i: int|
            if i % 2 == 0 {
                hex_digit(b[i / 2] as int / 16)
            } else {
                hex_digit(b[i / 2] as int % 16)
            },
    )
}

/// The bytes in lowercase hexadecimal behind the prefix `0x`.
pub open spec fn prefixed_hex_text(b: Seq<u8>) -> Seq<char> {
    seq!['0', 'x'] + hex_text(b)
}

/// Calls `const_hex::decode`. It takes off a leading `0x` or `0X`, then wants
/// an even number of hexadecimal digits of either case and gives one byte for
/// each pair, the first digit being the high half. Anything else is an error.
#[verifier::external_body]
fn decode(text: &str) -> (r: Result<Vec<u8>, const_hex::FromHexError>)
    ensures
        r is Ok <==> is_hex_text(text@),
        r matches Ok(bytes) ==> bytes@ == hex_bytes(text@),
{
    const_hex::decode(text)
}

/// Calls `const_hex::encode`: two lowercase hexadecimal digits for each byte,
/// the high half first.
#[verifier::external_body]
fn encode(data: &[u8]) -> (r: String)
    ensures
        r@ == hex_text(data@),
{
    const_hex::encode(data)
}

/// Calls `const_hex::encode_prefixed`: `0x`, then what `const_hex::encode` gives.
#[verifier::external_body]
fn encode_prefixed(data: &[u8]) -> (r: String)
    ensures
        r@ == prefixed_hex_text(data@),
{
    const_hex::encode_prefixed(data)
}

/// What reading a checksum from its text gives: the bytes, or the text handed
/// back as a manifest error.
pub open spec fn spec_deserialize(text: Seq<char>) -> Result<Seq<u8>, SvmErrorView> {
    if is_hex_text(text) {
        Ok(hex_bytes(text))
    } else {
        Err(SvmErrorView::CatalogParse(text))
    }
}

/// Reads a checksum from hexadecimal text, with or without the prefix `0x`.
pub fn deserialize(text: &str) -> (r: Result<Vec<u8>, SvmError>)
    ensures
        match spec_deserialize(text@) {
            Ok(bytes) => r matches Ok(v) && v@ == bytes,
            Err(e) => r matches Err(x) && x@ == e,
        },
{
    match decode(text) {
        Ok(bytes) => Ok(bytes),
        Err(_) => Err(SvmError::CatalogParse(String::from_str(text))),
    }
}

/// Writes a checksum as the manifest carries it: `0x` and lowercase digits.
pub fn serialize(value: &[u8]) -> (r: String)
    ensures
        r@ == prefixed_hex_text(value@),
{
    encode_prefixed(value)
}

/// Writes bytes in lowercase hexadecimal without a prefix, as digests are
/// shown in messages.
pub fn to_hex(value: &[u8]) -> (r: String)
    ensures
        r@ == hex_text(value@),
{
    encode(value)
}

/// Whether two byte strings are the same, byte for byte.
pub fn same_bytes(a: &[u8], b: &[u8]) -> (r: bool)
    ensures
        r == (a@ == b@),
{
    if a.len() != b.len() {
        return false;
    }
    let mut i: usize = 0;
    while i < a.len()
        invariant
            i <= a.len(),
            a.len() == b.len(),
            forall|j: int| 0 <= j < i ==> a@[j] == b@[j],
        decreases a.len() - i,
    {
        if a[i] != b[i] {
            return false;
        }
        i += 1;
    }
    proof {
        assert(a@ =~= b@);
    }
    true
}

/// A lowercase digit stands for the number it was written for, and is no letter of a prefix.
proof fn lemma_digit_round_trip(n: int)
    requires
        0 <= n < 16,
    ensures
        is_hex_digit(hex_digit(n)),
        hex_digit_value(hex_digit(n)) == n,
        hex_digit(n) != 'x',
        hex_digit(n) != 'X',
{
}

/// Lowercase hexadecimal text always reads back as the bytes it was written from.
pub proof fn lemma_hex_text_reads_back(b: Seq<u8>)
    ensures
        is_hex_text(hex_text(b)),
        hex_bytes(hex_text(b)) == b,
{
    let s = hex_text(b);
    assert forall|i: int| 0 <= i < s.len() implies is_hex_digit(#[trigger] s[i]) && s[i] != 'x'
        && s[i] != 'X' by {
        lemma_digit_round_trip(b[i / 2] as int / 16);
        lemma_digit_round_trip(b[i / 2] as int % 16);
    }
    assert forall|i: int| 0 <= i < b.len() implies #[trigger] hex_bytes(s)[i] == b[i] by {
        lemma_digit_round_trip(b[i] as int / 16);
        lemma_digit_round_trip(b[i] as int % 16);
    }
}

/// Writing a checksum and reading it back gives the same bytes: nothing is
/// lost between a catalog and its manifest.
pub proof fn lemma_checksum_round_trip(b: Seq<u8>)
    ensures
        spec_deserialize(prefixed_hex_text(b)) == Ok::<Seq<u8>, SvmErrorView>(b),
{
    let s = prefixed_hex_text(b);
    lemma_hex_text_reads_back(b);
    assert(strip_hex_prefix(hex_text(b)) == hex_text(b)) by {
        let t = hex_text(b);
        if t.len() >= 2 {
            lemma_digit_round_trip(b[0] as int % 16);
        }
    }
    assert(hex_bytes(s) == hex_bytes(hex_text(b)));
}

} // verus!
