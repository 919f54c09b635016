//! Wallet address text: format checks, case normalisation and the canonical
//! `0x`-prefixed lower-case rendering of a 20-byte address.
use vstd::prelude::*;
use vstd::string::StringSliceAdditionalSpecFns;
use vstd::string::StringExecFns;

verus! {

/// Length in bytes of the textual form `0x` followed by forty hex digits.
pub const ADDRESS_TEXT_LEN: usize = 42;

/// The lower-case hex digit for a value below sixteen.
pub open spec fn hex_digit(n: u8) -> char {
    if n < 10 {
        ('0' as u8 + n) as char
    } else {
        ('a' as u8 + (n - 10) as u8) as char
    }
}

/// Two lower-case hex digits for each byte, high nibble first.
pub open spec fn hex_of(b: Seq<u8>) -> Seq<char>
    decreases b.len(),
{
    if b.len() == 0 {
        Seq::empty()
    } else {
        seq![hex_digit(b[0] / 16), hex_digit(b[0] % 16)] + hex_of(b.drop_first())
    }
}

/// Hex text has two digits per byte.
pub proof fn lemma_hex_of_len(b: Seq<u8>)
    ensures
        hex_of(b).len() == 2 * b.len(),
    decreases b.len(),
{
    if b.len() > 0 {
        lemma_hex_of_len(b.drop_first());
    }
}

/// The textual form of an address whose raw bytes are `b`.
pub open spec fn address_text_of(b: Seq<u8>) -> Seq<char> {
    seq!['0', 'x'] + hex_of(b)
}

/// A textual address has the `0x` prefix and is exactly 42 bytes long.
pub open spec fn is_address_format(bytes: Seq<u8>) -> bool {
    &&& bytes.len() == ADDRESS_TEXT_LEN
    &&& bytes[0] == '0' as u8
    &&& bytes[1] == 'x' as u8
}

/// A text, as UTF-8 bytes, has the shape of an address.
pub open spec fn is_address_text(s: Seq<char>) -> bool {
    is_address_format(vstd::utf8::encode_utf8(s))
}

/// ASCII lower-casing of one character; every other character is kept.
pub open spec fn ascii_lower_char(c: char) -> char {
    if 'A' <= c && c <= 'Z' {
        ((c as u8) + 32u8) as char
    } else {
        c
    }
}

/// ASCII lower-casing of a whole text.
pub open spec fn ascii_lower(s: Seq<char>) -> Seq<char> {
    s.map_values(|c: char| ascii_lower_char(c))
}

/// A text is normalised when lower-casing leaves it unchanged.
pub open spec fn is_normalized(s: Seq<char>) -> bool {
    ascii_lower(s) == s
}

/// Relies on hex::encode: two lower-case digits per byte, high nibble first.
#[verifier::external_body]
pub(crate) fn hex_encode(b: &[u8]) -> (r: String)
    ensures
        r@ == hex_of(b@),
{
    hex::encode(b)
}

/// Relies on str::to_ascii_lowercase: 'A'..='Z' become 'a'..='z', all other
/// characters are kept.
#[verifier::external_body]
fn to_ascii_lowercase(s: &str) -> (r: String)
    ensures
        r@ == ascii_lower(s@),
{
    s.to_ascii_lowercase()
}

/// Whether `s` has the shape of a wallet address: the `0x` prefix and 42 bytes.
pub fn is_valid_address_format(s: &str) -> (r: bool)
    ensures
        r == is_address_format(s.spec_bytes()),
        r == is_address_text(s@),
{
    let b = s.as_bytes();
    b.len() == ADDRESS_TEXT_LEN && b[0] == 48u8 && b[1] == 120u8
}

/// The case-insensitive canonical form of an address text.
pub fn normalize_address(s: &str) -> (r: String)
    ensures
        r@ == ascii_lower(s@),
{
    to_ascii_lowercase(s)
}

/// The canonical `0x`-prefixed lower-case text of a 20-byte address.
pub fn address_text(b: &[u8; 20]) -> (r: String)
    ensures
        r@ == address_text_of(b@),
{
    let digits = hex_encode(b.as_slice());
    let prefix = String::from_str("0x");
    proof {
        reveal_strlit("0x");
    }
    prefix.concat(digits.as_str())
}

/// Lower-casing is idempotent: normalising a normalised text changes nothing.
pub proof fn lemma_normalize_idempotent(s: Seq<char>)
    ensures
        ascii_lower(ascii_lower(s)) == ascii_lower(s),
        is_normalized(ascii_lower(s)),
{
    assert(ascii_lower(ascii_lower(s)) =~= ascii_lower(s));
}

proof fn lemma_hex_of_normalized(b: Seq<u8>)
    ensures
        is_normalized(hex_of(b)),
    decreases b.len(),
{
    if b.len() > 0 {
        lemma_hex_of_normalized(b.drop_first());
        let head = seq![hex_digit(b[0] / 16), hex_digit(b[0] % 16)];
        assert(ascii_lower(head) =~= head);
        assert(ascii_lower(hex_of(b)) =~= ascii_lower(head) + ascii_lower(hex_of(b.drop_first())));
    } else {
        assert(ascii_lower(hex_of(b)) =~= hex_of(b));
    }
}

/// The text rendered from recovered address bytes is already in canonical
/// form, so normalising it again yields the same string: the same bytes give
/// the same address text whatever casing any input had.
pub proof fn lemma_address_text_normalized(b: Seq<u8>)
    ensures
        is_normalized(address_text_of(b)),
        ascii_lower(address_text_of(b)) == address_text_of(b),
{
    lemma_hex_of_normalized(b);
    let p = seq!['0', 'x'];
    assert(ascii_lower(p) =~= p);
    assert(ascii_lower(address_text_of(b)) =~= ascii_lower(p) + ascii_lower(hex_of(b)));
}

} // verus!
