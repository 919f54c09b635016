//! Recovering the wallet that signed a challenge nonce.
use vstd::prelude::*;
use vstd::string::StringSliceAdditionalSpecFns;
use crate::address::{ADDRESS_TEXT_LEN, address_text_of, is_normalized, lemma_address_text_normalized};

verus! {

#[verifier::external_type_specification]
#[verifier::external_body]
pub struct ExSignatureError(ethers::types::SignatureError);

/// Number of bytes in an encoded signature: `r`, `s` and the recovery byte.
pub const SIGNATURE_BYTES: usize = 65;

/// An ASCII hex digit, in either case.
pub open spec fn is_hex_byte(b: u8) -> bool {
    (48 <= b && b <= 57) || (97 <= b && b <= 102) || (65 <= b && b <= 70)
}

/// The value of a hex digit.
pub open spec fn hex_val(b: u8) -> int {
    if 48 <= b && b <= 57 {
        b - 48
    } else if 97 <= b && b <= 102 {
        b - 87
    } else {
        b - 55
    }
}

/// An even number of hex digits.
pub open spec fn is_hex_text(s: Seq<u8>) -> bool {
    &&& s.len() % 2 == 0
    &&& forall|i: int| 0 <= i < s.len() ==> is_hex_byte(#[trigger] s[i])
}

/// The bytes that pairs of hex digits stand for, high nibble first.
pub open spec fn hex_decoded(s: Seq<u8>) -> Seq<u8> {
    Seq::new((s.len() / 2) as nat, |i: int| (hex_val(s[2 * i]) * 16 + hex_val(s[2 * i + 1])) as u8)
}

/// The text without a leading `0x` or `0X`.
pub open spec fn strip_hex_prefix(s: Seq<u8>) -> Seq<u8> {
    if s.len() >= 2 && s[0] == 48 && (s[1] == 120 || s[1] == 88) {
        s.subrange(2, s.len() as int)
    } else {
        s
    }
}

/// The signature bytes a text encodes: 65 hex-encoded bytes, optionally
/// prefixed by `0x`.
pub open spec fn signature_bytes_of(text: Seq<u8>) -> Option<Seq<u8>> {
    let h = strip_hex_prefix(text);
    if is_hex_text(h) && h.len() == 2 * SIGNATURE_BYTES {
        Some(hex_decoded(h))
    } else {
        None
    }
}

/// The address whose key produced the 65-byte signature `sig` over the
/// personal-message hash of `message`, if one can be recovered.
pub uninterp spec fn recovered_signer(sig: Seq<u8>, message: Seq<char>) -> Option<Seq<u8>>;

/// Relies on ethers' `Signature::from_str` (const-hex decoding of the text,
/// an optional `0x`/`0X` prefix, either case, exactly 65 bytes), read back as
/// its 65 bytes through `From<&Signature> for [u8; 65]`, which returns the
/// bytes the signature was built from.
#[verifier::external_body]
fn parse_signature(text: &str) -> (r: Result<[u8; 65], ethers::types::SignatureError>)
    ensures
        match r {
            Ok(b) => signature_bytes_of(text.spec_bytes()) == Some(b@),
            Err(_) => signature_bytes_of(text.spec_bytes()) is None,
        },
{
    text.parse::<ethers::types::Signature>().map(|s| <[u8; 65]>::from(&s))
}

/// Relies on ethers' `Signature::try_from` on 65 bytes followed by
/// `Signature::recover`: the outcome depends on the signature bytes and the
/// message alone.
#[verifier::external_body]
fn recover_signer(sig: &[u8; 65], message: &str) -> (r: Result<[u8; 20], ethers::types::SignatureError>)
    ensures
        match r {
            Ok(a) => recovered_signer(sig@, message@) == Some(a@),
            Err(_) => recovered_signer(sig@, message@) is None,
        },
{
    match ethers::types::Signature::try_from(&sig[..]) {
        Ok(s) => s.recover(message).map(|a| a.0),
        Err(e) => Err(e),
    }
}

/// Why a signature did not yield a signer.
#[derive(Debug, Clone, Copy, PartialEq, Eq, Structural)]
pub enum RecoveryError {
    /// The signature text is not 65 hex-encoded bytes.
    Malformed,
    /// The signature is well formed but no signer can be recovered from it.
    Unrecoverable,
}

/// What recovering a signature text over a message yields.
pub open spec fn recovery_of(text: Seq<u8>, message: Seq<char>) -> Result<Seq<char>, RecoveryError> {
    match signature_bytes_of(text) {
        None => Err(RecoveryError::Malformed),
        Some(sig) => match recovered_signer(sig, message) {
            None => Err(RecoveryError::Unrecoverable),
            Some(a) => Ok(address_text_of(a)),
        },
    }
}

/// What recovering a signature, given as text, over a message yields.
pub open spec fn recovery_of_text(text: Seq<char>, message: Seq<char>) -> Result<Seq<char>, RecoveryError> {
    recovery_of(vstd::utf8::encode_utf8(text), message)
}

/// The canonical address text of the wallet that signed `message` with the
/// hex-encoded `signature`.
pub fn recover_address(message: &str, signature: &str) -> (r: Result<String, RecoveryError>)
    ensures
        match r {
            Ok(a) => recovery_of_text(signature@, message@) == Ok::<Seq<char>, RecoveryError>(a@),
            Err(e) => recovery_of_text(signature@, message@) == Err::<Seq<char>, RecoveryError>(e),
        },
        r is Ok ==> r->Ok_0@.len() == ADDRESS_TEXT_LEN,
{
    let sig = match parse_signature(signature) {
        Ok(sig) => sig,
        Err(_) => return Err(RecoveryError::Malformed),
    };
    match recover_signer(&sig, message) {
        Ok(bytes) => {
            let a = crate::address::address_text(&bytes);
            proof {
                crate::address::lemma_hex_of_len(bytes@);
            }
            Ok(a)
        },
        Err(_) => Err(RecoveryError::Unrecoverable),
    }
}

/// ASCII lower-casing of one byte.
pub open spec fn ascii_lower_byte(b: u8) -> u8 {
    if 65 <= b && b <= 90 {
        (b + 32) as u8
    } else {
        b
    }
}

/// ASCII lower-casing of a byte text.
pub open spec fn ascii_lower_bytes(s: Seq<u8>) -> Seq<u8> {
    s.map_values(|b: u8| ascii_lower_byte(b))
}

proof fn lemma_hex_byte_case(x: u8, y: u8)
    requires
        ascii_lower_byte(x) == ascii_lower_byte(y),
    ensures
        is_hex_byte(x) == is_hex_byte(y),
        is_hex_byte(x) ==> hex_val(x) == hex_val(y),
{
}

/// Recovery does not depend on the letter case of the signature text, and
/// the address it yields is already in canonical lower-case form: two
/// signature texts that differ only in ASCII case recover the same address
/// text, or fail in the same way.
pub proof fn lemma_recovery_ignores_case(t1: Seq<u8>, t2: Seq<u8>, message: Seq<char>)
    requires
        ascii_lower_bytes(t1) == ascii_lower_bytes(t2),
    ensures
        recovery_of(t1, message) == recovery_of(t2, message),
        recovery_of(t1, message) is Ok ==> is_normalized(recovery_of(t1, message)->Ok_0),
{
    let f = |b: u8| ascii_lower_byte(b);
    assert(t1.map_values(f).len() == t1.len());
    assert(t2.map_values(f).len() == t2.len());
    assert(t1.len() == t2.len());
    assert forall|i: int| 0 <= i < t1.len() implies ascii_lower_byte(#[trigger] t1[i]) == ascii_lower_byte(t2[i]) by {
        assert(t1.map_values(f)[i] == f(t1[i]));
        assert(t2.map_values(f)[i] == f(t2[i]));
        assert(t1.map_values(f)[i] == t2.map_values(f)[i]);
    }
    if t1.len() >= 2 {
        lemma_hex_byte_case(t1[0], t2[0]);
        assert(ascii_lower_byte(t1[0]) == ascii_lower_byte(t2[0]));
        assert(ascii_lower_byte(t1[1]) == ascii_lower_byte(t2[1]));
    }
    let h1 = strip_hex_prefix(t1);
    let h2 = strip_hex_prefix(t2);
    assert(h1.len() == h2.len());
    assert forall|i: int| 0 <= i < h1.len() implies ascii_lower_byte(#[trigger] h1[i]) == ascii_lower_byte(h2[i]) by {
        if h1.len() < t1.len() {
            assert(h1[i] == t1[i + 2]);
            assert(h2[i] == t2[i + 2]);
        }
    }
    assert forall|i: int| 0 <= i < h1.len() implies is_hex_byte(#[trigger] h1[i]) == is_hex_byte(h2[i])
        && (is_hex_byte(h1[i]) ==> hex_val(h1[i]) == hex_val(h2[i])) by {
        lemma_hex_byte_case(h1[i], h2[i]);
    }
    if is_hex_text(h1) {
        assert forall|i: int| 0 <= i < h2.len() implies is_hex_byte(#[trigger] h2[i]) by {
            assert(is_hex_byte(h1[i]));
        }
        assert(hex_decoded(h1) =~= hex_decoded(h2)) by {
            assert forall|i: int| 0 <= i < hex_decoded(h1).len() implies
                #[trigger] hex_decoded(h1)[i] == hex_decoded(h2)[i] by {
                assert(is_hex_byte(h1[2 * i]));
                assert(is_hex_byte(h1[2 * i + 1]));
            }
        }
    } else if is_hex_text(h2) {
        assert forall|i: int| 0 <= i < h1.len() implies is_hex_byte(#[trigger] h1[i]) by {
            assert(is_hex_byte(h2[i]));
        }
    }
    match recovery_of(t1, message) {
        Ok(_) => {
            let a = recovered_signer(signature_bytes_of(t1)->Some_0, message)->Some_0;
            lemma_address_text_normalized(a);
        },
        Err(_) => {},
    }
}

} // verus!
