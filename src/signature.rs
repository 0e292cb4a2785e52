//! Checks that a webhook delivery was signed with the repository's secret:
//! an HMAC-SHA256 of the exact body, sent hex-encoded after `sha256=`.

use vstd::prelude::*;
use hmac::Mac;
use vstd::string::StringSliceAdditionalSpecFns;
use crate::html::equal_text;

verus! {

/// Why a webhook delivery is refused.
#[derive(Debug, PartialEq, Eq, Structural, Clone, Copy)]
pub enum RejectionError {
    /// The repository is signed but the delivery carries no signature.
    MissingSignature,
    /// The signature does not start with `sha256=`.
    MalformedSignature,
    /// What follows `sha256=` is not an even number of lowercase hex digits.
    InvalidHex,
    /// The signature is not the body's HMAC under the secret.
    SignatureMismatch,
    /// The body is not the JSON that the event calls for.
    MalformedPayload,
}

impl RejectionError {
    /// A short reason, for the HTTP response.
    pub open spec fn reason_spec(&self) -> Seq<char> {
        match self {
            RejectionError::MissingSignature => "Missing signature"@,
            RejectionError::MalformedSignature => "Signature doesn't start with sha256="@,
            RejectionError::InvalidHex => "Signature is not valid hex"@,
            RejectionError::SignatureMismatch => "Signature mismatch"@,
            RejectionError::MalformedPayload => "Malformed payload"@,
        }
    }

    pub fn reason(&self) -> (r: &'static str)
        ensures
            r@ == self.reason_spec(),
    {
        match self {
            RejectionError::MissingSignature => "Missing signature",
            RejectionError::MalformedSignature => "Signature doesn't start with sha256=",
            RejectionError::InvalidHex => "Signature is not valid hex",
            RejectionError::SignatureMismatch => "Signature mismatch",
            RejectionError::MalformedPayload => "Malformed payload",
        }
    }
}

pub open spec fn is_hex_digit(c: char) -> bool {
    ('0' <= c && c <= '9') || ('a' <= c && c <= 'f') || ('A' <= c && c <= 'F')
}

pub open spec fn hex_value(c: char) -> int {
    if '0' <= c && c <= '9' {
        c as int - '0' as int
    } else if 'a' <= c && c <= 'f' {
        c as int - 'a' as int + 10
    } else {
        c as int - 'A' as int + 10
    }
}

/// Whether `s` is an even number of hex digits.
pub open spec fn is_hex(s: Seq<char>) -> bool {
    s.len() % 2 == 0 && forall|i: int| 0 <= i < s.len() ==> is_hex_digit(#[trigger] s[i])
}

pub open spec fn is_lower_hex_digit(c: char) -> bool {
    ('0' <= c && c <= '9') || ('a' <= c && c <= 'f')
}

/// Whether `s` is an even number of lowercase hex digits, the form in which
/// signatures are sent; each byte then has one spelling.
pub open spec fn is_lower_hex(s: Seq<char>) -> bool {
    s.len() % 2 == 0 && forall|i: int| 0 <= i < s.len() ==> is_lower_hex_digit(#[trigger] s[i])
}

/// Checks that `s` is an even number of lowercase hex digits.
pub fn check_lower_hex(s: &str) -> (r: bool)
    ensures
        r == is_lower_hex(s@),
{
    let n = s.unicode_len();
    if n % 2 != 0 {
        return false;
    }
    let mut i: usize = 0;
    while i < n
        invariant
            n == s@.len(),
            i <= n,
            forall|j: int| 0 <= j < i ==> is_lower_hex_digit(#[trigger] s@[j]),
        decreases n - i,
    {
        let c = s.get_char(i);
        if !(('0' <= c && c <= '9') || ('a' <= c && c <= 'f')) {
            return false;
        }
        i = i + 1;
    }
    true
}

/// The bytes that the hex digits `s` stand for, two digits each, high first.
pub open spec fn hex_bytes(s: Seq<char>) -> Seq<u8> {
    Seq::new((s.len() / 2) as nat, |i: int| (hex_value(s[2 * i]) * 16 + hex_value(s[2 * i + 1])) as u8)
}

#[verifier::external_type_specification]
#[verifier::external_body]
pub struct ExFromHexError(hex::FromHexError);

/// Relies on hex::decode: it accepts an even number of digits `0-9`, `a-f`,
/// `A-F` and returns one byte for each two, the first being the high half;
/// any other input is an error.
#[verifier::external_body]
fn decode_hex(s: &str) -> (r: Result<Vec<u8>, hex::FromHexError>)
    ensures
        r is Ok <==> is_hex(s@),
        r matches Ok(b) ==> b@ == hex_bytes(s@),
{
    hex::decode(s)
}

/// HMAC-SHA256 of `message` under `key`.
pub uninterp spec fn hmac_sha256(key: Seq<u8>, message: Seq<u8>) -> Seq<u8>;

/// Relies on hmac::Hmac<sha2::Sha256>: `new_from_slice` takes a key of any
/// length, and `verify_slice` accepts exactly the tag that HMAC-SHA256 of the
/// message under the key gives (compared in constant time).
#[verifier::external_body]
fn hmac_sha256_matches(key: &[u8], message: &[u8], tag: &[u8]) -> (r: bool)
    ensures
        r == (tag@ == hmac_sha256(key@, message@)),
{
    let mut mac = hmac::Hmac::<sha2::Sha256>::new_from_slice(key).expect("any key length is accepted");
    mac.update(message);
    mac.verify_slice(tag).is_ok()
}

pub open spec fn has_sha256_prefix(s: Seq<char>) -> bool {
    s.len() >= 7 && s.subrange(0, 7) == "sha256="@
}

pub proof fn lemma_hex_value_range(c: char)
    requires
        is_hex_digit(c),
    ensures
        0 <= hex_value(c) < 16,
{
}

/// A signature made with the secret over the exact body is accepted.
pub proof fn lemma_correct_signature_accepted(secret: Seq<u8>, digits: Seq<char>, body: Seq<u8>)
    requires
        is_lower_hex(digits),
        hex_bytes(digits) == hmac_sha256(secret, body),
    ensures
        signature_check(secret, Some("sha256="@ + digits), body) == Ok::<(), RejectionError>(()),
{
    reveal_strlit("sha256=");
    let sig = "sha256="@ + digits;
    assert(sig.subrange(0, 7) =~= "sha256="@);
    assert(sig.subrange(7, sig.len() as int) =~= digits);
}

/// Changing any one character of an accepted signature gets it refused.
pub proof fn lemma_signature_mutation_rejected(secret: Seq<u8>, sig: Seq<char>, body: Seq<u8>, i: int, c: char)
    requires
        secret.len() > 0,
        signature_check(secret, Some(sig), body) is Ok,
        0 <= i < sig.len(),
        c != sig[i],
    ensures
        signature_check(secret, Some(sig.update(i, c)), body) is Err,
{
    let changed = sig.update(i, c);
    if i < 7 {
        assert(changed.subrange(0, 7)[i] != sig.subrange(0, 7)[i]);
    } else {
        assert(changed.subrange(0, 7) =~= sig.subrange(0, 7));
        let digits = sig.subrange(7, sig.len() as int);
        let new_digits = changed.subrange(7, changed.len() as int);
        assert(new_digits =~= digits.update(i - 7, c));
        if is_lower_hex(new_digits) {
            assert(is_lower_hex_digit(digits[i - 7]));
            assert(new_digits[i - 7] == c);
            assert(is_lower_hex_digit(c));
            assert(digits[i - 7] == sig[i]);
            assert(hex_value(c) != hex_value(digits[i - 7]));
            let k = (i - 7) / 2;
            let p = 2 * k;
            assert(is_lower_hex_digit(digits[p]) && is_lower_hex_digit(digits[p + 1]));
            assert(is_lower_hex_digit(new_digits[p]) && is_lower_hex_digit(new_digits[p + 1]));
            lemma_hex_value_range(digits[p]);
            lemma_hex_value_range(digits[p + 1]);
            lemma_hex_value_range(new_digits[p]);
            lemma_hex_value_range(new_digits[p + 1]);
            assert(hex_bytes(new_digits)[k] != hex_bytes(digits)[k]);
        }
    }
}

/// An accepted signature is refused for any body whose HMAC under the
/// secret differs from the signed body's.
pub proof fn lemma_changed_body_rejected(secret: Seq<u8>, sig: Seq<char>, body: Seq<u8>, changed: Seq<u8>)
    requires
        secret.len() > 0,
        signature_check(secret, Some(sig), body) is Ok,
        hmac_sha256(secret, changed) != hmac_sha256(secret, body),
    ensures
        signature_check(secret, Some(sig), changed) == Err::<(), RejectionError>(RejectionError::SignatureMismatch),
{
}

/// What checking a delivery gives: `secret` is the repository's (as bytes),
/// `signature` the header as sent.
pub open spec fn signature_check(secret: Seq<u8>, signature: Option<Seq<char>>, body: Seq<u8>) -> Result<
    (),
    RejectionError,
> {
    if secret.len() == 0 {
        Ok(())
    } else {
        match signature {
            None => Err(RejectionError::MissingSignature),
            Some(sig) => if !has_sha256_prefix(sig) {
                Err(RejectionError::MalformedSignature)
            } else if !is_lower_hex(sig.subrange(7, sig.len() as int)) {
                Err(RejectionError::InvalidHex)
            } else if hex_bytes(sig.subrange(7, sig.len() as int)) != hmac_sha256(secret, body) {
                Err(RejectionError::SignatureMismatch)
            } else {
                Ok(())
            },
        }
    }
}

pub open spec fn text_of(o: Option<&str>) -> Option<Seq<char>> {
    match o {
        Some(s) => Some(s@),
        None => None,
    }
}

/// Checks a delivery against the repository's secret; an empty secret
/// accepts every delivery.
pub fn verify_signature(secret: &str, signature: Option<&str>, body: &[u8]) -> (r: Result<
    (),
    RejectionError,
>)
    ensures
        r == signature_check(secret.spec_bytes(), text_of(signature), body@),
{
    let key = secret.as_bytes();
    if key.len() == 0 {
        return Ok(());
    }
    let sig = match signature {
        None => {
            return Err(RejectionError::MissingSignature);
        },
        Some(s) => s,
    };
    let n = sig.unicode_len();
    if n < 7 || !equal_text(sig.substring_char(0, 7), "sha256=") {
        return Err(RejectionError::MalformedSignature);
    }
    let digits = sig.substring_char(7, n);
    if !check_lower_hex(digits) {
        return Err(RejectionError::InvalidHex);
    }
    let tag = match decode_hex(digits) {
        Ok(tag) => tag,
        Err(_) => {
            return Err(RejectionError::InvalidHex);
        },
    };
    if hmac_sha256_matches(key, body, tag.as_slice()) {
        Ok(())
    } else {
        Err(RejectionError::SignatureMismatch)
    }
}

} // verus!
