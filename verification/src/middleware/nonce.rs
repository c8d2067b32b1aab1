//! The per-request Content-Security-Policy nonce: sixteen random bytes in
//! URL-safe base64 without padding.
use vstd::prelude::*;
use vstd::string::*;
use base64::Engine;

verus! {

/// The nonce of the current request.
#[derive(Clone, Debug)]
pub struct Nonce(pub String);

/// Random bytes per nonce.
pub const NONCE_BYTES: usize = 16;

/// The URL-safe base64 digit of a 6-bit value.
pub open spec fn b64_digit(v: int) -> char {
    if v < 26 {
        (('A' as int) + v) as char
    } else if v < 52 {
        (('a' as int) + (v - 26)) as char
    } else if v < 62 {
        (('0' as int) + (v - 52)) as char
    } else if v == 62 {
        '-'
    } else {
        '_'
    }
}

/// `bytes` in URL-safe base64 without padding: each group of three bytes
/// as four digits of six bits, most significant first; a trailing single
/// byte as two digits and a trailing pair as three, the last digit's
/// unused low bits zero.
pub open spec fn b64url_of(bytes: Seq<u8>) -> Seq<char>
    decreases bytes.len(),
{
    if bytes.len() == 0 {
        Seq::empty()
    } else if bytes.len() == 1 {
        let a = bytes[0] as int;
        seq![b64_digit(a / 4), b64_digit((a % 4) * 16)]
    } else if bytes.len() == 2 {
        let a = bytes[0] as int;
        let b = bytes[1] as int;
        seq![b64_digit(a / 4), b64_digit((a % 4) * 16 + b / 16), b64_digit((b % 16) * 4)]
    } else {
        let a = bytes[0] as int;
        let b = bytes[1] as int;
        let c = bytes[2] as int;
        seq![
            b64_digit(a / 4),
            b64_digit((a % 4) * 16 + b / 16),
            b64_digit((b % 16) * 4 + c / 64),
            b64_digit(c % 64),
        ] + b64url_of(bytes.skip(3))
    }
}

/// Length of an unpadded base64 text of `n` bytes.
pub open spec fn unpadded_len(n: nat) -> nat {
    (n / 3) * 4 + if n % 3 == 1 {
        2nat
    } else if n % 3 == 2 {
        3nat
    } else {
        0nat
    }
}

/// The URL-safe base64 alphabet.
pub open spec fn url_safe_char(c: char) -> bool {
    ('A' <= c && c <= 'Z') || ('a' <= c && c <= 'z') || ('0' <= c && c <= '9') || c == '-' || c
        == '_'
}

/// Calls `base64::engine::general_purpose::URL_SAFE_NO_PAD.encode`.
/// Claimed: the text is `b64url_of` the bytes (the URL-safe alphabet, no
/// `=` padding).
#[verifier::external_body]
fn encode_url_safe_no_pad(bytes: &[u8]) -> (r: String)
    requires
        bytes@.len() <= 0xffff_ffff,
    ensures
        r@ == b64url_of(bytes@),
{
    base64::engine::general_purpose::URL_SAFE_NO_PAD.encode(bytes)
}

proof fn lemma_b64_digit_safe(v: int)
    requires
        0 <= v < 64,
    ensures
        url_safe_char(b64_digit(v)),
{
}

/// The unpadded text of `n` bytes has `unpadded_len(n)` digits, all from
/// the URL-safe alphabet.
proof fn lemma_b64url_shape(bytes: Seq<u8>)
    ensures
        b64url_of(bytes).len() == unpadded_len(bytes.len()),
        forall|i: int| 0 <= i < b64url_of(bytes).len() ==> url_safe_char(#[trigger] b64url_of(bytes)[i]),
    decreases bytes.len(),
{
    let t = b64url_of(bytes);
    if bytes.len() == 0 {
    } else if bytes.len() <= 2 {
        let a = bytes[0] as int;
        lemma_b64_digit_safe(a / 4);
        if bytes.len() == 1 {
            lemma_b64_digit_safe((a % 4) * 16);
        } else {
            let b = bytes[1] as int;
            lemma_b64_digit_safe((a % 4) * 16 + b / 16);
            lemma_b64_digit_safe((b % 16) * 4);
        }
    } else {
        let a = bytes[0] as int;
        let b = bytes[1] as int;
        let c = bytes[2] as int;
        lemma_b64_digit_safe(a / 4);
        lemma_b64_digit_safe((a % 4) * 16 + b / 16);
        lemma_b64_digit_safe((b % 16) * 4 + c / 64);
        lemma_b64_digit_safe(c % 64);
        let rest = bytes.skip(3);
        lemma_b64url_shape(rest);
        let head = seq![
            b64_digit(a / 4),
            b64_digit((a % 4) * 16 + b / 16),
            b64_digit((b % 16) * 4 + c / 64),
            b64_digit(c % 64),
        ];
        assert(t == head + b64url_of(rest));
        assert(unpadded_len(bytes.len()) == 4 + unpadded_len(rest.len()));
        assert forall|i: int| 0 <= i < t.len() implies url_safe_char(#[trigger] t[i]) by {
            if i >= 4 {
                assert(t[i] == b64url_of(rest)[i - 4]);
            }
        }
    }
}

/// Calls `rand::Rng::fill` on the thread-local generator over a buffer of
/// `n` bytes. Claimed: `n` bytes come back; what they hold is chance.
#[verifier::external_body]
fn random_bytes(n: usize) -> (r: Vec<u8>)
    ensures
        r@.len() == n,
{
    let mut bytes = vec![0u8; n];
    rand::Rng::fill(&mut rand::thread_rng(), &mut bytes[..]);
    bytes
}

/// The nonce of `bytes`.
pub fn nonce_of(bytes: &[u8]) -> (r: Nonce)
    requires
        bytes@.len() == NONCE_BYTES,
    ensures
        r.0@ == b64url_of(bytes@),
        r.0@.len() == 22,
        forall|i: int| 0 <= i < r.0@.len() ==> url_safe_char(#[trigger] r.0@[i]),
{
    proof {
        lemma_b64url_shape(bytes@);
    }
    Nonce(encode_url_safe_no_pad(bytes))
}

/// A fresh nonce: 22 characters of the URL-safe base64 alphabet.
pub fn fresh_nonce() -> (r: Nonce)
    ensures
        r.0@.len() == 22,
        forall|i: int| 0 <= i < r.0@.len() ==> url_safe_char(#[trigger] r.0@[i]),
{
    let bytes = random_bytes(NONCE_BYTES);
    nonce_of(bytes.as_slice())
}

} // verus!
