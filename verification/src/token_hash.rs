//! Token hashing for stored credentials: SHA-256 as the current
//! standard, SHA-1 only for backward-compatible lookups of old rows,
//! both rendered as lowercase hex.

use vstd::prelude::*;
use vstd::string::StringSliceAdditionalSpecFns;

use sha1::Digest as _;
use sha2::Digest as _;

use crate::strings::push_char;

verus! {

/// The lowercase hex digit of a value below sixteen.
pub open spec fn hex_digit(v: u8) -> char
    recommends
        v < 16,
{
    if v < 10 {
        ((v + 48) as u8) as char
    } else {
        ((v + 87) as u8) as char
    }
}

/// The lowercase hex rendering of a byte string, two digits per byte.
pub open spec fn hex_of(bytes: Seq<u8>) -> Seq<char> {
    Seq::new(
        (2 * bytes.len()) as nat,
        |i: int| if i % 2 == 0 {
            hex_digit(bytes[i / 2] / 16)
        } else {
            hex_digit(bytes[i / 2] % 16)
        },
    )
}

/// What SHA-256 digests a byte string to: a function of the input
/// alone.
pub uninterp spec fn sha256_of(bytes: Seq<u8>) -> Seq<u8>;

/// What SHA-1 digests a byte string to: a function of the input
/// alone.
pub uninterp spec fn sha1_of(bytes: Seq<u8>) -> Seq<u8>;

/// Relies on `sha2::Sha256::digest`: the 32-byte digest of the input,
/// depending on the input alone.
#[verifier::external_body]
fn sha256_digest(data: &[u8]) -> (r: Vec<u8>)
    ensures
        r@ == sha256_of(data@),
        r@.len() == 32,
{
    sha2::Sha256::digest(data).to_vec()
}

/// Relies on `sha1::Sha1::digest`: the 20-byte digest of the input,
/// depending on the input alone.
#[verifier::external_body]
fn sha1_digest(data: &[u8]) -> (r: Vec<u8>)
    ensures
        r@ == sha1_of(data@),
        r@.len() == 20,
{
    sha1::Sha1::digest(data).to_vec()
}

fn hex_digit_char(v: u8) -> (c: char)
    requires
        v < 16,
    ensures
        c == hex_digit(v),
{
    if v < 10 {
        (v + 48) as char
    } else {
        (v + 87) as char
    }
}

/// Renders bytes as lowercase hex, two digits per byte.
pub fn hex_encode(bytes: &[u8]) -> (r: String)
    ensures
        r@ == hex_of(bytes@),
{
    let n = bytes.len();
    let mut r = String::new();
    let mut i: usize = 0;
    while i < n
        invariant
            i <= n,
            n == bytes@.len(),
            r@.len() == 2 * i,
            forall|k: int| 0 <= k < r@.len() ==> r@[k] == hex_of(bytes@)[k],
        decreases n - i,
    {
        let b = bytes[i];
        push_char(&mut r, hex_digit_char(b / 16));
        push_char(&mut r, hex_digit_char(b % 16));
        i = i + 1;
    }
    proof {
        assert(r@ =~= hex_of(bytes@));
    }
    r
}

/// Renders bytes as lowercase hex; the spelling used where callers
/// expect the free-standing name.
pub fn encode(bytes: &[u8]) -> (r: String)
    ensures
        r@ == hex_of(bytes@),
{
    hex_encode(bytes)
}

/// Hash a raw token with SHA-256 (the current standard).
pub fn hash_token(raw_token: &str) -> (r: String)
    ensures
        r@ == hex_of(sha256_of(raw_token.spec_bytes())),
{
    let digest = sha256_digest(raw_token.as_bytes());
    hex_encode(digest.as_slice())
}

/// Hash a raw token with legacy SHA-1 (for backward-compatible
/// lookups).
pub fn hash_token_sha1(raw_token: &str) -> (r: String)
    ensures
        r@ == hex_of(sha1_of(raw_token.spec_bytes())),
{
    let digest = sha1_digest(raw_token.as_bytes());
    hex_encode(digest.as_slice())
}

} // verus!
