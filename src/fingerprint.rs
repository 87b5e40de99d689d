//! Content fingerprints: a seahash digest of the raw bytes, written as
//! sixteen lowercase hexadecimal digits.

use vstd::prelude::*;
use crate::text::string_of;
use vstd::string::StringSliceAdditionalSpecFns;

verus! {

/// The digest that `seahash::hash` gives for a byte sequence.
pub uninterp spec fn seahash_of(b: Seq<u8>) -> u64;

/// Relies on `seahash::hash`: a fixed-seed digest, a function of the bytes alone.
#[verifier::external_body]
fn seahash(b: &[u8]) -> (r: u64)
    ensures
        r == seahash_of(b@),
{
    seahash::hash(b)
}

/// The lowercase hexadecimal digit of `d` (below 16).
pub open spec fn hex_digit(d: nat) -> char {
    if d < 10 {
        (('0' as nat) + d) as char
    } else {
        (('a' as nat) + d - 10) as char
    }
}

/// The last `k` hexadecimal digits of `n`, most significant first.
pub open spec fn hex_digits(n: nat, k: nat) -> Seq<char>
    decreases k,
{
    if k == 0 {
        Seq::empty()
    } else {
        hex_digits(n / 16, (k - 1) as nat).push(hex_digit(n % 16))
    }
}

/// The fingerprint of a document with the given raw bytes.
pub open spec fn fingerprint_spec(b: Seq<u8>) -> Seq<char> {
    hex_digits(seahash_of(b) as nat, 16)
}

/// The fingerprint of a document with the given characters, hashed as UTF-8.
pub open spec fn content_fingerprint(s: Seq<char>) -> Seq<char> {
    fingerprint_spec(vstd::utf8::encode_utf8(s))
}

fn hex_char(d: u64) -> (c: char)
    requires
        d < 16,
    ensures
        c == hex_digit(d as nat),
{
    if d < 10 {
        ((('0' as u8) + (d as u8)) as char)
    } else {
        ((('a' as u8) + (d as u8) - 10) as char)
    }
}

fn hex_chars(n: u64, k: usize) -> (r: Vec<char>)
    ensures
        r@ == hex_digits(n as nat, k as nat),
        r@.len() == k,
    decreases k,
{
    if k == 0 {
        Vec::new()
    } else {
        let mut v = hex_chars(n / 16, k - 1);
        v.push(hex_char(n % 16));
        v
    }
}

/// Sixteen lowercase hexadecimal digits of `n`, zero-padded.
pub fn hex16(n: u64) -> (r: String)
    ensures
        r@ == hex_digits(n as nat, 16),
        r@.len() == 16,
{
    let v = hex_chars(n, 16);
    string_of(&v)
}

/// The fingerprint of a document's raw content.
pub fn fingerprint(contents: &str) -> (r: String)
    ensures
        r@ == fingerprint_spec(contents.spec_bytes()),
        r@ == content_fingerprint(contents@),
        r@.len() == 16,
{
    let h = seahash(contents.as_bytes());
    hex16(h)
}

/// Documents with identical byte content have equal fingerprints.
pub proof fn lemma_fingerprint_deterministic(a: Seq<u8>, b: Seq<u8>)
    requires
        a == b,
    ensures
        fingerprint_spec(a) == fingerprint_spec(b),
{
}

} // verus!
