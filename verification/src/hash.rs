//! The hash engine: SHA-256 over a canonical string, hex-encoded lowercase.
//!
//! The digest itself comes from the `sha2` crate; the hex encoding of the
//! digest bytes is done and verified here.

use vstd::prelude::*;

use sha2::{Digest, Sha256};

use crate::text::lower_char;

verus! {

/// The SHA-256 digest (32 bytes) of the UTF-8 encoding of a character
/// sequence.  The digest is a pure function of the input characters; its
/// value is not given here, only named.
pub uninterp spec fn sha256_of(s: Seq<char>) -> Seq<u8>;

/// Relies on `sha2::Sha256` through the `digest` crate's `Digest` trait:
/// hashing consumes the input bytes alone and `finalize` returns the
/// 32-byte SHA-256 digest.
#[verifier::external_body]
fn sha256_digest(s: &str) -> (r: Vec<u8>)
    ensures
        r@ == sha256_of(s@),
        r@.len() == 32,
{
    let mut hasher = Sha256::new();
    hasher.update(s.as_bytes());
    hasher.finalize().to_vec()
}

/// The lowercase hexadecimal digit for a value below 16.
pub open spec fn hex_digit(d: u8) -> char
    recommends
        d < 16,
{
    if d < 10 {
        ((d + 48) as char)
    } else {
        ((d + 87) as char)
    }
}

/// Lowercase hexadecimal encoding: two digits per byte, high nibble first.
pub open spec fn hex_of_bytes(bs: Seq<u8>) -> Seq<char>
    decreases bs.len(),
{
    if bs.len() == 0 {
        Seq::empty()
    } else {
        seq![hex_digit(bs[0] / 16), hex_digit(bs[0] % 16)] + hex_of_bytes(bs.skip(1))
    }
}

/// A lowercase hexadecimal digit character.
pub open spec fn is_lower_hex_char(c: char) -> bool {
    ('0' <= c && c <= '9') || ('a' <= c && c <= 'f')
}

/// A character that counts as a hexadecimal digit in either case.
pub open spec fn is_hex_char(c: char) -> bool {
    ('0' <= c && c <= '9') || ('a' <= c && c <= 'f') || ('A' <= c && c <= 'F')
}

/// Lower-casing a hex digit keeps it a hex digit; the encoding of bytes
/// is made of lowercase hex digits, two per byte.
pub proof fn lemma_hex_of_bytes_props(bs: Seq<u8>)
    ensures
        hex_of_bytes(bs).len() == 2 * bs.len(),
        forall|i: int|
            0 <= i < hex_of_bytes(bs).len() ==> is_lower_hex_char(#[trigger] hex_of_bytes(bs)[i]),
    decreases bs.len(),
{
    if bs.len() > 0 {
        lemma_hex_of_bytes_props(bs.skip(1));
    }
}

/// Encodes a byte vector as lowercase hexadecimal.
pub fn hex_str_of_bytes(bs: &Vec<u8>) -> (r: String)
    ensures
        r@ == hex_of_bytes(bs@),
{
    let n = bs.len();
    let mut out = String::new();
    let mut i: usize = 0;
    proof {
        assert(bs@.skip(0) =~= bs@);
    }
    while i < n
        invariant
            n == bs@.len(),
            i <= n,
            hex_of_bytes(bs@) == out@ + hex_of_bytes(bs@.skip(i as int)),
        decreases n - i,
    {
        proof {
            assert(bs@.skip(i as int).skip(1) =~= bs@.skip(i as int + 1));
            assert(bs@.skip(i as int)[0] == bs@[i as int]);
        }
        let b = bs[i];
        let hi: u8 = b / 16;
        let lo: u8 = b % 16;
        let hc: char = if hi < 10 {
            (hi + 48) as char
        } else {
            (hi + 87) as char
        };
        let lc: char = if lo < 10 {
            (lo + 48) as char
        } else {
            (lo + 87) as char
        };
        let ghost pre = out@;
        out.push(hc);
        out.push(lc);
        i += 1;
        proof {
            assert(out@ =~= pre + seq![hc, lc]);
        }
    }
    proof {
        assert(bs@.skip(n as int) =~= Seq::<u8>::empty());
        assert(hex_of_bytes(bs@) =~= out@);
    }
    out
}

/// The SHA-256 digest of a character sequence, hex-encoded lowercase: the
/// 64-character hash value every canonical record hash is made of.
pub open spec fn sha256_hex_of(s: Seq<char>) -> Seq<char> {
    hex_of_bytes(sha256_of(s))
}

/// Hashes a string with SHA-256 and returns the digest as 64 lowercase
/// hexadecimal characters.
pub fn sha256_hex(s: &str) -> (r: String)
    ensures
        r@ == sha256_hex_of(s@),
        r@.len() == 64,
        forall|i: int| 0 <= i < r@.len() ==> is_lower_hex_char(#[trigger] r@[i]),
{
    let digest = sha256_digest(s);
    let r = hex_str_of_bytes(&digest);
    proof {
        lemma_hex_of_bytes_props(digest@);
    }
    r
}

/// A lowercase hex digit is unchanged by lower-casing, and lower-casing an
/// uppercase hex digit yields its lowercase form.
pub proof fn lemma_lower_hex_char(c: char)
    requires
        is_hex_char(c),
    ensures
        is_lower_hex_char(lower_char(c)),
{
}

} // verus!
