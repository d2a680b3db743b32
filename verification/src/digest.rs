//! SHA-256 content digests, rendered as lowercase hex.
use vstd::prelude::*;

use sha2::{Digest, Sha256};

verus! {

/// The SHA-256 digest of `bytes`.
pub uninterp spec fn sha256_of(bytes: Seq<u8>) -> Seq<u8>;

/// The lowercase hex digit of a nibble (`0..16`).
pub open spec fn hex_digit(n: int) -> char {
    if n < 10 {
        ('0' as int + n) as char
    } else {
        ('a' as int + n - 10) as char
    }
}

/// Lowercase hex of `bytes`: two digits per byte, high nibble first.
pub open spec fn hex_of(bytes: Seq<u8>) -> Seq<char>
    decreases bytes.len(),
{
    if bytes.len() == 0 {
        seq![]
    } else {
        hex_of(bytes.drop_last()) + seq![hex_digit(bytes.last() as int / 16), hex_digit(bytes.last() as int % 16)]
    }
}

/// `sha2::Sha256::digest`: the 32-byte SHA-256 digest of the input. The
/// digest itself is named, not restated.
#[verifier::external_body]
fn sha256(bytes: &[u8]) -> (d: Vec<u8>)
    ensures
        d@ == sha256_of(bytes@),
        d.len() == 32,
{
    Sha256::digest(bytes).to_vec()
}

/// `hex::encode`: each byte as two lowercase hex digits, high nibble first.
#[verifier::external_body]
fn hex_encode(bytes: &[u8]) -> (s: String)
    ensures
        s@ == hex_of(bytes@),
{
    hex::encode(bytes)
}

/// The digest text of a file's contents: the hex SHA-256 of the bytes, or
/// `absent` when the file could not be read.
pub open spec fn content_digest_of(contents: Option<Seq<u8>>) -> Seq<char> {
    match contents {
        Some(b) => hex_of(sha256_of(b)),
        None => seq!['a', 'b', 's', 'e', 'n', 't'],
    }
}

/// Hex SHA-256 of a file's contents (`None` when it could not be read, which
/// digests as `absent`).
pub fn content_digest(contents: Option<&[u8]>) -> (s: String)
    ensures
        s@ == content_digest_of(match contents {
            Some(b) => Some(b@),
            None => None,
        }),
{
    match contents {
        Some(b) => {
            let d = sha256(b);
            hex_encode(d.as_slice())
        },
        None => {
            let s = crate::text::owned("absent");
            proof {
                reveal_strlit("absent");
                assert("absent"@ =~= seq!['a', 'b', 's', 'e', 'n', 't']);
            }
            s
        },
    }
}

} // verus!
