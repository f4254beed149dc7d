//! Content digesting: SHA-256 over file content already read into memory,
//! hex-encoded to the string that keys the digest index.
use vstd::prelude::*;
use crate::model::DigestDto;

verus! {

/// The SHA-256 digest of a byte sequence, as the outside digest routine
/// computes it: a function of the input bytes alone.
pub uninterp spec fn sha256_of(bytes: Seq<u8>) -> Seq<u8>;

/// The lowercase hex digit of one nibble.
pub open spec fn hex_digit(n: u8) -> char {
    if n == 0 {
        '0'
    } else if n == 1 {
        '1'
    } else if n == 2 {
        '2'
    } else if n == 3 {
        '3'
    } else if n == 4 {
        '4'
    } else if n == 5 {
        '5'
    } else if n == 6 {
        '6'
    } else if n == 7 {
        '7'
    } else if n == 8 {
        '8'
    } else if n == 9 {
        '9'
    } else if n == 10 {
        'a'
    } else if n == 11 {
        'b'
    } else if n == 12 {
        'c'
    } else if n == 13 {
        'd'
    } else if n == 14 {
        'e'
    } else {
        'f'
    }
}

/// Lowercase hex encoding: two digits per byte, high nibble first.
pub open spec fn hex_of(bytes: Seq<u8>) -> Seq<char>
    decreases bytes.len(),
{
    if bytes.len() == 0 {
        Seq::empty()
    } else {
        hex_of(bytes.drop_last()) + seq![
            hex_digit(bytes.last() / 16),
            hex_digit(bytes.last() % 16),
        ]
    }
}

/// A lowercase hex digit as `hex_digit` produces them.
pub open spec fn is_hex_digit_char(c: char) -> bool {
    exists|n: u8| n < 16 && #[trigger] hex_digit(n) == c
}

/// Hex encoding yields two digits per byte, every one a lowercase hex
/// digit.
pub proof fn lemma_hex_of_shape(bytes: Seq<u8>)
    ensures
        hex_of(bytes).len() == 2 * bytes.len(),
        forall|i: int| 0 <= i < hex_of(bytes).len() ==> is_hex_digit_char(
            #[trigger] hex_of(bytes)[i],
        ),
    decreases bytes.len(),
{
    if bytes.len() > 0 {
        lemma_hex_of_shape(bytes.drop_last());
        let b = bytes.last();
        assert(b / 16 < 16 && hex_digit(b / 16) == hex_digit(b / 16));
        assert(b % 16 < 16 && hex_digit(b % 16) == hex_digit(b % 16));
        assert(is_hex_digit_char(hex_digit(b / 16)));
        assert(is_hex_digit_char(hex_digit(b % 16)));
    }
}

/// Relies on ring::digest::digest with the SHA-256 algorithm: the digest
/// depends on the input bytes alone and is 32 bytes long.
#[verifier::external_body]
fn sha256_bytes(bytes: &[u8]) -> (r: Vec<u8>)
    ensures
        r@ == sha256_of(bytes@),
        r@.len() == 32,
{
    ring::digest::digest(&ring::digest::SHA256, bytes).as_ref().to_vec()
}

/// Relies on hex::encode: two lowercase hex digits per input byte, high
/// nibble first.
#[verifier::external_body]
fn hex_encode(bytes: &[u8]) -> (r: String)
    ensures
        r@ == hex_of(bytes@),
{
    hex::encode(bytes)
}

/// The hex-encoded SHA-256 digest of a byte sequence: the string that
/// keys the digest index, equal for equal content.
pub fn digest_value(content: &[u8]) -> (r: String)
    ensures
        r@ == hex_of(sha256_of(content@)),
        r@.len() == 64,
        forall|i: int| 0 <= i < r@.len() ==> is_hex_digit_char(#[trigger] r@[i]),
{
    let d = sha256_bytes(content);
    proof {
        lemma_hex_of_shape(d@);
    }
    hex_encode(d.as_slice())
}

/// Equal file content yields equal digest keys: the content digest is a
/// function of the bytes alone, so bit-identical files always share one
/// digest-index group.
pub proof fn lemma_digest_function_of_content(a: Seq<u8>, b: Seq<u8>)
    requires
        a == b,
    ensures
        hex_of(sha256_of(a)) == hex_of(sha256_of(b)),
{
}

/// SHA-256 content digester. Reading a file is the caller's part; the
/// digest of its bytes is computed and described here.
pub struct Sha256Digest {}

impl Sha256Digest {
    /// Digest content already read into memory.
    pub fn digest_bytes(&self, content: &[u8], elapsed_ms: u128) -> (r: DigestDto)
        ensures
            r.algorithm@ == "Sha256"@,
            r.value@ == hex_of(sha256_of(content@)),
            r.value@.len() == 64,
            r.elapsed_time == elapsed_ms,
    {
        DigestDto {
            algorithm: "Sha256".to_owned(),
            value: digest_value(content),
            elapsed_time: elapsed_ms,
        }
    }
}

} // verus!
