//! SHA-256 digests (the `sha2` crate) and their lowercase hex text (the `hex` crate).
use vstd::prelude::*;
use sha2::Digest;

verus! {

/// SHA-256 digest of a byte string, as `sha2::Sha256` computes it.
pub uninterp spec fn sha256(data: Seq<u8>) -> Seq<u8>;

/// Hashes `data` with `sha2::Sha256` (`Sha256::new`, `update`, `finalize`).
/// Trusted: the result is `sha256` of the input and is 32 bytes long, the
/// output size of SHA-256.
#[verifier::external_body]
pub(crate) fn sha256_digest(data: &[u8]) -> (r: Vec<u8>)
    ensures
        r@ == sha256(data@),
        r@.len() == 32,
{
    let mut hasher = sha2::Sha256::new();
    hasher.update(data);
    hasher.finalize().to_vec()
}

/// Lowercase hex digit of a value below 16.
pub open spec fn hex_digit(v: int) -> char {
    if v < 10 {
        (('0' as int) + v) as char
    } else {
        (('a' as int) + v - 10) as char
    }
}

/// Lowercase hex text of a byte string, two digits per byte, high nibble first.
pub open spec fn hex_lower(data: Seq<u8>) -> Seq<char>
    decreases data.len(),
{
    if data.len() == 0 {
        seq![]
    } else {
        seq![hex_digit(data[0] as int / 16), hex_digit(data[0] as int % 16)] + hex_lower(
            data.drop_first(),
        )
    }
}

pub proof fn lemma_hex_lower_len(data: Seq<u8>)
    ensures
        hex_lower(data).len() == 2 * data.len(),
    decreases data.len(),
{
    if data.len() > 0 {
        lemma_hex_lower_len(data.drop_first());
    }
}

/// A text made of lowercase hex digits only.
pub open spec fn lower_hex_text(s: Seq<char>) -> bool {
    forall|i: int| 0 <= i < s.len() ==> ('0' <= #[trigger] s[i] <= '9' || 'a' <= s[i] <= 'f')
}

pub proof fn lemma_hex_lower_digits(data: Seq<u8>)
    ensures
        lower_hex_text(hex_lower(data)),
    decreases data.len(),
{
    if data.len() > 0 {
        lemma_hex_lower_digits(data.drop_first());
        let h = seq![hex_digit(data[0] as int / 16), hex_digit(data[0] as int % 16)];
        let t = hex_lower(data.drop_first());
        assert forall|i: int| 0 <= i < (h + t).len() implies ('0' <= #[trigger] (h + t)[i] <= '9' || 'a' <= (h + t)[i] <= 'f') by {
            if i >= 2 {
                assert((h + t)[i] == t[i - 2]);
            }
        }
    }
}

/// Encodes bytes with `hex::encode`.
/// Trusted: the text is `hex_lower` of the bytes (the crate's lowercase table
/// `0123456789abcdef`, high nibble first).
#[verifier::external_body]
pub(crate) fn hex_encode(data: &[u8]) -> (r: String)
    ensures
        r@ == hex_lower(data@),
{
    hex::encode(data)
}

/// Lowercase hex SHA-256 of the UTF-8 bytes of `s`.
pub open spec fn sha256_hex(s: Seq<char>) -> Seq<char> {
    hex_lower(sha256(vstd::utf8::encode_utf8(s)))
}

/// Lowercase hex SHA-256 of the UTF-8 bytes of `s`.
pub fn hash_text(s: &str) -> (r: String)
    ensures
        r@ == sha256_hex(s@),
        r@.len() == 64,
        lower_hex_text(r@),
{
    let bytes = s.as_bytes();
    let d = sha256_digest(bytes);
    proof {
        lemma_hex_lower_len(d@);
        lemma_hex_lower_digits(d@);
    }
    hex_encode(d.as_slice())
}

/// Lowercase hex SHA-256 of raw bytes.
pub fn hash_bytes(data: &[u8]) -> (r: String)
    ensures
        r@ == hex_lower(sha256(data@)),
        r@.len() == 64,
        lower_hex_text(r@),
{
    let d = sha256_digest(data);
    proof {
        lemma_hex_lower_len(d@);
        lemma_hex_lower_digits(d@);
    }
    hex_encode(d.as_slice())
}

} // verus!
