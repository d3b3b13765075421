//! SHA-256 digests and their hexadecimal spelling.
use vstd::prelude::*;

verus! {

/// The SHA-256 digest of `bytes`, as `ring::digest::digest` computes it.
pub uninterp spec fn sha256(bytes: Seq<u8>) -> Seq<u8>;

/// Calls `ring::digest::digest` with the algorithm `ring::digest::SHA256`.
///
/// The digest is a function of the bytes alone and has 32 bytes, the output length of SHA-256.
#[verifier::external_body]
fn sha256_of(bytes: &[u8]) -> (r: Vec<u8>)
    ensures
        r@ == sha256(bytes@),
        r@.len() == 32,
{
    ring::digest::digest(&ring::digest::SHA256, bytes).as_ref().to_vec()
}

/// The lower case hexadecimal digit of value `d`.
pub open spec fn hex_digit(d: int) -> char {
    if d < 10 {
        ((d + 48) as u8) as char
    } else {
        ((d + 87) as u8) as char
    }
}

/// Two hexadecimal digits for each byte.
pub open spec fn hex(bytes: Seq<u8>) -> Seq<char> {
    Seq::new(
        bytes.len() * 2,
        |i: int|
            if i % 2 == 0 {
                hex_digit(bytes[i / 2] as int / 16)
            } else {
                hex_digit(bytes[i / 2] as int % 16)
            },
    )
}

/// The hexadecimal SHA-256 digest of the UTF-8 encoding of `text`.
pub open spec fn text_digest(text: Seq<char>) -> Seq<char> {
    hex(sha256(vstd::utf8::encode_utf8(text)))
}

fn hex_char(d: u8) -> (c: char)
    requires
        d < 16,
    ensures
        c == hex_digit(d as int),
{
    if d < 10 {
        (d + 48) as char
    } else {
        (d + 87) as char
    }
}

/// The hexadecimal SHA-256 digest of a text.
pub fn digest_text(text: &str) -> (r: String)
    ensures
        r@ == text_digest(text@),
        r@.len() == 64,
        forall|n: nat| n <= 64 ==> #[trigger] crate::text::has_prefix_of(r@, n),
{
    let bytes = sha256_of(text.as_bytes());
    let mut s: String = String::new();
    let mut i: usize = 0;
    while i < bytes.len()
        invariant
            i <= bytes@.len(),
            s@ =~= hex(bytes@).take(2 * i),
        decreases bytes@.len() - i,
    {
        s.push(hex_char(bytes[i] / 16));
        s.push(hex_char(bytes[i] % 16));
        i += 1;
    }
    assert(hex(bytes@).take(2 * bytes@.len() as int) =~= hex(bytes@));
    proof {
        assert forall|n: nat| n <= 64 implies #[trigger] crate::text::has_prefix_of(s@, n) by {
            assert forall|k: int| 0 <= k < s@.len() implies (#[trigger] s@[k] as u32) < 0x80 by {
                assert(s@[k] == hex(bytes@)[k]);
            }
            crate::text::lemma_ascii_cut(s@, n);
        }
    }
    s
}

} // verus!
