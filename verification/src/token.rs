//! The token that the nodes of a cluster share.

use rand::Rng;
use vstd::prelude::*;

verus! {

/// How many random bytes a token is made of.
pub const TOKEN_BYTES: usize = 16;

/// The digit of base 16 for a number below 16, in lower case.
pub open spec fn hex_digit(n: int) -> char {
    if n < 10 {
        ('0' as int + n) as char
    } else {
        ('a' as int + n - 10) as char
    }
}

/// Whether a character is a digit of base 16, in lower case.
pub open spec fn is_hex_digit(c: char) -> bool {
    '0' <= c <= '9' || 'a' <= c <= 'f'
}

/// Two digits of base 16 for each byte, the higher one first.
pub open spec fn hex_text(bytes: Seq<u8>) -> Seq<char> {
    Seq::new(
        2 * bytes.len(),
        |i: int|
            if i % 2 == 0 {
                hex_digit(bytes[i / 2] as int / 16)
            } else {
                hex_digit(bytes[i / 2] as int % 16)
            },
    )
}

/// Calls `hex::encode`, which writes each byte as two digits of base 16 in lower
/// case, the higher digit first. A string holds at most `isize::MAX` bytes, so
/// there must be room for the digits.
#[verifier::external_body]
fn encode(bytes: &Vec<u8>) -> (r: String)
    requires
        2 * bytes@.len() <= isize::MAX,
    ensures
        r@ == hex_text(bytes@),
{
    hex::encode(bytes)
}

/// Calls `gen` on the generator that `rand::thread_rng` returns, for one byte.
/// Which byte comes is left to chance. The generator cannot be had, and the call
/// panics, where the operating system has no source of randomness.
#[verifier::external_body]
fn random_byte() -> (r: u8) {
    rand::thread_rng().gen::<u8>()
}

/// Whether a text has the form of a generated token.
pub open spec fn is_token(s: Seq<char>) -> bool {
    s.len() == 2 * TOKEN_BYTES && forall|i: int| 0 <= i < s.len() ==> is_hex_digit(#[trigger] s[i])
}

/// Encoded bytes are digits of base 16, two for each.
pub proof fn lemma_hex_digits(bytes: Seq<u8>)
    ensures
        hex_text(bytes).len() == 2 * bytes.len(),
        forall|i: int| 0 <= i < hex_text(bytes).len() ==> is_hex_digit(#[trigger] hex_text(bytes)[i]),
{
    assert forall|i: int| 0 <= i < hex_text(bytes).len() implies is_hex_digit(
        #[trigger] hex_text(bytes)[i],
    ) by {
        let b = bytes[i / 2];
        assert(0 <= b as int / 16 < 16);
        assert(0 <= b as int % 16 < 16);
    }
}

/// Different bytes have different texts: a token gives the bytes back that it was
/// made of.
pub proof fn lemma_hex_is_injective(a: Seq<u8>, b: Seq<u8>)
    requires
        hex_text(a) == hex_text(b),
    ensures
        a == b,
{
    assert(hex_text(a).len() == 2 * a.len());
    assert(hex_text(b).len() == 2 * b.len());
    assert forall|k: int| 0 <= k < a.len() implies a[k] == b[k] by {
        assert(hex_text(a)[2 * k] == hex_digit(a[k] as int / 16));
        assert(hex_text(b)[2 * k] == hex_digit(b[k] as int / 16));
        assert((2 * k + 1) / 2 == k);
        assert(hex_text(a)[2 * k + 1] == hex_digit(a[k] as int % 16));
        assert(hex_text(b)[2 * k + 1] == hex_digit(b[k] as int % 16));
        lemma_hex_digit_is_injective(a[k] as int / 16, b[k] as int / 16);
        lemma_hex_digit_is_injective(a[k] as int % 16, b[k] as int % 16);
    }
    assert(a =~= b);
}

proof fn lemma_hex_digit_is_injective(m: int, n: int)
    requires
        0 <= m < 16,
        0 <= n < 16,
        hex_digit(m) == hex_digit(n),
    ensures
        m == n,
{
}

/// The token that these bytes make.
pub fn token_from_bytes(bytes: &Vec<u8>) -> (r: String)
    requires
        2 * bytes@.len() <= isize::MAX,
    ensures
        r@ == hex_text(bytes@),
{
    encode(bytes)
}

/// A token of random bytes.
pub fn generate_token() -> (r: String)
    ensures
        is_token(r@),
{
    let mut bytes: Vec<u8> = Vec::new();
    while bytes.len() < TOKEN_BYTES
        invariant
            bytes@.len() <= TOKEN_BYTES,
        decreases TOKEN_BYTES - bytes@.len(),
    {
        bytes.push(random_byte());
    }
    proof {
        lemma_hex_digits(bytes@);
    }
    token_from_bytes(&bytes)
}

/// The token that was given, else one of random bytes.
pub fn cluster_token(given: Option<String>) -> (r: String)
    ensures
        match given {
            Some(token) => r == token,
            None => is_token(r@),
        },
{
    match given {
        Some(token) => token,
        None => generate_token(),
    }
}

} // verus!
