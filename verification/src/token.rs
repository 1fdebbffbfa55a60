//! Generation of random short tokens over a fixed alphabet.

use vstd::prelude::*;

verus! {

/// Length of every generated token.
pub const TOKEN_LEN: usize = 6;

/// Number of symbols in the token alphabet.
pub const ALPHABET_LEN: usize = 36;

/// The fixed alphabet generated tokens are drawn from: the 26 lowercase
/// ASCII letters followed by the 10 decimal digits.
pub open spec fn token_alphabet() -> Seq<char> {
    "abcdefghijklmnopqrstuvwxyz0123456789"@
}

/// What it means for a string to be a generated token: exactly `TOKEN_LEN`
/// characters, each drawn from the token alphabet.
pub open spec fn is_generated_token(t: Seq<char>) -> bool {
    &&& t.len() == TOKEN_LEN
    &&& forall|i: int| 0 <= i < t.len() ==> token_alphabet().contains(#[trigger] t[i])
}

/// The lowercased form of a sequence of characters, as `str::to_lowercase`
/// computes it.
pub uninterp spec fn lower_of(s: Seq<char>) -> Seq<char>;

/// Relies on `str::to_lowercase`: the result is a function of the input
/// characters alone, and an empty string stays empty.
#[verifier::external_body]
pub(crate) fn lowercase(s: &str) -> (r: String)
    ensures
        r@ == lower_of(s@),
        s@.len() == 0 ==> r@.len() == 0,
{
    s.to_lowercase()
}

/// The token alphabet as an executable string slice.
fn alphabet_str() -> (s: &'static str)
    ensures
        s@ == token_alphabet(),
        s@.len() == ALPHABET_LEN,
{
    let a = "abcdefghijklmnopqrstuvwxyz0123456789";
    proof {
        reveal_strlit("abcdefghijklmnopqrstuvwxyz0123456789");
    }
    a
}

/// Relies on `rand::random_range`: for the non-empty range `0..n` it
/// returns a uniformly distributed value inside the range, so the result
/// is strictly below `n`. Nothing more can be promised of a random draw.
#[verifier::external_body]
fn random_index(n: usize) -> (r: usize)
    requires
        n > 0,
    ensures
        r < n,
{
    rand::random_range(0..n)
}

/// Produce a fresh random token: `TOKEN_LEN` symbols drawn from the token
/// alphabet. Always succeeds; uniqueness is not this function's concern and
/// is enforced at the store layer instead.
pub fn generate_token() -> (t: String)
    ensures
        is_generated_token(t@),
{
    let alpha = alphabet_str();
    let mut t = String::new();
    let mut k: usize = 0;
    while k < TOKEN_LEN
        invariant
            k <= TOKEN_LEN,
            t@.len() == k,
            alpha@ == token_alphabet(),
            alpha@.len() == ALPHABET_LEN,
            forall|i: int| 0 <= i < t@.len() ==> token_alphabet().contains(#[trigger] t@[i]),
        decreases TOKEN_LEN - k,
    {
        let idx = random_index(ALPHABET_LEN);
        let c = alpha.substring_char(idx, idx + 1);
        proof {
            assert(c@[0] == token_alphabet()[idx as int]);
            assert(token_alphabet().contains(c@[0]));
        }
        t.append(c);
        k = k + 1;
    }
    t
}

} // verus!
