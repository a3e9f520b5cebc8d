//! The alphabet of short codes, and random codes drawn from it.
use vstd::prelude::*;

verus! {

/// Number of characters in the code alphabet.
pub const ALPHABET_LEN: usize = 62;

/// A character may appear in a short code: an ASCII digit, lowercase or uppercase letter.
pub open spec fn is_code_char(c: char) -> bool {
    ('0' <= c && c <= '9') || ('a' <= c && c <= 'z') || ('A' <= c && c <= 'Z')
}

/// Every character of `s` belongs to the code alphabet.
pub open spec fn is_code_string(s: Seq<char>) -> bool {
    forall|i: int| 0 <= i < s.len() ==> #[trigger] is_code_char(s[i])
}

/// Whether `c` belongs to the code alphabet.
pub fn in_alphabet(c: char) -> (r: bool)
    ensures
        r == is_code_char(c),
{
    ('0' <= c && c <= '9') || ('a' <= c && c <= 'z') || ('A' <= c && c <= 'Z')
}

/// The alphabet in its fixed order: digits, then lowercase, then uppercase letters.
pub fn alphabet() -> (r: Vec<char>)
    ensures
        forall|i: int| 0 <= i < r@.len() ==> (r@[i] as u32) < 128,
        r@.len() == ALPHABET_LEN,
        r@.no_duplicates(),
        is_code_string(r@),
{
    let r = vec![
        '0', '1', '2', '3', '4', '5', '6', '7', '8', '9', 'a', 'b', 'c', 'd', 'e', 'f', 'g', 'h',
        'i', 'j', 'k', 'l', 'm', 'n', 'o', 'p', 'q', 'r', 's', 't', 'u', 'v', 'w', 'x', 'y', 'z',
        'A', 'B', 'C', 'D', 'E', 'F', 'G', 'H', 'I', 'J', 'K', 'L', 'M', 'N', 'O', 'P', 'Q', 'R',
        'S', 'T', 'U', 'V', 'W', 'X', 'Y', 'Z',
    ];
    r
}

/// Relies on `nanoid::format` with `nanoid::rngs::default` (bytes from an entropy-seeded
/// `StdRng`): the result has `size` characters, each one taken from `alphabet`. The function
/// asserts that the alphabet has at most 255 characters, stops once `size` bytes are pushed
/// (so the alphabet must be ASCII), and never returns for an empty alphabet or for size 0.
#[verifier::external_body]
fn random_code(alphabet: &[char], size: usize) -> (r: String)
    requires
        0 < alphabet@.len() <= 255,
        forall|i: int| 0 <= i < alphabet@.len() ==> (alphabet@[i] as u32) < 128,
        0 < size <= usize::MAX / 8,
    ensures
        r@.len() == size,
        forall|i: int| 0 <= i < r@.len() ==> alphabet@.contains(#[trigger] r@[i]),
{
    nanoid::format(nanoid::rngs::default, alphabet, size)
}

/// A fresh random short code of `length` characters drawn uniformly from the alphabet.
pub fn generate_short_code(length: usize) -> (r: String)
    requires
        length <= usize::MAX / 8,
    ensures
        r@.len() == length,
        is_code_string(r@),
{
    if length == 0 {
        return String::new();
    }
    let chars = alphabet();
    let r = random_code(chars.as_slice(), length);
    assert forall|i: int| 0 <= i < r@.len() implies #[trigger] is_code_char(r@[i]) by {
        let j = choose|j: int| 0 <= j < chars@.len() && chars@[j] == r@[i];
        assert(is_code_char(chars@[j]));
    }
    r
}

} // verus!
