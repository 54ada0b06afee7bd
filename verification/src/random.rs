//! Random name suffixes: two characters drawn from `rand`'s `Alphanumeric`
//! distribution, appended to a base name.
use vstd::prelude::*;
use rand::Rng;

verus! {

/// Whether `c` is an ASCII letter or an ASCII digit.
pub open spec fn is_ascii_alphanumeric(c: char) -> bool {
    ('a' <= c && c <= 'z') || ('A' <= c && c <= 'Z') || ('0' <= c && c <= '9')
}

/// `base` followed by the characters `c1` and `c2`.
pub open spec fn suffixed(base: Seq<char>, c1: char, c2: char) -> Seq<char> {
    base + seq![c1, c2]
}

/// Draws one character with `rand::thread_rng().sample(Alphanumeric)`.
/// The `rand` source picks it from the 62 characters `A`-`Z`, `a`-`z`,
/// `0`-`9`, so the contract states that the result is one of them; which
/// one is left open, as it depends on the generator's state.
#[verifier::external_body]
fn random_alphanumeric() -> (c: char)
    ensures
        is_ascii_alphanumeric(c),
{
    rand::thread_rng().sample(rand::distributions::Alphanumeric) as char
}

/// `base` followed by two random ASCII letters or digits.
pub fn generate_random_name(base: &str) -> (r: String)
    ensures
        exists|c1: char, c2: char|
            is_ascii_alphanumeric(c1) && is_ascii_alphanumeric(c2) && r@ == #[trigger] suffixed(base@, c1, c2),
{
    let c1 = random_alphanumeric();
    let c2 = random_alphanumeric();
    let mut s = String::from_str(base);
    crate::text::push_char(&mut s, c1);
    crate::text::push_char(&mut s, c2);
    assert(s@ == suffixed(base@, c1, c2));
    s
}

} // verus!
