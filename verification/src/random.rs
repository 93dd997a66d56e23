//! Uniform random choice, and the random database name the local test
//! stack uses.
//!
//! Randomness comes from the process-wide generator of the `rand` crate;
//! nothing is assumed of a drawn value beyond its range.

use vstd::prelude::*;
use rand::Rng;

verus! {

/// How many characters a fresh random database name has.
pub const DATABASE_NAME_LEN: usize = 8;

/// The characters a random name draws from.
pub const NAME_CHARSET: &'static str = "ABCDEFGHIJKLMNOPQRSTUVWXYZabcdefghijklmnopqrstuvwxyz0123456789";

/// An ASCII letter or digit.
pub open spec fn is_alphanumeric_char(c: char) -> bool {
    ||| 'A' <= c <= 'Z'
    ||| 'a' <= c <= 'z'
    ||| '0' <= c <= '9'
}

/// Relies on rand::Rng::gen_range on the thread-local generator: returns an
/// index below the bound. The bound must be positive, an empty range panics.
#[verifier::external_body]
pub fn pick_index(n: usize) -> (r: usize)
    requires
        n >= 1,
    ensures
        r < n,
{
    rand::thread_rng().gen_range(0..n)
}

/// Every character of the name charset is a letter or a digit.
proof fn lemma_charset_alphanumeric()
    ensures
        NAME_CHARSET@.len() == 62,
        forall|i: int| 0 <= i < 62 ==> is_alphanumeric_char(#[trigger] NAME_CHARSET@[i]),
{
    reveal_strlit("ABCDEFGHIJKLMNOPQRSTUVWXYZabcdefghijklmnopqrstuvwxyz0123456789");
}

/// Draws a fresh name for a throwaway peer database: a fixed number of
/// characters picked uniformly from the letters and digits.
pub fn random_database_name() -> (r: String)
    ensures
        r@.len() == DATABASE_NAME_LEN,
        forall|i: int| 0 <= i < r@.len() ==> is_alphanumeric_char(#[trigger] r@[i]),
{
    proof {
        lemma_charset_alphanumeric();
        reveal_strlit("");
    }
    let mut name = String::from_str("");
    let mut i: usize = 0;
    while i < DATABASE_NAME_LEN
        invariant
            name@.len() == i,
            i <= DATABASE_NAME_LEN,
            NAME_CHARSET@.len() == 62,
            forall|k: int| 0 <= k < 62 ==> is_alphanumeric_char(#[trigger] NAME_CHARSET@[k]),
            forall|k: int| 0 <= k < i ==> is_alphanumeric_char(#[trigger] name@[k]),
        decreases DATABASE_NAME_LEN - i,
    {
        let j = pick_index(62);
        let c = NAME_CHARSET.substring_ascii(j, j + 1);
        name.append(c);
        i = i + 1;
    }
    name
}

} // verus!
