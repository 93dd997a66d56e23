//! Character scanning and decimal parsing shared by the seed, CIDR and
//! address parsers.

use vstd::prelude::*;
use vstd::string::StrSliceExecFns;

verus! {

/// The first position of `c` in `s`, or `-1` when there is none.
pub open spec fn char_index(s: Seq<char>, c: char) -> int
    decreases s.len(),
{
    if s.len() == 0 {
        -1
    } else if s[0] == c {
        0
    } else {
        let r = char_index(s.drop_first(), c);
        if r < 0 {
            -1
        } else {
            r + 1
        }
    }
}

/// `char_index` finds the first occurrence: its position holds `c`, nothing
/// before it does, and `-1` means the string has none.
pub proof fn lemma_char_index(s: Seq<char>, c: char)
    ensures
        char_index(s, c) >= 0 ==> char_index(s, c) < s.len() && s[char_index(s, c)] == c,
        forall|j: int| 0 <= j < char_index(s, c) ==> s[j] != c,
        char_index(s, c) < 0 ==> forall|j: int| 0 <= j < s.len() ==> s[j] != c,
    decreases s.len(),
{
    if s.len() > 0 && s[0] != c {
        lemma_char_index(s.drop_first(), c);
        assert(forall|j: int| 1 <= j < s.len() ==> s[j] == s.drop_first()[j - 1]);
    }
}

/// Finds the first occurrence of `c` in `s`.
pub fn find_char(s: &str, c: char) -> (r: Option<usize>)
    ensures
        match r {
            Some(i) => i == char_index(s@, c),
            None => char_index(s@, c) < 0,
        },
{
    proof {
        lemma_char_index(s@, c);
    }
    let n = s.unicode_len();
    let mut i: usize = 0;
    while i < n && s.get_char(i) != c
        invariant
            i <= n,
            n == s@.len(),
            forall|j: int| 0 <= j < i ==> s@[j] != c,
            char_index(s@, c) >= 0 ==> char_index(s@, c) < s@.len() && s@[char_index(s@, c)] == c,
            forall|j: int| 0 <= j < char_index(s@, c) ==> s@[j] != c,
            char_index(s@, c) < 0 ==> forall|j: int| 0 <= j < s@.len() ==> s@[j] != c,
        decreases n - i,
    {
        i = i + 1;
    }
    if i == n {
        None
    } else {
        assert(s@[i as int] == c);
        Some(i)
    }
}

/// The value of a decimal digit, or `-1` when the character is none.
pub open spec fn dec_digit(c: char) -> int {
    if '0' <= c <= '9' {
        c as int - '0' as int
    } else {
        -1
    }
}

/// A run of one to `max_len` decimal digits.
pub open spec fn is_dec_seq(s: Seq<char>, max_len: int) -> bool {
    &&& 1 <= s.len() <= max_len
    &&& forall|i: int| 0 <= i < s.len() ==> dec_digit(#[trigger] s[i]) >= 0
}

/// The value of a run of decimal digits, most significant first.
pub open spec fn dec_value(s: Seq<char>) -> int
    decreases s.len(),
{
    if s.len() == 0 {
        0
    } else {
        dec_value(s.drop_last()) * 10 + dec_digit(s.last())
    }
}

/// A digit run of at most five digits stays below `100000`.
pub proof fn lemma_dec_value_bound(s: Seq<char>, max_len: int)
    requires
        is_dec_seq(s, max_len),
        max_len <= 5,
    ensures
        0 <= dec_value(s) < 100000,
    decreases s.len(),
{
    lemma_dec_value_bound_aux(s);
    assert(pow10(0) == 1);
    assert(pow10(1) == 10);
    assert(pow10(2) == 100);
    assert(pow10(3) == 1000);
    assert(pow10(4) == 10000);
    assert(pow10(5) == 100000);
}

/// The value of `k` digits is below `10^k`.
proof fn lemma_dec_value_bound_aux(s: Seq<char>)
    requires
        forall|i: int| 0 <= i < s.len() ==> dec_digit(#[trigger] s[i]) >= 0,
        s.len() <= 5,
    ensures
        0 <= dec_value(s) < pow10(s.len() as int),
    decreases s.len(),
{
    if s.len() > 0 {
        assert(forall|i: int| 0 <= i < s.drop_last().len() ==> s.drop_last()[i] == s[i]);
        lemma_dec_value_bound_aux(s.drop_last());
        assert(dec_digit(s.last()) <= 9);
    }
}

/// `10^k` for the digit counts the parsers admit.
pub open spec fn pow10(k: int) -> int
    decreases k,
{
    if k <= 0 {
        1
    } else {
        10 * pow10(k - 1)
    }
}

/// Parses a run of decimal digits of at most `max_len` characters into its
/// value. `None` when the run is empty, too long, or holds a non-digit.
pub fn parse_dec(s: &str, max_len: usize) -> (r: Option<u32>)
    requires
        max_len <= 5,
    ensures
        r is Some <==> is_dec_seq(s@, max_len as int),
        r matches Some(v) ==> v == dec_value(s@) && v < 100000,
{
    let n = s.unicode_len();
    if n < 1 || n > max_len {
        return None;
    }
    let mut acc: u32 = 0;
    let mut i: usize = 0;
    while i < n
        invariant
            i <= n,
            n == s@.len(),
            1 <= n <= max_len <= 5,
            forall|j: int| 0 <= j < i ==> dec_digit(#[trigger] s@[j]) >= 0,
            acc == dec_value(s@.take(i as int)),
            acc < 100000,
        decreases n - i,
    {
        let c = s.get_char(i);
        let u = c as u32;
        if u < 48 || u > 57 {
            return None;
        }
        proof {
            assert(dec_digit(s@[i as int]) == u - 48);
            assert(s@.take(i as int + 1).drop_last() =~= s@.take(i as int));
            assert(s@.take(i as int + 1).last() == s@[i as int]);
            assert(forall|j: int|
                0 <= j <= i ==> dec_digit(#[trigger] s@.take(i as int + 1)[j]) == dec_digit(
                    s@[j],
                ));
            lemma_dec_value_bound_aux(s@.take(i as int + 1));
            assert(pow10(s@.take(i as int + 1).len() as int) <= 100000) by {
                assert(pow10(0) == 1);
                assert(pow10(1) == 10);
                assert(pow10(2) == 100);
                assert(pow10(3) == 1000);
                assert(pow10(4) == 10000);
                assert(pow10(5) == 100000);
            }
        }
        acc = acc * 10 + (u - 48);
        i = i + 1;
    }
    proof {
        assert(s@.take(n as int) =~= s@);
    }
    Some(acc)
}

} // verus!
