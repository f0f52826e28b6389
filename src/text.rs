//! Text helpers: a suffix test, the first word of a line, and the email
//! domain given to newborns.
use vstd::prelude::*;

verus! {

/// The address domain given to a newborn's email.
pub const GMAIL_SUFFIX: &'static str = "@gmail.com";

/// `suffix` is a suffix of `s`.
pub open spec fn has_suffix(s: Seq<char>, suffix: Seq<char>) -> bool {
    suffix.len() <= s.len() && s.subrange(s.len() - suffix.len(), s.len() as int) == suffix
}

/// Whether `s` ends with `suffix`, comparing characters.
pub fn ends_with(s: &str, suffix: &str) -> (r: bool)
    ensures
        r == has_suffix(s@, suffix@),
{
    let n = s.unicode_len();
    let m = suffix.unicode_len();
    if m > n {
        return false;
    }
    let offset: usize = n - m;
    let mut k: usize = 0;
    while k < m
        invariant
            n == s@.len(),
            m == suffix@.len(),
            m <= n,
            offset == n - m,
            k <= m,
            forall|i: int| 0 <= i < k ==> s@[offset + i] == suffix@[i],
        decreases m - k,
    {
        if s.get_char(offset + k) != suffix.get_char(k) {
            assert(s@.subrange(offset as int, n as int)[k as int] != suffix@[k as int]);
            return false;
        }
        k += 1;
    }
    assert(s@.subrange(offset as int, n as int) =~= suffix@);
    true
}

/// The characters of `s` before its first space, or all of `s` when it has
/// no space.
pub open spec fn before_first_space(s: Seq<char>) -> Seq<char> {
    if exists|i: int| 0 <= i < s.len() && s[i] == ' ' {
        let i = choose|i: int| 0 <= i < s.len() && s[i] == ' ' && forall|k: int| 0 <= k < i ==> s[k] != ' ';
        s.take(i)
    } else {
        s
    }
}

/// The first word of `example`: everything before its first space.
pub fn first_word(example: &str) -> (r: &str)
    ensures
        r@ == before_first_space(example@),
{
    let n = example.unicode_len();
    let mut i: usize = 0;
    while i < n
        invariant
            n == example@.len(),
            i <= n,
            forall|k: int| 0 <= k < i ==> example@[k] != ' ',
        decreases n - i,
    {
        if example.get_char(i) == ' ' {
            proof {
                let s = example@;
                assert(0 <= i < s.len() && s[i as int] == ' ' && forall|k: int| 0 <= k < i ==> s[k] != ' ');
                let j = choose|j: int| 0 <= j < s.len() && s[j] == ' ' && forall|k: int| 0 <= k < j ==> s[k] != ' ';
                assert(j == i) by {
                    if j < i {
                        assert(s[j] != ' ');
                    } else if j > i {
                        assert(s[i as int] != ' ');
                    }
                };
            }
            return example.substring_char(0, i);
        }
        i += 1;
    }
    example
}

} // verus!
