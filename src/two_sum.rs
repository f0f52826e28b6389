//! The pair-sum search: the first pair of positions whose values add up to
//! a target, in the order of a double loop.
use vstd::prelude::*;

verus! {

/// Positions `i < j` of `s` whose values add up to `t`.
pub open spec fn is_pair(s: Seq<i32>, t: int, i: int, j: int) -> bool {
    0 <= i < j < s.len() && s[i] + s[j] == t
}

/// `(i1, j1)` comes before `(i2, j2)` in the order of the double loop:
/// outer position first, then inner position.
pub open spec fn comes_before(i1: int, j1: int, i2: int, j2: int) -> bool {
    i1 < i2 || (i1 == i2 && j1 < j2)
}

/// Some pair of positions of `s` adds up to `t`.
pub open spec fn has_pair(s: Seq<i32>, t: int) -> bool {
    exists|i: int, j: int| is_pair(s, t, i, j)
}

/// `(i, j)` is a pair adding up to `t`, and no pair before it does.
pub open spec fn is_first_pair(s: Seq<i32>, t: int, i: int, j: int) -> bool {
    &&& is_pair(s, t, i, j)
    &&& forall|a: int, b: int| comes_before(a, b, i, j) ==> !is_pair(s, t, a, b)
}

pub struct Solution;

impl Solution {
    /// Returns `[i, j]` for the first pair of positions `i < j` with
    /// `numbers[i] + numbers[j] == target` (outer position first, then inner),
    /// or an empty vector when no pair adds up to `target`.
    pub fn two_sum(numbers: Vec<i32>, target: i32) -> (r: Vec<i32>)
        requires
            numbers@.len() <= i32::MAX,
        ensures
            has_pair(numbers@, target as int) ==> {
                &&& r@.len() == 2
                &&& numbers@[r@[0] as int] + numbers@[r@[1] as int] == target
                &&& is_first_pair(numbers@, target as int, r@[0] as int, r@[1] as int)
            },
            !has_pair(numbers@, target as int) ==> r@.len() == 0,
    {
        let n: usize = numbers.len();
        let mut i: usize = 0;
        while i < n
            invariant
                n == numbers@.len(),
                n <= i32::MAX,
                i <= n,
                forall|a: int, b: int| 0 <= a < i ==> !is_pair(numbers@, target as int, a, b),
            decreases n - i,
        {
            let mut j: usize = i + 1;
            while j < n
                invariant
                    n == numbers@.len(),
                    n <= i32::MAX,
                    i < n,
                    i + 1 <= j <= n,
                    forall|a: int, b: int| 0 <= a < i ==> !is_pair(numbers@, target as int, a, b),
                    forall|b: int| b < j ==> !is_pair(numbers@, target as int, i as int, b),
                decreases n - j,
            {
                if numbers[i] as i64 + numbers[j] as i64 == target as i64 {
                    let r = vec![i as i32, j as i32];
                    assert(is_pair(numbers@, target as int, i as int, j as int));
                    return r;
                }
                j += 1;
            }
            i += 1;
        }
        Vec::new()
    }
}

} // verus!
