//! Generic code: a random shuffle, a bag of items of any type, and a trait
//! for things that have a length.
use vstd::prelude::*;
use vstd::multiset::Multiset;
use rand::Rng;

verus! {

#[verifier::external_type_specification]
#[verifier::external_body]
pub struct ExThreadRng(rand::rngs::ThreadRng);

/// Relies on rand::thread_rng: hands out the thread's random number
/// generator; nothing is promised of its state.
pub assume_specification[ rand::thread_rng ]() -> rand::rngs::ThreadRng;

/// Relies on rand's `Rng::gen_range` over `0..len`: a value in the range,
/// which it cannot sample when the range is empty.
#[verifier::external_body]
fn random_below(rng: &mut rand::rngs::ThreadRng, len: usize) -> (r: usize)
    requires
        len > 0,
    ensures
        r < len,
{
    rng.gen_range(0..len)
}

/// Relies on `<[T]>::swap`: exchanges the items at `i` and `j`.
#[verifier::external_body]
fn swap_items<T>(v: &mut Vec<T>, i: usize, j: usize)
    requires
        i < old(v)@.len(),
        j < old(v)@.len(),
    ensures
        final(v)@ == old(v)@.update(i as int, old(v)@[j as int]).update(j as int, old(v)@[i as int]),
{
    v.swap(i, j)
}

/// `s` with the items at `i` and `j` exchanged.
pub open spec fn swapped<T>(s: Seq<T>, i: int, j: int) -> Seq<T> {
    s.update(i, s[j]).update(j, s[i])
}

/// `s` after exchanging, for each position `k` of `picks` in turn, the item
/// at `k` with the item at `picks[k]`.
pub open spec fn swaps_applied<T>(s: Seq<T>, picks: Seq<usize>) -> Seq<T>
    decreases picks.len(),
{
    if picks.len() == 0 {
        s
    } else {
        swapped(
            swaps_applied(s, picks.drop_last()),
            picks.len() - 1,
            picks.last() as int,
        )
    }
}

proof fn lemma_swapped_multiset<T>(s: Seq<T>, i: int, j: int)
    requires
        0 <= i < s.len(),
        0 <= j < s.len(),
    ensures
        swapped(s, i, j).to_multiset() == s.to_multiset(),
        swapped(s, i, j).len() == s.len(),
{
    broadcast use vstd::seq_lib::to_multiset_update;
    broadcast use vstd::multiset::group_multiset_properties;

    broadcast use vstd::seq_lib::group_to_multiset_ensures;

    let s1 = s.update(i, s[j]);
    assert(s1.len() == s.len());
    assert(s.contains(s[i]));
    assert(s.to_multiset().count(s[i]) > 0);
    assert(s1.to_multiset() == s.to_multiset().insert(s[j]).remove(s[i]));
    assert(s1.update(j, s[i]).to_multiset() == s1.to_multiset().insert(s[i]).remove(s1[j]));
    if i == j {
        assert(s1 =~= s);
        assert(s1.update(j, s[i]) =~= s);
    } else {
        assert(s1[j] == s[j]);
        assert(s.to_multiset().insert(s[j]).remove(s[i]).insert(s[i]).remove(s[j])
            =~= s.to_multiset());
    }
}

/// Exchanges, for each position `k` in turn, the item at `k` with the item
/// at `picks[k]`.
pub fn shuffle_with<T>(array: &mut Vec<T>, picks: &Vec<usize>)
    requires
        picks@.len() == old(array)@.len(),
        forall|k: int| 0 <= k < picks@.len() ==> picks@[k] < old(array)@.len(),
    ensures
        final(array)@ == swaps_applied(old(array)@, picks@),
        final(array)@.to_multiset() == old(array)@.to_multiset(),
        final(array)@.len() == old(array)@.len(),
{
    let n = array.len();
    let mut k: usize = 0;
    while k < n
        invariant
            n == array@.len(),
            n == picks@.len(),
            n == old(array)@.len(),
            k <= n,
            forall|m: int| 0 <= m < picks@.len() ==> picks@[m] < n,
            array@ == swaps_applied(old(array)@, picks@.take(k as int)),
            array@.to_multiset() == old(array)@.to_multiset(),
        decreases n - k,
    {
        proof {
            lemma_swapped_multiset(array@, k as int, picks@[k as int] as int);
            assert(picks@.take(k + 1).drop_last() =~= picks@.take(k as int));
        }
        swap_items(array, k, picks[k]);
        k += 1;
    }
    assert(picks@.take(n as int) =~= picks@);
}

/// Puts the items in a random order: for each position in turn, exchanges
/// its item with one at a random position.
pub fn shuffle<T>(array: &mut Vec<T>)
    ensures
        final(array)@.to_multiset() == old(array)@.to_multiset(),
        final(array)@.len() == old(array)@.len(),
{
    let n = array.len();
    let mut rng = rand::thread_rng();
    let mut picks: Vec<usize> = Vec::new();
    while picks.len() < n
        invariant
            n == array@.len(),
            picks@.len() <= n,
            forall|m: int| 0 <= m < picks@.len() ==> picks@[m] < n,
        decreases n - picks@.len(),
    {
        let j = random_below(&mut rng, n);
        picks.push(j);
    }
    shuffle_with(array, &picks);
}

/// Shuffles a vector of `i32`s in place.
pub fn shuffle_i32_slice(array: &mut Vec<i32>)
    ensures
        final(array)@.to_multiset() == old(array)@.to_multiset(),
        final(array)@.len() == old(array)@.len(),
{
    shuffle(array)
}

/// A named bag of items of any type.
pub struct Bag<T> {
    pub brand: String,
    pub items: Vec<T>,
}

impl<T> Bag<T> {
    /// The first item, or `None` for an empty bag.
    pub fn get_first_item(&self) -> (r: Option<&T>)
        ensures
            self.items@.len() == 0 ==> r is None,
            self.items@.len() > 0 ==> r == Some(&self.items@[0]),
    {
        self.items.as_slice().first()
    }
}

pub enum JugglingBallColour {
    Red,
    Blue,
    Green,
}

pub struct JugglingBall {
    pub colour: JugglingBallColour,
}

impl Bag<JugglingBall> {
    /// Puts the balls in a random order.
    pub fn juggle(&mut self)
        ensures
            final(self).items@.to_multiset() == old(self).items@.to_multiset(),
            final(self).items@.len() == old(self).items@.len(),
            final(self).brand@ == old(self).brand@,
    {
        shuffle(&mut self.items)
    }
}

/// Things that have a length.
pub trait Len {
    /// The length, as a mathematical number.
    spec fn spec_len(&self) -> nat;

    fn len(&self) -> (r: usize)
        ensures
            r == self.spec_len(),
    ;
}

impl Len for Vec<i32> {
    open spec fn spec_len(&self) -> nat {
        self@.len()
    }

    fn len(&self) -> (r: usize) {
        Vec::len(self)
    }
}

impl<T> Len for &[T; 5] {
    open spec fn spec_len(&self) -> nat {
        (**self)@.len()
    }

    fn len(&self) -> (r: usize) {
        (**self).as_slice().len()
    }
}

/// The length of `t` as an `i32`, wrapping as an `as` cast does.
pub fn get_len<T: Len>(t: T) -> (r: i32)
    ensures
        r == t.spec_len() as i32,
{
    t.len() as i32
}

} // verus!
