//! Questions on collections: pig latin over the words of a text, and the
//! median and mode of a list of integers.
use vstd::prelude::*;

verus! {

/// What `char::is_alphabetic` returns for `c` (the Unicode `Alphabetic`
/// property).
pub uninterp spec fn alphabetic(c: char) -> bool;

/// Relies on `char::is_alphabetic`: whether `c` has the Unicode
/// `Alphabetic` property, which depends on `c` alone.
#[verifier::external_body]
fn is_alphabetic(c: char) -> (r: bool)
    ensures
        r == alphabetic(c),
{
    c.is_alphabetic()
}

/// Relies on `String::push`: appends `c` at the end.
#[verifier::external_body]
fn push_char(s: &mut String, c: char)
    ensures
        final(s)@ == old(s)@.push(c),
{
    s.push(c)
}

/// Whether each character of `s` is alphabetic.
pub open spec fn classes(s: Seq<char>) -> Seq<bool> {
    s.map_values(|c: char| alphabetic(c))
}

/// The maximal runs of `s` whose characters all have the same class in
/// `alpha` (`alpha[i]` is the class of `s[i]`), in order.
pub open spec fn runs(s: Seq<char>, alpha: Seq<bool>) -> Seq<Seq<char>>
    decreases s.len(),
{
    if s.len() == 0 {
        Seq::empty()
    } else {
        let before = runs(s.drop_last(), alpha);
        let n = s.len() as int;
        if n > 1 && alpha[n - 2] == alpha[n - 1] {
            before.update(before.len() - 1, before.last().push(s.last()))
        } else {
            before.push(seq![s.last()])
        }
    }
}

/// The class of each run of `runs(s, alpha)`.
pub open spec fn run_classes(s: Seq<char>, alpha: Seq<bool>) -> Seq<bool>
    decreases s.len(),
{
    if s.len() == 0 {
        Seq::empty()
    } else {
        let before = run_classes(s.drop_last(), alpha);
        let n = s.len() as int;
        if n > 1 && alpha[n - 2] == alpha[n - 1] {
            before
        } else {
            before.push(alpha[n - 1])
        }
    }
}

/// The words of `ws` written one after another.
pub open spec fn joined(ws: Seq<Seq<char>>) -> Seq<char>
    decreases ws.len(),
{
    if ws.len() == 0 {
        Seq::empty()
    } else {
        joined(ws.drop_last()) + ws.last()
    }
}

/// The lower-case vowels.
pub open spec fn is_vowel(c: char) -> bool {
    c == 'a' || c == 'e' || c == 'i' || c == 'o' || c == 'u'
}

/// A word in pig latin: its first letter is dropped and `hay` added when it
/// is a vowel; otherwise the first letter moves to the end, followed by `ay`.
pub open spec fn pig(w: Seq<char>) -> Seq<char>
    recommends
        w.len() > 0,
{
    if is_vowel(w[0]) {
        w.drop_first() + seq!['h', 'a', 'y']
    } else {
        w.drop_first() + seq![w[0], 'a', 'y']
    }
}

/// Each word of `ws` in pig latin where `alpha` marks it alphabetic, and
/// kept as it is elsewhere.
pub open spec fn translated(ws: Seq<Seq<char>>, alpha: Seq<bool>) -> Seq<Seq<char>> {
    Seq::new(ws.len(), |k: int| if alpha[k] { pig(ws[k]) } else { ws[k] })
}

/// A text in pig latin, given the class of each character: each alphabetic
/// run translated, the other runs kept.
pub open spec fn pig_latin(s: Seq<char>, alpha: Seq<bool>) -> Seq<char> {
    joined(translated(runs(s, alpha), run_classes(s, alpha)))
}

/// Splits `string` into its maximal runs of characters of one class, given
/// the class of each character, with the class of each run.
fn _get_words(string: &str, alpha: &Vec<bool>) -> (r: (Vec<String>, Vec<bool>))
    requires
        alpha@.len() == string@.len(),
    ensures
        r.0.deep_view() == runs(string@, alpha@),
        r.1@ == run_classes(string@, alpha@),
        forall|k: int| 0 <= k < r.0@.len() ==> r.0@[k]@.len() > 0,
{
    let n = string.unicode_len();
    let mut passing_word = true;
    let mut words: Vec<String> = Vec::new();
    let mut kinds: Vec<bool> = Vec::new();
    let mut word = String::new();
    let mut i: usize = 0;
    while i < n
        invariant
            n == string@.len(),
            n == alpha@.len(),
            i <= n,
            i == 0 ==> words@.len() == 0 && kinds@.len() == 0 && word@.len() == 0,
            i > 0 ==> word@.len() > 0 && passing_word == alpha@[i - 1],
            i > 0 ==> words.deep_view().push(word@) == runs(string@.take(i as int), alpha@),
            i > 0 ==> kinds@.push(passing_word) == run_classes(string@.take(i as int), alpha@),
            forall|k: int| 0 <= k < words@.len() ==> words@[k]@.len() > 0,
        decreases n - i,
    {
        let letter = string.get_char(i);
        let class = alpha[i];
        let ghost before = words.deep_view().push(word@);
        let ghost before_kinds = kinds@.push(passing_word);
        proof {
            assert(string@.take(i + 1).drop_last() =~= string@.take(i as int));
            assert(string@.take(i + 1).last() == letter);
        }
        if i == 0 || class == passing_word {
            push_char(&mut word, letter);
            proof {
                if i > 0 {
                    assert(words.deep_view().push(word@) =~= before.update(
                        before.len() - 1,
                        before.last().push(letter),
                    ));
                } else {
                    assert(runs(string@.take(0), alpha@) =~= Seq::<Seq<char>>::empty());
                    assert(run_classes(string@.take(0), alpha@) =~= Seq::<bool>::empty());
                    assert(word@ =~= seq![letter]);
                    assert(words.deep_view() =~= Seq::<Seq<char>>::empty());
                    assert(words.deep_view().push(word@) =~= seq![seq![letter]]);
                    assert(kinds@.push(class) =~= seq![class]);
                }
            }
        } else {
            words.push(word);
            kinds.push(passing_word);
            word = String::new();
            push_char(&mut word, letter);
            proof {
                assert(words.deep_view() =~= before);
                assert(words.deep_view().push(word@) =~= before.push(seq![letter]));
            }
        }
        passing_word = class;
        i += 1;
    }
    assert(string@.take(n as int) =~= string@);
    if word.as_str().unicode_len() > 0 {
        words.push(word);
        kinds.push(passing_word);
        assert(words.deep_view() =~= runs(string@, alpha@));
    } else {
        assert(words.deep_view() =~= runs(string@, alpha@));
    }
    (words, kinds)
}

/// Appends the characters of `s` from position `from` on to `out`.
fn push_from(out: &mut String, s: &str, from: usize)
    requires
        from <= s@.len(),
    ensures
        final(out)@ == old(out)@ + s@.skip(from as int),
{
    let n = s.unicode_len();
    let mut i: usize = from;
    while i < n
        invariant
            n == s@.len(),
            from <= i <= n,
            out@ == old(out)@ + s@.subrange(from as int, i as int),
        decreases n - i,
    {
        push_char(out, s.get_char(i));
        assert(s@.subrange(from as int, i + 1) =~= s@.subrange(from as int, i as int).push(
            s@[i as int],
        ));
        i += 1;
    }
    assert(s@.subrange(from as int, n as int) =~= s@.skip(from as int));
}

/// Converts one word to pig latin.
fn _convert_word_to_pig(string: &str) -> (r: String)
    requires
        string@.len() > 0,
    ensures
        r@ == pig(string@),
{
    let first = string.get_char(0);
    let mut chars = String::new();
    push_from(&mut chars, string, 1);
    proof {
        reveal_strlit("hay");
        reveal_strlit("ay");
    }
    if first == 'a' || first == 'e' || first == 'i' || first == 'o' || first == 'u' {
        chars.append("hay");
        assert(chars@ =~= pig(string@));
    } else {
        push_char(&mut chars, first);
        chars.append("ay");
        assert(chars@ =~= pig(string@));
    }
    chars
}

/// Converts a text to pig latin, given whether each of its characters is
/// alphabetic: each run of alphabetic characters loses its first letter and
/// gains `hay` when that letter is a lower-case vowel, or has its first
/// letter moved to the end followed by `ay` otherwise; runs of other
/// characters are kept as they are.
pub fn pig_latin_with(string: &str, alpha: &Vec<bool>) -> (r: String)
    requires
        alpha@.len() == string@.len(),
    ensures
        r@ == pig_latin(string@, alpha@),
{
    let (words, kinds) = _get_words(string, alpha);
    let ghost ws = words.deep_view();
    let ghost cs = kinds@;
    let mut out = String::new();
    let mut k: usize = 0;
    proof {
        assert(runs(string@, alpha@).len() == run_classes(string@, alpha@).len()) by {
            lemma_runs_len(string@, alpha@);
        }
    }
    while k < words.len()
        invariant
            ws == words.deep_view(),
            ws == runs(string@, alpha@),
            cs == kinds@,
            cs == run_classes(string@, alpha@),
            ws.len() == words@.len(),
            cs.len() == ws.len(),
            k <= words@.len(),
            forall|m: int| 0 <= m < words@.len() ==> words@[m]@.len() > 0,
            out@ == joined(translated(ws.take(k as int), cs.take(k as int))),
        decreases words@.len() - k,
    {
        let x = &words[k];
        assert(ws[k as int] == x@);
        if kinds[k] {
            let pig_word = _convert_word_to_pig(x.as_str());
            out.append(pig_word.as_str());
        } else {
            out.append(x.as_str());
        }
        assert(translated(ws.take(k + 1), cs.take(k + 1)).drop_last() =~= translated(
            ws.take(k as int),
            cs.take(k as int),
        ));
        assert(ws.take(k + 1)[k as int] == x@);
        k += 1;
    }
    assert(ws.take(words@.len() as int) =~= ws);
    assert(cs.take(words@.len() as int) =~= cs);
    out
}

proof fn lemma_runs_len(s: Seq<char>, alpha: Seq<bool>)
    ensures
        runs(s, alpha).len() == run_classes(s, alpha).len(),
        s.len() > 0 ==> runs(s, alpha).len() > 0,
    decreases s.len(),
{
    if s.len() > 0 {
        lemma_runs_len(s.drop_last(), alpha);
    }
}

/// Converts a text to pig latin: each run of alphabetic characters loses its
/// first letter and gains `hay` when that letter is a lower-case vowel, or
/// has its first letter moved to the end followed by `ay` otherwise; runs of
/// other characters are kept as they are.
pub fn question_2(string: &str) -> (r: String)
    ensures
        r@ == pig_latin(string@, classes(string@)),
{
    let n = string.unicode_len();
    let mut alpha: Vec<bool> = Vec::new();
    let mut i: usize = 0;
    while i < n
        invariant
            n == string@.len(),
            i <= n,
            alpha@ == classes(string@.take(i as int)),
        decreases n - i,
    {
        let c = is_alphabetic(string.get_char(i));
        alpha.push(c);
        assert(string@.take(i + 1) =~= string@.take(i as int).push(string@[i as int]));
        assert(alpha@ =~= classes(string@.take(i + 1)));
        i += 1;
    }
    assert(string@.take(n as int) =~= string@);
    pig_latin_with(string, &alpha)
}

/// Relies on `<[T]>::sort`: puts the values in ascending order, keeping
/// each value as many times as it occurs.
#[verifier::external_body]
fn sort_values(v: &mut Vec<i32>)
    ensures
        sorted(final(v)@),
        final(v)@.to_multiset() == old(v)@.to_multiset(),
{
    v.sort()
}

/// The values of `s` are in ascending order.
pub open spec fn sorted(s: Seq<i32>) -> bool {
    forall|i: int, j: int| 0 <= i < j < s.len() ==> s[i] <= s[j]
}

/// Twice the median of the ascending sequence `t`: twice its middle value
/// when its length is odd, the sum of its two middle values when even.
pub open spec fn median_doubled(t: Seq<i32>) -> int
    recommends
        t.len() > 0,
{
    let n = t.len() as int;
    if n % 2 == 0 {
        t[n / 2] + t[n / 2 - 1]
    } else {
        2 * t[(n - 1) / 2]
    }
}

/// How many times `x` occurs in `s`.
pub open spec fn occurrences(s: Seq<i32>, x: i32) -> nat {
    s.to_multiset().count(x)
}

/// `m` is a mode of `s` (no value occurs more often), and the largest one.
pub open spec fn is_largest_mode(s: Seq<i32>, m: i32) -> bool {
    &&& forall|x: i32| occurrences(s, x) <= occurrences(s, m)
    &&& forall|x: i32| occurrences(s, x) == occurrences(s, m) ==> x <= m
    &&& occurrences(s, m) > 0
}

proof fn lemma_occurrences_push(s: Seq<i32>, c: i32)
    ensures
        forall|x: i32|
            occurrences(s.push(c), x) == occurrences(s, x) + (if x == c { 1nat } else { 0nat }),
{
    broadcast use vstd::multiset::group_multiset_axioms;

    vstd::seq_lib::to_multiset_build(s, c);
}

/// The largest mode of the ascending sequence `values`: a running count of
/// equal neighbours, where a later value wins a tie.
fn largest_mode(values: &Vec<i32>) -> (r: i32)
    requires
        values@.len() > 0,
        sorted(values@),
    ensures
        is_largest_mode(values@, r),
{
    let ghost t = values@;
    let len = values.len();
    let mut best: i32 = values[0];
    let mut best_count: usize = 1;
    let mut run: usize = 1;
    let mut i: usize = 1;
    proof {
        assert(t.take(1) =~= Seq::<i32>::empty().push(t[0]));
        vstd::seq_lib::to_multiset_len(Seq::<i32>::empty());
        vstd::multiset::lemma_multiset_empty_len(Seq::<i32>::empty().to_multiset());
        lemma_occurrences_push(Seq::<i32>::empty(), t[0]);
    }
    while i < len
        invariant
            t == values@,
            len == t.len(),
            sorted(t),
            1 <= i <= len,
            1 <= run <= i,
            1 <= best_count <= i,
            occurrences(t.take(i as int), t[i - 1]) == run,
            forall|x: i32| occurrences(t.take(i as int), x) > 0 ==> x <= t[i - 1],
            forall|x: i32| occurrences(t.take(i as int), x) <= best_count,
            occurrences(t.take(i as int), best) == best_count,
            forall|x: i32| occurrences(t.take(i as int), x) == best_count ==> x <= best,
        decreases len - i,
    {
        let c = values[i];
        proof {
            assert(t.take(i + 1) =~= t.take(i as int).push(c));
            lemma_occurrences_push(t.take(i as int), c);
            assert(t[i - 1] <= c);
            if c != t[i - 1] {
                assert(occurrences(t.take(i as int), c) == 0);
            }
        }
        if c == values[i - 1] {
            run = run + 1;
        } else {
            run = 1;
        }
        if run >= best_count {
            best = c;
            best_count = run;
        }
        i += 1;
    }
    proof {
        assert(t.take(len as int) =~= t);
    }
    best
}

/// Twice the median of the values, and their mode; where several values
/// occur equally often, the largest of them.
pub fn median_and_mode(vector: &Vec<i32>) -> (r: (i64, i32))
    requires
        vector@.len() > 0,
    ensures
        exists|t: Seq<i32>|
            sorted(t) && t.to_multiset() == vector@.to_multiset() && r.0 == median_doubled(t),
        is_largest_mode(vector@, r.1),
{
    let mut values = vector.clone();
    assert(values@ =~= vector@);
    sort_values(&mut values);
    proof {
        vstd::seq_lib::to_multiset_len(values@);
        vstd::seq_lib::to_multiset_len(vector@);
    }
    let len = values.len();
    let median: i64 = if len % 2 == 0 {
        values[len / 2] as i64 + values[len / 2 - 1] as i64
    } else {
        2 * values[(len - 1) / 2] as i64
    };
    let mode = largest_mode(&values);
    assert(forall|x: i32| occurrences(values@, x) == occurrences(vector@, x));
    (median, mode)
}

} // verus!
