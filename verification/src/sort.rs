//! Stable sorting by a comparison key, and the order of strings.
use vstd::prelude::*;

verus! {

/// A value that can be ordered before another one.
pub trait SortKey: Sized {
    /// `self` sorts strictly before `other`.
    spec fn key_lt(&self, other: &Self) -> bool;

    /// The order is asymmetric: two values never sort before each other.
    proof fn lemma_key_lt_asymmetric(a: Self, b: Self)
        ensures
            a.key_lt(&b) ==> !b.key_lt(&a),
    ;

    /// The order is negatively transitive: when `a` sorts before `c`, any `b` sorts after `a`
    /// or before `c` (so values that do not sort apart form groups that keep their order).
    proof fn lemma_key_lt_negatively_transitive(a: Self, b: Self, c: Self)
        ensures
            a.key_lt(&c) ==> a.key_lt(&b) || b.key_lt(&c),
    ;

    /// Whether `self` sorts strictly before `other`.
    fn lt(&self, other: &Self) -> (r: bool)
        ensures
            r == self.key_lt(other),
    ;
}

/// Where a stable insertion puts `x` into `sorted`: after every element that `x` does not
/// sort before, scanning from the end.
pub open spec fn insert_pos<K: SortKey>(sorted: Seq<K>, x: K) -> nat
    decreases sorted.len(),
{
    if sorted.len() == 0 {
        0
    } else if x.key_lt(&sorted.last()) {
        insert_pos(sorted.drop_last(), x)
    } else {
        sorted.len()
    }
}

/// `sorted` with `x` inserted stably.
pub open spec fn insert_sorted<K: SortKey>(sorted: Seq<K>, x: K) -> Seq<K> {
    let k = insert_pos(sorted, x) as int;
    sorted.take(k) + seq![x] + sorted.skip(k)
}

/// The stable sort of `s`: equal elements keep their order (what `slice::sort_by` gives
/// for a consistent order).
pub open spec fn stable_sort<K: SortKey>(s: Seq<K>) -> Seq<K>
    decreases s.len(),
{
    if s.len() == 0 {
        seq![]
    } else {
        insert_sorted(stable_sort(s.drop_last()), s.last())
    }
}

/// A stable insertion position lies within the sorted list.
pub proof fn lemma_insert_pos_bound<K: SortKey>(sorted: Seq<K>, x: K)
    ensures
        insert_pos(sorted, x) <= sorted.len(),
    decreases sorted.len(),
{
    if sorted.len() > 0 {
        lemma_insert_pos_bound(sorted.drop_last(), x);
    }
}

/// Sorting keeps the number of elements.
pub proof fn lemma_stable_sort_len<K: SortKey>(s: Seq<K>)
    ensures
        stable_sort(s).len() == s.len(),
    decreases s.len(),
{
    if s.len() > 0 {
        lemma_stable_sort_len(s.drop_last());
        lemma_insert_pos_bound(stable_sort(s.drop_last()), s.last());
    }
}

/// No element sorts before an earlier one.
pub open spec fn sorted_by_key<K: SortKey>(s: Seq<K>) -> bool {
    forall|i: int, j: int| #![trigger s[i], s[j]] 0 <= i < j < s.len() ==> !s[j].key_lt(&s[i])
}

/// Where a stable insertion stops: `x` sorts before every element after it, and not before
/// the element just in front of it.
pub proof fn lemma_insert_pos_facts<K: SortKey>(s: Seq<K>, x: K)
    ensures
        insert_pos(s, x) <= s.len(),
        forall|i: int| #![trigger s[i]] insert_pos(s, x) <= i < s.len() ==> x.key_lt(&s[i]),
        insert_pos(s, x) > 0 ==> !x.key_lt(&s[insert_pos(s, x) - 1]),
    decreases s.len(),
{
    if s.len() > 0 && x.key_lt(&s.last()) {
        lemma_insert_pos_facts(s.drop_last(), x);
        let k = insert_pos(s, x);
        assert forall|i: int| #![trigger s[i]] k <= i < s.len() implies x.key_lt(&s[i]) by {
            if i < s.len() - 1 {
                assert(s.drop_last()[i] == s[i]);
            }
        }
        if k > 0 {
            assert(s.drop_last()[k - 1] == s[k - 1]);
        }
    }
}

/// Inserting stably into a sorted list keeps it sorted and adds exactly the new element.
pub proof fn lemma_insert_sorted<K: SortKey>(s: Seq<K>, x: K)
    requires
        sorted_by_key(s),
    ensures
        sorted_by_key(insert_sorted(s, x)),
        insert_sorted(s, x).to_multiset() =~= s.to_multiset().insert(x),
{
    broadcast use vstd::seq_lib::group_to_multiset_ensures;

    lemma_insert_pos_facts(s, x);
    let k = insert_pos(s, x) as int;
    let r = insert_sorted(s, x);
    assert(r =~= s.insert(k, x));
    assert forall|i: int, j: int| #![trigger r[i], r[j]] 0 <= i < j < r.len() implies !r[j].key_lt(&r[i]) by {
        if j < k {
            assert(r[i] == s[i] && r[j] == s[j]);
        } else if j == k {
            assert(r[j] == x && r[i] == s[i]);
            K::lemma_key_lt_negatively_transitive(x, s[k - 1], s[i]);
            if i < k - 1 {
                assert(!s[k - 1].key_lt(&s[i]));
            }
        } else if i < k {
            assert(r[i] == s[i] && r[j] == s[j - 1]);
        } else if i == k {
            assert(r[i] == x && r[j] == s[j - 1]);
            K::lemma_key_lt_asymmetric(x, s[j - 1]);
        } else {
            assert(r[i] == s[i - 1] && r[j] == s[j - 1]);
        }
    }
}

/// Sorting stably orders the elements by their key and keeps each of them, as often as it
/// occurs: the result is a sorted permutation of the input.
pub proof fn stable_sort_is_sorted_permutation<K: SortKey>(s: Seq<K>)
    ensures
        sorted_by_key(stable_sort(s)),
        stable_sort(s).to_multiset() =~= s.to_multiset(),
    decreases s.len(),
{
    broadcast use vstd::seq_lib::group_to_multiset_ensures;

    if s.len() > 0 {
        stable_sort_is_sorted_permutation(s.drop_last());
        lemma_insert_sorted(stable_sort(s.drop_last()), s.last());
        assert(s =~= s.drop_last().push(s.last()));
    }
}

/// Sorts stably by the key order.
pub fn sort_by_key<K: SortKey>(v: Vec<K>) -> (r: Vec<K>)
    ensures
        r@ == stable_sort(v@),
{
    let mut input = v;
    let n: usize = input.len();
    let ghost orig = input@;
    let mut out: Vec<K> = Vec::new();
    // Take elements from the front in order by reversing once.
    let mut rev: Vec<K> = Vec::new();
    while input.len() > 0
        invariant
            rev@.len() + input@.len() == orig.len(),
            orig.len() == n,
            input@ == orig.take(input@.len() as int),
            forall|k: int| 0 <= k < rev@.len() ==> rev@[k] == orig[orig.len() - 1 - k],
        decreases input.len(),
    {
        let x = input.pop().unwrap();
        rev.push(x);
        assert(input@ =~= orig.take(input@.len() as int));
    }
    let mut i: usize = 0;
    while rev.len() > 0
        invariant
            i + rev@.len() == orig.len(),
            orig.len() <= usize::MAX,
            forall|k: int| 0 <= k < rev@.len() ==> rev@[k] == orig[orig.len() - 1 - k],
            out@ == stable_sort(orig.take(i as int)),
        decreases rev.len(),
    {
        let x = rev.pop().unwrap();
        assert(x == orig[i as int]);
        assert(orig.take(i + 1).drop_last() =~= orig.take(i as int));
        assert(orig.take(i + 1).last() == x);
        let ghost sorted = out@;
        let mut j: usize = out.len();
        assert(sorted.take(j as int) =~= sorted);
        while j > 0 && x.lt(&out[j - 1])
            invariant
                j <= out.len(),
                out@ == sorted,
                insert_pos(sorted, x) == insert_pos(sorted.take(j as int), x),
            decreases j,
        {
            assert(sorted.take(j as int).drop_last() =~= sorted.take(j - 1));
            assert(sorted.take(j as int).last() == sorted[j - 1]);
            j -= 1;
        }
        if j > 0 {
            assert(sorted.take(j as int).last() == sorted[j - 1]);
        }
        assert(insert_pos(sorted, x) == j);
        out.insert(j, x);
        assert(out@ =~= insert_sorted(sorted, x));
        i += 1;
    }
    assert(orig.take(orig.len() as int) =~= orig);
    out
}

/// `a` comes strictly before `b` in the order of `str::cmp`: the first differing character
/// decides, and a proper prefix comes first. (Code-point order on characters is byte order
/// on their UTF-8 encodings.)
pub open spec fn str_lt(a: Seq<char>, b: Seq<char>) -> bool
    decreases a.len(),
{
    if b.len() == 0 {
        false
    } else if a.len() == 0 {
        true
    } else if a[0] != b[0] {
        (a[0] as u32) < (b[0] as u32)
    } else {
        str_lt(a.drop_first(), b.drop_first())
    }
}

/// Different characters have different code points.
pub proof fn lemma_char_codes_differ(x: char, y: char)
    ensures
        x != y ==> (x as u32) != (y as u32),
{
    assert((x as u32) as int == x as int);
    assert((y as u32) as int == y as int);
}

/// String order is asymmetric.
pub proof fn lemma_str_lt_asymmetric(a: Seq<char>, b: Seq<char>)
    ensures
        str_lt(a, b) ==> !str_lt(b, a),
    decreases a.len(),
{
    if a.len() > 0 && b.len() > 0 && a[0] == b[0] {
        lemma_str_lt_asymmetric(a.drop_first(), b.drop_first());
    }
}

/// String order is transitive.
pub proof fn lemma_str_lt_transitive(a: Seq<char>, b: Seq<char>, c: Seq<char>)
    ensures
        str_lt(a, b) && str_lt(b, c) ==> str_lt(a, c),
    decreases a.len(),
{
    if a.len() > 0 && b.len() > 0 && c.len() > 0 && a[0] == b[0] && b[0] == c[0] {
        lemma_str_lt_transitive(a.drop_first(), b.drop_first(), c.drop_first());
    }
}

/// Two different strings are ordered one way or the other.
pub proof fn lemma_str_lt_total(a: Seq<char>, b: Seq<char>)
    ensures
        a != b ==> str_lt(a, b) || str_lt(b, a),
    decreases a.len(),
{
    if a.len() > 0 && b.len() > 0 && a[0] == b[0] {
        lemma_str_lt_total(a.drop_first(), b.drop_first());
        if a.drop_first() == b.drop_first() {
            assert(a =~= seq![a[0]] + a.drop_first());
            assert(b =~= seq![b[0]] + b.drop_first());
        }
    } else if a.len() == 0 && b.len() == 0 {
        assert(a =~= b);
    } else if a.len() > 0 && b.len() > 0 {
        lemma_char_codes_differ(a[0], b[0]);
    }
}

/// String order is a strict total order on the three strings: asymmetric, transitive,
/// total, and so negatively transitive.
pub proof fn lemma_str_lt_order(a: Seq<char>, b: Seq<char>, c: Seq<char>)
    ensures
        str_lt(a, b) ==> !str_lt(b, a),
        str_lt(b, c) ==> !str_lt(c, b),
        str_lt(a, c) ==> !str_lt(c, a),
        !str_lt(a, a),
        str_lt(a, c) ==> str_lt(a, b) || str_lt(b, c),
{
    lemma_str_lt_asymmetric(a, b);
    lemma_str_lt_asymmetric(b, c);
    lemma_str_lt_asymmetric(a, c);
    lemma_str_lt_asymmetric(a, a);
    lemma_str_lt_total(a, b);
    lemma_str_lt_total(b, c);
    lemma_str_lt_transitive(b, a, c);
    lemma_str_lt_transitive(a, c, b);
}

/// Optional string order (`None` first) is a strict total order on the three values:
/// asymmetric and negatively transitive.
pub proof fn lemma_opt_str_lt_order(a: Option<Seq<char>>, b: Option<Seq<char>>, c: Option<Seq<char>>)
    ensures
        opt_str_lt(a, b) ==> !opt_str_lt(b, a),
        opt_str_lt(a, c) ==> opt_str_lt(a, b) || opt_str_lt(b, c),
        opt_str_lt(a, c) ==> a != c,
        a != b ==> opt_str_lt(a, b) || opt_str_lt(b, a),
{
    match (a, b, c) {
        (Some(x), Some(y), Some(z)) => {
            lemma_str_lt_order(x, y, z);
            lemma_str_lt_total(x, y);
        },
        (Some(x), Some(y), None) => {
            lemma_str_lt_order(x, y, x);
            lemma_str_lt_total(x, y);
        },
        (None, Some(y), Some(z)) => {
            lemma_str_lt_order(y, z, y);
        },
        (Some(x), None, Some(z)) => {
            lemma_str_lt_order(x, z, x);
        },
        _ => {},
    }
}

/// Whether `a` comes strictly before `b` in string order.
pub fn str_lt_exec(a: &str, b: &str) -> (r: bool)
    ensures
        r == str_lt(a@, b@),
{
    let x = crate::text::str_chars(a);
    let y = crate::text::str_chars(b);
    let mut i: usize = 0;
    assert(x@.skip(0) =~= x@);
    assert(y@.skip(0) =~= y@);
    while i < x.len() && i < y.len() && x[i] == y[i]
        invariant
            i <= x.len(),
            i <= y.len(),
            str_lt(x@, y@) == str_lt(x@.skip(i as int), y@.skip(i as int)),
        decreases x.len() - i,
    {
        assert(x@.skip(i as int).drop_first() =~= x@.skip(i + 1));
        assert(y@.skip(i as int).drop_first() =~= y@.skip(i + 1));
        assert(x@.skip(i as int)[0] == x@[i as int]);
        assert(y@.skip(i as int)[0] == y@[i as int]);
        i += 1;
    }
    if i < y.len() {
        assert(y@.skip(i as int)[0] == y@[i as int]);
    }
    if i < x.len() {
        assert(x@.skip(i as int)[0] == x@[i as int]);
    }
    if i == y.len() {
        false
    } else if i == x.len() {
        true
    } else {
        (x[i] as u32) < (y[i] as u32)
    }
}

/// `a` comes strictly before `b` in the order of `Option`: `None` first.
pub open spec fn opt_i32_lt(a: Option<i32>, b: Option<i32>) -> bool {
    match (a, b) {
        (None, Some(_)) => true,
        (Some(x), Some(y)) => x < y,
        _ => false,
    }
}

/// `a` comes strictly before `b` in the order of `Option<String>`: `None` first.
pub open spec fn opt_str_lt(a: Option<Seq<char>>, b: Option<Seq<char>>) -> bool {
    match (a, b) {
        (None, Some(_)) => true,
        (Some(x), Some(y)) => str_lt(x, y),
        _ => false,
    }
}

/// Whether `a` comes strictly before `b` among optional strings.
pub fn opt_str_lt_exec(a: &Option<String>, b: &Option<String>) -> (r: bool)
    ensures
        r == opt_str_lt(crate::config::opt_view(*a), crate::config::opt_view(*b)),
{
    match (a, b) {
        (None, Some(_)) => true,
        (Some(x), Some(y)) => str_lt_exec(x.as_str(), y.as_str()),
        _ => false,
    }
}

/// The elements in reverse order.
pub fn reverse_vec<T>(v: Vec<T>) -> (r: Vec<T>)
    ensures
        r@.len() == v@.len(),
        forall|k: int| 0 <= k < v@.len() ==> #[trigger] r@[k] == v@[v@.len() - 1 - k],
{
    let mut input = v;
    let ghost orig = input@;
    let n: usize = input.len();
    let mut rev: Vec<T> = Vec::new();
    while input.len() > 0
        invariant
            rev@.len() + input@.len() == orig.len(),
            orig.len() == n,
            input@ == orig.take(input@.len() as int),
            forall|k: int| 0 <= k < rev@.len() ==> rev@[k] == orig[orig.len() - 1 - k],
        decreases input.len(),
    {
        let x = input.pop().unwrap();
        rev.push(x);
        assert(input@ =~= orig.take(input@.len() as int));
    }
    rev
}

} // verus!
