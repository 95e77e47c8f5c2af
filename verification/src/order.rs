use vstd::prelude::*;

use crate::text::{
    lemma_text_le_transitive, lemma_text_trichotomy, text_le, text_less, text_lt,
};

verus! {

/// The elements of `s` whose key is `k`, in their order in `s`.
pub open spec fn with_key<T>(s: Seq<T>, key: spec_fn(T) -> Seq<char>, k: Seq<char>) -> Seq<T>
    decreases s.len(),
{
    if s.len() == 0 {
        Seq::empty()
    } else if key(s.last()) == k {
        with_key(s.drop_last(), key, k).push(s.last())
    } else {
        with_key(s.drop_last(), key, k)
    }
}

/// The keys of `s` never decrease.
pub open spec fn sorted_by<T>(s: Seq<T>, key: spec_fn(T) -> Seq<char>) -> bool {
    forall|i: int, j: int| 0 <= i < j < s.len() ==> text_le(key(#[trigger] s[i]), key(#[trigger] s[j]))
}

/// `out` is `input` sorted by `key`, elements with equal keys keeping their
/// order in `input` (what a stable sort such as `sort_by` gives).
pub open spec fn is_stable_sort_of<T>(
    out: Seq<T>,
    input: Seq<T>,
    key: spec_fn(T) -> Seq<char>,
) -> bool {
    &&& sorted_by(out, key)
    &&& forall|k: Seq<char>| #[trigger] with_key(out, key, k) == with_key(input, key, k)
}

/// Selecting by key distributes over concatenation.
pub proof fn lemma_with_key_add<T>(
    a: Seq<T>,
    b: Seq<T>,
    key: spec_fn(T) -> Seq<char>,
    k: Seq<char>,
)
    ensures
        with_key(a + b, key, k) == with_key(a, key, k) + with_key(b, key, k),
    decreases b.len(),
{
    if b.len() == 0 {
        assert(a + b == a);
        assert(with_key(b, key, k) == Seq::<T>::empty());
        assert(with_key(a, key, k) + Seq::<T>::empty() == with_key(a, key, k));
    } else {
        lemma_with_key_add(a, b.drop_last(), key, k);
        assert((a + b).drop_last() == a + b.drop_last());
        assert((a + b).last() == b.last());
    }
}

proof fn lemma_with_key_none<T>(s: Seq<T>, key: spec_fn(T) -> Seq<char>, k: Seq<char>)
    requires
        forall|i: int| 0 <= i < s.len() ==> key(#[trigger] s[i]) != k,
    ensures
        with_key(s, key, k) == Seq::<T>::empty(),
    decreases s.len(),
{
    if s.len() > 0 {
        assert(key(s[s.len() - 1]) != k);
        lemma_with_key_none(s.drop_last(), key, k);
    }
}

/// An element of `s` is among the elements with its key.
pub proof fn lemma_with_key_contains<T>(s: Seq<T>, key: spec_fn(T) -> Seq<char>, x: T)
    ensures
        s.contains(x) == with_key(s, key, key(x)).contains(x),
    decreases s.len(),
{
    if s.len() > 0 {
        lemma_with_key_contains(s.drop_last(), key, x);
        let r = with_key(s.drop_last(), key, key(x));
        if s.contains(x) {
            let i = choose|i: int| 0 <= i < s.len() && s[i] == x;
            if i < s.len() - 1 {
                assert(s.drop_last()[i] == x);
            }
        }
        if s.drop_last().contains(x) {
            let i = choose|i: int| 0 <= i < s.drop_last().len() && s.drop_last()[i] == x;
            assert(s[i] == x);
        }
        if key(s.last()) == key(x) {
            assert(with_key(s, key, key(x)) == r.push(s.last()));
            if r.push(s.last()).contains(x) && s.last() != x {
                let i = choose|i: int| 0 <= i < r.push(s.last()).len() && r.push(s.last())[i] == x;
                assert(r[i] == x);
            }
            if r.contains(x) {
                let i = choose|i: int| 0 <= i < r.len() && r[i] == x;
                assert(r.push(s.last())[i] == x);
            }
            assert(r.push(s.last())[r.len() as int] == s.last());
        }
        assert(s[s.len() - 1] == s.last());
    }
}

/// A stable sort keeps exactly the elements it was given.
pub proof fn lemma_stable_sort_same_elements<T>(
    out: Seq<T>,
    input: Seq<T>,
    key: spec_fn(T) -> Seq<char>,
    x: T,
)
    requires
        is_stable_sort_of(out, input, key),
    ensures
        out.contains(x) == input.contains(x),
{
    lemma_with_key_contains(out, key, x);
    lemma_with_key_contains(input, key, x);
    assert(with_key(out, key, key(x)) == with_key(input, key, key(x)));
}

/// Inserting `x` after every element whose key is at most `x`'s, and before
/// every element whose key is greater, keeps `s` sorted and appends `x` to
/// the elements with its key.
pub proof fn lemma_insert_sorted<T>(s: Seq<T>, p: int, x: T, key: spec_fn(T) -> Seq<char>)
    requires
        sorted_by(s, key),
        0 <= p <= s.len(),
        forall|i: int| 0 <= i < p ==> text_le(key(#[trigger] s[i]), key(x)),
        forall|i: int| p <= i < s.len() ==> text_lt(key(x), key(#[trigger] s[i])),
    ensures
        sorted_by(s.insert(p, x), key),
        forall|k: Seq<char>|
            #[trigger] with_key(s.insert(p, x), key, k) == if k == key(x) {
                with_key(s, key, k).push(x)
            } else {
                with_key(s, key, k)
            },
{
    let t = s.insert(p, x);
    assert forall|i: int, j: int| 0 <= i < j < t.len() implies text_le(
        key(#[trigger] t[i]),
        key(#[trigger] t[j]),
    ) by {
        if i < p && j == p {
        } else if i == p {
            lemma_text_trichotomy(key(x), key(t[j]));
        } else if j == p {
        } else {
            let si = if i < p { i } else { i - 1 };
            let sj = if j < p { j } else { j - 1 };
            assert(t[i] == s[si]);
            assert(t[j] == s[sj]);
        }
    }
    let a = s.subrange(0, p);
    let b = s.subrange(p, s.len() as int);
    assert(t == a + seq![x] + b);
    assert(s == a + b);
    assert forall|k: Seq<char>| #[trigger]
        with_key(t, key, k) == if k == key(x) {
            with_key(s, key, k).push(x)
        } else {
            with_key(s, key, k)
        } by {
        lemma_with_key_add(a + seq![x], b, key, k);
        lemma_with_key_add(a, seq![x], key, k);
        lemma_with_key_add(a, b, key, k);
        assert(seq![x].drop_last() == Seq::<T>::empty());
        assert(with_key(Seq::<T>::empty(), key, k) == Seq::<T>::empty());
        if k == key(x) {
            assert forall|i: int| 0 <= i < b.len() implies key(#[trigger] b[i]) != k by {
                assert(b[i] == s[p + i]);
                lemma_text_trichotomy(key(x), key(b[i]));
            }
            lemma_with_key_none(b, key, k);
            assert(with_key(seq![x], key, k) == seq![x]);
            assert(with_key(a, key, k) + seq![x] + Seq::<T>::empty() == with_key(a, key, k).push(
                x,
            ));
            assert(with_key(a, key, k) + Seq::<T>::empty() == with_key(a, key, k));
        } else {
            assert(with_key(seq![x], key, k) == Seq::<T>::empty());
            assert(with_key(a, key, k) + Seq::<T>::empty() == with_key(a, key, k));
        }
    }
}

/// The position after every key at most `k` in the sorted `keys`.
pub fn upper_bound(keys: &Vec<Vec<char>>, k: &Vec<char>) -> (p: usize)
    requires
        forall|i: int, j: int|
            0 <= i < j < keys@.len() ==> text_le(#[trigger] keys@[i]@, #[trigger] keys@[j]@),
    ensures
        p <= keys@.len(),
        forall|i: int| 0 <= i < p ==> text_le(#[trigger] keys@[i]@, k@),
        forall|i: int| p <= i < keys@.len() ==> text_lt(k@, #[trigger] keys@[i]@),
{
    let n = keys.len();
    let mut p: usize = 0;
    while p < n && !text_less(k.as_slice(), keys[p].as_slice())
        invariant
            p <= n == keys@.len(),
            forall|i: int| 0 <= i < p ==> text_le(#[trigger] keys@[i]@, k@),
        decreases n - p,
    {
        p += 1;
    }
    proof {
        if p < n {
            assert forall|i: int| p <= i < n implies text_lt(k@, #[trigger] keys@[i]@) by {
                if i > p {
                    assert(text_le(keys@[p as int]@, keys@[i]@));
                    lemma_text_le_transitive(k@, keys@[p as int]@, keys@[i]@);
                }
            }
        }
    }
    p
}

} // verus!
