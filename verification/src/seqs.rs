//! Searching and stable sorting, stated over sequences.

use vstd::prelude::*;

verus! {

/// The first position at or after `from` whose element satisfies `f`.
pub open spec fn first_from<T>(s: Seq<T>, f: spec_fn(T) -> bool, from: int) -> Option<int>
    decreases s.len() - from,
{
    if from < 0 || from >= s.len() {
        None
    } else if f(s[from]) {
        Some(from)
    } else {
        first_from(s, f, from + 1)
    }
}

/// The first position whose element satisfies `f`.
pub open spec fn first_index<T>(s: Seq<T>, f: spec_fn(T) -> bool) -> Option<int> {
    first_from(s, f, 0)
}

proof fn lemma_first_from<T>(s: Seq<T>, f: spec_fn(T) -> bool, from: int, at: int)
    requires
        0 <= from <= at <= s.len(),
        at < s.len() ==> f(s[at]),
        forall|j: int| from <= j < at ==> !f(#[trigger] s[j]),
    ensures
        first_from(s, f, from) == (if at < s.len() {
            Some(at)
        } else {
            None
        }),
    decreases at - from,
{
    if from < at {
        assert(!f(s[from]));
        lemma_first_from(s, f, from + 1, at);
    }
}

/// `first_index` is `at` where `at` satisfies `f` and nothing before it does; it
/// is `None` where nothing does (`at` is then the length).
pub proof fn first_index_is<T>(s: Seq<T>, f: spec_fn(T) -> bool, at: int)
    requires
        0 <= at <= s.len(),
        at < s.len() ==> f(s[at]),
        forall|j: int| 0 <= j < at ==> !f(#[trigger] s[j]),
    ensures
        first_index(s, f) == (if at < s.len() {
            Some(at)
        } else {
            None
        }),
{
    lemma_first_from(s, f, 0, at);
}

proof fn lemma_first_from_meaning<T>(s: Seq<T>, f: spec_fn(T) -> bool, from: int)
    requires
        0 <= from <= s.len(),
    ensures
        match first_from(s, f, from) {
            Some(i) => {
                &&& from <= i < s.len()
                &&& f(s[i])
                &&& forall|j: int| from <= j < i ==> !f(#[trigger] s[j])
            },
            None => forall|j: int| from <= j < s.len() ==> !f(#[trigger] s[j]),
        },
    decreases s.len() - from,
{
    if from < s.len() && !f(s[from]) {
        lemma_first_from_meaning(s, f, from + 1);
    }
}

/// What `first_index` says of a sequence.
pub proof fn first_index_means<T>(s: Seq<T>, f: spec_fn(T) -> bool)
    ensures
        match first_index(s, f) {
            Some(i) => {
                &&& 0 <= i < s.len()
                &&& f(s[i])
                &&& forall|j: int| 0 <= j < i ==> !f(#[trigger] s[j])
            },
            None => forall|j: int| 0 <= j < s.len() ==> !f(#[trigger] s[j]),
        },
{
    lemma_first_from_meaning(s, f, 0);
}

// ------------------------------------------------------------- stable sorting

/// Whether an element has the key `k`.
pub open spec fn key_is<T>(key: spec_fn(T) -> int, k: int) -> spec_fn(T) -> bool {
    |x: T| key(x) == k
}

/// Whether the keys never fall.
pub open spec fn ascending<T>(s: Seq<T>, key: spec_fn(T) -> int) -> bool {
    forall|i: int, j: int| 0 <= i <= j < s.len() ==> key(#[trigger] s[i]) <= key(#[trigger] s[j])
}

/// Whether `new` is `old` sorted by `key`, elements with equal keys in their old
/// order: the keys never fall, and the elements of each key are the same ones in
/// the same order.
pub open spec fn sorted_stably<T>(old_seq: Seq<T>, new_seq: Seq<T>, key: spec_fn(T) -> int) -> bool {
    &&& ascending(new_seq, key)
    &&& new_seq.to_multiset() == old_seq.to_multiset()
    &&& forall|k: int|
        new_seq.filter(#[trigger] key_is(key, k)) == old_seq.filter(key_is(key, k))
}

proof fn lemma_filter_none<T>(s: Seq<T>, f: spec_fn(T) -> bool)
    requires
        forall|i: int| 0 <= i < s.len() ==> !f(#[trigger] s[i]),
    ensures
        s.filter(f) == Seq::<T>::empty(),
    decreases s.len(),
{
    reveal(Seq::filter);
    if s.len() > 0 {
        assert(!f(s.last()));
        lemma_filter_none(s.drop_last(), f);
    }
    assert(s.filter(f) =~= Seq::<T>::empty());
}

proof fn lemma_filter_one<T>(x: T, f: spec_fn(T) -> bool)
    ensures
        seq![x].filter(f) == (if f(x) {
            seq![x]
        } else {
            Seq::<T>::empty()
        }),
{
    reveal(Seq::filter);
    let s = seq![x];
    assert(s.drop_last() =~= Seq::<T>::empty());
    assert(s.drop_last().filter(f) =~= Seq::<T>::empty());
    assert(s.filter(f) =~= (if f(x) {
        seq![x]
    } else {
        Seq::<T>::empty()
    }));
}

proof fn lemma_filter_push<T>(s: Seq<T>, x: T, f: spec_fn(T) -> bool)
    ensures
        s.push(x).filter(f) == (if f(x) {
            s.filter(f).push(x)
        } else {
            s.filter(f)
        }),
{
    reveal(Seq::filter);
    assert(s.push(x).drop_last() =~= s);
}

proof fn lemma_filter_insert<T>(s: Seq<T>, at: int, x: T, f: spec_fn(T) -> bool)
    requires
        0 <= at <= s.len(),
        f(x) ==> forall|i: int| at <= i < s.len() ==> !f(#[trigger] s[i]),
    ensures
        s.insert(at, x).filter(f) == (if f(x) {
            s.filter(f).push(x)
        } else {
            s.filter(f)
        }),
{
    let a = s.take(at);
    let b = s.skip(at);
    assert(s.insert(at, x) =~= a + seq![x] + b);
    assert(s =~= a + b);
    Seq::filter_distributes_over_add(a + seq![x], b, f);
    Seq::filter_distributes_over_add(a, seq![x], f);
    Seq::filter_distributes_over_add(a, b, f);
    lemma_filter_one(x, f);
    if f(x) {
        assert forall|i: int| 0 <= i < b.len() implies !f(#[trigger] b[i]) by {
            assert(!f(s[at + i]));
        }
        lemma_filter_none(b, f);
        assert(a.filter(f) + seq![x] + b.filter(f) =~= (a.filter(f) + b.filter(f)).push(x));
    } else {
        assert(a.filter(f) + Seq::<T>::empty() + b.filter(f) =~= a.filter(f) + b.filter(f));
    }
}

proof fn lemma_insert_multiset<T>(s: Seq<T>, at: int, x: T)
    requires
        0 <= at <= s.len(),
    ensures
        s.insert(at, x).to_multiset() == s.to_multiset().insert(x),
{
    broadcast use vstd::seq_lib::group_to_multiset_ensures;

}

/// Sorts `items` by the given keys (`keys[i]` is that of `items[i]`); elements
/// with equal keys keep their order.
pub fn stable_sort<T>(items: Vec<T>, keys: &Vec<i128>) -> (r: Vec<T>)
    requires
        keys@.len() == items@.len(),
    ensures
        forall|key: spec_fn(T) -> int|
            (forall|i: int| 0 <= i < items@.len() ==> keys@[i] == key(#[trigger] items@[i]))
                ==> #[trigger] sorted_stably(items@, r@, key),
{
    let ghost src = items@;
    let mut rest = items;
    let mut out: Vec<T> = Vec::new();
    let mut out_keys: Vec<i128> = Vec::new();
    let mut i: usize = 0;
    proof {
        assert(src.take(0) =~= Seq::<T>::empty());
        assert forall|key: spec_fn(T) -> int| #[trigger] sorted_stably(src.take(0), out@, key) by {
            assert forall|k: int|
                out@.filter(#[trigger] key_is(key, k)) == src.take(0).filter(key_is(key, k)) by {
                assert(out@ =~= src.take(0));
            }
            assert(out@ =~= src.take(0));
        }
    }
    while i < keys.len()
        invariant
            i <= keys@.len(),
            keys@.len() == src.len(),
            rest@ == src.skip(i as int),
            out@.len() == i,
            out_keys@.len() == i,
            forall|a: int, b: int| 0 <= a <= b < i ==> out_keys@[a] <= out_keys@[b],
            forall|key: spec_fn(T) -> int|
                (forall|j: int| 0 <= j < src.len() ==> keys@[j] == key(#[trigger] src[j])) ==> {
                    &&& #[trigger] sorted_stably(src.take(i as int), out@, key)
                    &&& forall|j: int| 0 <= j < i ==> out_keys@[j] == key(#[trigger] out@[j])
                },
        decreases keys@.len() - i,
    {
        let ghost before = out@;
        let ghost before_keys = out_keys@;
        let x = rest.remove(0);
        assert(x == src[i as int]);
        let k: i128 = keys[i];
        let mut at: usize = out.len();
        while at > 0 && out_keys[at - 1] > k
            invariant
                at <= out@.len(),
                out@ == before,
                out_keys@ == before_keys,
                out_keys@.len() == out@.len(),
                forall|j: int| at <= j < out_keys@.len() ==> out_keys@[j] > k,
            decreases at,
        {
            at = at - 1;
        }
        out.insert(at, x);
        out_keys.insert(at, k);
        proof {
            assert forall|key: spec_fn(T) -> int|
                (forall|j: int| 0 <= j < src.len() ==> keys@[j] == key(#[trigger] src[j])) implies {
                &&& #[trigger] sorted_stably(src.take(i + 1), out@, key)
                &&& forall|j: int| 0 <= j < i + 1 ==> out_keys@[j] == key(#[trigger] out@[j])
            } by {
                assert(sorted_stably(src.take(i as int), before, key));
                assert(k == key(x));
                assert(src.take(i + 1) =~= src.take(i as int).push(x));
                assert forall|j: int| 0 <= j < i + 1 implies out_keys@[j] == key(
                    #[trigger] out@[j],
                ) by {
                    if j < at {
                        assert(before_keys[j] == key(before[j]));
                    } else if j > at {
                        assert(before_keys[j - 1] == key(before[j - 1]));
                    }
                }
                assert forall|kk: int|
                    out@.filter(#[trigger] key_is(key, kk)) == src.take(i + 1).filter(
                        key_is(key, kk),
                    ) by {
                    let f = key_is(key, kk);
                    assert(before.filter(f) == src.take(i as int).filter(f));
                    lemma_filter_push(src.take(i as int), x, f);
                    assert forall|j: int| f(x) && at <= j < before.len() implies !f(
                        #[trigger] before[j],
                    ) by {
                        assert(before_keys[j] == key(before[j]));
                    }
                    lemma_filter_insert(before, at as int, x, f);
                }
                lemma_insert_multiset(before, at as int, x);
                assert(src.take(i as int).push(x).to_multiset() == src.take(
                    i as int,
                ).to_multiset().insert(x)) by {
                    broadcast use vstd::seq_lib::group_to_multiset_ensures;

                }
            }
        }
        i = i + 1;
    }
    proof {
        assert(src.take(src.len() as int) =~= src);
    }
    out
}

} // verus!
