//! Texts in order, and sorting by them.

use vstd::prelude::*;

use crate::seqs::stable_sort;
use crate::text::to_chars;
#[allow(unused_imports)]
use crate::{seqs, text};

verus! {

/// Whether `a` comes before `b`, by the code points of their characters.
pub open spec fn before(a: Seq<char>, b: Seq<char>) -> bool
    decreases a.len(),
{
    if b.len() == 0 {
        false
    } else if a.len() == 0 {
        true
    } else if a[0] != b[0] {
        (a[0] as int) < (b[0] as int)
    } else {
        before(a.skip(1), b.skip(1))
    }
}

/// Whether `a` comes before `b`; no text comes before any text.
pub open spec fn opt_before(a: Option<Seq<char>>, b: Option<Seq<char>>) -> bool {
    match (a, b) {
        (Some(x), Some(y)) => before(x, y),
        (None, Some(_)) => true,
        (_, None) => false,
    }
}

proof fn lemma_before_total(a: Seq<char>, b: Seq<char>)
    ensures
        before(a, b) || before(b, a) || a == b,
        !(before(a, b) && before(b, a)),
        a == b ==> !before(a, b),
    decreases a.len(),
{
    if a.len() > 0 && b.len() > 0 && a[0] == b[0] {
        lemma_before_total(a.skip(1), b.skip(1));
        if a.skip(1) == b.skip(1) {
            assert(a =~= seq![a[0]] + a.skip(1));
            assert(b =~= seq![b[0]] + b.skip(1));
        }
    } else if a.len() == 0 && b.len() == 0 {
        assert(a =~= b);
    }
}

proof fn lemma_before_chain(a: Seq<char>, b: Seq<char>, c: Seq<char>)
    requires
        before(a, b),
        before(b, c),
    ensures
        before(a, c),
    decreases a.len(),
{
    if a.len() > 0 && b.len() > 0 && c.len() > 0 && a[0] == b[0] && b[0] == c[0] {
        lemma_before_chain(a.skip(1), b.skip(1), c.skip(1));
    }
}

/// Of two keys one comes before the other, or they are the same.
pub proof fn order_is_total(a: Option<Seq<char>>, b: Option<Seq<char>>)
    ensures
        opt_before(a, b) || opt_before(b, a) || a == b,
        !(opt_before(a, b) && opt_before(b, a)),
        a == b ==> !opt_before(a, b),
{
    match (a, b) {
        (Some(x), Some(y)) => lemma_before_total(x, y),
        _ => {},
    }
}

/// What comes before something comes before all that follows it.
pub proof fn order_chains(a: Option<Seq<char>>, b: Option<Seq<char>>, c: Option<Seq<char>>)
    requires
        opt_before(a, b),
        opt_before(b, c),
    ensures
        opt_before(a, c),
{
    match (a, b, c) {
        (Some(x), Some(y), Some(z)) => lemma_before_chain(x, y, z),
        _ => {},
    }
}

/// Whether `a` comes before `b`.
pub fn comes_before(a: &str, b: &str) -> (r: bool)
    ensures
        r == before(a@, b@),
{
    let x = to_chars(a);
    let y = to_chars(b);
    assert(x@.skip(0) =~= x@);
    assert(y@.skip(0) =~= y@);
    let mut i: usize = 0;
    while i < x.len() && i < y.len()
        invariant
            i <= x@.len(),
            i <= y@.len(),
            x@ == a@,
            y@ == b@,
            before(a@, b@) == before(x@.skip(i as int), y@.skip(i as int)),
        decreases x@.len() - i,
    {
        if x[i] != y[i] {
            return x[i] < y[i];
        }
        assert(x@.skip(i as int).skip(1) =~= x@.skip(i + 1));
        assert(y@.skip(i as int).skip(1) =~= y@.skip(i + 1));
        i = i + 1;
    }
    i >= x.len() && i < y.len()
}

/// Whether `a` comes before `b`; no text comes before any text.
pub fn key_before(a: &Option<String>, b: &Option<String>) -> (r: bool)
    ensures
        r == opt_before(text::opt_text(*a), text::opt_text(*b)),
{
    match (a, b) {
        (Some(x), Some(y)) => comes_before(x.as_str(), y.as_str()),
        (None, Some(_)) => true,
        (_, None) => false,
    }
}

// --------------------------------------------------------------------- sorting

/// The keys as texts.
pub open spec fn key_views(keys: Seq<Option<String>>) -> Seq<Option<Seq<char>>> {
    Seq::new(keys.len(), |i: int| text::opt_text(keys[i]))
}

/// How many keys come before `k`.
pub open spec fn rank(keys: Seq<Option<Seq<char>>>, k: Option<Seq<char>>) -> nat
    decreases keys.len(),
{
    if keys.len() == 0 {
        0
    } else {
        rank(keys.drop_last(), k) + if opt_before(keys.last(), k) {
            1nat
        } else {
            0nat
        }
    }
}

/// Whether an element has the text key `k`.
pub open spec fn text_key_is<T>(
    key: spec_fn(T) -> Option<Seq<char>>,
    k: Option<Seq<char>>,
) -> spec_fn(T) -> bool {
    |x: T| key(x) == k
}

/// Whether `new_seq` is `old_seq` sorted by a text key, upwards or downwards, elements
/// with equal keys in their old order.
pub open spec fn text_sorted<T>(
    old_seq: Seq<T>,
    new_seq: Seq<T>,
    key: spec_fn(T) -> Option<Seq<char>>,
    downwards: bool,
) -> bool {
    &&& forall|i: int, j: int|
        0 <= i <= j < new_seq.len() ==> if downwards {
            !opt_before(key(#[trigger] new_seq[i]), key(#[trigger] new_seq[j]))
        } else {
            !opt_before(key(new_seq[j]), key(new_seq[i]))
        }
    &&& new_seq.to_multiset() == old_seq.to_multiset()
    &&& forall|k: Option<Seq<char>>|
        new_seq.filter(#[trigger] text_key_is(key, k)) == old_seq.filter(text_key_is(key, k))
}

proof fn lemma_rank_grows(
    keys: Seq<Option<Seq<char>>>,
    a: Option<Seq<char>>,
    b: Option<Seq<char>>,
)
    requires
        opt_before(a, b),
    ensures
        rank(keys, a) <= rank(keys, b),
        keys.contains(a) ==> rank(keys, a) < rank(keys, b),
    decreases keys.len(),
{
    if keys.len() > 0 {
        let rest = keys.drop_last();
        let k = keys.last();
        lemma_rank_grows(rest, a, b);
        if opt_before(k, a) {
            order_chains(k, a, b);
        }
        if keys.contains(a) {
            let i = choose|i: int| 0 <= i < keys.len() && keys[i] == a;
            if i < rest.len() {
                assert(rest[i] == a);
            } else {
                order_is_total(a, a);
            }
        }
    }
}

/// Two tests that agree on every element keep the same ones.
pub proof fn lemma_same_filter<T>(s: Seq<T>, f: spec_fn(T) -> bool, g: spec_fn(T) -> bool)
    requires
        forall|i: int| 0 <= i < s.len() ==> f(#[trigger] s[i]) == g(s[i]),
    ensures
        s.filter(f) == s.filter(g),
    decreases s.len(),
{
    reveal(Seq::filter);
    if s.len() > 0 {
        let rest = s.drop_last();
        assert forall|i: int| 0 <= i < rest.len() implies f(#[trigger] rest[i]) == g(rest[i]) by {
            assert(f(s[i]) == g(s[i]));
        }
        lemma_same_filter(rest, f, g);
        assert(f(s[s.len() - 1]) == g(s[s.len() - 1]));
    }
}

proof fn lemma_permuted_contains<T>(a: Seq<T>, b: Seq<T>, i: int)
    requires
        a.to_multiset() == b.to_multiset(),
        0 <= i < a.len(),
    ensures
        b.contains(a[i]),
{
    broadcast use vstd::seq_lib::group_to_multiset_ensures;

    assert(a.contains(a[i]));
    assert(a.to_multiset().count(a[i]) > 0);
}

/// The rank of a key, upwards or downwards.
spec fn signed_rank<T>(
    keys: Seq<Option<Seq<char>>>,
    key: spec_fn(T) -> Option<Seq<char>>,
    downwards: bool,
) -> spec_fn(T) -> int {
    |x: T|
        if downwards {
            -(rank(keys, key(x)) as int)
        } else {
            rank(keys, key(x)) as int
        }
}

proof fn lemma_ranked_is_sorted<T>(
    old_seq: Seq<T>,
    new_seq: Seq<T>,
    keys: Seq<Option<Seq<char>>>,
    key: spec_fn(T) -> Option<Seq<char>>,
    downwards: bool,
)
    requires
        keys.len() == old_seq.len(),
        forall|i: int| 0 <= i < old_seq.len() ==> keys[i] == key(#[trigger] old_seq[i]),
        seqs::sorted_stably(old_seq, new_seq, signed_rank(keys, key, downwards)),
    ensures
        text_sorted(old_seq, new_seq, key, downwards),
{
    let ikey = signed_rank(keys, key, downwards);
    assert forall|i: int| 0 <= i < old_seq.len() implies keys.contains(
        key(#[trigger] old_seq[i]),
    ) by {
        assert(keys[i] == key(old_seq[i]));
    }
    assert forall|i: int| 0 <= i < new_seq.len() implies keys.contains(
        key(#[trigger] new_seq[i]),
    ) by {
        lemma_permuted_contains(new_seq, old_seq, i);
        let j = choose|j: int| 0 <= j < old_seq.len() && old_seq[j] == new_seq[i];
        assert(keys[j] == key(old_seq[j]));
    }
    assert forall|i: int, j: int| 0 <= i <= j < new_seq.len() implies if downwards {
        !opt_before(key(#[trigger] new_seq[i]), key(#[trigger] new_seq[j]))
    } else {
        !opt_before(key(new_seq[j]), key(new_seq[i]))
    } by {
        assert(ikey(new_seq[i]) <= ikey(new_seq[j]));
        assert(keys.contains(key(new_seq[i])));
        assert(keys.contains(key(new_seq[j])));
        if downwards {
            if opt_before(key(new_seq[i]), key(new_seq[j])) {
                lemma_rank_grows(keys, key(new_seq[i]), key(new_seq[j]));
            }
        } else {
            if opt_before(key(new_seq[j]), key(new_seq[i])) {
                lemma_rank_grows(keys, key(new_seq[j]), key(new_seq[i]));
            }
        }
    }
    assert forall|k: Option<Seq<char>>|
        new_seq.filter(#[trigger] text_key_is(key, k)) == old_seq.filter(text_key_is(key, k)) by {
        let f = text_key_is(key, k);
        if keys.contains(k) {
            let n = if downwards {
                -(rank(keys, k) as int)
            } else {
                rank(keys, k) as int
            };
            let g = seqs::key_is(ikey, n);
            assert forall|x: T| keys.contains(key(x)) implies #[trigger] f(x) == g(x) by {
                order_is_total(key(x), k);
                if opt_before(key(x), k) {
                    lemma_rank_grows(keys, key(x), k);
                } else if opt_before(k, key(x)) {
                    lemma_rank_grows(keys, k, key(x));
                }
            }
            lemma_same_filter(old_seq, f, g);
            lemma_same_filter(new_seq, f, g);
            assert(new_seq.filter(g) == old_seq.filter(g));
        } else {
            let none = |x: T| false;
            lemma_same_filter(old_seq, f, none);
            lemma_same_filter(new_seq, f, none);
            lemma_filter_nothing(old_seq);
            lemma_filter_nothing(new_seq);
        }
    }
}

proof fn lemma_filter_nothing<T>(s: Seq<T>)
    ensures
        s.filter(|x: T| false) == Seq::<T>::empty(),
    decreases s.len(),
{
    reveal(Seq::filter);
    if s.len() > 0 {
        lemma_filter_nothing(s.drop_last());
    }
    assert(s.filter(|x: T| false) =~= Seq::<T>::empty());
}

fn ranks(keys: &Vec<Option<String>>, downwards: bool) -> (r: Vec<i128>)
    ensures
        r@.len() == keys@.len(),
        forall|i: int|
            0 <= i < keys@.len() ==> #[trigger] r@[i] == (if downwards {
                -(rank(key_views(keys@), text::opt_text(keys@[i])) as int)
            } else {
                rank(key_views(keys@), text::opt_text(keys@[i])) as int
            }),
{
    let ghost views = key_views(keys@);
    let mut out: Vec<i128> = Vec::new();
    let mut i: usize = 0;
    while i < keys.len()
        invariant
            i <= keys@.len(),
            out@.len() == i,
            views == key_views(keys@),
            forall|j: int|
                0 <= j < i ==> #[trigger] out@[j] == (if downwards {
                    -(rank(views, text::opt_text(keys@[j])) as int)
                } else {
                    rank(views, text::opt_text(keys@[j])) as int
                }),
        decreases keys@.len() - i,
    {
        let mut n: i128 = 0;
        let mut j: usize = 0;
        let ghost k = text::opt_text(keys@[i as int]);
        assert(views.take(0) =~= Seq::<Option<Seq<char>>>::empty());
        while j < keys.len()
            invariant
                i < keys@.len(),
                j <= keys@.len(),
                views == key_views(keys@),
                k == text::opt_text(keys@[i as int]),
                n == rank(views.take(j as int), k),
                n <= j,
            decreases keys@.len() - j,
        {
            proof {
                assert(views.take(j + 1).drop_last() =~= views.take(j as int));
                assert(views.take(j + 1).last() == text::opt_text(keys@[j as int]));
            }
            if key_before(&keys[j], &keys[i]) {
                n = n + 1;
            }
            j = j + 1;
        }
        proof {
            assert(views.take(j as int) =~= views);
        }
        if downwards {
            out.push(-n);
        } else {
            out.push(n);
        }
        i = i + 1;
    }
    out
}

/// Sorts `items` by the given texts (`keys[i]` is that of `items[i]`), upwards or
/// downwards; elements with equal texts keep their order.
pub fn sort_by_text<T>(items: Vec<T>, keys: &Vec<Option<String>>, downwards: bool) -> (r: Vec<T>)
    requires
        keys@.len() == items@.len(),
    ensures
        forall|key: spec_fn(T) -> Option<Seq<char>>|
            (forall|i: int|
                0 <= i < items@.len() ==> text::opt_text(keys@[i]) == key(#[trigger] items@[i]))
                ==> #[trigger] text_sorted(items@, r@, key, downwards),
{
    let ghost src = items@;
    let ghost views = key_views(keys@);
    let numbers = ranks(keys, downwards);
    let r = stable_sort(items, &numbers);
    proof {
        assert forall|key: spec_fn(T) -> Option<Seq<char>>|
            (forall|i: int|
                0 <= i < src.len() ==> text::opt_text(keys@[i]) == key(
                    #[trigger] src[i],
                )) implies #[trigger] text_sorted(src, r@, key, downwards) by {
            let ikey = signed_rank(views, key, downwards);
            assert forall|i: int| 0 <= i < src.len() implies numbers@[i] == ikey(
                #[trigger] src[i],
            ) by {
                assert(text::opt_text(keys@[i]) == key(src[i]));
            }
            assert(seqs::sorted_stably(src, r@, ikey));
            assert forall|i: int| 0 <= i < src.len() implies views[i] == key(
                #[trigger] src[i],
            ) by {
                assert(text::opt_text(keys@[i]) == key(src[i]));
            }
            lemma_ranked_is_sorted(src, r@, views, key, downwards);
        }
    }
    r
}

} // verus!
