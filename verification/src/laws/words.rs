//! Texts, numbers as text, and the order of texts.

use vstd::prelude::*;

#[allow(unused_imports)]
use crate::{laws, order, text};

verus! {

// -------------------------------------------------------------------- white space

/// White space is the blank, the breaks and tabs, and the other spaces of Unicode.
pub proof fn white_space_is_that_of_unicode(c: char)
    ensures
        text::is_white(c) <==> 9 <= c as int <= 13 || c as int == 0x20 || c as int == 0x85
            || c as int == 0xa0 || c as int == 0x1680 || 0x2000 <= c as int <= 0x200a || c as int
            == 0x2028 || c as int == 0x2029 || c as int == 0x202f || c as int == 0x205f || c as int
            == 0x3000,
        text::is_control_char(c) <==> c as int <= 0x1f || 0x7f <= c as int <= 0x9f,
{
}

proof fn lemma_trim_start(s: Seq<char>, i: int)
    requires
        0 <= i <= s.len(),
        forall|j: int| 0 <= j < i ==> text::is_white(#[trigger] s[j]),
        i < s.len() ==> !text::is_white(s[i]),
    ensures
        text::trim_start(s) == s.skip(i),
    decreases s.len(),
{
    if i > 0 {
        let rest = s.drop_first();
        assert(text::is_white(s[0]));
        assert forall|j: int| 0 <= j < i - 1 implies text::is_white(#[trigger] rest[j]) by {
            assert(text::is_white(s[j + 1]));
        }
        lemma_trim_start(rest, i - 1);
        assert(rest.skip(i - 1) =~= s.skip(i));
    } else {
        assert(s.skip(0) =~= s);
    }
}

proof fn lemma_trim_end(s: Seq<char>, n: int)
    requires
        0 <= n <= s.len(),
        forall|j: int| n <= j < s.len() ==> text::is_white(#[trigger] s[j]),
        n > 0 ==> !text::is_white(s[n - 1]),
    ensures
        text::trim_end(s) == s.take(n),
    decreases s.len(),
{
    if n < s.len() {
        let rest = s.drop_last();
        assert(text::is_white(s[s.len() - 1]));
        assert forall|j: int| n <= j < rest.len() implies text::is_white(#[trigger] rest[j]) by {
            assert(text::is_white(s[j]));
        }
        lemma_trim_end(rest, n);
        assert(rest.take(n) =~= s.take(n));
    } else {
        assert(s.take(n) =~= s);
    }
}

/// Trimming takes the white space off both ends and nothing else: a text that neither starts
/// nor ends with white space comes back from whatever white space is around it.
pub proof fn trimming_takes_off_white_space(
    front: Seq<char>,
    s: Seq<char>,
    back: Seq<char>,
)
    requires
        forall|j: int| 0 <= j < front.len() ==> text::is_white(#[trigger] front[j]),
        forall|j: int| 0 <= j < back.len() ==> text::is_white(#[trigger] back[j]),
        s.len() > 0 ==> !text::is_white(s[0]) && !text::is_white(s.last()),
    ensures
        text::trimmed(front + s + back) == s,
{
    let all = front + s + back;
    if s.len() > 0 {
        let i = front.len() as int;
        assert forall|j: int| 0 <= j < i implies text::is_white(#[trigger] all[j]) by {
            assert(text::is_white(front[j]));
        }
        lemma_trim_start(all, i);
        let rest = all.skip(i);
        let n = s.len() as int;
        assert forall|j: int| n <= j < rest.len() implies text::is_white(#[trigger] rest[j]) by {
            assert(text::is_white(back[j - n]));
        }
        lemma_trim_end(rest, n);
        assert(rest.take(n) =~= s);
    } else {
        let i = all.len() as int;
        assert forall|j: int| 0 <= j < i implies text::is_white(#[trigger] all[j]) by {
            if j < front.len() {
                assert(text::is_white(front[j]));
            } else {
                assert(text::is_white(back[j - front.len()]));
            }
        }
        lemma_trim_start(all, i);
        assert(text::trim_start(all) =~= Seq::<char>::empty());
        assert(text::trimmed(all) =~= s);
    }
}

/// A text is blank where all of it is white space.
pub proof fn blank_texts_are_white_space(s: Seq<char>)
    ensures
        text::is_blank(s) <==> forall|j: int| 0 <= j < s.len() ==> text::is_white(#[trigger] s[j]),
{
    if forall|j: int| 0 <= j < s.len() ==> text::is_white(#[trigger] s[j]) {
        trimming_takes_off_white_space(s, Seq::empty(), Seq::empty());
        assert(s + Seq::<char>::empty() + Seq::<char>::empty() =~= s);
    } else {
        lemma_keeps_a_letter(s);
    }
}

proof fn lemma_keeps_a_letter(s: Seq<char>)
    requires
        exists|j: int| 0 <= j < s.len() && !text::is_white(#[trigger] s[j]),
    ensures
        text::trimmed(s).len() > 0,
    decreases s.len(),
{
    let j = choose|j: int| 0 <= j < s.len() && !text::is_white(#[trigger] s[j]);
    if text::is_white(s[0]) {
        let rest = s.drop_first();
        assert(!text::is_white(rest[j - 1]));
        lemma_keeps_a_letter(rest);
    } else {
        lemma_trim_start(s, 0);
        assert(s.skip(0) =~= s);
        lemma_keeps_the_first(s);
    }
}

proof fn lemma_keeps_the_first(s: Seq<char>)
    requires
        s.len() > 0,
        !text::is_white(s[0]),
    ensures
        text::trim_end(s).len() > 0,
    decreases s.len(),
{
    if text::is_white(s.last()) {
        lemma_keeps_the_first(s.drop_last());
    }
}

// ------------------------------------------------------------------------ letters

/// The case of the letters of the alphabet is changed and nothing else: the length stays,
/// each letter becomes its own counterpart, and any other character is kept.
pub proof fn letters_change_case(s: Seq<char>, i: int)
    requires
        0 <= i < s.len(),
    ensures
        text::uppercase(s).len() == s.len(),
        text::lowercase(s).len() == s.len(),
        97 <= s[i] as int <= 122 ==> text::uppercase(s)[i] as int == s[i] as int - 32,
        !(97 <= s[i] as int <= 122) ==> text::uppercase(s)[i] == s[i],
        65 <= s[i] as int <= 90 ==> text::lowercase(s)[i] as int == s[i] as int + 32,
        !(65 <= s[i] as int <= 90) ==> text::lowercase(s)[i] == s[i],
{
}

/// A text ends with a tail where it is something and then the tail.
pub proof fn tails_stand_at_the_end(s: Seq<char>, front: Seq<char>, tail: Seq<char>)
    ensures
        text::has_suffix(front + tail, tail),
        text::has_suffix(s, tail) ==> s == s.take(s.len() - tail.len()) + tail,
{
    let all = front + tail;
    assert(all.subrange(all.len() - tail.len(), all.len() as int) =~= tail);
    if text::has_suffix(s, tail) {
        assert(s =~= s.take(s.len() - tail.len()) + s.subrange(
            s.len() - tail.len(),
            s.len() as int,
        ));
    }
}

/// A text holds a part where it is something, the part, and something.
pub proof fn parts_stand_in_the_middle(
    s: Seq<char>,
    front: Seq<char>,
    part: Seq<char>,
    back: Seq<char>,
)
    ensures
        text::has_part(front + part + back, part),
        text::has_part(s, part) ==> exists|i: int|
            0 <= i <= s.len() && s == #[trigger] s.take(i) + part + s.skip(i + part.len()),
{
    if text::has_part(s, part) {
        let i = choose|i: int|
            0 <= i <= s.len() - part.len() && #[trigger] s.subrange(i, i + part.len()) == part;
        assert(s =~= s.take(i) + s.subrange(i, i + part.len()) + s.skip(i + part.len()));
    }
    let all = front + part + back;
    let i = front.len() as int;
    assert(all.subrange(i, i + part.len()) =~= part);
}

// ----------------------------------------------------------------------- decimals

/// The value that the digits of a text have: each is worth ten times the next.
pub open spec fn worth(s: Seq<char>) -> int
    decreases s.len(),
{
    if s.len() == 0 {
        0
    } else {
        worth(s.drop_last()) * 10 + (s.last() as int - '0' as int)
    }
}

/// A number is written with the digits 0 to 9, the last of them its remainder by ten, without
/// a zero in front, and the digits are worth the number.
pub proof fn numbers_are_written_in_decimal(n: nat)
    ensures
        text::decimal(n).len() > 0,
        forall|i: int|
            0 <= i < text::decimal(n).len() ==> '0' as int <= #[trigger] text::decimal(n)[i] as int
                <= '9' as int,
        n > 0 ==> text::decimal(n)[0] != '0',
        n == 0 ==> text::decimal(n).len() == 1,
        worth(text::decimal(n)) == n,
    decreases n,
{
    if n >= 10 {
        numbers_are_written_in_decimal(n / 10);
        assert(text::decimal(n).drop_last() =~= text::decimal(n / 10));
        assert forall|i: int| 0 <= i < text::decimal(n).len() implies '0' as int
            <= #[trigger] text::decimal(n)[i] as int <= '9' as int by {
            if i < text::decimal(n / 10).len() {
                assert(text::decimal(n)[i] == text::decimal(n / 10)[i]);
            }
        }
        assert(text::decimal(n)[0] == text::decimal(n / 10)[0]);
    } else {
        assert(text::decimal(n).drop_last() =~= Seq::<char>::empty());
        assert(worth(text::decimal(n).drop_last()) == 0);
    }
}

/// A number that is too short is filled up with zeros in front, to the width and not past it.
pub proof fn short_numbers_are_filled_up(n: nat, width: nat, i: int)
    ensures
        ({
            let d = text::decimal(n);
            let p = text::padded(n, width);
            &&& d.len() >= width ==> p == d
            &&& d.len() < width ==> p.len() == width && p.skip(width - d.len()) == d
            &&& d.len() < width && 0 <= i < width - d.len() ==> p[i] == '0'
        }),
{
    let d = text::decimal(n);
    if d.len() < width {
        assert(text::padded(n, width).skip(width - d.len()) =~= d);
    }
}

proof fn lemma_worth_is_value(s: Seq<char>)
    ensures
        text::digits_value(s) == worth(s),
    decreases s.len(),
{
    if s.len() > 0 {
        lemma_worth_is_value(s.drop_last());
    }
}

/// A number is read from one or more digits, with or without a plus in front, where 64 bits
/// hold it; anything else is no number.
pub proof fn numbers_are_read_from_digits(s: Seq<char>, i: int)
    ensures
        s.len() > 0 && (forall|j: int|
            0 <= j < s.len() ==> '0' as int <= #[trigger] s[j] as int <= '9' as int) ==> {
            &&& worth(s) <= u64::MAX ==> text::read_u64(s) == Some(worth(s) as u64) && worth(s)
                >= 0
            &&& worth(s) > u64::MAX ==> text::read_u64(s) is None
            &&& text::read_u64(seq!['+'] + s) == text::read_u64(s)
        },
        1 <= i < s.len() && !('0' as int <= s[i] as int <= '9' as int) ==> text::read_u64(s)
            is None,
        s.len() == 0 ==> text::read_u64(s) is None,
        s.len() > 0 && s[0] != '+' && !('0' as int <= s[0] as int <= '9' as int)
            ==> text::read_u64(s) is None,
        s == seq!['+'] ==> text::read_u64(s) is None,
{
    let d = text::unsigned_digits(s);
    if s.len() > 0 && (forall|j: int|
        0 <= j < s.len() ==> '0' as int <= #[trigger] s[j] as int <= '9' as int) {
        assert('0' as int <= s[0] as int);
        assert(s[0] != '+');
        assert(d == s);
        lemma_worth_is_value(s);
        lemma_worth_is_not_negative(s);
        let signed = seq!['+'] + s;
        assert(text::unsigned_digits(signed) =~= s);
        assert forall|j: int| 0 <= j < s.len() implies text::is_digit(#[trigger] s[j]) by {}
    }
    if 1 <= i < s.len() && !('0' as int <= s[i] as int <= '9' as int) {
        if s[0] == '+' {
            assert(d[i - 1] == s[i]);
            assert(!text::is_digit(d[i - 1]));
        } else {
            assert(!text::is_digit(d[i]));
        }
    }
    if s.len() > 0 && s[0] != '+' && !('0' as int <= s[0] as int <= '9' as int) {
        assert(!text::is_digit(d[0]));
    }
    if s == seq!['+'] {
        assert(d.len() == 0);
    }
}

proof fn lemma_worth_is_not_negative(s: Seq<char>)
    requires
        forall|j: int| 0 <= j < s.len() ==> '0' as int <= #[trigger] s[j] as int,
    ensures
        worth(s) >= 0,
    decreases s.len(),
{
    if s.len() > 0 {
        let rest = s.drop_last();
        assert forall|j: int| 0 <= j < rest.len() implies '0' as int <= #[trigger] rest[
            j
        ] as int by {
            assert(rest[j] == s[j]);
        }
        lemma_worth_is_not_negative(rest);
        assert('0' as int <= s[s.len() - 1] as int);
    }
}

// -------------------------------------------------------------------------- order

/// Texts are in the order of their first difference; where one is the beginning of the
/// other, the shorter one comes first.
pub proof fn texts_are_ordered_by_their_first_difference(a: Seq<char>, b: Seq<char>, k: int)
    requires
        0 <= k <= a.len(),
        k <= b.len(),
        forall|j: int| 0 <= j < k ==> #[trigger] a[j] == b[j],
    ensures
        k < a.len() && k < b.len() && (a[k] as int) < (b[k] as int) ==> order::before(a, b)
            && !order::before(b, a),
        k == a.len() && k < b.len() ==> order::before(a, b) && !order::before(b, a),
        k == a.len() && k == b.len() ==> !order::before(a, b) && !order::before(b, a),
    decreases k,
{
    if k > 0 {
        let x = a.skip(1);
        let y = b.skip(1);
        assert(a[0] == b[0]);
        assert forall|j: int| 0 <= j < k - 1 implies #[trigger] x[j] == y[j] by {
            assert(a[j + 1] == b[j + 1]);
        }
        texts_are_ordered_by_their_first_difference(x, y, k - 1);
    }
}

/// What has no text comes before all that has one, and among texts their own order counts.
pub proof fn no_text_comes_first(a: Seq<char>, b: Seq<char>)
    ensures
        order::opt_before(None, Some(a)),
        !order::opt_before(Some(a), None),
        !order::opt_before(None, None),
        order::opt_before(Some(a), Some(b)) == order::before(a, b),
{
}

/// What was sorted by text is in order, each element as often as before, and those of one
/// text as they stood.
pub proof fn sorted_texts_are_in_order<T>(
    before: Seq<T>,
    after: Seq<T>,
    key: spec_fn(T) -> Option<Seq<char>>,
    downwards: bool,
    i: int,
    j: int,
    k: Option<Seq<char>>,
)
    requires
        order::text_sorted(before, after, key, downwards),
        0 <= i < j < after.len(),
    ensures
        !downwards ==> order::opt_before(key(after[i]), key(after[j])) || key(after[i]) == key(
            after[j],
        ),
        downwards ==> order::opt_before(key(after[j]), key(after[i])) || key(after[i]) == key(
            after[j],
        ),
        after.to_multiset() == before.to_multiset(),
        after.filter(|x: T| key(x) == k) == before.filter(|x: T| key(x) == k),
{
    order::order_is_total(key(after[i]), key(after[j]));
    let f = |x: T| key(x) == k;
    let g = order::text_key_is(key, k);
    order::lemma_same_filter(after, f, g);
    order::lemma_same_filter(before, f, g);
    assert(after.filter(g) == before.filter(g));
}

} // verus!
