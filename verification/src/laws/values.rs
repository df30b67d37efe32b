//! What the small operations on texts, numbers and pairs promise.

use vstd::prelude::*;

use crate::attr::{held, lemma_key_at};
use crate::order::text_less;
use crate::nums::{all_digits, decimal, decimal_int, digit_char, digits_value, i64_of, usize_of};
use crate::strs::{
    ascii_lowered, first_value, is_ascii_upper, is_digit, is_space, joined, lemma_strip_idempotent,
    lemma_strip_shape, lookup, only, occurs, occurs_at, replaced, spaces, split_on, strip_end,
    strip_start, trimmed,
};

verus! {

/// Decimal digits stand for the number they were written of, and lead with no zero but
/// that of nought itself.
pub proof fn law_digits_stand_for_their_number(n: nat)
    ensures
        all_digits(decimal(n)),
        digits_value(decimal(n)) == n,
        n > 0 ==> decimal(n)[0] != '0',
    decreases n,
{
    if n < 10 {
        let c = digit_char(n as int);
        assert(c as int == n + 48);
        assert(is_digit(c));
        assert(decimal(n).drop_last() =~= Seq::empty());
        assert(digits_value(Seq::empty()) == 0);
        assert(decimal(n).last() == c);
    } else {
        let front = decimal(n / 10);
        law_digits_stand_for_their_number(n / 10);
        let c = digit_char((n % 10) as int);
        assert(c as int == n % 10 + 48);
        assert(is_digit(c));
        let all = decimal(n);
        assert(all.drop_last() =~= front);
        assert forall|j: int| 0 <= j < all.len() implies is_digit(#[trigger] all[j]) by {
            if j < front.len() {
                assert(all[j] == front[j]);
            }
        }
        assert(all[0] == front[0]);
    }
}

/// A number reads back as it was written.
pub proof fn law_a_written_number_reads_back(i: i64)
    ensures
        i64_of(decimal_int(i as int)) == Some(i),
        i >= 0 && i <= usize::MAX ==> usize_of(decimal_int(i as int)) == Some(i as usize),
{
    if i < 0 {
        let n = (-(i as int)) as nat;
        law_digits_stand_for_their_number(n);
        let s = decimal_int(i as int);
        assert(s[0] == '-');
        assert(s.drop_first() =~= decimal(n));
    } else {
        law_digits_stand_for_their_number(i as nat);
        let s = decimal_int(i as int);
        assert(is_digit(s[0]));
    }
}

/// What reads as a number holds nothing but digits behind its sign.
pub proof fn law_only_digits_read_as_a_number(s: Seq<char>)
    requires
        i64_of(s) is Some,
    ensures
        s.len() > 0,
        s[0] == '-' || s[0] == '+' || is_digit(s[0]),
        forall|j: int| 1 <= j < s.len() ==> is_digit(#[trigger] s[j]),
        s[0] == '-' ==> i64_of(s)->0 <= 0,
        s[0] != '-' ==> i64_of(s)->0 >= 0,
{
    assert forall|j: int| 1 <= j < s.len() implies is_digit(#[trigger] s[j]) by {
        if s[0] == '-' || s[0] == '+' {
            assert(s.drop_first()[j - 1] == s[j]);
        }
    }
}

/// Trimming takes white space off both ends and nothing else: what is left begins and
/// ends with something else and stands in the text as it is.
pub proof fn law_trimming_takes_off_white_space(s: Seq<char>)
    ensures
        trimmed(s).len() > 0 ==> !is_space(trimmed(s)[0]) && !is_space(trimmed(s).last()),
        exists|i: int, j: int|
            {
                &&& 0 <= i <= j <= s.len()
                &&& trimmed(s) == #[trigger] s.subrange(i, j)
                &&& forall|k: int| 0 <= k < i ==> is_space(#[trigger] s[k])
                &&& forall|k: int| j <= k < s.len() ==> is_space(#[trigger] s[k])
            },
        trimmed(s).len() == 0 <==> forall|k: int| 0 <= k < s.len() ==> is_space(#[trigger] s[k]),
{
    let p = spaces();
    let a = strip_start(s, p);
    let b = strip_end(a, p);
    lemma_strip_shape(s, p);
    lemma_strip_shape(a, p);
    lemma_strip_idempotent(s, p);
    lemma_taken_off_the_start(s, p);
    lemma_taken_off_the_end(a, p);
    let i = s.len() - a.len();
    let j = i + b.len();
    assert(b =~= s.subrange(i, j));
    assert forall|k: int| j <= k < s.len() implies is_space(#[trigger] s[k]) by {
        assert(a[k - i] == s[k]);
        assert(p(a[k - i]));
    }
    assert forall|k: int| 0 <= k < i implies is_space(#[trigger] s[k]) by {
        assert(p(s[k]));
    }
    if b.len() > 0 {
        assert(b[0] == s[i]);
        assert(!is_space(s[i]));
    }
}

/// What is stripped off the start satisfies the test.
proof fn lemma_taken_off_the_start(s: Seq<char>, p: spec_fn(char) -> bool)
    ensures
        forall|k: int| 0 <= k < s.len() - strip_start(s, p).len() ==> p(#[trigger] s[k]),
    decreases s.len(),
{
    if s.len() > 0 && p(s[0]) {
        let t = s.drop_first();
        lemma_taken_off_the_start(t, p);
        assert forall|k: int| 0 <= k < s.len() - strip_start(s, p).len() implies p(
            #[trigger] s[k],
        ) by {
            if k > 0 {
                assert(t[k - 1] == s[k]);
            }
        }
    }
}

/// What is stripped off the end satisfies the test.
proof fn lemma_taken_off_the_end(s: Seq<char>, p: spec_fn(char) -> bool)
    ensures
        forall|k: int| strip_end(s, p).len() <= k < s.len() ==> p(#[trigger] s[k]),
    decreases s.len(),
{
    if s.len() > 0 && p(s.last()) {
        let t = s.drop_last();
        lemma_taken_off_the_end(t, p);
        assert forall|k: int| strip_end(s, p).len() <= k < s.len() implies p(#[trigger] s[k]) by {
            if k < t.len() {
                assert(t[k] == s[k]);
            }
        }
    }
}

/// The value a name is looked up under is the one it was given last, and the value
/// found first the one it was given first.
pub proof fn law_a_name_is_found_where_it_stands(
    pairs: Seq<(Seq<char>, Seq<char>)>,
    key: Seq<char>,
    value: Seq<char>,
    other: Seq<char>,
)
    ensures
        lookup(pairs.push((key, value)), key) == Some(value),
        other != key ==> lookup(pairs.push((key, value)), other) == lookup(pairs, other),
        lookup(Seq::empty(), key) is None,
        first_value(seq![(key, value)] + pairs, key) == Some(value),
        other != key ==> first_value(seq![(key, value)] + pairs, other) == first_value(
            pairs,
            other,
        ),
        first_value(Seq::empty(), key) is None,
{
    assert(pairs.push((key, value)).drop_last() =~= pairs);
    let ahead = seq![(key, value)] + pairs;
    assert(ahead.drop_first() =~= pairs);
    assert(ahead[0] == (key, value));
}

/// What is held under a key is what the first pair of that key holds.
pub proof fn law_the_first_pair_of_a_key_counts<V>(pairs: Seq<(Seq<char>, V)>, key: Seq<char>)
    ensures
        held(pairs, key) is None <==> forall|i: int|
            0 <= i < pairs.len() ==> (#[trigger] pairs[i]).0 != key,
        held(pairs, key) matches Some(v) ==> exists|i: int|
            {
                &&& 0 <= i < pairs.len()
                &&& #[trigger] pairs[i] == (key, v)
                &&& forall|j: int| 0 <= j < i ==> (#[trigger] pairs[j]).0 != key
            },
    decreases pairs.len(),
{
    lemma_key_at(pairs, key);
    if held(pairs, key) is Some {
        let init = pairs.drop_last();
        law_the_first_pair_of_a_key_counts(init, key);
        if held(init, key) is Some {
            lemma_key_at(init, key);
            let v = held(init, key)->0;
            let i = choose|i: int|
                {
                    &&& 0 <= i < init.len()
                    &&& #[trigger] init[i] == (key, v)
                    &&& forall|j: int| 0 <= j < i ==> (#[trigger] init[j]).0 != key
                };
            assert(pairs[i] == init[i]);
            assert forall|j: int| 0 <= j < i implies (#[trigger] pairs[j]).0 != key by {
                assert(init[j] == pairs[j]);
            }
        } else {
            lemma_key_at(init, key);
            let i = pairs.len() - 1;
            assert(pairs[i] == (key, held(pairs, key)->0));
            assert forall|j: int| 0 <= j < i implies (#[trigger] pairs[j]).0 != key by {
                assert(init[j] == pairs[j]);
            }
        }
    }
}

/// Splitting loses nothing: joining the parts with the separator gives the text back,
/// and no part holds a separator.
pub proof fn law_split_parts_join_back(s: Seq<char>, sep: char)
    ensures
        split_on(s, only(sep)).len() > 0,
        joined(split_on(s, only(sep)), seq![sep]) == s,
        forall|i: int|
            0 <= i < split_on(s, only(sep)).len() ==> !(#[trigger] split_on(
                s,
                only(sep),
            )[i]).contains(sep),
    decreases s.len(),
{
    let parts = split_on(s, only(sep));
    if s.len() == 0 {
        assert(parts[0] =~= s);
    } else {
        let t = s.drop_last();
        law_split_parts_join_back(t, sep);
        let before = split_on(t, only(sep));
        assert(t.push(s.last()) =~= s);
        if s.last() == sep {
            assert(parts.drop_last() =~= before);
            assert(t + seq![sep] + Seq::<char>::empty() =~= s);
        } else {
            let grown = before.last().push(s.last());
            let front = before.drop_last();
            assert(parts == front.push(grown));
            assert(parts.drop_last() =~= front);
            if before.len() == 1 {
                assert(grown =~= s);
            } else {
                assert(joined(front, seq![sep]) + seq![sep] + before.last() == t);
                assert(joined(front, seq![sep]) + seq![sep] + grown =~= s);
            }
            assert forall|i: int| 0 <= i < parts.len() implies !(#[trigger] parts[i]).contains(
                sep,
            ) by {
                if i < front.len() {
                    assert(parts[i] == before[i]);
                } else {
                    let last = before[before.len() - 1];
                    assert forall|k: int| 0 <= k < grown.len() implies grown[k] != sep by {
                        if k < last.len() {
                            assert(last.contains(last[k]));
                        }
                    }
                }
            }
        }
    }
}

/// Replacing one character by another changes just the places where it stands.
pub proof fn law_replacing_changes_one_character(s: Seq<char>, from: char, to: char, i: int)
    requires
        0 <= i < s.len(),
    ensures
        replaced(s, from, to).len() == s.len(),
        s[i] == from ==> replaced(s, from, to)[i] == to,
        s[i] != from ==> replaced(s, from, to)[i] == s[i],
{
}

/// In lower case no character of a text is an ASCII capital, and any other character
/// stands as it was.
pub proof fn law_lower_case_holds_no_capital(s: Seq<char>, i: int)
    requires
        0 <= i < s.len(),
    ensures
        ascii_lowered(s).len() == s.len(),
        !is_ascii_upper(ascii_lowered(s)[i]),
        !is_ascii_upper(s[i]) ==> ascii_lowered(s)[i] == s[i],
        is_ascii_upper(s[i]) ==> ascii_lowered(s)[i] as int - 'a' as int == s[i] as int
            - 'A' as int,
{
    let c = s[i];
    if is_ascii_upper(c) {
        assert(65 <= c as u32 <= 90);
        assert(((c as u32 + 32) as char) as u32 == c as u32 + 32);
    }
}

/// A text occurs in whatever it was put into.
pub proof fn law_a_part_occurs(a: Seq<char>, b: Seq<char>, c: Seq<char>)
    ensures
        occurs(a + b + c, b),
{
    assert((a + b + c).subrange(a.len() as int, (a.len() + b.len()) as int) =~= b);
    assert(occurs_at(a + b + c, b, a.len() as int));
}

/// A list that is mapped and filtered holds just what its items were mapped to.
pub proof fn lemma_kept<A, B>(s: Seq<A>, f: spec_fn(A) -> Option<B>, e: B)
    ensures
        s.filter_map(f).contains(e) <==> exists|t: A| #[trigger] s.contains(t) && f(t) == Some(e),
    decreases s.len(),
{
    reveal(Seq::filter_map);
    let kept = s.filter_map(f);
    if s.len() > 0 {
        let init = s.drop_last();
        let before = init.filter_map(f);
        lemma_kept(init, f, e);
        assert(s.contains(s[s.len() - 1]));
        if before.contains(e) {
            let t = choose|t: A| #[trigger] init.contains(t) && f(t) == Some(e);
            let k = choose|k: int| 0 <= k < init.len() && init[k] == t;
            assert(s[k] == t);
            assert(s.contains(t));
            let j = choose|j: int| 0 <= j < before.len() && before[j] == e;
            assert(kept[j] == e);
            assert(kept.contains(e));
        }
        if kept.contains(e) && !before.contains(e) {
            let j = choose|j: int| 0 <= j < kept.len() && kept[j] == e;
            if j < before.len() {
                assert(before[j] == e);
            }
            assert(f(s.last()) == Some(e));
            assert(s.contains(s.last()) && f(s.last()) == Some(e));
        }
        if exists|t: A| #[trigger] s.contains(t) && f(t) == Some(e) {
            let t = choose|t: A| #[trigger] s.contains(t) && f(t) == Some(e);
            let k = choose|k: int| 0 <= k < s.len() && s[k] == t;
            if k < init.len() {
                assert(init[k] == t);
                assert(init.contains(t));
                assert(before.contains(e));
            } else {
                assert(f(s.last()) == Some(e));
                assert(kept == before + seq![e]);
                assert(kept[before.len() as int] == e);
            }
            assert(kept.contains(e));
        }
    }
}

/// Texts stand in the order of a dictionary: by the first character that tells them apart,
/// and the shorter ahead where none does.
pub proof fn law_texts_stand_as_in_a_dictionary(
    common: Seq<char>,
    a: Seq<char>,
    b: Seq<char>,
    x: char,
    y: char,
)
    ensures
        x < y ==> text_less(common + (seq![x] + a), common + (seq![y] + b)),
        x < y ==> !text_less(common + (seq![y] + b), common + (seq![x] + a)),
        text_less(common, common + (seq![x] + a)),
        !text_less(common + a, common),
    decreases common.len(),
{
    if common.len() == 0 {
        let p = seq![x] + a;
        let q = seq![y] + b;
        assert(common + p =~= p);
        assert(common + q =~= q);
        assert(p[0] == x && q[0] == y);
    } else {
        let rest = common.drop_first();
        law_texts_stand_as_in_a_dictionary(rest, a, b, x, y);
        let p = common + (seq![x] + a);
        let q = common + (seq![y] + b);
        assert(p.drop_first() =~= rest + (seq![x] + a));
        assert(q.drop_first() =~= rest + (seq![y] + b));
        assert((common + a).drop_first() =~= rest + a);
        assert(p[0] == common[0] && q[0] == common[0] && (common + a)[0] == common[0]);
    }
}

} // verus!
