//! Text as sequences of characters: trimming, splitting, searching, joining and
//! the decimal form of integers.
//!
//! Every function here states its result over the characters of its arguments,
//! so the rest of the library can speak of `Seq<char>` alone.

use vstd::prelude::*;
use vstd::string::StringExecFns;
use vstd::string::StrSliceExecFns;

verus! {

/// `String::push` appends the given character to the end of the string.
pub assume_specification[ String::push ](s: &mut String, c: char)
    ensures
        final(s)@ == old(s)@.push(c),
;

// ---------------------------------------------------------------- characters
/// The characters Unicode calls white space.
pub open spec fn is_space(c: char) -> bool {
    let n = c as u32;
    ||| 0x9 <= n <= 0xd
    ||| n == 0x20
    ||| n == 0x85
    ||| n == 0xa0
    ||| n == 0x1680
    ||| 0x2000 <= n <= 0x200a
    ||| n == 0x2028
    ||| n == 0x2029
    ||| n == 0x202f
    ||| n == 0x205f
    ||| n == 0x3000
}

/// The predicate "is white space".
pub open spec fn spaces() -> spec_fn(char) -> bool {
    |c: char| is_space(c)
}

/// The predicate "is this very character".
pub open spec fn only(ch: char) -> spec_fn(char) -> bool {
    |c: char| c == ch
}

/// The predicate "is one of these two characters".
pub open spec fn either(a: char, b: char) -> spec_fn(char) -> bool {
    |c: char| c == a || c == b
}

pub open spec fn is_ascii_lower(c: char) -> bool {
    'a' <= c <= 'z'
}

pub open spec fn is_ascii_upper(c: char) -> bool {
    'A' <= c <= 'Z'
}

pub open spec fn is_digit(c: char) -> bool {
    '0' <= c <= '9'
}

/// A letter or digit of ASCII.
pub open spec fn is_ascii_word(c: char) -> bool {
    is_ascii_lower(c) || is_ascii_upper(c) || is_digit(c)
}

/// A hexadecimal digit in either case.
pub open spec fn is_hex(c: char) -> bool {
    is_digit(c) || 'a' <= c <= 'f' || 'A' <= c <= 'F'
}

/// The lower-case form of an ASCII letter; anything else unchanged.
pub open spec fn ascii_lower(c: char) -> char {
    if is_ascii_upper(c) {
        (c as u32 + 32) as char
    } else {
        c
    }
}

/// A text with its ASCII letters in lower case.
pub open spec fn ascii_lowered(s: Seq<char>) -> Seq<char> {
    s.map_values(|c: char| ascii_lower(c))
}

pub fn space(c: char) -> (r: bool)
    ensures
        r == is_space(c),
{
    let n: u32 = c as u32;
    (0x9 <= n && n <= 0xd) || n == 0x20 || n == 0x85 || n == 0xa0 || n == 0x1680 || (0x2000 <= n
        && n <= 0x200a) || n == 0x2028 || n == 0x2029 || n == 0x202f || n == 0x205f || n == 0x3000
}

/// The lower-case form of an ASCII letter; anything else unchanged.
pub fn lower_char(c: char) -> (r: char)
    ensures
        r == ascii_lower(c),
{
    if 'A' <= c && c <= 'Z' {
        (c as u8 + 32) as char
    } else {
        c
    }
}

// ------------------------------------------------------------------ trimming
/// `s` without the leading characters that satisfy `p`.
pub open spec fn strip_start(s: Seq<char>, p: spec_fn(char) -> bool) -> Seq<char>
    decreases s.len(),
{
    if s.len() > 0 && p(s[0]) {
        strip_start(s.drop_first(), p)
    } else {
        s
    }
}

/// `s` without the trailing characters that satisfy `p`.
pub open spec fn strip_end(s: Seq<char>, p: spec_fn(char) -> bool) -> Seq<char>
    decreases s.len(),
{
    if s.len() > 0 && p(s.last()) {
        strip_end(s.drop_last(), p)
    } else {
        s
    }
}

/// `s` without leading and trailing characters that satisfy `p`.
pub open spec fn strip(s: Seq<char>, p: spec_fn(char) -> bool) -> Seq<char> {
    strip_end(strip_start(s, p), p)
}

/// `s` without surrounding white space.
pub open spec fn trimmed(s: Seq<char>) -> Seq<char> {
    strip(s, spaces())
}

/// Whether a text holds nothing but white space.
pub open spec fn is_blank(s: Seq<char>) -> bool {
    trimmed(s).len() == 0
}

/// Stripping the front leaves the text from the first character that stays.
pub proof fn lemma_strip_start_at(s: Seq<char>, p: spec_fn(char) -> bool, k: int)
    requires
        0 <= k <= s.len(),
        forall|j: int| 0 <= j < k ==> p(#[trigger] s[j]),
        k < s.len() ==> !p(s[k]),
    ensures
        strip_start(s, p) == s.skip(k),
    decreases k,
{
    if k == 0 {
        assert(s.skip(0) =~= s);
    } else {
        assert(p(s[0]));
        let t = s.drop_first();
        assert forall|j: int| 0 <= j < k - 1 implies p(#[trigger] t[j]) by {
            assert(t[j] == s[j + 1]);
        }
        lemma_strip_start_at(t, p, k - 1);
        assert(t.skip(k - 1) =~= s.skip(k));
    }
}

/// Stripping the back leaves the text up to the last character that stays.
pub proof fn lemma_strip_end_at(s: Seq<char>, p: spec_fn(char) -> bool, k: int)
    requires
        0 <= k <= s.len(),
        forall|j: int| k <= j < s.len() ==> p(#[trigger] s[j]),
        k > 0 ==> !p(s[k - 1]),
    ensures
        strip_end(s, p) == s.take(k),
    decreases s.len() - k,
{
    if k == s.len() {
        assert(s.take(k) =~= s);
    } else {
        let t = s.drop_last();
        assert(p(s[s.len() - 1]));
        assert forall|j: int| k <= j < t.len() implies p(#[trigger] t[j]) by {
            assert(t[j] == s[j]);
        }
        lemma_strip_end_at(t, p, k);
        assert(t.take(k) =~= s.take(k));
    }
}

/// Stripping either end yields a stretch of the text whose ends stay.
pub proof fn lemma_strip_shape(s: Seq<char>, p: spec_fn(char) -> bool)
    ensures
        strip_start(s, p).len() <= s.len(),
        strip_start(s, p).len() > 0 ==> !p(strip_start(s, p)[0]),
        strip_start(s, p) == s.skip(s.len() - strip_start(s, p).len()),
        strip_end(s, p).len() <= s.len(),
        strip_end(s, p).len() > 0 ==> !p(strip_end(s, p).last()),
        strip_end(s, p) == s.take(strip_end(s, p).len() as int),
    decreases s.len(),
{
    if s.len() > 0 {
        lemma_strip_shape(s.drop_first(), p);
        lemma_strip_shape(s.drop_last(), p);
        if p(s[0]) {
            let r = strip_start(s.drop_first(), p);
            assert(s.drop_first().skip(s.len() - 1 - r.len()) =~= s.skip(s.len() - r.len()));
        } else {
            assert(s.skip(0) =~= s);
        }
        if p(s.last()) {
            let r = strip_end(s.drop_last(), p);
            assert(s.drop_last().take(r.len() as int) =~= s.take(r.len() as int));
        } else {
            assert(s.take(s.len() as int) =~= s);
        }
    } else {
        assert(s.skip(0) =~= s);
        assert(s.take(0) =~= s);
    }
}

/// Both ends of a stripped text stay, so stripping it again changes nothing.
pub proof fn lemma_strip_idempotent(s: Seq<char>, p: spec_fn(char) -> bool)
    ensures
        strip(strip(s, p), p) == strip(s, p),
        strip(s, p).len() > 0 ==> !p(strip(s, p)[0]) && !p(strip(s, p).last()),
{
    let a = strip_start(s, p);
    let b = strip_end(a, p);
    lemma_strip_shape(s, p);
    lemma_strip_shape(a, p);
    if b.len() > 0 {
        assert(b[0] == a[0]);
    }
    assert(strip_start(b, p) == b);
}

/// The characters of a string.
pub fn chars_of(s: &str) -> (out: Vec<char>)
    ensures
        out@ == s@,
{
    let mut out: Vec<char> = Vec::new();
    for c in it: s.chars()
        invariant
            it.seq() == s@,
            out@ == s@.take(it.index() as int),
    {
        out.push(c);
    }
    out
}

/// The string made of the characters `from..to`.
pub fn string_of(chars: &Vec<char>, from: usize, to: usize) -> (out: String)
    requires
        from <= to <= chars.len(),
    ensures
        out@ == chars@.subrange(from as int, to as int),
{
    let mut out: String = String::new();
    let mut i: usize = from;
    while i < to
        invariant
            from <= i <= to <= chars.len(),
            out@ == chars@.subrange(from as int, i as int),
        decreases to - i,
    {
        out.push(chars[i]);
        i = i + 1;
        assert(out@ =~= chars@.subrange(from as int, i as int));
    }
    out
}

/// `s` without surrounding white space.
pub fn trim<'a>(s: &'a str) -> (out: &'a str)
    ensures
        out@ == trimmed(s@),
{
    trim_end(trim_start(s))
}

/// `s` without leading white space.
pub fn trim_start<'a>(s: &'a str) -> (out: &'a str)
    ensures
        out@ == strip_start(s@, spaces()),
{
    let chars: Vec<char> = chars_of(s);
    let mut k: usize = 0;
    while k < chars.len() && space(chars[k])
        invariant
            chars@ == s@,
            k <= chars.len(),
            forall|j: int| 0 <= j < k ==> spaces()(#[trigger] s@[j]),
        decreases chars.len() - k,
    {
        k = k + 1;
    }
    proof {
        lemma_strip_start_at(s@, spaces(), k as int);
    }
    s.substring_char(k, chars.len())
}

/// `s` without trailing white space.
pub fn trim_end<'a>(s: &'a str) -> (out: &'a str)
    ensures
        out@ == strip_end(s@, spaces()),
{
    let chars: Vec<char> = chars_of(s);
    let mut k: usize = chars.len();
    while k > 0 && space(chars[k - 1])
        invariant
            chars@ == s@,
            k <= chars.len(),
            forall|j: int| k <= j < chars.len() ==> spaces()(#[trigger] s@[j]),
        decreases k,
    {
        k = k - 1;
    }
    proof {
        lemma_strip_end_at(s@, spaces(), k as int);
    }
    s.substring_char(0, k)
}

/// `s` without leading occurrences of `ch`.
pub fn trim_start_matches<'a>(s: &'a str, ch: char) -> (out: &'a str)
    ensures
        out@ == strip_start(s@, only(ch)),
{
    let chars: Vec<char> = chars_of(s);
    let mut k: usize = 0;
    while k < chars.len() && chars[k] == ch
        invariant
            chars@ == s@,
            k <= chars.len(),
            forall|j: int| 0 <= j < k ==> only(ch)(#[trigger] s@[j]),
        decreases chars.len() - k,
    {
        k = k + 1;
    }
    proof {
        lemma_strip_start_at(s@, only(ch), k as int);
    }
    s.substring_char(k, chars.len())
}

/// `s` without trailing occurrences of `ch`.
pub fn trim_end_matches<'a>(s: &'a str, ch: char) -> (out: &'a str)
    ensures
        out@ == strip_end(s@, only(ch)),
{
    let chars: Vec<char> = chars_of(s);
    let mut k: usize = chars.len();
    while k > 0 && chars[k - 1] == ch
        invariant
            chars@ == s@,
            k <= chars.len(),
            forall|j: int| k <= j < chars.len() ==> only(ch)(#[trigger] s@[j]),
        decreases k,
    {
        k = k - 1;
    }
    proof {
        lemma_strip_end_at(s@, only(ch), k as int);
    }
    s.substring_char(0, k)
}

// ---------------------------------------------------------------- comparison
/// Whether two strings hold the same characters.
pub fn same(a: &str, b: &str) -> (r: bool)
    ensures
        r == (a@ == b@),
{
    let x: Vec<char> = chars_of(a);
    let y: Vec<char> = chars_of(b);
    if x.len() != y.len() {
        return false;
    }
    let mut i: usize = 0;
    while i < x.len()
        invariant
            x@ == a@,
            y@ == b@,
            x.len() == y.len(),
            i <= x.len(),
            forall|j: int| 0 <= j < i ==> x@[j] == y@[j],
        decreases x.len() - i,
    {
        if x[i] != y[i] {
            return false;
        }
        i = i + 1;
    }
    assert(a@ =~= b@);
    true
}

/// Whether `s` begins with `prefix`.
pub fn starts_with(s: &str, prefix: &str) -> (r: bool)
    ensures
        r == prefix@.is_prefix_of(s@),
{
    match strip_prefix(s, prefix) {
        Some(_) => true,
        None => false,
    }
}

/// What follows `prefix` in `s`, where `s` begins with it.
pub fn strip_prefix<'a>(s: &'a str, prefix: &str) -> (r: Option<&'a str>)
    ensures
        r is Some <==> prefix@.is_prefix_of(s@),
        r is Some ==> r->0@ == s@.skip(prefix@.len() as int),
{
    let n: usize = s.unicode_len();
    let k: usize = prefix.unicode_len();
    if k > n {
        return None;
    }
    let head: &str = s.substring_char(0, k);
    if same(head, prefix) {
        Some(s.substring_char(k, n))
    } else {
        None
    }
}

/// Whether `pat` occurs in `s` from position `i`.
pub open spec fn occurs_at(s: Seq<char>, pat: Seq<char>, i: int) -> bool {
    0 <= i && i + pat.len() <= s.len() && s.subrange(i, i + pat.len()) == pat
}

/// Whether `pat` occurs anywhere in `s`.
pub open spec fn occurs(s: Seq<char>, pat: Seq<char>) -> bool {
    exists|i: int| #[trigger] occurs_at(s, pat, i)
}

/// Whether `pat` occurs anywhere in `s`.
pub fn contains(s: &str, pat: &str) -> (r: bool)
    ensures
        r == occurs(s@, pat@),
{
    let n: usize = s.unicode_len();
    let k: usize = pat.unicode_len();
    if k > n {
        return false;
    }
    let mut i: usize = 0;
    while i <= n - k
        invariant
            n == s@.len(),
            k == pat@.len(),
            k <= n,
            i <= n - k + 1,
            forall|j: int| 0 <= j < i ==> !occurs_at(s@, pat@, j),
        decreases n - k + 1 - i,
    {
        if same(s.substring_char(i, i + k), pat) {
            assert(occurs_at(s@, pat@, i as int));
            return true;
        }
        if i == n - k {
            return false;
        }
        i = i + 1;
    }
    false
}

/// Whether the character `ch` occurs in `s`.
pub fn has_char(s: &str, ch: char) -> (r: bool)
    ensures
        r == s@.contains(ch),
{
    let chars: Vec<char> = chars_of(s);
    let mut i: usize = 0;
    while i < chars.len()
        invariant
            chars@ == s@,
            i <= chars.len(),
            forall|j: int| 0 <= j < i ==> s@[j] != ch,
        decreases chars.len() - i,
    {
        if chars[i] == ch {
            assert(s@[i as int] == ch);
            return true;
        }
        i = i + 1;
    }
    false
}

// ----------------------------------------------------------------- splitting
/// The parts of `s` between the characters that satisfy `p`, in order. There is
/// one part more than there are such characters.
pub open spec fn split_on(s: Seq<char>, p: spec_fn(char) -> bool) -> Seq<Seq<char>>
    decreases s.len(),
{
    if s.len() == 0 {
        seq![Seq::<char>::empty()]
    } else {
        let parts = split_on(s.drop_last(), p);
        if p(s.last()) {
            parts.push(Seq::empty())
        } else {
            parts.drop_last().push(parts.last().push(s.last()))
        }
    }
}

/// Splitting always yields at least one part.
pub proof fn lemma_split_nonempty(s: Seq<char>, p: spec_fn(char) -> bool)
    ensures
        split_on(s, p).len() > 0,
    decreases s.len(),
{
    if s.len() > 0 {
        lemma_split_nonempty(s.drop_last(), p);
    }
}

/// Before the first separator there is a single part, the text itself.
pub proof fn lemma_split_single(s: Seq<char>, p: spec_fn(char) -> bool)
    requires
        forall|j: int| 0 <= j < s.len() ==> !p(#[trigger] s[j]),
    ensures
        split_on(s, p) == seq![s],
    decreases s.len(),
{
    if s.len() > 0 {
        let t = s.drop_last();
        assert forall|j: int| 0 <= j < t.len() implies !p(#[trigger] t[j]) by {
            assert(t[j] == s[j]);
        }
        lemma_split_single(t, p);
        assert(!p(s[s.len() - 1]));
        assert(split_on(s, p) =~= seq![t.push(s.last())]);
        assert(t.push(s.last()) =~= s);
    } else {
        assert(s =~= Seq::empty());
    }
}

/// The first part is the text before the first separator.
pub proof fn lemma_split_first(s: Seq<char>, p: spec_fn(char) -> bool, k: int)
    requires
        0 <= k <= s.len(),
        forall|j: int| 0 <= j < k ==> !p(#[trigger] s[j]),
        k < s.len() ==> p(s[k]),
    ensures
        split_on(s, p)[0] == s.take(k),
    decreases s.len(),
{
    if k == s.len() {
        lemma_split_single(s, p);
        assert(s.take(k) =~= s);
    } else {
        let t = s.drop_last();
        lemma_split_nonempty(t, p);
        if k == t.len() {
            assert forall|j: int| 0 <= j < t.len() implies !p(#[trigger] t[j]) by {
                assert(t[j] == s[j]);
            }
            lemma_split_single(t, p);
            assert(t =~= s.take(k));
        } else {
            assert forall|j: int| 0 <= j < k implies !p(#[trigger] t[j]) by {
                assert(t[j] == s[j]);
            }
            lemma_split_first(t, p, k);
            assert(t.take(k) =~= s.take(k));
            lemma_split_count(t, p, k);
        }
    }
}

/// A separator anywhere yields more than one part.
pub proof fn lemma_split_count(s: Seq<char>, p: spec_fn(char) -> bool, k: int)
    requires
        0 <= k < s.len(),
        p(s[k]),
    ensures
        split_on(s, p).len() > 1,
    decreases s.len(),
{
    let t = s.drop_last();
    lemma_split_nonempty(t, p);
    if k < t.len() {
        lemma_split_count(t, p, k);
    }
}

/// The parts of `s` between occurrences of `sep`, in order.
pub fn split(s: &str, sep: char) -> (out: Vec<String>)
    ensures
        out.deep_view() == split_on(s@, only(sep)),
{
    let chars: Vec<char> = chars_of(s);
    let mut out: Vec<String> = Vec::new();
    let mut cur: String = String::new();
    let mut i: usize = 0;
    assert(out.deep_view() =~= Seq::<Seq<char>>::empty());
    assert(split_on(s@.take(0), only(sep)) =~= out.deep_view().push(cur@));
    while i < chars.len()
        invariant
            chars@ == s@,
            i <= chars.len(),
            split_on(s@.take(i as int), only(sep)) == out.deep_view().push(cur@),
        decreases chars.len() - i,
    {
        let c: char = chars[i];
        let ghost before = out.deep_view();
        let ghost word = cur@;
        assert(s@.take(i + 1).drop_last() =~= s@.take(i as int));
        assert(s@.take(i + 1).last() == c);
        assert(before.push(word).drop_last() =~= before);
        if c == sep {
            out.push(cur);
            cur = String::new();
            assert(out.deep_view() =~= before.push(word));
        } else {
            cur.push(c);
        }
        i = i + 1;
    }
    assert(s@.take(s@.len() as int) =~= s@);
    let ghost before = out.deep_view();
    let ghost word = cur@;
    out.push(cur);
    assert(out.deep_view() =~= before.push(word));
    out
}

/// What stands before the first `ch`, all of `s` where there is none.
pub fn before<'a>(s: &'a str, ch: char) -> (out: &'a str)
    ensures
        out@ == split_on(s@, only(ch))[0],
{
    let chars: Vec<char> = chars_of(s);
    let mut k: usize = 0;
    while k < chars.len() && chars[k] != ch
        invariant
            chars@ == s@,
            k <= chars.len(),
            forall|j: int| 0 <= j < k ==> !only(ch)(#[trigger] s@[j]),
        decreases chars.len() - k,
    {
        k = k + 1;
    }
    proof {
        lemma_split_first(s@, only(ch), k as int);
    }
    s.substring_char(0, k)
}

/// What stands before the first occurrence of `a` or `b`, all of `s` where
/// neither occurs.
pub fn before_either<'a>(s: &'a str, a: char, b: char) -> (out: &'a str)
    ensures
        out@ == split_on(s@, either(a, b))[0],
{
    let chars: Vec<char> = chars_of(s);
    let mut k: usize = 0;
    while k < chars.len() && chars[k] != a && chars[k] != b
        invariant
            chars@ == s@,
            k <= chars.len(),
            forall|j: int| 0 <= j < k ==> !either(a, b)(#[trigger] s@[j]),
        decreases chars.len() - k,
    {
        k = k + 1;
    }
    proof {
        lemma_split_first(s@, either(a, b), k as int);
    }
    s.substring_char(0, k)
}

/// The position of the last `ch` in `s`.
pub open spec fn last_index(s: Seq<char>, ch: char) -> Option<int>
    decreases s.len(),
{
    if s.len() == 0 {
        None
    } else if s.last() == ch {
        Some(s.len() - 1)
    } else {
        last_index(s.drop_last(), ch)
    }
}

/// The last position holds the character and no later one does.
pub proof fn lemma_last_index(s: Seq<char>, ch: char)
    ensures
        match last_index(s, ch) {
            Some(k) => 0 <= k < s.len() && s[k] == ch && forall|j: int|
                k < j < s.len() ==> #[trigger] s[j] != ch,
            None => !s.contains(ch),
        },
    decreases s.len(),
{
    if s.len() > 0 && s.last() != ch {
        lemma_last_index(s.drop_last(), ch);
        if last_index(s.drop_last(), ch) is None {
            assert forall|j: int| 0 <= j < s.len() implies s[j] != ch by {
                if j < s.len() - 1 {
                    assert(s.drop_last()[j] == s[j]);
                    assert(s.drop_last().contains(s.drop_last()[j]));
                }
            }
        } else {
            let k = last_index(s.drop_last(), ch)->0;
            assert forall|j: int| k < j < s.len() implies #[trigger] s[j] != ch by {
                if j < s.len() - 1 {
                    assert(s.drop_last()[j] == s[j]);
                }
            }
        }
    }
}

/// A position that holds the character with none after it is the last one.
pub proof fn lemma_last_index_unique(s: Seq<char>, ch: char, k: int)
    requires
        0 <= k < s.len(),
        s[k] == ch,
        forall|j: int| k < j < s.len() ==> #[trigger] s[j] != ch,
    ensures
        last_index(s, ch) == Some(k),
    decreases s.len(),
{
    if k < s.len() - 1 {
        assert(s[s.len() - 1] != ch);
        let t = s.drop_last();
        assert forall|j: int| k < j < t.len() implies #[trigger] t[j] != ch by {
            assert(t[j] == s[j]);
        }
        lemma_last_index_unique(t, ch, k);
    }
}

/// The text before and after the last `ch`, where there is one.
pub fn rsplit_once<'a>(s: &'a str, ch: char) -> (r: Option<(&'a str, &'a str)>)
    ensures
        match last_index(s@, ch) {
            Some(k) => r is Some && (r->0).0@ == s@.take(k) && (r->0).1@ == s@.skip(k + 1),
            None => r is None,
        },
{
    let chars: Vec<char> = chars_of(s);
    let mut k: usize = chars.len();
    assert(s@.take(s@.len() as int) =~= s@);
    while k > 0
        invariant
            chars@ == s@,
            k <= chars.len(),
            last_index(s@, ch) == last_index(s@.take(k as int), ch),
        decreases k,
    {
        assert(s@.take(k as int).drop_last() =~= s@.take(k - 1));
        if chars[k - 1] == ch {
            return Some((s.substring_char(0, k - 1), s.substring_char(k, chars.len())));
        }
        k = k - 1;
    }
    None
}

// ------------------------------------------------------------------- joining
/// `a` followed by `b`.
pub fn cat(a: &str, b: &str) -> (out: String)
    ensures
        out@ == a@ + b@,
{
    let mut out: String = a.to_owned();
    out.append(b);
    out
}

/// `a`, `b` and `c` in a row.
pub fn cat3(a: &str, b: &str, c: &str) -> (out: String)
    ensures
        out@ == a@ + b@ + c@,
{
    let mut out: String = a.to_owned();
    out.append(b);
    out.append(c);
    out
}

/// Four texts in a row.
pub fn cat4(a: &str, b: &str, c: &str, d: &str) -> (out: String)
    ensures
        out@ == a@ + b@ + c@ + d@,
{
    let mut out: String = cat3(a, b, c);
    out.append(d);
    out
}

/// The parts with `sep` between each two.
pub open spec fn joined(parts: Seq<Seq<char>>, sep: Seq<char>) -> Seq<char>
    decreases parts.len(),
{
    if parts.len() == 0 {
        Seq::empty()
    } else if parts.len() == 1 {
        parts[0]
    } else {
        joined(parts.drop_last(), sep) + sep + parts.last()
    }
}

/// The parts with `sep` between each two.
pub fn join(parts: &Vec<String>, sep: &str) -> (out: String)
    ensures
        out@ == joined(parts.deep_view(), sep@),
{
    let mut out: String = String::new();
    let mut i: usize = 0;
    while i < parts.len()
        invariant
            i <= parts.len(),
            out@ == joined(parts.deep_view().take(i as int), sep@),
        decreases parts.len() - i,
    {
        let ghost all = parts.deep_view();
        assert(all.take(i + 1).drop_last() =~= all.take(i as int));
        if i > 0 {
            out.append(sep);
        }
        out.append(parts[i].as_str());
        assert(out@ =~= joined(all.take(i + 1), sep@));
        i = i + 1;
    }
    assert(parts.deep_view().take(parts.len() as int) =~= parts.deep_view());
    out
}

/// Splitting a text that ends in a separator and something free of separators
/// gives what comes before it split, and then the rest.
pub proof fn lemma_split_tail(a: Seq<char>, sep: char, b: Seq<char>)
    requires
        !b.contains(sep),
    ensures
        split_on(a + seq![sep] + b, only(sep)) == split_on(a, only(sep)).push(b),
    decreases b.len(),
{
    let s = a + seq![sep] + b;
    if b.len() == 0 {
        assert(s.drop_last() =~= a);
        assert(s.last() == sep);
        assert(b =~= Seq::empty());
    } else {
        let c = b.drop_last();
        assert(!c.contains(sep)) by {
            assert forall|i: int| 0 <= i < c.len() implies c[i] != sep by {
                assert(b.contains(b[i]));
            }
        }
        lemma_split_tail(a, sep, c);
        assert(s.drop_last() =~= a + seq![sep] + c);
        assert(s.last() == b.last());
        assert(b.contains(b.last()));
        let parts = split_on(a, only(sep));
        assert(parts.push(c).drop_last() =~= parts);
        assert(c.push(b.last()) =~= b);
    }
}

/// Splitting what was joined gives the parts back, where none holds a separator.
pub proof fn lemma_split_joined(parts: Seq<Seq<char>>, sep: char)
    requires
        parts.len() > 0,
        forall|i: int| 0 <= i < parts.len() ==> !(#[trigger] parts[i]).contains(sep),
    ensures
        split_on(joined(parts, seq![sep]), only(sep)) == parts,
    decreases parts.len(),
{
    if parts.len() == 1 {
        let s = parts[0];
        assert forall|j: int| 0 <= j < s.len() implies !only(sep)(#[trigger] s[j]) by {
            assert(s.contains(s[j]));
        }
        lemma_split_single(s, only(sep));
        assert(parts =~= seq![s]);
    } else {
        let init = parts.drop_last();
        assert forall|i: int| 0 <= i < init.len() implies !(#[trigger] init[i]).contains(sep) by {
            assert(init[i] == parts[i]);
        }
        lemma_split_joined(init, sep);
        assert(!parts[parts.len() - 1].contains(sep));
        lemma_split_tail(joined(init, seq![sep]), sep, parts.last());
        assert(init.push(parts.last()) =~= parts);
    }
}

/// `s` with every `from` replaced by `to`.
pub open spec fn replaced(s: Seq<char>, from: char, to: char) -> Seq<char> {
    s.map_values(|c: char| if c == from { to } else { c })
}

/// `s` with every `from` replaced by `to`.
pub fn replace_char(s: &str, from: char, to: char) -> (out: String)
    ensures
        out@ == replaced(s@, from, to),
{
    let chars: Vec<char> = chars_of(s);
    let mut out: String = String::new();
    let mut i: usize = 0;
    while i < chars.len()
        invariant
            chars@ == s@,
            i <= chars.len(),
            out@ == replaced(s@.take(i as int), from, to),
        decreases chars.len() - i,
    {
        let c: char = chars[i];
        out.push(if c == from { to } else { c });
        i = i + 1;
        assert(out@ =~= replaced(s@.take(i as int), from, to));
    }
    assert(s@.take(s@.len() as int) =~= s@);
    out
}

/// `s` with its ASCII letters in lower case.
pub fn to_ascii_lowercase(s: &str) -> (out: String)
    ensures
        out@ == ascii_lowered(s@),
{
    let chars: Vec<char> = chars_of(s);
    let mut out: String = String::new();
    let mut i: usize = 0;
    while i < chars.len()
        invariant
            chars@ == s@,
            i <= chars.len(),
            out@ == ascii_lowered(s@.take(i as int)),
        decreases chars.len() - i,
    {
        out.push(lower_char(chars[i]));
        i = i + 1;
        assert(out@ =~= ascii_lowered(s@.take(i as int)));
    }
    assert(s@.take(s@.len() as int) =~= s@);
    out
}

// --------------------------------------------------------------------- lists
/// Whether `name` is one of `names`.
pub fn listed(names: &Vec<String>, name: &str) -> (r: bool)
    ensures
        r == names.deep_view().contains(name@),
{
    let mut i: usize = 0;
    while i < names.len()
        invariant
            i <= names.len(),
            forall|j: int| 0 <= j < i ==> #[trigger] names.deep_view()[j] != name@,
        decreases names.len() - i,
    {
        if same(names[i].as_str(), name) {
            assert(names.deep_view()[i as int] == name@);
            return true;
        }
        i = i + 1;
    }
    false
}

/// A copy of a list of strings.
pub fn copy_list(names: &Vec<String>) -> (out: Vec<String>)
    ensures
        out.deep_view() == names.deep_view(),
{
    let mut out: Vec<String> = Vec::new();
    let mut i: usize = 0;
    while i < names.len()
        invariant
            i <= names.len(),
            out.len() == i,
            forall|j: int| 0 <= j < i ==> #[trigger] out@[j]@ == names@[j]@,
        decreases names.len() - i,
    {
        out.push(names[i].clone());
        i = i + 1;
    }
    assert(out.deep_view() =~= names.deep_view());
    out
}

/// The value of the first pair with the given key.
pub open spec fn first_value(
    pairs: Seq<(Seq<char>, Seq<char>)>,
    key: Seq<char>,
) -> Option<Seq<char>>
    decreases pairs.len(),
{
    if pairs.len() == 0 {
        None
    } else if pairs[0].0 == key {
        Some(pairs[0].1)
    } else {
        first_value(pairs.drop_first(), key)
    }
}

/// The value of the first pair with the given key.
pub fn find_value(pairs: &Vec<(String, String)>, key: &str) -> (r: Option<String>)
    ensures
        r.deep_view() == first_value(pairs.deep_view(), key@),
{
    let mut i: usize = 0;
    let ghost all = pairs.deep_view();
    assert(all.skip(0) =~= all);
    while i < pairs.len()
        invariant
            all == pairs.deep_view(),
            i <= pairs.len(),
            first_value(all, key@) == first_value(all.skip(i as int), key@),
        decreases pairs.len() - i,
    {
        assert(all.skip(i as int).drop_first() =~= all.skip(i + 1));
        if same(pairs[i].0.as_str(), key) {
            return Some(pairs[i].1.clone());
        }
        i = i + 1;
    }
    None
}

/// The value of the last pair with the given key, as a map built from the pairs
/// in order would give it.
pub open spec fn lookup(pairs: Seq<(Seq<char>, Seq<char>)>, key: Seq<char>) -> Option<Seq<char>>
    decreases pairs.len(),
{
    if pairs.len() == 0 {
        None
    } else if pairs.last().0 == key {
        Some(pairs.last().1)
    } else {
        lookup(pairs.drop_last(), key)
    }
}

/// The value of the last pair with the given key, as a map built from the pairs
/// in order would give it.
pub fn get<'a>(pairs: &'a Vec<(String, String)>, key: &str) -> (r: Option<&'a str>)
    ensures
        r.deep_view() == lookup(pairs.deep_view(), key@),
{
    let mut k: usize = pairs.len();
    let ghost all = pairs.deep_view();
    assert(all.take(all.len() as int) =~= all);
    while k > 0
        invariant
            all == pairs.deep_view(),
            k <= pairs.len(),
            lookup(all, key@) == lookup(all.take(k as int), key@),
        decreases k,
    {
        assert(all.take(k as int).drop_last() =~= all.take(k - 1));
        if same(pairs[k - 1].0.as_str(), key) {
            return Some(pairs[k - 1].1.as_str());
        }
        k = k - 1;
    }
    None
}

} // verus!
