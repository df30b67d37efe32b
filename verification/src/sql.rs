//! Identifiers and search patterns for descriptor-driven SQL.
//!
//! Table and column names come from descriptors, never from a request. They are
//! checked here before any statement names them; values are always bound.

use vstd::prelude::*;

use crate::strs::{chars_of, is_ascii_lower, is_digit};

verus! {

/// Whether a character may stand in an identifier: a lower-case letter or an
/// underscore, or past the first position a digit.
pub open spec fn ident_char(c: char, first: bool) -> bool {
    c == '_' || is_ascii_lower(c) || (!first && is_digit(c))
}

/// A safe, unquoted identifier: lower-case letters, digits and underscores, not
/// starting with a digit, at most 63 characters.
pub open spec fn is_ident(s: Seq<char>) -> bool {
    0 < s.len() <= 63 && forall|i: int| 0 <= i < s.len() ==> ident_char(#[trigger] s[i], i == 0)
}

/// Whether a string is a safe, unquoted identifier.
pub fn valid_ident(s: &str) -> (r: bool)
    ensures
        r == is_ident(s@),
{
    let chars: Vec<char> = chars_of(s);
    if chars.len() == 0 || chars.len() > 63 {
        return false;
    }
    let mut i: usize = 0;
    while i < chars.len()
        invariant
            chars@ == s@,
            i <= chars.len(),
            forall|j: int| 0 <= j < i ==> ident_char(#[trigger] s@[j], j == 0),
        decreases chars.len() - i,
    {
        let c: char = chars[i];
        if !(c == '_' || ('a' <= c && c <= 'z') || (i > 0 && '0' <= c && c <= '9')) {
            assert(!ident_char(s@[i as int], i == 0));
            return false;
        }
        i = i + 1;
    }
    true
}

/// The characters with a meaning of their own in a `LIKE` pattern.
pub open spec fn is_wild(c: char) -> bool {
    c == '\\' || c == '%' || c == '_'
}

/// A search term with its wildcards and backslashes escaped by a backslash.
pub open spec fn escaped(s: Seq<char>) -> Seq<char>
    decreases s.len(),
{
    if s.len() == 0 {
        Seq::empty()
    } else {
        let rest = escaped(s.drop_last());
        if is_wild(s.last()) {
            rest.push('\\').push(s.last())
        } else {
            rest.push(s.last())
        }
    }
}

/// Escapes the wildcards and the escape character in a search term, so that they
/// match literally.
pub fn like_escape(s: &str) -> (out: String)
    ensures
        out@ == escaped(s@),
{
    let chars: Vec<char> = chars_of(s);
    let mut out: String = String::new();
    let mut i: usize = 0;
    while i < chars.len()
        invariant
            chars@ == s@,
            i <= chars.len(),
            out@ == escaped(s@.take(i as int)),
        decreases chars.len() - i,
    {
        let c: char = chars[i];
        assert(s@.take(i + 1).drop_last() =~= s@.take(i as int));
        if c == '\\' || c == '%' || c == '_' {
            out.push('\\');
        }
        out.push(c);
        i = i + 1;
    }
    assert(s@.take(s@.len() as int) =~= s@);
    out
}

/// Reads a pattern back: a backslash stands for the character after it. A
/// pattern that ends in a lone backslash, or holds a bare wildcard, is not one
/// that escaping makes.
pub open spec fn unescaped(p: Seq<char>) -> Option<Seq<char>>
    decreases p.len(),
{
    if p.len() == 0 {
        Some(Seq::empty())
    } else if p[0] == '\\' {
        if p.len() < 2 {
            None
        } else {
            match unescaped(p.skip(2)) {
                Some(rest) => Some(seq![p[1]] + rest),
                None => None,
            }
        }
    } else if is_wild(p[0]) {
        None
    } else {
        match unescaped(p.skip(1)) {
            Some(rest) => Some(seq![p[0]] + rest),
            None => None,
        }
    }
}

/// Escaping works character by character from the front as well.
proof fn lemma_escaped_front(s: Seq<char>)
    requires
        s.len() > 0,
    ensures
        escaped(s) == (if is_wild(s[0]) {
            seq!['\\', s[0]]
        } else {
            seq![s[0]]
        }) + escaped(s.drop_first()),
    decreases s.len(),
{
    let head: Seq<char> = if is_wild(s[0]) {
        seq!['\\', s[0]]
    } else {
        seq![s[0]]
    };
    if s.len() == 1 {
        assert(s.drop_last() =~= Seq::empty());
        assert(s.drop_first() =~= Seq::empty());
        assert(escaped(s) =~= head + escaped(s.drop_first()));
    } else {
        let t = s.drop_last();
        lemma_escaped_front(t);
        assert(t.drop_first() =~= s.drop_first().drop_last());
        assert(s.drop_first().last() == s.last());
        assert(escaped(s) =~= head + escaped(s.drop_first()));
    }
}

/// An escaped term matches itself and nothing else: reading the pattern back
/// gives the term, and no wildcard is left bare in it.
pub proof fn law_escaped_term_is_literal(s: Seq<char>)
    ensures
        unescaped(escaped(s)) == Some(s),
    decreases s.len(),
{
    if s.len() == 0 {
        assert(s =~= Seq::empty());
    } else {
        lemma_escaped_front(s);
        law_escaped_term_is_literal(s.drop_first());
        let rest = escaped(s.drop_first());
        assert(seq![s[0]] + s.drop_first() =~= s);
        if is_wild(s[0]) {
            assert(escaped(s).skip(2) =~= rest);
        } else {
            assert(escaped(s).skip(1) =~= rest);
        }
    }
}

/// Whether a text is `LIKE` a pattern, with the backslash as the escape character: a
/// `%` stands for any text, a `_` for any character, and a character behind a
/// backslash for itself.
pub open spec fn is_like(text: Seq<char>, pattern: Seq<char>) -> bool
    decreases pattern.len(), text.len(),
{
    if pattern.len() == 0 {
        text.len() == 0
    } else if pattern[0] == '%' {
        is_like(text, pattern.skip(1)) || (text.len() > 0 && is_like(text.skip(1), pattern))
    } else if pattern[0] == '\\' && pattern.len() > 1 {
        text.len() > 0 && text[0] == pattern[1] && is_like(text.skip(1), pattern.skip(2))
    } else {
        text.len() > 0 && (pattern[0] == '_' || text[0] == pattern[0]) && is_like(
            text.skip(1),
            pattern.skip(1),
        )
    }
}

/// Whether a term stands in a text, from some position on.
pub open spec fn has_term(text: Seq<char>, term: Seq<char>) -> bool {
    exists|i: int| 0 <= i && #[trigger] starts_at(text, term, i)
}

/// Whether a term stands in a text from a position on.
pub open spec fn starts_at(text: Seq<char>, term: Seq<char>, i: int) -> bool {
    i + term.len() <= text.len() && text.subrange(i, i + term.len()) == term
}

/// An escaped term at the front of a pattern takes just that term off a text.
proof fn lemma_like_front(text: Seq<char>, term: Seq<char>, rest: Seq<char>)
    ensures
        is_like(text, escaped(term) + rest) == (starts_at(text, term, 0) && is_like(
            text.skip(term.len() as int),
            rest,
        )),
    decreases term.len(),
{
    let pattern = escaped(term) + rest;
    if term.len() == 0 {
        assert(pattern =~= rest);
        assert(text.skip(0) =~= text);
        assert(text.subrange(0, 0) =~= term);
    } else {
        let tail = term.drop_first();
        lemma_escaped_front(term);
        if is_wild(term[0]) {
            assert(pattern.skip(2) =~= escaped(tail) + rest);
        } else {
            assert(pattern.skip(1) =~= escaped(tail) + rest);
        }
        if text.len() > 0 {
            let after = text.skip(1);
            lemma_like_front(after, tail, rest);
            if term.len() <= text.len() {
                assert(after.skip(tail.len() as int) =~= text.skip(term.len() as int));
                let here = text.subrange(0, term.len() as int);
                let there = after.subrange(0, tail.len() as int);
                assert(there =~= here.drop_first());
                if text[0] == term[0] && there == tail {
                    assert(here =~= term) by {
                        assert forall|j: int| 0 <= j < term.len() implies here[j] == term[j] by {
                            if j > 0 {
                                assert(there[j - 1] == tail[j - 1]);
                            }
                        }
                    }
                }
                if here == term {
                    assert(there =~= tail);
                    assert(here[0] == term[0]);
                }
            }
        }
    }
}

/// Every text is `LIKE` a lone `%`.
proof fn lemma_like_any(text: Seq<char>)
    ensures
        is_like(text, seq!['%']),
    decreases text.len(),
{
    assert(seq!['%'].skip(1) =~= Seq::<char>::empty());
    reveal_with_fuel(is_like, 2);
    if text.len() > 0 {
        lemma_like_any(text.skip(1));
    }
}

/// A search finds the texts that hold its term, and no others, whatever the term holds:
/// a `%`, a `_` or a backslash in it stands for itself.
pub proof fn law_a_search_finds_substrings(text: Seq<char>, term: Seq<char>)
    ensures
        is_like(text, "%"@ + escaped(term) + "%"@) == has_term(text, term),
    decreases text.len(),
{
    reveal_strlit("%");
    let pattern = "%"@ + escaped(term) + "%"@;
    assert(pattern.skip(1) =~= escaped(term) + seq!['%']);
    lemma_like_front(text, term, seq!['%']);
    lemma_like_any(text.skip(term.len() as int));
    assert(pattern[0] == '%');
    if text.len() > 0 {
        let after = text.skip(1);
        law_a_search_finds_substrings(after, term);
        if has_term(after, term) {
            let i = choose|i: int| 0 <= i && #[trigger] starts_at(after, term, i);
            assert(text.subrange(i + 1, i + 1 + term.len()) =~= after.subrange(i, i + term.len()));
            assert(starts_at(text, term, i + 1));
        }
        if has_term(text, term) && !starts_at(text, term, 0) {
            let i = choose|i: int| 0 <= i && #[trigger] starts_at(text, term, i);
            assert(i > 0);
            assert(after.subrange(i - 1, i - 1 + term.len()) =~= text.subrange(i, i + term.len()));
            assert(starts_at(after, term, i - 1));
        }
    } else if has_term(text, term) {
        let i = choose|i: int| 0 <= i && #[trigger] starts_at(text, term, i);
        assert(i == 0);
    }
}

} // verus!
