//! The decimal form of integers, written and read.

use vstd::prelude::*;

use crate::strs::{chars_of, is_digit};

verus! {

/// The digit character of a value below ten.
pub open spec fn digit_char(n: int) -> char {
    (n + 48) as char
}

/// The decimal form of a natural number, without leading zeros.
pub open spec fn decimal(n: nat) -> Seq<char>
    decreases n,
{
    if n < 10 {
        seq![digit_char(n as int)]
    } else {
        decimal(n / 10).push(digit_char((n % 10) as int))
    }
}

/// The decimal form of an integer, with a minus sign where it is negative.
pub open spec fn decimal_int(i: int) -> Seq<char> {
    if i < 0 {
        seq!['-'] + decimal((-i) as nat)
    } else {
        decimal(i as nat)
    }
}

/// Whether every character is a decimal digit, and there is at least one.
pub open spec fn all_digits(s: Seq<char>) -> bool {
    s.len() > 0 && forall|j: int| 0 <= j < s.len() ==> is_digit(#[trigger] s[j])
}

/// The number that a row of digits stands for.
pub open spec fn digits_value(s: Seq<char>) -> nat
    decreases s.len(),
{
    if s.len() == 0 {
        0
    } else {
        (digits_value(s.drop_last()) * 10 + (s.last() as int - 48)) as nat
    }
}

/// The integer that a text stands for: decimal digits after an optional sign.
pub open spec fn int_of(s: Seq<char>) -> Option<int> {
    if s.len() > 0 && (s[0] == '-' || s[0] == '+') {
        if all_digits(s.drop_first()) {
            let n = digits_value(s.drop_first()) as int;
            Some(if s[0] == '-' { -n } else { n })
        } else {
            None
        }
    } else if all_digits(s) {
        Some(digits_value(s) as int)
    } else {
        None
    }
}

/// The `i64` that a text stands for, where it is one.
pub open spec fn i64_of(s: Seq<char>) -> Option<i64> {
    match int_of(s) {
        Some(i) => if i64::MIN <= i <= i64::MAX {
            Some(i as i64)
        } else {
            None
        },
        None => None,
    }
}

/// The `usize` that a text stands for, where it is one. A minus sign is refused
/// whatever follows it.
pub open spec fn usize_of(s: Seq<char>) -> Option<usize> {
    match int_of(s) {
        Some(i) => if s[0] != '-' && 0 <= i <= usize::MAX {
            Some(i as usize)
        } else {
            None
        },
        None => None,
    }
}

/// A longer row of digits never stands for a smaller number.
proof fn lemma_value_grows(s: Seq<char>, k: int)
    requires
        0 <= k <= s.len(),
        forall|j: int| 0 <= j < s.len() ==> is_digit(#[trigger] s[j]),
    ensures
        digits_value(s.take(k)) <= digits_value(s),
    decreases s.len() - k,
{
    if k < s.len() {
        lemma_value_grows(s, k + 1);
        assert(s.take(k + 1).drop_last() =~= s.take(k));
        assert(is_digit(s[k]));
        assert(s.take(k + 1).last() == s[k]);
    } else {
        assert(s.take(k) =~= s);
    }
}

/// The number that the digits of `chars` from `from` on stand for, where it is
/// at most `max`.
fn read_digits(chars: &Vec<char>, from: usize, max: u64) -> (r: Option<u64>)
    requires
        from <= chars.len(),
    ensures
        ({
            let s = chars@.skip(from as int);
            match r {
                Some(n) => all_digits(s) && digits_value(s) == n && n <= max,
                None => !all_digits(s) || digits_value(s) > max,
            }
        }),
{
    let ghost s = chars@.skip(from as int);
    if from == chars.len() {
        return None;
    }
    let mut n: u64 = 0;
    let mut i: usize = from;
    while i < chars.len()
        invariant
            from < chars.len(),
            from <= i <= chars.len(),
            s == chars@.skip(from as int),
            n <= max,
            n == digits_value(s.take(i - from)),
            forall|j: int| 0 <= j < i - from ==> is_digit(#[trigger] s[j]),
        decreases chars.len() - i,
    {
        let c: char = chars[i];
        assert(s[i - from] == c);
        if c < '0' || c > '9' {
            return None;
        }
        let d: u64 = (c as u32 - 48) as u64;
        assert(s.take(i - from + 1).drop_last() =~= s.take(i - from));
        if d > max || n > max / 10 || n * 10 > max - d {
            proof {
                if all_digits(s) {
                    lemma_value_grows(s, i - from + 1);
                    assert(digits_value(s.take(i - from + 1)) == n * 10 + d);
                    if n > max / 10 {
                        assert(n * 10 > max) by (nonlinear_arith)
                            requires
                                n > max / 10,
                        ;
                    }
                }
            }
            return None;
        }
        n = n * 10 + d;
        i = i + 1;
    }
    assert(s.take(s.len() as int) =~= s);
    Some(n)
}

/// The `i64` that a text stands for, where it is one.
pub fn parse_i64(s: &str) -> (r: Option<i64>)
    ensures
        r == i64_of(s@),
{
    let chars: Vec<char> = chars_of(s);
    assert(chars@.skip(0) =~= chars@);
    if chars.len() == 0 {
        return None;
    }
    assert(chars@.skip(1) =~= chars@.drop_first());
    if chars[0] == '-' {
        match read_digits(&chars, 1, 0x8000_0000_0000_0000) {
            Some(n) => {
                if n == 0x8000_0000_0000_0000 {
                    Some(i64::MIN)
                } else {
                    Some(-(n as i64))
                }
            },
            None => None,
        }
    } else if chars[0] == '+' {
        match read_digits(&chars, 1, 0x7fff_ffff_ffff_ffff) {
            Some(n) => Some(n as i64),
            None => None,
        }
    } else {
        match read_digits(&chars, 0, 0x7fff_ffff_ffff_ffff) {
            Some(n) => Some(n as i64),
            None => None,
        }
    }
}

/// The `usize` that a text stands for, where it is one.
pub fn parse_usize(s: &str) -> (r: Option<usize>)
    ensures
        r == usize_of(s@),
{
    let chars: Vec<char> = chars_of(s);
    assert(chars@.skip(0) =~= chars@);
    if chars.len() == 0 {
        return None;
    }
    assert(chars@.skip(1) =~= chars@.drop_first());
    if chars[0] == '-' {
        return None;
    }
    let from: usize = if chars[0] == '+' { 1 } else { 0 };
    match read_digits(&chars, from, usize::MAX as u64) {
        Some(n) => Some(n as usize),
        None => None,
    }
}

/// The decimal form of a natural number.
pub fn u64_text(n: u64) -> (out: String)
    ensures
        out@ == decimal(n as nat),
    decreases n,
{
    if n < 10 {
        let mut out: String = String::new();
        out.push((n as u8 + 48) as char);
        assert(out@ =~= decimal(n as nat));
        out
    } else {
        let mut out: String = u64_text(n / 10);
        let d: u64 = n % 10;
        out.push((d as u8 + 48) as char);
        out
    }
}

/// The decimal form of an integer.
pub fn i64_text(i: i64) -> (out: String)
    ensures
        out@ == decimal_int(i as int),
{
    if i < 0 {
        let m: u64 = if i == i64::MIN { 0x8000_0000_0000_0000 } else { (-i) as u64 };
        crate::strs::cat(minus(), u64_text(m).as_str())
    } else {
        u64_text(i as u64)
    }
}

/// The minus sign.
fn minus() -> (s: &'static str)
    ensures
        s@ == seq!['-'],
{
    proof {
        reveal_strlit("-");
    }
    assert("-"@ =~= seq!['-']);
    "-"
}

} // verus!
