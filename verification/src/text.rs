//! Reading numbers out of text, byte by byte.

use vstd::prelude::*;

verus! {

/// Whether a byte is one of the ASCII digits.
pub open spec fn is_digit(b: u8) -> bool {
    48 <= b && b <= 57
}

/// The value of a digit, and zero for any other byte.
pub open spec fn digit(b: u8) -> nat {
    if is_digit(b) {
        (b - 48) as nat
    } else {
        0
    }
}

/// Whether every byte is a digit.
pub open spec fn all_digits(s: Seq<u8>) -> bool {
    forall|i: int| 0 <= i < s.len() ==> is_digit(#[trigger] s[i])
}

/// The number that a string of digits denotes in base ten.
pub open spec fn digits_value(s: Seq<u8>) -> nat
    decreases s.len(),
{
    if s.len() == 0 {
        0
    } else {
        digits_value(s.drop_last()) * 10 + digit(s.last())
    }
}

/// The text without the plus sign that may lead it.
pub open spec fn unsigned(s: Seq<u8>) -> Seq<u8> {
    if s.len() > 0 && s[0] == 43 {
        s.drop_first()
    } else {
        s
    }
}

/// The number that a text denotes: one or more digits, after at most one
/// plus sign, whose value fits the machine word. Anything else, the empty
/// text and a lone sign included, denotes none.
pub open spec fn number(s: Seq<u8>) -> Option<usize> {
    let digits = unsigned(s);
    if digits.len() > 0 && all_digits(digits) && digits_value(digits) <= usize::MAX {
        Some(digits_value(digits) as usize)
    } else {
        None
    }
}

/// The first place at or after `from` and before `end` where `s` holds
/// `byte`, or `end` where it holds none there.
pub open spec fn index_of(s: Seq<u8>, byte: u8, from: int, end: int) -> int
    decreases end - from,
{
    if from >= end {
        end
    } else if s[from] == byte {
        from
    } else {
        index_of(s, byte, from + 1, end)
    }
}

/// The value of a string of digits is at least the value of each of its
/// beginnings.
pub proof fn lemma_value_grows(s: Seq<u8>, k: int)
    requires
        0 <= k <= s.len(),
    ensures
        digits_value(s.take(k)) <= digits_value(s),
    decreases s.len(),
{
    if k == s.len() {
        assert(s.take(k) =~= s);
    } else {
        lemma_value_grows(s.drop_last(), k);
        assert(s.drop_last().take(k) =~= s.take(k));
    }
}

/// Finds the first `byte` in `text` between `from` and `end`.
pub fn find_byte(text: &[u8], byte: u8, from: usize, end: usize) -> (at: usize)
    requires
        from <= end <= text@.len(),
    ensures
        at == index_of(text@, byte, from as int, end as int),
        from <= at <= end,
{
    let mut i: usize = from;
    while i < end
        invariant
            from <= i <= end <= text@.len(),
            index_of(text@, byte, i as int, end as int) == index_of(text@, byte, from as int, end as int),
        decreases end - i,
    {
        if text[i] == byte {
            return i;
        }
        i += 1;
    }
    i
}

/// Reads the number that the bytes of `text` from `start` up to `end`
/// denote.
pub fn parse_number(text: &[u8], start: usize, end: usize) -> (value: Option<usize>)
    requires
        start <= end <= text@.len(),
    ensures
        value == number(text@.subrange(start as int, end as int)),
{
    let ghost whole = text@.subrange(start as int, end as int);
    let mut first: usize = start;
    if start < end && text[start] == 43 {
        first = start + 1;
    }
    let ghost digits = unsigned(whole);
    assert(digits =~= text@.subrange(first as int, end as int));
    if first == end {
        return None;
    }
    let mut value: usize = 0;
    let mut i: usize = first;
    while i < end
        invariant
            first <= i <= end <= text@.len(),
            start <= first,
            digits == text@.subrange(first as int, end as int),
            digits == unsigned(text@.subrange(start as int, end as int)),
            all_digits(digits.take(i - first)),
            value == digits_value(digits.take(i - first)),
        decreases end - i,
    {
        let b: u8 = text[i];
        assert(digits[i - first] == b);
        if b < 48 || b > 57 {
            return None;
        }
        let d: usize = (b - 48) as usize;
        proof {
            let longer = digits.take(i - first + 1);
            assert(longer.drop_last() =~= digits.take(i - first));
            assert(longer.last() == b);
            assert(digits_value(longer) == value * 10 + d);
            lemma_value_grows(digits, i - first + 1);
        }
        match value.checked_mul(10) {
            Some(tens) => {
                match tens.checked_add(d) {
                    Some(next) => {
                        value = next;
                    },
                    None => {
                        return None;
                    },
                }
            },
            None => {
                return None;
            },
        }
        i += 1;
    }
    assert(digits.take(i - first) =~= digits);
    Some(value)
}

/// Whether `pattern` stands in `s` at place `at`.
pub open spec fn occurs_at(s: Seq<u8>, pattern: Seq<u8>, at: int) -> bool {
    0 <= at && at + pattern.len() <= s.len() && s.subrange(at, at + pattern.len()) == pattern
}

/// Whether `pattern` stands somewhere in `s`.
pub open spec fn occurs(s: Seq<u8>, pattern: Seq<u8>) -> bool {
    exists|at: int| occurs_at(s, pattern, at)
}

/// Tells whether `pattern` stands in `text` at place `at`.
pub fn matches_at(text: &[u8], pattern: &[u8], at: usize) -> (found: bool)
    ensures
        found == occurs_at(text@, pattern@, at as int),
{
    if at > text.len() || pattern.len() > text.len() - at {
        return false;
    }
    let mut k: usize = 0;
    while k < pattern.len()
        invariant
            k <= pattern@.len(),
            at + pattern@.len() <= text@.len() <= usize::MAX,
            forall|m: int| 0 <= m < k ==> text@[at + m] == pattern@[m],
        decreases pattern@.len() - k,
    {
        if text[at + k] != pattern[k] {
            assert(text@.subrange(at as int, at + pattern@.len())[k as int] != pattern@[k as int]);
            return false;
        }
        k += 1;
    }
    assert(text@.subrange(at as int, at + pattern@.len()) =~= pattern@);
    true
}

/// Tells whether `pattern` stands somewhere in `text`.
pub fn contains(text: &[u8], pattern: &[u8]) -> (found: bool)
    ensures
        found == occurs(text@, pattern@),
{
    let mut at: usize = 0;
    while at < text.len()
        invariant
            at <= text@.len(),
            forall|i: int| 0 <= i < at ==> !occurs_at(text@, pattern@, i),
        decreases text@.len() - at,
    {
        if matches_at(text, pattern, at) {
            return true;
        }
        at += 1;
    }
    matches_at(text, pattern, at)
}

} // verus!
