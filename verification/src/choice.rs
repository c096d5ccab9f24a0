//! The grammar of a typed selection: optional white space, an optional
//! plus sign, decimal digits, optional white space.

use vstd::prelude::*;
use vstd::string::*;
use crate::errors::MidiError;

verus! {

/// White space in the sense of Unicode's `White_Space` property.
pub open spec fn is_whitespace(c: char) -> bool {
    ||| '\u{9}' <= c <= '\u{d}'
    ||| c == ' '
    ||| c == '\u{85}'
    ||| c == '\u{a0}'
    ||| c == '\u{1680}'
    ||| '\u{2000}' <= c <= '\u{200a}'
    ||| c == '\u{2028}'
    ||| c == '\u{2029}'
    ||| c == '\u{202f}'
    ||| c == '\u{205f}'
    ||| c == '\u{3000}'
}

/// `s` without its leading white space.
pub open spec fn trim_start(s: Seq<char>) -> Seq<char>
    decreases s.len(),
{
    if s.len() > 0 && is_whitespace(s.first()) {
        trim_start(s.drop_first())
    } else {
        s
    }
}

/// `s` without its trailing white space.
pub open spec fn trim_end(s: Seq<char>) -> Seq<char>
    decreases s.len(),
{
    if s.len() > 0 && is_whitespace(s.last()) {
        trim_end(s.drop_last())
    } else {
        s
    }
}

/// `s` without the white space at either end.
pub open spec fn trimmed(s: Seq<char>) -> Seq<char> {
    trim_end(trim_start(s))
}

/// One of the ten ASCII digits.
pub open spec fn is_digit(c: char) -> bool {
    '0' <= c <= '9'
}

/// The number a digit stands for.
pub open spec fn digit_value(c: char) -> nat
    recommends
        is_digit(c),
{
    (c as int - '0' as int) as nat
}

/// Whether `s` is made of digits only.
pub open spec fn all_digits(s: Seq<char>) -> bool {
    forall|i: int| 0 <= i < s.len() ==> is_digit(#[trigger] s[i])
}

/// The number that a sequence of digits denotes in base ten. Leading
/// zeros do not count, and the empty sequence denotes zero.
pub open spec fn decimal_value(s: Seq<char>) -> nat
    decreases s.len(),
{
    if s.len() == 0 {
        0
    } else {
        10 * decimal_value(s.drop_last()) + digit_value(s.last())
    }
}

/// `s` without one leading plus sign, if it has one.
pub open spec fn unsigned_part(s: Seq<char>) -> Seq<char> {
    if s.len() > 0 && s.first() == '+' {
        s.drop_first()
    } else {
        s
    }
}

/// The number written on a line, if the line holds one and nothing else
/// but white space around it.
pub open spec fn written_number(line: Seq<char>) -> Option<nat> {
    let digits = unsigned_part(trimmed(line));
    if digits.len() > 0 && all_digits(digits) {
        Some(decimal_value(digits))
    } else {
        None
    }
}

/// The zero-based position that a line selects among `count` listed
/// entries: the line holds a number from 1 to `count`.
pub open spec fn choice_of(line: Seq<char>, count: nat) -> Option<nat> {
    match written_number(line) {
        Some(v) => if 1 <= v <= count {
            Some((v - 1) as nat)
        } else {
            None
        },
        None => None,
    }
}

/// What is left of `s` after its first `k` characters, all of them white
/// space, is what `trim_start` leaves of it, if no white space follows.
proof fn lemma_trim_start(s: Seq<char>, k: int)
    requires
        0 <= k <= s.len(),
        forall|i: int| 0 <= i < k ==> is_whitespace(#[trigger] s[i]),
        k < s.len() ==> !is_whitespace(s[k]),
    ensures
        trim_start(s) == s.subrange(k, s.len() as int),
    decreases k,
{
    if k == 0 {
        assert(s.subrange(0, s.len() as int) =~= s);
    } else {
        let rest = s.drop_first();
        assert forall|i: int| 0 <= i < k - 1 implies is_whitespace(#[trigger] rest[i]) by {
            assert(rest[i] == s[i + 1]);
        }
        lemma_trim_start(rest, k - 1);
        assert(rest.subrange(k - 1, rest.len() as int) =~= s.subrange(k, s.len() as int));
    }
}

/// What is left of `s` before its characters from `k` on, all of them
/// white space, is what `trim_end` leaves of it, if no white space
/// stands just before.
proof fn lemma_trim_end(s: Seq<char>, k: int)
    requires
        0 <= k <= s.len(),
        forall|i: int| k <= i < s.len() ==> is_whitespace(#[trigger] s[i]),
        0 < k ==> !is_whitespace(s[k - 1]),
    ensures
        trim_end(s) == s.subrange(0, k),
    decreases s.len() - k,
{
    if k == s.len() {
        assert(s.subrange(0, k) =~= s);
    } else {
        let rest = s.drop_last();
        lemma_trim_end(rest, k);
        assert(rest.subrange(0, k) =~= s.subrange(0, k));
    }
}

/// A longer run of digits denotes no smaller number than its beginning.
proof fn lemma_decimal_value_grows(s: Seq<char>, k: int)
    requires
        0 <= k <= s.len(),
    ensures
        decimal_value(s.take(k)) <= decimal_value(s),
    decreases s.len() - k,
{
    if k == s.len() {
        assert(s.take(k) =~= s);
    } else {
        lemma_decimal_value_grows(s.drop_last(), k);
        assert(s.drop_last().take(k) =~= s.take(k));
    }
}

fn is_space(c: char) -> (b: bool)
    ensures
        b == is_whitespace(c),
{
    ('\u{9}' <= c && c <= '\u{d}') || c == ' ' || c == '\u{85}' || c == '\u{a0}' || c
        == '\u{1680}' || ('\u{2000}' <= c && c <= '\u{200a}') || c == '\u{2028}' || c
        == '\u{2029}' || c == '\u{202f}' || c == '\u{205f}' || c == '\u{3000}'
}

fn chars_of(line: &str) -> (out: Vec<char>)
    ensures
        out@ == line@,
{
    let mut out: Vec<char> = Vec::new();
    for c in it: line.chars()
        invariant
            it.seq() == line@,
            out@ == it.seq().take(it.index() as int),
    {
        out.push(c);
    }
    out
}

/// The number written on `line`, if there is one and a `usize` can hold it.
pub fn parse_choice(line: &str) -> (r: Option<usize>)
    ensures
        match r {
            Some(v) => written_number(line@) == Some(v as nat),
            None => written_number(line@) matches Some(v) ==> v > usize::MAX,
        },
{
    let chars = chars_of(line);
    let n = chars.len();
    let mut start: usize = 0;
    while start < n && is_space(chars[start])
        invariant
            n == chars.len(),
            start <= n,
            forall|i: int| 0 <= i < start ==> is_whitespace(#[trigger] chars@[i]),
        decreases n - start,
    {
        start += 1;
    }
    let mut end: usize = n;
    while end > start && is_space(chars[end - 1])
        invariant
            n == chars.len(),
            start <= end <= n,
            forall|i: int| end <= i < n ==> is_whitespace(#[trigger] chars@[i]),
        decreases end,
    {
        end -= 1;
    }
    let ghost kept = chars@.subrange(start as int, end as int);
    proof {
        let tail = chars@.subrange(start as int, n as int);
        lemma_trim_start(chars@, start as int);
        lemma_trim_end(tail, end - start);
        assert(tail.subrange(0, end - start) =~= kept);
        assert(trimmed(line@) == kept);
    }
    let mut pos: usize = start;
    if pos < end && chars[pos] == '+' {
        pos += 1;
    }
    let ghost digits = chars@.subrange(pos as int, end as int);
    let first: usize = pos;
    proof {
        assert(unsigned_part(kept) =~= digits);
    }
    if pos == end {
        return None;
    }
    let mut value: usize = 0;
    while pos < end
        invariant
            n == chars.len(),
            first <= pos <= end <= n,
            digits == chars@.subrange(first as int, end as int),
            digits == unsigned_part(trimmed(line@)),
            all_digits(digits.take(pos - first)),
            value == decimal_value(digits.take(pos - first)),
        decreases end - pos,
    {
        let c = chars[pos];
        if !('0' <= c && c <= '9') {
            proof {
                assert(digits[pos - first] == c);
            }
            return None;
        }
        let d: usize = (c as u32 - '0' as u32) as usize;
        let ghost next = digits.take(pos - first + 1);
        proof {
            assert(next.drop_last() =~= digits.take(pos - first));
            assert(next.last() == c);
            assert(decimal_value(next) == 10 * value + d);
            assert forall|i: int| 0 <= i < next.len() implies is_digit(#[trigger] next[i]) by {
                if i < pos - first {
                    assert(digits.take(pos - first)[i] == next[i]);
                }
            }
            lemma_decimal_value_grows(digits, pos - first + 1);
        }
        let scaled = match value.checked_mul(10) {
            Some(v) => v,
            None => {
                return None;
            },
        };
        value = match scaled.checked_add(d) {
            Some(v) => v,
            None => {
                return None;
            },
        };
        pos += 1;
    }
    proof {
        assert(digits.take(pos - first) =~= digits);
    }
    Some(value)
}

/// The zero-based position that `line` selects among `count` listed
/// entries, or `InvalidSelection` where it selects none.
pub fn select_index(line: &str, count: usize) -> (r: Result<usize, MidiError>)
    ensures
        match r {
            Ok(i) => choice_of(line@, count as nat) == Some(i as nat),
            Err(e) => choice_of(line@, count as nat) is None && e@ is InvalidSelection,
        },
{
    match parse_choice(line) {
        Some(v) => if 1 <= v && v <= count {
            Ok(v - 1)
        } else {
            Err(MidiError::InvalidSelection)
        },
        None => Err(MidiError::InvalidSelection),
    }
}

} // verus!
