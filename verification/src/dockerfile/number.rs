//! Reading a port number out of argument text: surrounding white space is
//! dropped, and what is left must be an unsigned decimal number.

use vstd::prelude::*;
use crate::text::chars_of;

verus! {

/// The characters that count as white space around a number: those with the
/// Unicode property `White_Space`.
pub open spec fn is_whitespace(c: char) -> bool {
    let u = c as u32;
    ||| 0x09 <= u <= 0x0D
    ||| u == 0x20
    ||| u == 0x85
    ||| u == 0xA0
    ||| u == 0x1680
    ||| 0x2000 <= u <= 0x200A
    ||| u == 0x2028
    ||| u == 0x2029
    ||| u == 0x202F
    ||| u == 0x205F
    ||| u == 0x3000
}

/// `s` without its leading white space.
pub open spec fn trim_start(s: Seq<char>) -> Seq<char>
    decreases s.len(),
{
    if s.len() > 0 && is_whitespace(s.first()) {
        trim_start(s.drop_first())
    } else {
        s
    }
}

/// `s` without its trailing white space.
pub open spec fn trim_end(s: Seq<char>) -> Seq<char>
    decreases s.len(),
{
    if s.len() > 0 && is_whitespace(s.last()) {
        trim_end(s.drop_last())
    } else {
        s
    }
}

/// `s` without the white space at either end.
pub open spec fn trim(s: Seq<char>) -> Seq<char> {
    trim_end(trim_start(s))
}

/// Whether `c` is one of the ten decimal digits.
pub open spec fn is_digit(c: char) -> bool {
    '0' <= c <= '9'
}

/// The number that a run of decimal digits writes.
pub open spec fn decimal_value(digits: Seq<char>) -> nat
    decreases digits.len(),
{
    if digits.len() == 0 {
        0
    } else {
        (10 * decimal_value(digits.drop_last()) + (digits.last() as u32 - '0' as u32)) as nat
    }
}

/// Whether `s` holds decimal digits and nothing else.
pub open spec fn all_digits(s: Seq<char>) -> bool {
    forall|i: int| 0 <= i < s.len() ==> is_digit(#[trigger] s[i])
}

/// The number that `s` writes in decimal: an optional `+`, then one digit or
/// more and nothing else.
pub open spec fn unsigned_decimal(s: Seq<char>) -> Option<nat> {
    let digits = if s.len() > 0 && s.first() == '+' {
        s.drop_first()
    } else {
        s
    };
    if digits.len() > 0 && all_digits(digits) {
        Some(decimal_value(digits))
    } else {
        None
    }
}

/// The port that argument text names: the text, white space at its ends
/// aside, must be an unsigned decimal number no greater than 65535.
pub open spec fn port_number(content: Seq<char>) -> Option<u16> {
    match unsigned_decimal(trim(content)) {
        Some(v) => if v <= u16::MAX {
            Some(v as u16)
        } else {
            None
        },
        None => None,
    }
}

/// Trimming drops exactly the leading run of white space.
pub proof fn lemma_trim_start(s: Seq<char>, k: int)
    requires
        0 <= k <= s.len(),
        forall|i: int| 0 <= i < k ==> is_whitespace(#[trigger] s[i]),
        k < s.len() ==> !is_whitespace(s[k]),
    ensures
        trim_start(s) == s.skip(k),
    decreases k,
{
    if k == 0 {
        assert(s.skip(0) == s);
    } else {
        let rest = s.drop_first();
        assert forall|i: int| 0 <= i < k - 1 implies is_whitespace(#[trigger] rest[i]) by {
            assert(rest[i] == s[i + 1]);
        }
        lemma_trim_start(rest, k - 1);
        assert(rest.skip(k - 1) == s.skip(k));
    }
}

/// Trimming drops exactly the trailing run of white space.
pub proof fn lemma_trim_end(s: Seq<char>, m: int)
    requires
        0 <= m <= s.len(),
        forall|i: int| m <= i < s.len() ==> is_whitespace(#[trigger] s[i]),
        0 < m ==> !is_whitespace(s[m - 1]),
    ensures
        trim_end(s) == s.take(m),
    decreases s.len() - m,
{
    if m == s.len() {
        assert(s.take(m) == s);
    } else {
        let rest = s.drop_last();
        lemma_trim_end(rest, m);
        assert(rest.take(m) == s.take(m));
    }
}

/// A longer run of digits never writes a smaller number than its start
/// does.
pub proof fn lemma_decimal_value_grows(digits: Seq<char>, j: int)
    requires
        0 <= j <= digits.len(),
        all_digits(digits),
    ensures
        decimal_value(digits.take(j)) <= decimal_value(digits),
    decreases digits.len() - j,
{
    if j == digits.len() {
        assert(digits.take(j) == digits);
    } else {
        let shorter = digits.drop_last();
        lemma_decimal_value_grows(shorter, j);
        assert(shorter.take(j) == digits.take(j));
        assert(is_digit(digits.last()));
    }
}

/// The character that writes the digit `d`.
pub open spec fn digit_char(d: nat) -> char {
    ((48 + d) as u8) as char
}

/// The decimal digits that write `n`, with no leading zero.
pub open spec fn decimal_digits(n: nat) -> Seq<char>
    decreases n,
{
    if n < 10 {
        seq![digit_char(n)]
    } else {
        decimal_digits(n / 10).push(digit_char(n % 10))
    }
}

/// The digits of a number are digits, and they write that number.
pub proof fn lemma_decimal_digits(n: nat)
    ensures
        decimal_digits(n).len() > 0,
        all_digits(decimal_digits(n)),
        decimal_value(decimal_digits(n)) == n,
    decreases n,
{
    if n < 10 {
        let d = decimal_digits(n);
        assert(d.drop_last() == Seq::<char>::empty());
        assert(decimal_value(d.drop_last()) == 0);
    } else {
        lemma_decimal_digits(n / 10);
        let d = decimal_digits(n);
        assert(d.drop_last() == decimal_digits(n / 10));
        assert(d.last() == digit_char(n % 10));
    }
}

/// Whether `s` holds white space and nothing else.
pub open spec fn all_whitespace(s: Seq<char>) -> bool {
    forall|i: int| 0 <= i < s.len() ==> is_whitespace(#[trigger] s[i])
}

/// A port written in decimal names itself, with any white space before and
/// after it: `" 8080"` names 8080.
pub proof fn lemma_port_number_of_digits(before: Seq<char>, port: u16, after: Seq<char>)
    requires
        all_whitespace(before),
        all_whitespace(after),
    ensures
        port_number(before + decimal_digits(port as nat) + after) == Some(port),
{
    let digits = decimal_digits(port as nat);
    let text = before + digits + after;
    lemma_decimal_digits(port as nat);
    assert(is_digit(digits[0]));
    assert(is_digit(digits.last()));
    lemma_trim_start(text, before.len() as int);
    let tail = text.skip(before.len() as int);
    assert(tail == digits + after);
    lemma_trim_end(tail, digits.len() as int);
    assert(tail.take(digits.len() as int) == digits);
    assert(trim(text) == digits);
}

/// Whether `c` is white space.
pub fn is_space(c: char) -> (b: bool)
    ensures
        b == is_whitespace(c),
{
    let u: u32 = c as u32;
    let ascii = (0x09 <= u && u <= 0x0D) || u == 0x20;
    let latin = u == 0x85 || u == 0xA0;
    let wide = u == 0x1680 || (0x2000 <= u && u <= 0x200A) || u == 0x3000;
    let breaks = u == 0x2028 || u == 0x2029 || u == 0x202F || u == 0x205F;
    ascii || latin || wide || breaks
}

/// Reads the port that argument text names.
pub fn parse_port(content: &str) -> (port: Option<u16>)
    ensures
        port == port_number(content@),
{
    let chars = chars_of(content);
    let n: usize = chars.len();
    let mut start: usize = 0;
    while start < n && is_space(chars[start])
        invariant
            start <= n == chars@.len(),
            forall|i: int| 0 <= i < start ==> is_whitespace(#[trigger] chars@[i]),
        decreases n - start,
    {
        start = start + 1;
    }
    let mut end: usize = n;
    while end > start && is_space(chars[end - 1])
        invariant
            start <= end <= n == chars@.len(),
            forall|i: int| end <= i < n ==> is_whitespace(#[trigger] chars@[i]),
        decreases end,
    {
        end = end - 1;
    }
    let ghost trimmed = chars@.subrange(start as int, end as int);
    proof {
        lemma_trim_start(chars@, start as int);
        let tail = chars@.skip(start as int);
        assert forall|i: int| end - start <= i < tail.len() implies is_whitespace(
            #[trigger] tail[i],
        ) by {
            assert(tail[i] == chars@[i + start]);
        }
        lemma_trim_end(tail, end - start);
        assert(tail.take(end - start) == trimmed);
        assert(trim(content@) == trimmed);
    }
    let mut at: usize = start;
    if at < end && chars[at] == '+' {
        at = at + 1;
    }
    let ghost digits = chars@.subrange(at as int, end as int);
    proof {
        if at > start {
            assert(trimmed.first() == '+');
            assert(trimmed.drop_first() == digits);
        } else {
            assert(digits == trimmed);
            assert(trimmed.len() > 0 ==> trimmed.first() == chars@[start as int]);
        }
        assert(unsigned_decimal(trimmed) == if digits.len() > 0 && all_digits(digits) {
            Some(decimal_value(digits))
        } else {
            None::<nat>
        });
    }
    if at == end {
        return None;
    }
    let first: usize = at;
    let mut value: u32 = 0;
    while at < end
        invariant
            first <= at <= end <= n == chars@.len(),
            first < end,
            digits == chars@.subrange(first as int, end as int),
            forall|i: int| 0 <= i < at - first ==> is_digit(#[trigger] digits[i]),
            value == decimal_value(digits.take(at - first)),
            value <= u16::MAX,
            unsigned_decimal(trimmed) == if all_digits(digits) {
                Some(decimal_value(digits))
            } else {
                None::<nat>
            },
            trim(content@) == trimmed,
        decreases end - at,
    {
        let c: char = chars[at];
        assert(c == digits[at - first]);
        if !(c >= '0' && c <= '9') {
            return None;
        }
        let ghost before = digits.take(at - first);
        let ghost upto = digits.take(at - first + 1);
        assert(upto.drop_last() == before);
        assert(upto.last() == c);
        value = value * 10 + (c as u32 - '0' as u32);
        assert(value == decimal_value(upto));
        at = at + 1;
        if value > 65535 {
            proof {
                if all_digits(digits) {
                    lemma_decimal_value_grows(digits, at - first);
                }
            }
            return None;
        }
    }
    assert(digits.take(at - first) == digits);
    Some(value as u16)
}

} // verus!
