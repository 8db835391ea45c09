//! The decimal text under which a redirect count is persisted, and the
//! arithmetic of one increment.
//!
//! A stored count is read as an optional `+` followed by one or more ASCII
//! digits whose value fits in a `u32`; text of any other shape, like a
//! missing entry, reads as zero. A count is written in the shortest decimal
//! form, so reading back what was written gives the same number.

use vstd::prelude::*;

verus! {

/// Whether `c` is one of the ten ASCII decimal digits.
pub open spec fn is_digit(c: char) -> bool {
    '0' <= c && c <= '9'
}

/// The number that a decimal digit stands for; zero for any other character.
pub open spec fn digit_value(c: char) -> nat {
    if is_digit(c) {
        (c as u32 - '0' as u32) as nat
    } else {
        0
    }
}

/// The digit character of a number below ten.
pub open spec fn digit_char(d: nat) -> char {
    ('0' as u8 + d) as u8 as char
}

/// Whether every character of `s` is a decimal digit.
pub open spec fn all_digits(s: Seq<char>) -> bool {
    forall|i: int| 0 <= i < s.len() ==> is_digit(#[trigger] s[i])
}

/// The number that a string of digits denotes, most significant digit first.
pub open spec fn decimal_value(s: Seq<char>) -> nat
    decreases s.len(),
{
    if s.len() == 0 {
        0
    } else {
        decimal_value(s.drop_last()) * 10 + digit_value(s.last())
    }
}

/// The shortest decimal text of `n`: no sign, no leading zero, `"0"` for zero.
pub open spec fn decimal_text(n: nat) -> Seq<char>
    decreases n,
{
    if n < 10 {
        seq![digit_char(n)]
    } else {
        decimal_text(n / 10).push(digit_char(n % 10))
    }
}

/// `s` without a leading `+`, if it has one.
pub open spec fn unsigned_part(s: Seq<char>) -> Seq<char> {
    if s.len() > 0 && s[0] == '+' {
        s.skip(1)
    } else {
        s
    }
}

/// The count that `s` denotes, if it is an optional `+` followed by at least
/// one digit and the value fits in a `u32`.
pub open spec fn parse_u32(s: Seq<char>) -> Option<u32> {
    let digits = unsigned_part(s);
    if digits.len() > 0 && all_digits(digits) && decimal_value(digits) <= u32::MAX {
        Some(decimal_value(digits) as u32)
    } else {
        None
    }
}

/// The count that a stored entry stands for: zero when there is no entry or
/// its text is not a count.
pub open spec fn stored_count(text: Option<Seq<char>>) -> u32 {
    match text {
        Some(t) => match parse_u32(t) {
            Some(n) => n,
            None => 0,
        },
        None => 0,
    }
}

/// The count after one more redirect. The count stops at `u32::MAX`.
pub open spec fn spec_next_count(count: u32) -> u32 {
    if count < u32::MAX {
        (count + 1) as u32
    } else {
        count
    }
}

/// A prefix of a string never denotes more than the whole string.
pub proof fn lemma_prefix_value_le(s: Seq<char>, k: int)
    requires
        0 <= k <= s.len(),
    ensures
        decimal_value(s.take(k)) <= decimal_value(s),
    decreases s.len(),
{
    if k == s.len() {
        assert(s.take(k) =~= s);
    } else {
        assert(s.drop_last().take(k) =~= s.take(k));
        lemma_prefix_value_le(s.drop_last(), k);
    }
}

/// The shortest decimal text of `n` is a non-empty string of digits that
/// denotes `n`.
pub proof fn lemma_decimal_text_denotes(n: nat)
    ensures
        decimal_text(n).len() > 0,
        all_digits(decimal_text(n)),
        decimal_value(decimal_text(n)) == n,
    decreases n,
{
    if n < 10 {
        let t = decimal_text(n);
        assert(t.drop_last() =~= Seq::<char>::empty());
        assert(decimal_value(t.drop_last()) == 0);
        assert(t.last() == digit_char(n));
    } else {
        lemma_decimal_text_denotes(n / 10);
        let t = decimal_text(n);
        assert(t.drop_last() =~= decimal_text(n / 10));
        assert(t.last() == digit_char(n % 10));
    }
}

/// Reading back the text that a count was written as gives the count.
pub proof fn law_count_text_round_trip(n: u32)
    ensures
        parse_u32(decimal_text(n as nat)) == Some(n),
        stored_count(Some(decimal_text(n as nat))) == n,
{
    lemma_decimal_text_denotes(n as nat);
}

/// Reads a count from its stored text.
pub fn parse_count(text: &str) -> (count: Option<u32>)
    ensures
        count == parse_u32(text@),
{
    let n = text.unicode_len();
    let mut i: usize = 0;
    if n > 0 && text.get_char(0) == '+' {
        i = 1;
    }
    let start: usize = i;
    let ghost digits = unsigned_part(text@);
    assert(digits == text@.skip(start as int));
    if i == n {
        return None;
    }
    let mut acc: u64 = 0;
    while i < n
        invariant
            start <= i <= n,
            n == text@.len(),
            digits == unsigned_part(text@),
            digits == text@.skip(start as int),
            digits.len() == n - start,
            all_digits(digits.take(i - start)),
            acc == decimal_value(digits.take(i - start)),
            acc <= u32::MAX,
        decreases n - i,
    {
        let c = text.get_char(i);
        assert(c == digits[i - start]);
        if !('0' <= c && c <= '9') {
            assert(!is_digit(digits[i - start]));
            return None;
        }
        let d: u64 = (c as u32 - '0' as u32) as u64;
        let ghost grown = digits.take(i - start + 1);
        assert(grown.drop_last() =~= digits.take(i - start));
        assert(grown.last() == c);
        assert(decimal_value(grown) == acc * 10 + d);
        acc = acc * 10 + d;
        if acc > 0xffff_ffff {
            proof {
                lemma_prefix_value_le(digits, i - start + 1);
                assert(decimal_value(digits) > u32::MAX);
            }
            return None;
        }
        i += 1;
    }
    assert(digits.take(i - start) =~= digits);
    Some(acc as u32)
}

/// Writes a count as its stored text.
pub fn render_count(count: u32) -> (text: String)
    ensures
        text@ == decimal_text(count as nat),
{
    let mut reversed: Vec<char> = Vec::new();
    reversed.push(digit_of(count % 10));
    let mut rest: u32 = count / 10;
    while rest > 0
        invariant
            decimal_text(count as nat) == leading_text(rest as nat) + reversed@.reverse(),
        decreases rest,
    {
        let ghost before = reversed@;
        reversed.push(digit_of(rest % 10));
        assert(reversed@.reverse() =~= seq![digit_char((rest % 10) as nat)] + before.reverse());
        rest = rest / 10;
    }
    let mut text = String::new();
    let mut k: usize = reversed.len();
    while k > 0
        invariant
            k <= reversed@.len(),
            text@ == reversed@.reverse().take(reversed@.len() - k),
        decreases k,
    {
        k -= 1;
        text.push(reversed[k]);
        assert(reversed@.reverse().take(reversed@.len() - k) =~= reversed@.reverse().take(
            reversed@.len() - k - 1,
        ).push(reversed@[k as int]));
    }
    assert(reversed@.reverse().take(reversed@.len() as int) =~= reversed@.reverse());
    text
}

/// The count after one more redirect.
#[verifier::when_used_as_spec(spec_next_count)]
pub fn next_count(count: u32) -> (next: u32)
    ensures
        next == spec_next_count(count),
{
    if count < u32::MAX {
        count + 1
    } else {
        count
    }
}

/// The digits that stand before the ones already taken off `rest`: none once
/// `rest` is used up.
spec fn leading_text(rest: nat) -> Seq<char> {
    if rest == 0 {
        Seq::<char>::empty()
    } else {
        decimal_text(rest)
    }
}

fn digit_of(d: u32) -> (c: char)
    requires
        d < 10,
    ensures
        c == digit_char(d as nat),
{
    ('0' as u8 + d as u8) as char
}

} // verus!
