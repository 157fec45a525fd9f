//! Decimal notation: reading an unsigned number from text and writing one out.

use vstd::prelude::*;
use vstd::string::StringExecFns;

verus! {

/// Whether `c` is one of the ten decimal digits.
pub open spec fn is_digit(c: char) -> bool {
    '0' <= c && c <= '9'
}

/// The number that the digit `c` stands for.
pub open spec fn digit_value(c: char) -> nat
    recommends
        is_digit(c),
{
    (c as int - '0' as int) as nat
}

/// The digit that stands for `d`.
pub open spec fn digit_char(d: nat) -> char
    recommends
        d < 10,
{
    ('0' as int + d) as char
}

/// Whether `s` holds decimal digits only.
pub open spec fn all_digits(s: Seq<char>) -> bool {
    forall|i: int| 0 <= i < s.len() ==> is_digit(#[trigger] s[i])
}

/// The number that a run of digits stands for, the most significant digit first.
pub open spec fn digits_number(s: Seq<char>) -> nat
    decreases s.len(),
{
    if s.len() == 0 {
        0
    } else {
        digits_number(s.drop_last()) * 10 + digit_value(s.last())
    }
}

/// The digits of an unsigned literal: the text without a leading plus sign.
pub open spec fn literal_digits(s: Seq<char>) -> Seq<char> {
    if s.len() > 0 && s[0] == '+' {
        s.drop_first()
    } else {
        s
    }
}

/// The number that `s` denotes as an unsigned decimal literal: an optional
/// plus sign, then at least one digit, and nothing else.
pub open spec fn unsigned_literal(s: Seq<char>) -> Option<nat> {
    let digits = literal_digits(s);
    if digits.len() > 0 && all_digits(digits) {
        Some(digits_number(digits))
    } else {
        None
    }
}

/// The number that `s` denotes, if it is an unsigned literal of at most `max`.
pub open spec fn bounded_literal(s: Seq<char>, max: nat) -> Option<nat> {
    match unsigned_literal(s) {
        Some(n) => if n <= max {
            Some(n)
        } else {
            None
        },
        None => None,
    }
}

/// The decimal notation of `n`, without leading zeros.
pub open spec fn decimal_digits(n: nat) -> Seq<char>
    decreases n,
{
    if n < 10 {
        seq![digit_char(n)]
    } else {
        decimal_digits(n / 10).push(digit_char(n % 10))
    }
}

/// A run of digits stands for at least as much as any of its prefixes.
pub proof fn lemma_prefix_number_le(s: Seq<char>, k: int)
    requires
        0 <= k <= s.len(),
    ensures
        digits_number(s.take(k)) <= digits_number(s),
    decreases s.len() - k,
{
    if k == s.len() {
        assert(s.take(k) =~= s);
    } else {
        assert(s.drop_last().take(k) =~= s.take(k));
        lemma_prefix_number_le(s.drop_last(), k);
    }
}

/// Reading the decimal notation of a number gives the number back.
pub proof fn lemma_decimal_round_trip(n: nat)
    ensures
        decimal_digits(n).len() > 0,
        all_digits(decimal_digits(n)),
        digits_number(decimal_digits(n)) == n,
        unsigned_literal(decimal_digits(n)) == Some(n),
    decreases n,
{
    if n < 10 {
        let s = decimal_digits(n);
        assert(s.drop_last() =~= Seq::<char>::empty());
        assert(digits_number(s.drop_last()) == 0);
    } else {
        lemma_decimal_round_trip(n / 10);
        let s = decimal_digits(n);
        assert(s.drop_last() =~= decimal_digits(n / 10));
        assert(s.last() == digit_char(n % 10));
        assert(s[0] == decimal_digits(n / 10)[0]);
    }
    assert(is_digit(decimal_digits(n)[0]));
}

/// The number that `text` denotes as an unsigned decimal literal, where it is
/// one and the number is at most `max`.
pub fn parse_unsigned(text: &str, max: u128) -> (value: Option<u128>)
    ensures
        value == match bounded_literal(text@, max as nat) {
            Some(n) => Some(n as u128),
            None => None,
        },
{
    let n = text.unicode_len();
    let start: usize = if n > 0 && text.get_char(0) == '+' {
        1
    } else {
        0
    };
    let ghost digits = literal_digits(text@);
    assert(digits =~= text@.subrange(start as int, n as int));
    if start == n {
        return None;
    }
    let mut acc: u128 = 0;
    let mut i: usize = start;
    assert(digits.take(0) =~= Seq::<char>::empty());
    while i < n
        invariant
            start <= i <= n,
            n == text@.len(),
            start < n,
            digits == text@.subrange(start as int, n as int),
            digits == literal_digits(text@),
            all_digits(digits.take(i - start)),
            acc == digits_number(digits.take(i - start)),
            acc <= max,
        decreases n - i,
    {
        let c = text.get_char(i);
        let ghost k = i - start;
        assert(digits[k] == c);
        if !(c >= '0' && c <= '9') {
            return None;
        }
        let d: u128 = (c as u32 - 48) as u128;
        proof {
            assert(digits.take(k + 1).drop_last() =~= digits.take(k));
            assert(digits.take(k + 1).last() == c);
            assert(digits_number(digits.take(k + 1)) == acc * 10 + d);
            assert forall|j: int| 0 <= j < k + 1 implies is_digit(
                #[trigger] digits.take(k + 1)[j],
            ) by {
                if j < k {
                    assert(digits.take(k)[j] == digits.take(k + 1)[j]);
                }
            }
        }
        if acc > max / 10 || max - acc * 10 < d {
            proof {
                if all_digits(digits) {
                    lemma_prefix_number_le(digits, k + 1);
                }
            }
            return None;
        }
        acc = acc * 10 + d;
        i = i + 1;
    }
    assert(digits.take(i - start) =~= digits);
    Some(acc)
}

/// The text of one decimal digit.
fn digit_text(d: u128) -> (text: &'static str)
    requires
        d < 10,
    ensures
        text@ == seq![digit_char(d as nat)],
{
    proof {
        reveal_strlit("0");
        reveal_strlit("1");
        reveal_strlit("2");
        reveal_strlit("3");
        reveal_strlit("4");
        reveal_strlit("5");
        reveal_strlit("6");
        reveal_strlit("7");
        reveal_strlit("8");
        reveal_strlit("9");
    }
    let text = if d == 0 {
        "0"
    } else if d == 1 {
        "1"
    } else if d == 2 {
        "2"
    } else if d == 3 {
        "3"
    } else if d == 4 {
        "4"
    } else if d == 5 {
        "5"
    } else if d == 6 {
        "6"
    } else if d == 7 {
        "7"
    } else if d == 8 {
        "8"
    } else {
        "9"
    };
    assert(text@ =~= seq![digit_char(d as nat)]);
    text
}

/// Writes the decimal notation of `n` at the end of `out`.
pub fn append_decimal(out: &mut String, n: u128)
    ensures
        final(out)@ == old(out)@ + decimal_digits(n as nat),
    decreases n,
{
    if n >= 10 {
        append_decimal(out, n / 10);
    }
    out.append(digit_text(n % 10));
    proof {
        let d = seq![digit_char((n % 10) as nat)];
        if n >= 10 {
            assert(old(out)@ + decimal_digits((n / 10) as nat) + d =~= old(out)@ + decimal_digits(
                (n / 10) as nat,
            ).push(digit_char((n % 10) as nat)));
        }
    }
}

/// The decimal notation of `n`.
pub fn decimal_string(n: u128) -> (text: String)
    ensures
        text@ == decimal_digits(n as nat),
{
    let mut text = String::new();
    append_decimal(&mut text, n);
    assert(Seq::<char>::empty() + decimal_digits(n as nat) =~= decimal_digits(n as nat));
    text
}

} // verus!
