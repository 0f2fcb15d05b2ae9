//! Text helpers: decimal numbers in and out of strings, blank tests, and
//! the two `String` edits that vstd leaves without a specification.
use vstd::prelude::*;

verus! {

/// `String::push`: appends one character.
#[verifier::external_body]
pub(crate) fn push_char(s: &mut String, c: char)
    ensures
        final(s)@ == old(s)@.push(c),
{
    s.push(c);
}

/// `String::pop`: removes and returns the last character, if there is one.
#[verifier::external_body]
pub(crate) fn pop_char(s: &mut String) -> (r: Option<char>)
    ensures
        old(s)@.len() == 0 ==> r is None && final(s)@ == old(s)@,
        old(s)@.len() > 0 ==> r == Some(old(s)@.last()) && final(s)@ == old(s)@.drop_last(),
{
    s.pop()
}

/// The ASCII digit for `d` (0 to 9).
pub open spec fn digit_char(d: int) -> char {
    if d == 0 { '0' }
    else if d == 1 { '1' }
    else if d == 2 { '2' }
    else if d == 3 { '3' }
    else if d == 4 { '4' }
    else if d == 5 { '5' }
    else if d == 6 { '6' }
    else if d == 7 { '7' }
    else if d == 8 { '8' }
    else { '9' }
}

/// The numeric value of an ASCII digit.
pub open spec fn digit_value(c: char) -> int {
    c as int - '0' as int
}

pub open spec fn is_digit(c: char) -> bool {
    '0' <= c && c <= '9'
}

/// The decimal notation of `n`, without leading zeros.
pub open spec fn decimal(n: nat) -> Seq<char>
    decreases n,
{
    if n < 10 {
        seq![digit_char(n as int)]
    } else {
        decimal(n / 10).push(digit_char((n % 10) as int))
    }
}

/// The value of a string of decimal digits (0 for the empty string).
pub open spec fn digits_value(s: Seq<char>) -> int
    decreases s.len(),
{
    if s.len() == 0 {
        0
    } else {
        digits_value(s.drop_last()) * 10 + digit_value(s.last())
    }
}

pub open spec fn all_digits(s: Seq<char>) -> bool {
    forall|i: int| 0 <= i < s.len() ==> #[trigger] is_digit(s[i])
}

/// What `u64::from_str` gives: an optional leading `+`, then one or more
/// decimal digits whose value fits in a `u64`; anything else is rejected.
pub open spec fn spec_parse_u64(s: Seq<char>) -> Option<u64> {
    let d = if s.len() > 0 && s[0] == '+' { s.drop_first() } else { s };
    if d.len() > 0 && all_digits(d) && digits_value(d) <= u64::MAX {
        Some(digits_value(d) as u64)
    } else {
        None
    }
}

/// The characters that `char::is_whitespace` accepts (Unicode White_Space).
pub open spec fn is_white_space(c: char) -> bool {
    ||| ('\u{9}' <= c && c <= '\u{d}')
    ||| c == ' '
    ||| c == '\u{85}'
    ||| c == '\u{a0}'
    ||| c == '\u{1680}'
    ||| ('\u{2000}' <= c && c <= '\u{200a}')
    ||| c == '\u{2028}'
    ||| c == '\u{2029}'
    ||| c == '\u{202f}'
    ||| c == '\u{205f}'
    ||| c == '\u{3000}'
}

/// A string that trims to nothing.
pub open spec fn is_blank_spec(s: Seq<char>) -> bool {
    forall|i: int| 0 <= i < s.len() ==> #[trigger] is_white_space(s[i])
}

pub fn digit_to_char(d: u64) -> (c: char)
    requires
        d < 10,
    ensures
        c == digit_char(d as int),
{
    if d == 0 { '0' }
    else if d == 1 { '1' }
    else if d == 2 { '2' }
    else if d == 3 { '3' }
    else if d == 4 { '4' }
    else if d == 5 { '5' }
    else if d == 6 { '6' }
    else if d == 7 { '7' }
    else if d == 8 { '8' }
    else { '9' }
}

/// Appends the decimal notation of `n` to `s`.
pub fn push_decimal(s: &mut String, n: u64)
    ensures
        final(s)@ == old(s)@ + decimal(n as nat),
    decreases n,
{
    if n >= 10 {
        push_decimal(s, n / 10);
    }
    let c = digit_to_char(n % 10);
    push_char(s, c);
    proof {
        if n < 10 {
            assert(old(s)@ + decimal(n as nat) =~= old(s)@.push(c));
        } else {
            assert(decimal(n as nat) == decimal((n / 10) as nat).push(c));
            assert((old(s)@ + decimal((n / 10) as nat)).push(c) =~= old(s)@ + decimal(n as nat));
        }
    }
}

/// `n.to_string()`.
pub fn u64_to_string(n: u64) -> (r: String)
    ensures
        r@ == decimal(n as nat),
{
    let mut s = String::new();
    push_decimal(&mut s, n);
    proof {
        assert(Seq::<char>::empty() + decimal(n as nat) =~= decimal(n as nat));
    }
    s
}

proof fn lemma_digits_value_prefix(s: Seq<char>, j: int)
    requires
        all_digits(s),
        0 <= j <= s.len(),
    ensures
        0 <= digits_value(s.take(j)) <= digits_value(s),
    decreases s.len(),
{
    if s.len() == 0 {
        assert(s.take(j) =~= s);
    } else if j == s.len() {
        assert(s.take(j) =~= s);
        lemma_digits_value_nonneg(s);
    } else {
        assert(is_digit(s.last()));
        assert(all_digits(s.drop_last()));
        assert(s.drop_last().take(j) =~= s.take(j));
        lemma_digits_value_prefix(s.drop_last(), j);
    }
}

proof fn lemma_digits_value_nonneg(s: Seq<char>)
    requires
        all_digits(s),
    ensures
        0 <= digits_value(s),
    decreases s.len(),
{
    if s.len() > 0 {
        assert(is_digit(s.last()));
        assert(all_digits(s.drop_last()));
        lemma_digits_value_nonneg(s.drop_last());
    }
}

/// `s.parse::<u64>().ok()`.
pub fn parse_u64(s: &str) -> (r: Option<u64>)
    ensures
        r == spec_parse_u64(s@),
{
    let n = s.unicode_len();
    let mut start: usize = 0;
    if n > 0 && s.get_char(0) == '+' {
        start = 1;
    }
    let ghost d = if s@.len() > 0 && s@[0] == '+' { s@.drop_first() } else { s@ };
    assert(d =~= s@.subrange(start as int, n as int));
    if start == n {
        return None;
    }
    let mut acc: u64 = 0;
    let mut i: usize = start;
    while i < n
        invariant
            start <= i <= n,
            n == s@.len(),
            d =~= s@.subrange(start as int, n as int),
            d == (if s@.len() > 0 && s@[0] == '+' { s@.drop_first() } else { s@ }),
            all_digits(d.take(i - start)),
            acc as int == digits_value(d.take(i - start)),
        decreases n - i,
    {
        let c = s.get_char(i);
        assert(d[i - start] == c);
        if !('0' <= c && c <= '9') {
            assert(!all_digits(d)) by {
                assert(!is_digit(d[i - start]));
            }
            return None;
        }
        let v = (c as u32 - '0' as u32) as u64;
        assert(d.take(i + 1 - start).drop_last() =~= d.take(i - start));
        assert(d.take(i + 1 - start).last() == c);
        assert(all_digits(d.take(i + 1 - start)));
        if acc > (u64::MAX - v) / 10 {
            proof {
                assert(digits_value(d.take(i + 1 - start)) == acc * 10 + v);
                assert(acc * 10 + v > u64::MAX) by (nonlinear_arith)
                    requires
                        acc > (u64::MAX - v) / 10,
                        v <= 9,
                ;
                if all_digits(d) {
                    lemma_digits_value_prefix(d, i + 1 - start);
                }
            }
            return None;
        }
        assert(acc * 10 + v <= u64::MAX) by (nonlinear_arith)
            requires
                acc <= (u64::MAX - v) / 10,
                v <= 9,
        ;
        acc = acc * 10 + v;
        i = i + 1;
    }
    assert(d.take(n - start) =~= d);
    Some(acc)
}

pub fn is_white_space_char(c: char) -> (r: bool)
    ensures
        r == is_white_space(c),
{
    ('\u{9}' <= c && c <= '\u{d}') || c == ' ' || c == '\u{85}' || c == '\u{a0}' || c == '\u{1680}'
        || ('\u{2000}' <= c && c <= '\u{200a}') || c == '\u{2028}' || c == '\u{2029}'
        || c == '\u{202f}' || c == '\u{205f}' || c == '\u{3000}'
}

/// `s.trim().is_empty()`.
pub fn is_blank(s: &str) -> (r: bool)
    ensures
        r == is_blank_spec(s@),
{
    let n = s.unicode_len();
    let mut i: usize = 0;
    while i < n
        invariant
            i <= n,
            n == s@.len(),
            forall|j: int| 0 <= j < i ==> #[trigger] is_white_space(s@[j]),
        decreases n - i,
    {
        if !is_white_space_char(s.get_char(i)) {
            return false;
        }
        i = i + 1;
    }
    true
}

/// A number written out in decimal reads back as the same number.
pub proof fn law_decimal_parses_back(n: u64)
    ensures
        spec_parse_u64(decimal(n as nat)) == Some(n),
{
    lemma_decimal_digits(n as nat);
}

proof fn lemma_decimal_digits(n: nat)
    ensures
        decimal(n).len() > 0,
        all_digits(decimal(n)),
        digits_value(decimal(n)) == n,
        decimal(n)[0] != '+',
    decreases n,
{
    if n < 10 {
        let d = decimal(n);
        assert(d =~= seq![digit_char(n as int)]);
        assert(d.drop_last() =~= Seq::<char>::empty());
        assert(digits_value(d) == digits_value(d.drop_last()) * 10 + digit_value(d.last()));
    } else {
        lemma_decimal_digits(n / 10);
        let d = decimal(n);
        let c = digit_char((n % 10) as int);
        assert(d == decimal(n / 10).push(c));
        assert(d.drop_last() =~= decimal(n / 10));
        assert(d[0] == decimal(n / 10)[0]);
        assert forall|i: int| 0 <= i < d.len() implies #[trigger] is_digit(d[i]) by {
            if i < d.len() - 1 {
                assert(d[i] == decimal(n / 10)[i]);
            }
        }
        assert(n == (n / 10) * 10 + n % 10);
    }
}

} // verus!
