//! Decimal numerals: writing them, padded or not, and reading them back.

use vstd::prelude::*;

verus! {

/// The decimal digit of value `d`.
pub open spec fn digit(d: nat) -> char {
    (d + 48) as char
}

/// Whether `c` is an ASCII digit.
pub open spec fn is_digit(c: char) -> bool {
    '0' <= c && c <= '9'
}

/// The value of an ASCII digit.
pub open spec fn digit_value(c: char) -> nat
    recommends
        is_digit(c),
{
    (c as u32 - 48) as nat
}

/// The decimal numeral of `n`, without leading zeros.
pub open spec fn decimal(n: nat) -> Seq<char>
    decreases n,
{
    if n < 10 {
        seq![digit(n)]
    } else {
        decimal(n / 10).push(digit(n % 10))
    }
}

/// The decimal numeral of `n`, filled up with leading zeros to `width` digits.
pub open spec fn zero_padded(n: nat, width: nat) -> Seq<char> {
    let d = decimal(n);
    if d.len() < width {
        Seq::new((width - d.len()) as nat, |i: int| '0') + d
    } else {
        d
    }
}

/// Whether `s` is made of ASCII digits alone.
pub open spec fn all_digits(s: Seq<char>) -> bool {
    forall|i: int| 0 <= i < s.len() ==> is_digit(#[trigger] s[i])
}

/// The number that a sequence of digits stands for.
pub open spec fn digits_value(s: Seq<char>) -> nat
    decreases s.len(),
{
    if s.len() == 0 {
        0
    } else {
        10 * digits_value(s.drop_last()) + digit_value(s.last())
    }
}

/// `s` without a leading plus sign.
pub open spec fn without_plus(s: Seq<char>) -> Seq<char> {
    if s.len() > 0 && s[0] == '+' {
        s.drop_first()
    } else {
        s
    }
}

/// An unsigned numeral of at most `max`: an optional plus sign and at least one digit.
pub open spec fn unsigned(s: Seq<char>, max: nat) -> Option<nat> {
    let d = without_plus(s);
    if d.len() > 0 && all_digits(d) && digits_value(d) <= max {
        Some(digits_value(d))
    } else {
        None
    }
}

fn digit_char(d: u64) -> (r: char)
    requires
        d < 10,
    ensures
        r == digit(d as nat),
{
    (48 + d as u8) as char
}

/// Appends the decimal numeral of `n`.
pub fn push_decimal(out: &mut String, n: u64)
    ensures
        final(out)@ == old(out)@ + decimal(n as nat),
    decreases n,
{
    if n >= 10 {
        push_decimal(out, n / 10);
    }
    out.push(digit_char(n % 10));
    assert(out@ =~= old(out)@ + decimal(n as nat));
}

/// Appends the decimal numeral of `n`, with a leading zero below ten.
pub fn push_two_digits(out: &mut String, n: u64)
    ensures
        final(out)@ == old(out)@ + zero_padded(n as nat, 2),
{
    proof {
        reveal_with_fuel(decimal, 3);
    }
    if n < 10 {
        out.push('0');
    }
    push_decimal(out, n);
    assert(out@ =~= old(out)@ + zero_padded(n as nat, 2));
}

/// Appends the decimal numeral of `n`, with leading zeros below one hundred.
pub fn push_three_digits(out: &mut String, n: u64)
    ensures
        final(out)@ == old(out)@ + zero_padded(n as nat, 3),
{
    proof {
        reveal_with_fuel(decimal, 4);
    }
    if n < 100 {
        out.push('0');
    }
    if n < 10 {
        out.push('0');
    }
    push_decimal(out, n);
    assert(out@ =~= old(out)@ + zero_padded(n as nat, 3));
}

proof fn lemma_prefix_value(s: Seq<char>, i: int)
    requires
        0 <= i <= s.len(),
        all_digits(s),
    ensures
        digits_value(s.take(i)) <= digits_value(s),
    decreases s.len() - i,
{
    if i < s.len() {
        lemma_prefix_value(s, i + 1);
        assert(s.take(i + 1).drop_last() =~= s.take(i));
    } else {
        assert(s.take(i) =~= s);
    }
}

/// Reads an unsigned numeral: an optional plus sign and at least one digit.
pub fn parse_unsigned(s: &[char]) -> (r: Option<u64>)
    ensures
        r is Some <==> unsigned(s@, u64::MAX as nat) is Some,
        r matches Some(n) ==> unsigned(s@, u64::MAX as nat) == Some(n as nat),
{
    let start: usize = if s.len() > 0 && s[0] == '+' {
        1
    } else {
        0
    };
    let ghost d = without_plus(s@);
    assert(d =~= s@.skip(start as int));
    if start == s.len() {
        return None;
    }
    let mut value: u64 = 0;
    let mut i: usize = start;
    while i < s.len()
        invariant
            start <= i <= s.len(),
            start < s.len(),
            d == without_plus(s@),
            d == s@.skip(start as int),
            forall|j: int| 0 <= j < i - start ==> is_digit(#[trigger] d[j]),
            value == digits_value(d.take(i - start)),
        decreases s.len() - i,
    {
        let c = s[i];
        assert(d[i - start] == c);
        if c < '0' || c > '9' {
            return None;
        }
        let v: u64 = c as u64 - 48;
        assert(d.take(i + 1 - start).drop_last() =~= d.take(i - start));
        if value > (u64::MAX - v) / 10 {
            proof {
                if all_digits(d) {
                    lemma_prefix_value(d, i + 1 - start);
                }
            }
            return None;
        }
        value = 10 * value + v;
        i = i + 1;
    }
    assert(d.take(d.len() as int) =~= d);
    Some(value)
}

/// Reading a numeral that was written with leading zeros or without gives its number back.
pub proof fn numeral_reads_back(n: nat, width: nat)
    ensures
        zero_padded(n, width).len() > 0,
        all_digits(zero_padded(n, width)),
        digits_value(zero_padded(n, width)) == n,
{
    lemma_decimal(n);
    let d = decimal(n);
    if d.len() < width {
        lemma_leading_zeros(d, (width - d.len()) as nat);
    }
}

/// Two numbers with the same numeral are equal.
pub proof fn decimal_injective(m: nat, n: nat)
    requires
        decimal(m) == decimal(n),
    ensures
        m == n,
{
    lemma_decimal(m);
    lemma_decimal(n);
}

/// A decimal numeral is made of digits, and stands for its number.
pub proof fn lemma_decimal(n: nat)
    ensures
        decimal(n).len() > 0,
        all_digits(decimal(n)),
        digits_value(decimal(n)) == n,
    decreases n,
{
    reveal_with_fuel(digits_value, 2);
    if n >= 10 {
        lemma_decimal(n / 10);
        assert(decimal(n).drop_last() =~= decimal(n / 10));
    } else {
        assert(decimal(n).drop_last() =~= Seq::<char>::empty());
    }
}

proof fn lemma_leading_zeros(d: Seq<char>, count: nat)
    ensures
        digits_value(Seq::new(count, |i: int| '0') + d) == digits_value(d),
    decreases d.len(), count,
{
    let s = Seq::new(count, |i: int| '0') + d;
    if d.len() > 0 {
        assert(s.drop_last() =~= Seq::new(count, |i: int| '0') + d.drop_last());
        lemma_leading_zeros(d.drop_last(), count);
    } else if count > 0 {
        assert(s.drop_last() =~= Seq::new((count - 1) as nat, |i: int| '0') + d);
        lemma_leading_zeros(d, (count - 1) as nat);
    } else {
        assert(s =~= d);
    }
}

/// Numerals count in tens: a digit behind the numeral of a number stands for ten times that
/// number and the digit.
pub proof fn numerals_count_in_tens(n: nat, d: nat)
    requires
        d < 10,
    ensures
        decimal(d) == seq![('0' as u32 + d) as char],
        n > 0 ==> decimal(10 * n + d) == decimal(n).push(('0' as u32 + d) as char),
{
    if n > 0 {
        assert((10 * n + d) / 10 == n);
        assert((10 * n + d) % 10 == d);
    }
}

/// No numeral begins with a zero but that of zero.
pub proof fn numerals_have_no_leading_zero(n: nat)
    ensures
        n > 0 ==> decimal(n)[0] != '0',
        decimal(n).len() > 0,
    decreases n,
{
    if n >= 10 {
        numerals_have_no_leading_zero(n / 10);
        assert(decimal(n)[0] == decimal(n / 10)[0]);
    }
}

/// Padding puts zeros before a numeral that is too short, as many as it lacks, and does nothing
/// to others.
pub proof fn padding_fills_up(n: nat, width: nat)
    ensures
        decimal(n).len() >= width ==> zero_padded(n, width) == decimal(n),
        decimal(n).len() < width ==> {
            let zeros = width - decimal(n).len();
            &&& zero_padded(n, width).len() == width
            &&& zero_padded(n, width).skip(zeros) == decimal(n)
            &&& forall|i: int| 0 <= i < zeros ==> #[trigger] zero_padded(n, width)[i] == '0'
        },
{
    if decimal(n).len() < width {
        assert(zero_padded(n, width).skip(width - decimal(n).len()) =~= decimal(n));
    }
}

/// A digit behind others stands for itself, and makes the others stand for ten times as much.
pub proof fn digits_count_in_tens(s: Seq<char>, c: char)
    requires
        '0' <= c <= '9',
    ensures
        digits_value(Seq::empty()) == 0,
        digits_value(s.push(c)) == 10 * digits_value(s) + (c as u32 - '0' as u32),
{
    assert(s.push(c).drop_last() =~= s);
}

/// A numeral is read as its number, with leading zeros or without, and with a plus sign or
/// without, unless it is too large.
pub proof fn numerals_are_read(n: nat, width: nat, max: nat)
    ensures
        n <= max ==> unsigned(zero_padded(n, width), max) == Some(n) && unsigned(
            seq!['+'] + zero_padded(n, width),
            max,
        ) == Some(n),
        n > max ==> unsigned(zero_padded(n, width), max) is None && unsigned(
            seq!['+'] + zero_padded(n, width),
            max,
        ) is None,
{
    let d = zero_padded(n, width);
    numeral_reads_back(n, width);
    assert(is_digit(d[0]));
    assert((seq!['+'] + d).drop_first() =~= d);
}

/// What has no digits, or anything but digits behind a plus sign, is no numeral.
pub proof fn other_texts_are_no_numerals(s: Seq<char>, max: nat, i: int)
    requires
        s.len() == 0 || s == seq!['+'] || (0 <= i < s.len() && !('0' <= s[i] <= '9') && (i > 0
            || s[0] != '+')),
    ensures
        unsigned(s, max) is None,
{
    if s.len() > 0 && s != seq!['+'] {
        let d = without_plus(s);
        if s[0] == '+' {
            assert(d[i - 1] == s[i]);
        } else {
            assert(d[i] == s[i]);
        }
    }
}

} // verus!
