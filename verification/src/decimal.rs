//! Decimal numerals at the end of a text: their value, and the numeral of
//! the next number.

use vstd::prelude::*;

verus! {

/// Tells whether `c` is one of the digits `0` to `9`.
pub open spec fn is_digit(c: char) -> bool {
    '0' <= c && c <= '9'
}

/// The number that a digit stands for.
pub open spec fn digit_value(c: char) -> nat {
    (c as int - '0' as int) as nat
}

/// The digit that stands for a number below ten.
pub open spec fn digit_char(d: nat) -> char {
    (d + '0' as int) as char
}

/// Tells whether `s` is made of digits only.
pub open spec fn all_digits(s: Seq<char>) -> bool {
    forall|i: int| 0 <= i < s.len() ==> is_digit(#[trigger] s[i])
}

/// The number that a sequence of digits denotes, the most significant digit
/// first. Leading zeros do not count; the empty sequence denotes zero.
pub open spec fn number(digits: Seq<char>) -> nat
    decreases digits.len(),
{
    if digits.len() == 0 {
        0
    } else {
        number(digits.drop_last()) * 10 + digit_value(digits.last())
    }
}

/// The numeral of `n`: its digits without a leading zero, `0` for zero.
pub open spec fn decimal(n: nat) -> Seq<char>
    decreases n,
{
    if n < 10 {
        seq![digit_char(n)]
    } else {
        decimal(n / 10).push(digit_char(n % 10))
    }
}

/// How many digits stand at the end of `s`.
pub open spec fn trailing_digits(s: Seq<char>) -> nat
    decreases s.len(),
{
    if s.len() > 0 && is_digit(s.last()) {
        trailing_digits(s.drop_last()) + 1
    } else {
        0
    }
}

/// `s` without the digits at its end.
pub open spec fn stem(s: Seq<char>) -> Seq<char> {
    s.take(s.len() - trailing_digits(s))
}

/// The digits at the end of `s`.
pub open spec fn suffix(s: Seq<char>) -> Seq<char> {
    s.skip(s.len() - trailing_digits(s))
}

/// The number that the digits at the end of `s` denote; zero where there
/// are none.
pub open spec fn suffix_number(s: Seq<char>) -> nat {
    number(suffix(s))
}

/// `n` zeros.
pub open spec fn zeros(n: nat) -> Seq<char> {
    Seq::new(n, |i: int| '0')
}

/// The digits of the next number, written without regard to leading zeros:
/// a trailing `9` turns into `0` and carries, any other last digit goes up
/// by one.
pub open spec fn bumped(digits: Seq<char>) -> Seq<char>
    decreases digits.len(),
{
    if digits.len() == 0 {
        seq!['1']
    } else if digits.last() == '9' {
        bumped(digits.drop_last()).push('0')
    } else {
        digits.drop_last().push(digit_char(digit_value(digits.last()) + 1))
    }
}

/// The digits at the end of a text are digits, and what stands before them
/// does not end in a digit.
pub proof fn lemma_trailing_digits(s: Seq<char>)
    ensures
        trailing_digits(s) <= s.len(),
        all_digits(suffix(s)),
        trailing_digits(s) < s.len() ==> !is_digit(s[s.len() - trailing_digits(s) - 1]),
        stem(s) + suffix(s) == s,
    decreases s.len(),
{
    if s.len() > 0 && is_digit(s.last()) {
        let front = s.drop_last();
        lemma_trailing_digits(front);
        assert(suffix(s) =~= suffix(front).push(s.last()));
        assert forall|i: int| 0 <= i < suffix(s).len() implies is_digit(#[trigger] suffix(s)[i]) by {
            if i < suffix(front).len() {
            }
        }
    }
}

/// A text that is put together from a part that does not end in a digit and
/// from digits has those digits as its suffix.
pub proof fn lemma_suffix_of_joined(front: Seq<char>, digits: Seq<char>)
    requires
        front.len() == 0 || !is_digit(front.last()),
        all_digits(digits),
    ensures
        trailing_digits(front + digits) == digits.len(),
        stem(front + digits) == front,
        suffix(front + digits) == digits,
    decreases digits.len(),
{
    let s = front + digits;
    if digits.len() > 0 {
        assert(is_digit(digits[digits.len() - 1]));
        assert(s.drop_last() =~= front + digits.drop_last());
        lemma_suffix_of_joined(front, digits.drop_last());
    }
    assert(suffix(s) =~= digits);
}

/// A leading zero does not change the number.
pub proof fn lemma_leading_zero(digits: Seq<char>)
    requires
        digits.len() > 0,
        digits[0] == '0',
    ensures
        number(digits) == number(digits.skip(1)),
    decreases digits.len(),
{
    if digits.len() == 1 {
        assert(number(digits.drop_last()) == 0);
    } else {
        let front = digits.drop_last();
        lemma_leading_zero(front);
        assert(digits.skip(1).drop_last() =~= front.skip(1));
    }
}

/// Digits that do not begin with a zero denote a positive number.
pub proof fn lemma_positive(digits: Seq<char>)
    requires
        all_digits(digits),
        digits.len() > 0,
        digits[0] != '0',
    ensures
        number(digits) > 0,
    decreases digits.len(),
{
    if digits.len() > 1 {
        lemma_positive(digits.drop_last());
    }
}

/// Digits that do not begin with a zero are the numeral of their number.
pub proof fn lemma_decimal_of_number(digits: Seq<char>)
    requires
        all_digits(digits),
        digits.len() > 0,
        digits[0] != '0',
    ensures
        decimal(number(digits)) == digits,
    decreases digits.len(),
{
    assert(is_digit(digits[digits.len() - 1]));
    if digits.len() > 1 {
        let front = digits.drop_last();
        lemma_positive(front);
        lemma_decimal_of_number(front);
        assert(number(digits) == number(front) * 10 + digit_value(digits.last()));
    }
}

/// A numeral is made of digits, is not empty, and denotes its number.
pub proof fn lemma_number_of_decimal(n: nat)
    ensures
        all_digits(decimal(n)),
        decimal(n).len() > 0,
        number(decimal(n)) == n,
    decreases n,
{
    if n < 10 {
        assert(number(decimal(n).drop_last()) == 0);
    } else {
        lemma_number_of_decimal(n / 10);
        assert(decimal(n).drop_last() =~= decimal(n / 10));
    }
}

/// Bumped digits are digits, denote the next number, and begin with a zero
/// only where the digits did.
pub proof fn lemma_bumped(digits: Seq<char>)
    requires
        all_digits(digits),
    ensures
        all_digits(bumped(digits)),
        bumped(digits).len() > 0,
        number(bumped(digits)) == number(digits) + 1,
        digits.len() == 0 || digits[0] != '0' ==> bumped(digits)[0] != '0',
    decreases digits.len(),
{
    let b = bumped(digits);
    if digits.len() == 0 {
        assert(number(b.drop_last()) == 0);
    } else {
        let front = digits.drop_last();
        if digits.last() == '9' {
            lemma_bumped(front);
            assert(b.drop_last() =~= bumped(front));
        } else {
            assert(b.drop_last() =~= front);
        }
    }
}

/// Tells whether `c` is one of the digits `0` to `9`.
pub fn is_decimal_digit(c: char) -> (r: bool)
    ensures
        r == is_digit(c),
{
    '0' <= c && c <= '9'
}

/// The digit that follows `c`.
fn next_digit(c: char) -> (up: char)
    requires
        is_digit(c),
        c != '9',
    ensures
        up == digit_char(digit_value(c) + 1),
{
    match c {
        '0' => '1',
        '1' => '2',
        '2' => '3',
        '3' => '4',
        '4' => '5',
        '5' => '6',
        '6' => '7',
        '7' => '8',
        _ => '9',
    }
}

/// How many digits stand at the end of `v`.
pub fn count_trailing_digits(v: &Vec<char>) -> (count: usize)
    ensures
        count == trailing_digits(v@),
{
    let mut kept: usize = v.len();
    assert(v@.take(kept as int) =~= v@);
    while kept > 0 && is_decimal_digit(v[kept - 1])
        invariant
            kept <= v.len(),
            trailing_digits(v@) == trailing_digits(v@.take(kept as int)) + (v.len() - kept),
        decreases kept,
    {
        assert(v@.take(kept as int).drop_last() =~= v@.take(kept - 1));
        kept -= 1;
    }
    v.len() - kept
}

/// The numeral of the number that follows the one which the digits
/// `v[from..]` denote.
pub fn successor(v: &Vec<char>, from: usize) -> (numeral: Vec<char>)
    requires
        from <= v.len(),
        all_digits(v@.skip(from as int)),
    ensures
        numeral@ == decimal(number(v@.skip(from as int)) + 1),
{
    let len = v.len();
    let mut start: usize = from;
    while start < len && v[start] == '0'
        invariant
            from <= start <= len,
            len == v.len(),
            number(v@.skip(from as int)) == number(v@.skip(start as int)),
        decreases len - start,
    {
        proof {
            lemma_leading_zero(v@.skip(start as int));
            assert(v@.skip(start as int).skip(1) =~= v@.skip(start + 1));
        }
        start += 1;
    }
    let ghost digits = v@.skip(start as int);
    assert forall|i: int| 0 <= i < digits.len() implies is_digit(#[trigger] digits[i]) by {
        assert(digits[i] == v@.skip(from as int)[start - from + i]);
    }
    let mut end: usize = len;
    while end > start && v[end - 1] == '9'
        invariant
            start <= end <= len,
            len == v.len(),
            digits == v@.skip(start as int),
            bumped(digits) == bumped(v@.subrange(start as int, end as int)) + zeros(
                (len - end) as nat,
            ),
        decreases end,
    {
        assert(v@.subrange(start as int, end as int).drop_last() =~= v@.subrange(
            start as int,
            end - 1,
        ));
        end -= 1;
    }
    let mut numeral: Vec<char> = Vec::new();
    if end == start {
        numeral.push('1');
    } else {
        let mut i: usize = start;
        while i < end - 1
            invariant
                start <= i <= end - 1,
                end <= len,
                len == v.len(),
                numeral@ == v@.subrange(start as int, i as int),
            decreases end - i,
        {
            numeral.push(v[i]);
            i += 1;
        }
        let last = v[end - 1];
        numeral.push(next_digit(last));
    }
    let ghost head = numeral@;
    let mut k: usize = end;
    while k < len
        invariant
            end <= k <= len,
            numeral@ == head + zeros((k - end) as nat),
        decreases len - k,
    {
        numeral.push('0');
        k += 1;
    }
    proof {
        assert(numeral@ == bumped(digits));
        lemma_bumped(digits);
        lemma_decimal_of_number(numeral@);
    }
    numeral
}

} // verus!
