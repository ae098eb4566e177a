//! Numbers as decimal text.
use vstd::prelude::*;
use vstd::string::*;

verus! {

/// The character for a digit.
pub open spec fn digit(d: int) -> char {
    ('0' as int + d) as char
}

/// A number in decimal notation, without leading zeros.
pub open spec fn decimal(n: nat) -> Seq<char>
    decreases n,
{
    if n < 10 {
        seq![digit(n as int)]
    } else {
        decimal(n / 10).push(digit((n % 10) as int))
    }
}

/// A number in decimal notation, with leading zeros up to `width` characters.
pub open spec fn zero_padded(n: nat, width: nat) -> Seq<char> {
    if decimal(n).len() < width {
        Seq::new((width - decimal(n).len()) as nat, |i: int| '0') + decimal(n)
    } else {
        decimal(n)
    }
}

/// Whether every character is a decimal digit.
pub open spec fn all_digits(text: Seq<char>) -> bool {
    forall|i: int| 0 <= i < text.len() ==> '0' <= #[trigger] text[i] <= '9'
}

/// A number is written with digits only, and with one at least.
proof fn lemma_decimal_digits(n: nat)
    ensures
        all_digits(decimal(n)),
        decimal(n).len() >= 1,
    decreases n,
{
    if n >= 10 {
        lemma_decimal_digits(n / 10);
    }
}

/// A number below ten to the power `k` has at most `k` digits.
proof fn lemma_decimal_length(n: nat, k: nat)
    requires
        k >= 1,
        n < vstd::arithmetic::power::pow(10, k),
    ensures
        decimal(n).len() <= k,
    decreases k,
{
    reveal_with_fuel(vstd::arithmetic::power::pow, 2);
    if n >= 10 {
        lemma_decimal_length(n / 10, (k - 1) as nat);
    }
}

/// A number with leading zeros has at least `width` digits, and no more where `width` digits
/// suffice for it.
pub proof fn lemma_zero_padded(n: nat, width: nat)
    requires
        width >= 1,
    ensures
        all_digits(zero_padded(n, width)),
        zero_padded(n, width).len() >= width,
        n < vstd::arithmetic::power::pow(10, width) ==> zero_padded(n, width).len() == width,
{
    lemma_decimal_digits(n);
    if n < vstd::arithmetic::power::pow(10, width) {
        lemma_decimal_length(n, width);
    }
}

/// The number that decimal digits stand for.
pub open spec fn digits_value(text: Seq<char>) -> int
    decreases text.len(),
{
    if text.len() == 0 {
        0
    } else {
        digits_value(text.drop_last()) * 10 + (text.last() as int - '0' as int)
    }
}

/// A digit behind digits makes their number ten times as much, and the digit more.
pub proof fn law_digits_value_grows(text: Seq<char>, c: char)
    ensures
        digits_value(Seq::empty()) == 0,
        digits_value(text.push(c)) == 10 * digits_value(text) + (c as int - 48),
{
    assert(text.push(c).drop_last() == text);
}

/// A number in decimal notation reads back, and it has no zero in front but for 0 itself.
pub proof fn law_decimal_reads_back(n: nat)
    ensures
        digits_value(decimal(n)) == n,
        decimal(n).len() >= 1,
        decimal(n).len() > 1 ==> decimal(n)[0] != '0',
        forall|i: int| 0 <= i < decimal(n).len() ==> '0' <= #[trigger] decimal(n)[i] <= '9',
    decreases n,
{
    lemma_decimal_digits(n);
    if n >= 10 {
        law_decimal_reads_back(n / 10);
        assert(decimal(n).drop_last() == decimal(n / 10));
        assert(decimal(n)[0] == decimal(n / 10)[0]);
        assert(decimal(n).last() as int == '0' as int + n % 10);
        if n / 10 < 10 {
            assert(decimal(n / 10)[0] == digit((n / 10) as int));
        } else {
            lemma_decimal_digits(n / 10 / 10);
        }
    } else {
        reveal_with_fuel(digits_value, 2);
    }
}

/// A digit behind a number makes it ten times as much, and the digit more.
pub proof fn law_decimal_grows(n: nat, d: nat)
    requires
        d < 10,
    ensures
        decimal(d) == seq![('0' as int + d) as char],
        n >= 1 ==> decimal(n * 10 + d) == decimal(n).push(('0' as int + d) as char),
{
}

/// A number with leading zeros reads back. The zeros are no more than `width` asks for.
pub proof fn law_zero_padded_reads_back(n: nat, width: nat)
    ensures
        digits_value(zero_padded(n, width)) == n,
        zero_padded(n, width).len() >= width,
        zero_padded(n, width).len() >= 1,
        zero_padded(n, width).len() > width && zero_padded(n, width).len() > 1 ==> zero_padded(
            n,
            width,
        )[0] != '0',
        forall|i: int|
            0 <= i < zero_padded(n, width).len() ==> '0' <= #[trigger] zero_padded(n, width)[i]
                <= '9',
{
    law_decimal_reads_back(n);
    if decimal(n).len() < width {
        lemma_zeros_in_front((width - decimal(n).len()) as nat, decimal(n));
    }
}

/// Zeros in front do not change a number.
proof fn lemma_zeros_in_front(zeros: nat, text: Seq<char>)
    ensures
        digits_value(Seq::new(zeros, |i: int| '0') + text) == digits_value(text),
    decreases zeros + text.len(),
{
    let padded = Seq::new(zeros, |i: int| '0') + text;
    if text.len() > 0 {
        lemma_zeros_in_front(zeros, text.drop_last());
        assert(padded.drop_last() == Seq::new(zeros, |i: int| '0') + text.drop_last());
    } else if zeros > 0 {
        lemma_zeros_in_front((zeros - 1) as nat, text);
        assert(padded.drop_last() == Seq::new((zeros - 1) as nat, |i: int| '0') + text);
    }
}

/// Writes a number in decimal notation.
pub fn decimal_text(n: u128) -> (text: String)
    ensures
        text@ == decimal(n as nat),
        digits_value(text@) == n,
        text@.len() >= 1,
        text@.len() > 1 ==> text@[0] != '0',
        forall|i: int| 0 <= i < text@.len() ==> '0' <= #[trigger] text@[i] <= '9',
    decreases n,
{
    proof {
        law_decimal_reads_back(n as nat);
    }
    if n < 10 {
        let mut text = String::new();
        text.push((n as u8 + 48) as char);
        text
    } else {
        let mut text = decimal_text(n / 10);
        text.push(((n % 10) as u8 + 48) as char);
        text
    }
}

/// Writes a number in decimal notation, with leading zeros up to `width` characters.
pub fn zero_padded_text(n: u64, width: usize) -> (text: String)
    ensures
        text@ == zero_padded(n as nat, width as nat),
        digits_value(text@) == n,
        text@.len() >= width,
        text@.len() > width && text@.len() > 1 ==> text@[0] != '0',
        forall|i: int| 0 <= i < text@.len() ==> '0' <= #[trigger] text@[i] <= '9',
{
    proof {
        law_zero_padded_reads_back(n as nat, width as nat);
    }
    let digits = decimal_text(n as u128);
    let len: usize = digits.as_str().unicode_len();
    let mut text = String::new();
    let mut zeros: usize = 0;
    while len < width && zeros < width - len
        invariant
            text@ == Seq::new(zeros as nat, |i: int| '0'),
            len < width ==> zeros <= width - len,
            len >= width ==> zeros == 0,
        decreases width - len - zeros,
    {
        text.push('0');
        zeros = zeros + 1;
    }
    text.append(digits.as_str());
    text
}

}
