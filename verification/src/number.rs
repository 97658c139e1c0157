//! Unsigned numbers as text: reading them in a radix and writing them in decimal.

use vstd::prelude::*;

verus! {

/// Why a text is not a number that fits.
#[derive(Clone, Copy, Debug, PartialEq, Eq, Structural)]
pub enum NumberError {
    /// There is nothing to read.
    Empty,
    /// A character is no digit of the radix.
    InvalidDigit,
    /// The number exceeds the greatest that is asked for.
    TooLarge,
}

/// The value of `c` as a digit in `radix`, letters counting from ten on in either case.
pub open spec fn digit_value(c: char, radix: nat) -> Option<nat> {
    let d = if '0' <= c <= '9' {
        (c as int - '0' as int) as nat
    } else if 'a' <= c <= 'z' {
        (c as int - 'a' as int + 10) as nat
    } else if 'A' <= c <= 'Z' {
        (c as int - 'A' as int + 10) as nat
    } else {
        36
    };
    if d < radix {
        Some(d)
    } else {
        None
    }
}

/// The number that the digits `s` stand for, read from the left up to the first failure.
pub open spec fn digits_value(s: Seq<char>, radix: nat, max: nat) -> Result<nat, NumberError>
    decreases s.len(),
{
    if s.len() == 0 {
        Ok(0)
    } else {
        match digits_value(s.drop_last(), radix, max) {
            Err(e) => Err(e),
            Ok(v) => match digit_value(s.last(), radix) {
                None => Err(NumberError::InvalidDigit),
                Some(d) => if v * radix + d <= max {
                    Ok(v * radix + d)
                } else {
                    Err(NumberError::TooLarge)
                },
            },
        }
    }
}

/// The number that `s` stands for: digits, after a plus sign or none.
pub open spec fn number_value(s: Seq<char>, radix: nat, max: nat) -> Result<nat, NumberError> {
    if s.len() == 0 {
        Err(NumberError::Empty)
    } else if s[0] == '+' && s.len() > 1 {
        digits_value(s.skip(1), radix, max)
    } else {
        digits_value(s, radix, max)
    }
}

/// The character of a decimal digit.
pub open spec fn digit_char(d: nat) -> char {
    ('0' as u32 + d) as char
}

/// `n` in decimal, without leading zeros.
pub open spec fn decimal(n: nat) -> Seq<char>
    decreases n,
{
    if n < 10 {
        seq![digit_char(n)]
    } else {
        decimal(n / 10).push(digit_char(n % 10))
    }
}

/// The words for an error of [`parse_number`].
pub open spec fn error_words(e: NumberError) -> Seq<char> {
    match e {
        NumberError::Empty => "cannot parse integer from empty string"@,
        NumberError::InvalidDigit => "invalid digit found in string"@,
        NumberError::TooLarge => "number too large to fit in target type"@,
    }
}

/// The words for an error of [`parse_number`].
pub fn number_error_text(e: NumberError) -> (r: &'static str)
    ensures
        r@ == error_words(e),
{
    match e {
        NumberError::Empty => "cannot parse integer from empty string",
        NumberError::InvalidDigit => "invalid digit found in string",
        NumberError::TooLarge => "number too large to fit in target type",
    }
}

fn digit(c: char, radix: u32) -> (r: Option<u32>)
    ensures
        match r {
            Some(d) => digit_value(c, radix as nat) == Some(d as nat),
            None => digit_value(c, radix as nat) is None,
        },
{
    let n: u32 = c as u32;
    let d: u32 = if '0' <= c && c <= '9' {
        n - 48
    } else if 'a' <= c && c <= 'z' {
        n - 87
    } else if 'A' <= c && c <= 'Z' {
        n - 55
    } else {
        36
    };
    if d < radix {
        Some(d)
    } else {
        None
    }
}

proof fn lemma_digits_fail(s: Seq<char>, i: int, radix: nat, max: nat)
    requires
        0 <= i <= s.len(),
        digits_value(s.take(i), radix, max) is Err,
    ensures
        digits_value(s, radix, max) == digits_value(s.take(i), radix, max),
    decreases s.len(),
{
    if i < s.len() {
        assert(s.drop_last().take(i) =~= s.take(i));
        lemma_digits_fail(s.drop_last(), i, radix, max);
    } else {
        assert(s.take(i) =~= s);
    }
}

fn read_digits(s: &[char], start: usize, radix: u32, max: u64) -> (r: Result<u64, NumberError>)
    requires
        start <= s.len(),
        radix <= 36,
    ensures
        match r {
            Ok(v) => digits_value(s@.skip(start as int), radix as nat, max as nat) == Ok::<
                nat,
                NumberError,
            >(v as nat),
            Err(e) => digits_value(s@.skip(start as int), radix as nat, max as nat) == Err::<
                nat,
                NumberError,
            >(e),
        },
{
    let ghost all = s@.skip(start as int);
    let mut value: u64 = 0;
    let mut i: usize = start;
    while i < s.len()
        invariant
            start <= i <= s.len(),
            radix <= 36,
            value <= max,
            all == s@.skip(start as int),
            digits_value(all.take(i - start), radix as nat, max as nat) == Ok::<nat, NumberError>(
                value as nat,
            ),
        decreases s.len() - i,
    {
        proof {
            assert(all.take(i + 1 - start).drop_last() =~= all.take(i - start));
            assert(all.take(i + 1 - start).last() == s@[i as int]);
        }
        match digit(s[i], radix) {
            None => {
                proof {
                    lemma_digits_fail(all, i + 1 - start, radix as nat, max as nat);
                }
                return Err(NumberError::InvalidDigit);
            },
            Some(d) => {
                proof {
                    assert(value as int * radix as int <= u64::MAX * 36) by (nonlinear_arith)
                        requires
                            0 <= value as int <= u64::MAX,
                            0 <= radix as int <= 36,
                    ;
                }
                let next: u128 = value as u128 * radix as u128 + d as u128;
                if next > max as u128 {
                    proof {
                        lemma_digits_fail(all, i + 1 - start, radix as nat, max as nat);
                    }
                    return Err(NumberError::TooLarge);
                }
                value = next as u64;
            },
        }
        i += 1;
    }
    proof {
        assert(all.take(all.len() as int) =~= all);
    }
    Ok(value)
}

/// Reads a number of at most `max` in `radix`.
pub fn parse_number(s: &[char], radix: u32, max: u64) -> (r: Result<u64, NumberError>)
    requires
        2 <= radix <= 36,
    ensures
        match r {
            Ok(v) => number_value(s@, radix as nat, max as nat) == Ok::<nat, NumberError>(v as nat),
            Err(e) => number_value(s@, radix as nat, max as nat) == Err::<nat, NumberError>(e),
        },
        r matches Ok(v) ==> v <= max,
{
    if s.len() == 0 {
        return Err(NumberError::Empty);
    }
    let start: usize = if s[0] == '+' && s.len() > 1 {
        1
    } else {
        0
    };
    proof {
        assert(s@.skip(0) =~= s@);
        lemma_digits_bound(s@.skip(start as int), radix as nat, max as nat);
    }
    read_digits(s, start, radix, max)
}

proof fn lemma_digits_bound(s: Seq<char>, radix: nat, max: nat)
    ensures
        digits_value(s, radix, max) matches Ok(v) ==> v <= max,
{
}

/// Appends `n` in decimal.
pub fn push_decimal(out: &mut String, n: u64)
    ensures
        final(out)@ == old(out)@ + decimal(n as nat),
    decreases n,
{
    if n >= 10 {
        push_decimal(out, n / 10);
    }
    let d: u8 = (n % 10) as u8;
    let ghost before = out@;
    out.push((48 + d) as char);
    proof {
        assert(out@ =~= before + seq![digit_char((n % 10) as nat)]);
        if n >= 10 {
            assert(old(out)@ + decimal(n as nat / 10) == before);
            assert(out@ =~= old(out)@ + decimal(n as nat / 10).push(digit_char((n % 10) as nat)));
        }
    }
}

/// `n` in decimal notation.
pub fn decimal_text(n: u64) -> (r: String)
    ensures
        r@ == decimal(n as nat),
{
    let mut out: String = String::new();
    push_decimal(&mut out, n);
    proof {
        assert(out@ =~= decimal(n as nat));
    }
    out
}

/// A decimal text is made of decimal digits, at least one.
pub proof fn lemma_decimal_digits(n: nat)
    ensures
        decimal(n).len() > 0,
        forall|k: int| 0 <= k < decimal(n).len() ==> '0' <= #[trigger] decimal(n)[k] <= '9',
    decreases n,
{
    if n >= 10 {
        lemma_decimal_digits(n / 10);
    }
}

/// Reading a number back from its decimal text gives the number, where it fits.
pub proof fn lemma_decimal_reads_back(n: nat, max: nat)
    requires
        n <= max,
    ensures
        digits_value(decimal(n), 10, max) == Ok::<nat, NumberError>(n),
        number_value(decimal(n), 10, max) == Ok::<nat, NumberError>(n),
    decreases n,
{
    lemma_decimal_digits(n);
    let s = decimal(n);
    if n >= 10 {
        lemma_decimal_reads_back(n / 10, max);
        assert(s.drop_last() =~= decimal(n / 10));
    } else {
        assert(s.drop_last() =~= Seq::<char>::empty());
        assert(digits_value(s.drop_last(), 10, max) == Ok::<nat, NumberError>(0));
    }
    assert('0' <= s[0] <= '9');
}

/// The digits are the ten ASCII digits and then the letters, small or capital, as far as the radix
/// goes.
pub proof fn law_digits(c: char, d: nat, radix: nat)
    requires
        2 <= radix <= 36,
    ensures
        digit_value(c, radix) == Some(d) <==> d < radix && (if d < 10 {
            c as int == '0' as int + d
        } else {
            c as int == 'a' as int + d - 10 || c as int == 'A' as int + d - 10
        }),
{
}

/// A number gets longer by a digit: its value is that many times larger and the digit more, unless
/// that is more than the greatest. What was wrong before stays wrong, and what is no digit is no part
/// of a number. A plus sign before the digits makes no difference.
pub proof fn law_number_grows(s: Seq<char>, c: char, radix: nat, max: nat)
    requires
        2 <= radix <= 36,
        s.len() > 0,
        s[0] != '+',
    ensures
        ({
            let longer = number_value(s.push(c), radix, max);
            match number_value(s, radix, max) {
                Ok(v) => match digit_value(c, radix) {
                    Some(d) => if v * radix + d <= max {
                        longer == Ok::<nat, NumberError>(v * radix + d)
                    } else {
                        longer == Err::<nat, NumberError>(NumberError::TooLarge)
                    },
                    None => longer == Err::<nat, NumberError>(NumberError::InvalidDigit),
                },
                Err(e) => longer == Err::<nat, NumberError>(e),
            }
        }),
        number_value(seq!['+'] + s, radix, max) == number_value(s, radix, max),
{
    assert(s.push(c).drop_last() =~= s);
    assert((seq!['+'] + s).skip(1) =~= s);
}

/// One character is a number where it is a digit and not too large; no text, and a lone plus sign,
/// is none.
pub proof fn law_short_numbers(c: char, radix: nat, max: nat)
    requires
        2 <= radix <= 36,
    ensures
        number_value(Seq::empty(), radix, max) == Err::<nat, NumberError>(NumberError::Empty),
        number_value(seq![c], radix, max) == match digit_value(c, radix) {
            Some(d) => if d <= max {
                Ok::<nat, NumberError>(d)
            } else {
                Err(NumberError::TooLarge)
            },
            None => Err(NumberError::InvalidDigit),
        },
{
    let s = seq![c];
    assert(s.drop_last() =~= Seq::<char>::empty());
    assert(digits_value(s.drop_last(), radix, max) == Ok::<nat, NumberError>(0));
    assert(0 * radix == 0) by (nonlinear_arith);
    assert(s.skip(1) =~= Seq::<char>::empty());
}

/// The decimal notation of a number has digits only and no zero in front, and reads back as the
/// number.
pub proof fn law_decimal(n: nat)
    ensures
        decimal(n).len() > 0,
        forall|k: int| 0 <= k < decimal(n).len() ==> '0' <= #[trigger] decimal(n)[k] <= '9',
        decimal(n)[0] == '0' ==> decimal(n).len() == 1,
        number_value(decimal(n), 10, n) == Ok::<nat, NumberError>(n),
    decreases n,
{
    lemma_decimal_digits(n);
    lemma_decimal_reads_back(n, n);
    if n >= 10 {
        law_decimal(n / 10);
        lemma_decimal_not_zero(n / 10);
        assert(decimal(n)[0] == decimal(n / 10)[0]);
    }
}

proof fn lemma_decimal_not_zero(n: nat)
    requires
        n > 0,
    ensures
        decimal(n).len() > 0,
        decimal(n)[0] != '0',
    decreases n,
{
    if n >= 10 {
        lemma_decimal_not_zero(n / 10);
        assert(decimal(n)[0] == decimal(n / 10)[0]);
    }
}

/// Only one plus sign may stand before the digits.
pub proof fn law_one_sign(s: Seq<char>, radix: nat, max: nat)
    requires
        2 <= radix <= 36,
    ensures
        number_value(seq!['+', '+'] + s, radix, max) == Err::<nat, NumberError>(
            NumberError::InvalidDigit,
        ),
{
    let t = (seq!['+', '+'] + s).skip(1);
    let first = t.take(1);
    assert(first.len() == 1 && first.last() == '+');
    assert(first.drop_last() =~= Seq::<char>::empty());
    assert(digits_value(first.drop_last(), radix, max) == Ok::<nat, NumberError>(0));
    lemma_digits_fail(t, 1, radix, max);
}

/// A number that was read is at most the greatest that was allowed.
pub proof fn lemma_number_bound(s: Seq<char>, radix: nat, max: nat)
    ensures
        number_value(s, radix, max) matches Ok(v) ==> v <= max,
{
    lemma_digits_bound(s, radix, max);
    lemma_digits_bound(s.skip(1), radix, max);
}

} // verus!
