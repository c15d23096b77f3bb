//! Numbers and bytes as text.

use std::num::ParseIntError;
use std::str::FromStr;
use vstd::prelude::*;
use vstd::string::StringExecFns;

verus! {

/// The decimal digit `d`.
pub open spec fn digit(d: int) -> char {
    (('0' as int) + d) as char
}

/// The value of a decimal digit.
pub open spec fn digit_value(c: char) -> int {
    (c as int) - ('0' as int)
}

/// `c` is a decimal digit.
pub open spec fn is_digit(c: char) -> bool {
    '0' <= c <= '9'
}

/// `n` in decimal, without leading zeros.
pub open spec fn decimal(n: nat) -> Seq<char>
    decreases n,
{
    if n < 10 {
        seq![digit(n as int)]
    } else {
        decimal(n / 10).push(digit((n % 10) as int))
    }
}

/// The number that a sequence of decimal digits denotes.
pub open spec fn digits_value(s: Seq<char>) -> int
    decreases s.len(),
{
    if s.len() == 0 {
        0
    } else {
        10 * digits_value(s.drop_last()) + digit_value(s.last())
    }
}

/// Every character is a decimal digit.
pub open spec fn all_digits(s: Seq<char>) -> bool {
    forall|i: int| 0 <= i < s.len() ==> is_digit(#[trigger] s[i])
}

/// The number that a text denotes: digits behind an optional plus sign, at most `u64::MAX`.
pub open spec fn parsed_u64(s: Seq<char>) -> Option<u64> {
    let t = if s.len() > 0 && s[0] == '+' {
        s.skip(1)
    } else {
        s
    };
    if t.len() > 0 && all_digits(t) && digits_value(t) <= u64::MAX {
        Some(digits_value(t) as u64)
    } else {
        None
    }
}

/// The lower-case hexadecimal digit `d`.
pub open spec fn hex_digit(d: int) -> char {
    if d < 10 {
        digit(d)
    } else {
        (('a' as int) + d - 10) as char
    }
}

/// The bytes in lower-case hexadecimal, two digits each.
pub open spec fn hex(bytes: Seq<u8>) -> Seq<char>
    decreases bytes.len(),
{
    if bytes.len() == 0 {
        seq![]
    } else {
        hex(bytes.drop_last()).push(hex_digit(bytes.last() as int / 16)).push(
            hex_digit(bytes.last() as int % 16),
        )
    }
}

/// What is written in decimal reads back as the same number.
pub proof fn lemma_decimal_parses(n: u64)
    ensures
        parsed_u64(decimal(n as nat)) == Some(n),
{
    lemma_decimal_value(n as nat);
    assert(decimal(n as nat)[0] != '+') by {
        assert(is_digit(decimal(n as nat)[0]));
    }
}

/// The decimal form of `n` consists of digits and denotes `n`.
pub proof fn lemma_decimal_value(n: nat)
    ensures
        decimal(n).len() > 0,
        all_digits(decimal(n)),
        digits_value(decimal(n)) == n,
    decreases n,
{
    if n < 10 {
        assert(decimal(n).drop_last() =~= seq![]);
        assert(digits_value(decimal(n)) == 10 * digits_value(seq![]) + digit_value(decimal(n).last()));
    } else {
        lemma_decimal_value(n / 10);
        assert(decimal(n).drop_last() =~= decimal(n / 10));
    }
}

/// Returns the text of one hexadecimal digit.
pub(crate) fn hex_digit_str(d: u8) -> (r: &'static str)
    requires
        d < 16,
    ensures
        r@ == seq![hex_digit(d as int)],
{
    proof {
        reveal_strlit("0");
        reveal_strlit("1");
        reveal_strlit("2");
        reveal_strlit("3");
        reveal_strlit("4");
        reveal_strlit("5");
        reveal_strlit("6");
        reveal_strlit("7");
        reveal_strlit("8");
        reveal_strlit("9");
        reveal_strlit("a");
        reveal_strlit("b");
        reveal_strlit("c");
        reveal_strlit("d");
        reveal_strlit("e");
        reveal_strlit("f");
    }
    let r = match d {
        0 => "0",
        1 => "1",
        2 => "2",
        3 => "3",
        4 => "4",
        5 => "5",
        6 => "6",
        7 => "7",
        8 => "8",
        9 => "9",
        10 => "a",
        11 => "b",
        12 => "c",
        13 => "d",
        14 => "e",
        _ => "f",
    };
    assert(r@ =~= seq![hex_digit(d as int)]);
    r
}

/// Appends `n` in decimal to `text`.
pub fn append_decimal(text: &mut String, n: u64)
    ensures
        final(text)@ == old(text)@ + decimal(n as nat),
    decreases n,
{
    let ghost before = text@;
    if n >= 10 {
        append_decimal(text, n / 10);
        text.append(hex_digit_str((n % 10) as u8));
        assert(text@ =~= before + decimal(n as nat));
    } else {
        text.append(hex_digit_str(n as u8));
        assert(text@ =~= before + decimal(n as nat));
    }
}

/// Returns `n` in decimal.
pub fn decimal_string(n: u64) -> (r: String)
    ensures
        r@ == decimal(n as nat),
{
    let mut text = String::new();
    append_decimal(&mut text, n);
    assert(text@ =~= decimal(n as nat));
    text
}

/// Appends the bytes in lower-case hexadecimal to `text`.
pub fn append_hex(text: &mut String, bytes: &[u8])
    ensures
        final(text)@ == old(text)@ + hex(bytes@),
{
    let ghost before = text@;
    let mut i: usize = 0;
    assert(text@ =~= before + hex(bytes@.take(0)));
    while i < bytes.len()
        invariant
            i <= bytes@.len(),
            text@ == before + hex(bytes@.take(i as int)),
        decreases bytes@.len() - i,
    {
        let b = bytes[i];
        text.append(hex_digit_str(b / 16));
        text.append(hex_digit_str(b % 16));
        proof {
            let next = bytes@.take(i + 1);
            assert(next.drop_last() =~= bytes@.take(i as int));
            assert(next.last() == b);
            assert(text@ =~= before + hex(next));
        }
        i += 1;
    }
    assert(bytes@.take(bytes@.len() as int) =~= bytes@);
}

/// Declares the error of the standard library's integer parser.
#[verifier::external_type_specification]
#[verifier::external_body]
pub struct ExParseIntError(ParseIntError);

/// Calls `<u64 as FromStr>::from_str`, which accepts decimal digits behind an optional plus sign
/// as long as the number fits, and nothing else.
#[verifier::external_body]
pub(crate) fn parse_u64(s: &str) -> (r: Result<u64, ParseIntError>)
    ensures
        match r {
            Ok(n) => parsed_u64(s@) == Some(n),
            Err(_) => parsed_u64(s@) is None,
        },
{
    u64::from_str(s)
}

/// Each digit of a number in decimal is the one at its place, counted from the end, and the first is no
/// zero unless it is the only one.
pub proof fn law_decimal_digits(n: nat, i: nat)
    requires
        i < decimal(n).len(),
    ensures
        ({
            let d = n as int / vstd::arithmetic::power::pow(10, i) % 10;
            0 <= d < 10 && decimal(n)[decimal(n).len() - 1 - i] as int == '0' as int + d
        }),
        n >= 10 ==> decimal(n)[0] != '0',
        n < 10 ==> decimal(n).len() == 1,
    decreases n,
{
    vstd::arithmetic::power::lemma_pow_positive(10, i);
    let all = decimal(n);
    let p = vstd::arithmetic::power::pow(10, i);
    if n >= 10 {
        let front = decimal(n / 10);
        lemma_decimal_value(n / 10);
        assert(all == front.push(digit((n % 10) as int)));
        if n / 10 >= 10 {
            law_decimal_digits(n / 10, 0);
        } else {
            assert(front == seq![digit((n / 10) as int)]);
        }
        assert(all[0] == front[0]);
        if i > 0 {
            let q = vstd::arithmetic::power::pow(10, (i - 1) as nat);
            law_decimal_digits(n / 10, (i - 1) as nat);
            vstd::arithmetic::power::lemma_pow_positive(10, (i - 1) as nat);
            vstd::arithmetic::power::lemma_pow_adds(10, 1, (i - 1) as nat);
            vstd::arithmetic::power::lemma_pow1(10);
            vstd::arithmetic::div_mod::lemma_div_denominator(n as int, 10, q);
            assert(p == 10 * q);
            assert(n as int / p == (n / 10) as int / q);
            assert(all[all.len() - 1 - i] == front[front.len() - 1 - (i - 1)]);
        } else {
            vstd::arithmetic::power::lemma_pow0(10);
            assert(n as int / p == n as int) by (nonlinear_arith)
                requires
                    p == 1,
            ;
            assert(all[all.len() - 1] == digit((n % 10) as int));
        }
    } else {
        vstd::arithmetic::power::lemma_pow0(10);
        assert(all == seq![digit(n as int)]);
        assert(i == 0);
        assert(n as int / p == n as int) by (nonlinear_arith)
            requires
                p == 1,
        ;
    }
}

/// Each byte in hexadecimal is two digits, the higher one first.
pub proof fn law_hex_digits(bytes: Seq<u8>, i: int)
    requires
        0 <= i < bytes.len(),
    ensures
        hex(bytes).len() == 2 * bytes.len(),
        ({
            let high = bytes[i] as int / 16;
            let low = bytes[i] as int % 16;
            &&& high < 10 ==> hex(bytes)[2 * i] as int == '0' as int + high
            &&& high >= 10 ==> hex(bytes)[2 * i] as int == 'a' as int + (high - 10)
            &&& low < 10 ==> hex(bytes)[2 * i + 1] as int == '0' as int + low
            &&& low >= 10 ==> hex(bytes)[2 * i + 1] as int == 'a' as int + (low - 10)
        }),
    decreases bytes.len(),
{
    let front = bytes.drop_last();
    let last = bytes.len() - 1;
    if front.len() > 0 {
        law_hex_digits(
            front,
            if i < last {
                i
            } else {
                0
            },
        );
        if i < last {
            assert(front[i] == bytes[i]);
        }
    } else {
        assert(hex(front) =~= Seq::<char>::empty());
    }
}

} // verus!
