//! Numbers written in decimal digits.

use vstd::prelude::*;
use vstd::string::*;

verus! {

/// The character of one decimal digit.
pub open spec fn digit_char(digit: nat) -> char {
    if digit == 0 {
        '0'
    } else if digit == 1 {
        '1'
    } else if digit == 2 {
        '2'
    } else if digit == 3 {
        '3'
    } else if digit == 4 {
        '4'
    } else if digit == 5 {
        '5'
    } else if digit == 6 {
        '6'
    } else if digit == 7 {
        '7'
    } else if digit == 8 {
        '8'
    } else {
        '9'
    }
}

/// Whether the character is one of the ten digits.
pub open spec fn is_digit(c: char) -> bool {
    0x30 <= c as u32 <= 0x39
}

/// The number that a digit stands for.
pub open spec fn digit_value(c: char) -> nat {
    (c as u32 - 0x30) as nat
}

/// A digit is the character of the number it stands for.
pub proof fn lemma_digit_char(c: char)
    requires
        is_digit(c),
    ensures
        digit_value(c) <= 9,
        digit_char(digit_value(c)) == c,
{
    let code = c as u32;
    vstd::utf8::char_u32_cast(c, code);
    vstd::utf8::char_u32_cast(digit_char(digit_value(c)), code);
}

/// The character of a digit is a digit, and stands for it.
pub proof fn lemma_digit_char_is_digit(digit: nat)
    requires
        digit <= 9,
    ensures
        is_digit(digit_char(digit)),
        digit_value(digit_char(digit)) == digit,
{
}

/// The digits of a text, in their order, without what stands between them.
pub open spec fn digits_of(text: Seq<char>) -> Seq<char> {
    text.filter(|c: char| is_digit(c))
}

/// A number in decimal digits, without grouping or leading zeros.
pub open spec fn decimal_text(n: nat) -> Seq<char>
    decreases n,
{
    if n < 10 {
        seq![digit_char(n)]
    } else {
        decimal_text(n / 10).push(digit_char(n % 10))
    }
}

pub(crate) fn digit_text(digit: u64) -> (text: &'static str)
    requires
        digit < 10,
    ensures
        text@ == seq![digit_char(digit as nat)],
{
    proof {
        reveal_strlit("0");
        reveal_strlit("1");
        reveal_strlit("2");
        reveal_strlit("3");
        reveal_strlit("4");
        reveal_strlit("5");
        reveal_strlit("6");
        reveal_strlit("7");
        reveal_strlit("8");
        reveal_strlit("9");
    }
    let text = if digit == 0 {
        "0"
    } else if digit == 1 {
        "1"
    } else if digit == 2 {
        "2"
    } else if digit == 3 {
        "3"
    } else if digit == 4 {
        "4"
    } else if digit == 5 {
        "5"
    } else if digit == 6 {
        "6"
    } else if digit == 7 {
        "7"
    } else if digit == 8 {
        "8"
    } else {
        "9"
    };
    assert(text@ =~= seq![digit_char(digit as nat)]);
    text
}

fn push_decimal(text: &mut String, n: u64)
    ensures
        final(text)@ == old(text)@ + decimal_text(n as nat),
    decreases n,
{
    if n >= 10 {
        push_decimal(text, n / 10);
    }
    text.append(digit_text(n % 10));
    assert(text@ =~= old(text)@ + decimal_text(n as nat));
}

/// Writes a number in decimal digits.
pub fn decimal(n: u64) -> (text: String)
    ensures
        text@ == decimal_text(n as nat),
{
    let mut text = String::new();
    push_decimal(&mut text, n);
    assert(text@ =~= decimal_text(n as nat));
    text
}

/// A number written in plain digits holds nothing but its digits.
pub proof fn lemma_decimal_is_digits(n: nat)
    ensures
        digits_of(decimal_text(n)) == decimal_text(n),
    decreases n,
{
    reveal(Seq::filter);
    let last = digit_char(n % 10);
    lemma_digit_char_is_digit(n % 10);
    if n < 10 {
        let empty = Seq::<char>::empty();
        assert(decimal_text(n) =~= empty.push(last));
        assert(decimal_text(n).drop_last() =~= empty);
        assert(digits_of(empty) =~= empty);
        assert(digits_of(decimal_text(n)) =~= decimal_text(n));
    } else {
        lemma_decimal_is_digits(n / 10);
        assert(decimal_text(n).drop_last() =~= decimal_text(n / 10));
        assert(digits_of(decimal_text(n)) =~= decimal_text(n));
    }
}

/// Takes the digits out of a text.
pub fn digits_in(text: &str) -> (digits: String)
    ensures
        digits@ == digits_of(text@),
{
    let count = text.unicode_len();
    let mut digits = String::new();
    let mut i: usize = 0;
    proof {
        reveal(Seq::filter);
        assert(digits@ =~= digits_of(text@.take(0)));
    }
    while i < count
        invariant
            i <= count,
            count == text@.len(),
            digits@ == digits_of(text@.take(i as int)),
        decreases count - i,
    {
        let c = text.get_char(i);
        let code = c as u32;
        proof {
            reveal(Seq::filter);
            assert(text@.take(i as int + 1).drop_last() =~= text@.take(i as int));
        }
        if 0x30 <= code && code <= 0x39 {
            proof {
                lemma_digit_char(c);
            }
            let ghost before = digits@;
            digits.append(digit_text((code - 0x30) as u64));
            assert(digits@ =~= before.push(c));
        }
        i += 1;
    }
    assert(text@.take(i as int) =~= text@);
    digits
}

/// The last `width` digits of a number, with zeros in front where it has
/// fewer.
pub open spec fn padded_text(n: nat, width: nat) -> Seq<char>
    decreases width,
{
    if width == 0 {
        seq![]
    } else {
        padded_text(n / 10, (width - 1) as nat).push(digit_char(n % 10))
    }
}

} // verus!
