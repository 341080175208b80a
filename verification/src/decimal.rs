//! Decimal text of small numbers, as used in the names of bank files.

use vstd::prelude::*;
use vstd::string::StringExecFns;

verus! {

/// The character that stands for the decimal digit `digit`.
pub open spec fn digit_char(digit: nat) -> char {
    if digit == 0 {
        '0'
    } else if digit == 1 {
        '1'
    } else if digit == 2 {
        '2'
    } else if digit == 3 {
        '3'
    } else if digit == 4 {
        '4'
    } else if digit == 5 {
        '5'
    } else if digit == 6 {
        '6'
    } else if digit == 7 {
        '7'
    } else if digit == 8 {
        '8'
    } else {
        '9'
    }
}

/// The decimal text of `n`, without sign, padding or leading zeros.
pub open spec fn decimal(n: nat) -> Seq<char>
    decreases n,
{
    if n < 10 {
        seq![digit_char(n)]
    } else {
        decimal(n / 10).push(digit_char(n % 10))
    }
}

/// The one-character text of a decimal digit.
fn digit_text(digit: u8) -> (text: &'static str)
    requires
        digit < 10,
    ensures
        text@ == seq![digit_char(digit as nat)],
{
    proof {
        reveal_strlit("0");
        reveal_strlit("1");
        reveal_strlit("2");
        reveal_strlit("3");
        reveal_strlit("4");
        reveal_strlit("5");
        reveal_strlit("6");
        reveal_strlit("7");
        reveal_strlit("8");
        reveal_strlit("9");
    }
    let text = match digit {
        0 => "0",
        1 => "1",
        2 => "2",
        3 => "3",
        4 => "4",
        5 => "5",
        6 => "6",
        7 => "7",
        8 => "8",
        _ => "9",
    };
    assert(text@ =~= seq![digit_char(digit as nat)]);
    text
}

/// Appends the decimal text of `n` to `text`.
pub fn push_decimal(text: &mut String, n: u8)
    ensures
        final(text)@ == old(text)@ + decimal(n as nat),
{
    let hundreds: u8 = n / 100;
    let tens: u8 = (n / 10) % 10;
    let ones: u8 = n % 10;
    proof {
        reveal_with_fuel(decimal, 3);
    }
    if hundreds > 0 {
        text.append(digit_text(hundreds));
    }
    if hundreds > 0 || tens > 0 {
        text.append(digit_text(tens));
    }
    text.append(digit_text(ones));
    proof {
        let shown = decimal(n as nat);
        if n < 10 {
            assert(shown =~= seq![digit_char(ones as nat)]);
        } else if n < 100 {
            assert(shown =~= seq![digit_char(tens as nat), digit_char(ones as nat)]);
        } else {
            assert(shown =~= seq![
                digit_char(hundreds as nat),
                digit_char(tens as nat),
                digit_char(ones as nat),
            ]);
        }
        assert(text@ =~= old(text)@ + shown);
    }
}

} // verus!
