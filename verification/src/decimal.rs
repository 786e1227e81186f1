//! Numbers as decimal text.
use vstd::prelude::*;

verus! {

/// The character of one decimal digit.
pub open spec fn digit(d: int) -> char {
    (48 + d) as char
}

/// The decimal digits of `n`, most significant first, without leading zeros.
pub open spec fn decimal(n: nat) -> Seq<char>
    decreases n,
{
    if n < 10 {
        seq![digit(n as int)]
    } else {
        decimal(n / 10).push(digit((n % 10) as int))
    }
}

/// `decimal`, with one leading zero where it has a single digit.
pub open spec fn padded(n: nat) -> Seq<char> {
    if n < 10 {
        seq!['0'] + decimal(n)
    } else {
        decimal(n)
    }
}

/// The text of one digit.
fn digit_text(d: u128) -> (r: &'static str)
    requires
        d < 10,
    ensures
        r@ == seq![digit(d as int)],
{
    proof {
        reveal_strlit("0");
        reveal_strlit("1");
        reveal_strlit("2");
        reveal_strlit("3");
        reveal_strlit("4");
        reveal_strlit("5");
        reveal_strlit("6");
        reveal_strlit("7");
        reveal_strlit("8");
        reveal_strlit("9");
    }
    let r: &'static str = match d {
        0 => "0",
        1 => "1",
        2 => "2",
        3 => "3",
        4 => "4",
        5 => "5",
        6 => "6",
        7 => "7",
        8 => "8",
        _ => "9",
    };
    assert(r@ =~= seq![digit(d as int)]);
    r
}

/// Writes `n` in decimal.
pub fn to_decimal(n: u128) -> (r: String)
    ensures
        r@ == decimal(n as nat),
    decreases n,
{
    if n < 10 {
        digit_text(n).to_owned()
    } else {
        let mut r: String = to_decimal(n / 10);
        r.append(digit_text(n % 10));
        assert(r@ =~= decimal(n as nat));
        r
    }
}

/// Writes `n` in decimal, with at least two digits.
pub fn to_padded(n: u128) -> (r: String)
    ensures
        r@ == padded(n as nat),
{
    if n < 10 {
        proof {
            reveal_strlit("0");
        }
        let mut r: String = "0".to_owned();
        r.append(to_decimal(n).as_str());
        assert(r@ =~= padded(n as nat));
        r
    } else {
        to_decimal(n)
    }
}

/// The number that decimal digits stand for.
pub open spec fn number(digits: Seq<char>) -> int
    decreases digits.len(),
{
    if digits.len() == 0 {
        0
    } else {
        10 * number(digits.drop_last()) + (digits.last() as int - '0' as int)
    }
}

/// Whether all characters are decimal digits.
pub open spec fn all_digits(text: Seq<char>) -> bool {
    forall|i: int| 0 <= i < text.len() ==> '0' as int <= #[trigger] text[i] as int <= '9' as int
}

/// A number in decimal reads back as the number, and has no digit too many.
pub proof fn law_decimal_reads_back(n: nat)
    ensures
        decimal(n).len() > 0,
        all_digits(decimal(n)),
        number(decimal(n)) == n,
        decimal(n).len() > 1 ==> decimal(n)[0] != '0',
    decreases n,
{
    if n < 10 {
        assert(number(decimal(n).drop_last()) == 0);
    } else {
        law_decimal_reads_back(n / 10);
        assert(decimal(n).drop_last() =~= decimal(n / 10));
        assert(decimal(n)[0] == decimal(n / 10)[0]);
        if decimal(n / 10).len() == 1 {
            let first = decimal(n / 10);
            assert(number(first.drop_last()) == 0);
            assert(number(first) == first[0] as int - '0' as int);
        }
    }
}

/// Padding keeps the number, and makes one digit two and no more.
pub proof fn law_padded_reads_back(n: nat)
    ensures
        padded(n).len() >= 2,
        all_digits(padded(n)),
        number(padded(n)) == n,
        padded(n).len() > 2 ==> padded(n)[0] != '0',
{
    law_decimal_reads_back(n);
    if n < 10 {
        let one = seq!['0'];
        assert(padded(n).drop_last() =~= one);
        assert(number(one.drop_last()) == 0);
        assert(number(one) == 0);
        assert(padded(n).len() == 2);
    } else {
        assert(decimal(n / 10).len() > 0) by {
            law_decimal_reads_back(n / 10);
        }
    }
}

/// What is written for a number reads back as the number.
pub proof fn law_written_numbers_read_back(n: u128, text: String, two: String)
    requires
        call_ensures(to_decimal, (n,), text),
        call_ensures(to_padded, (n,), two),
    ensures
        all_digits(text@) && number(text@) == n,
        text@.len() > 1 ==> text@[0] != '0',
        all_digits(two@) && number(two@) == n,
        two@.len() >= 2,
        n >= 10 ==> two@ == text@,
{
    law_decimal_reads_back(n as nat);
    law_padded_reads_back(n as nat);
}

} // verus!
