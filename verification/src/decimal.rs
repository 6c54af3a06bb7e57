use vstd::prelude::*;
use vstd::string::StringExecFns;

verus! {

/// The character of one decimal digit.
pub open spec fn digit(d: nat) -> char {
    if d == 0 {
        '0'
    } else if d == 1 {
        '1'
    } else if d == 2 {
        '2'
    } else if d == 3 {
        '3'
    } else if d == 4 {
        '4'
    } else if d == 5 {
        '5'
    } else if d == 6 {
        '6'
    } else if d == 7 {
        '7'
    } else if d == 8 {
        '8'
    } else {
        '9'
    }
}

/// The decimal numeral of `n`, without leading zeros.
pub open spec fn numeral(n: nat) -> Seq<char>
    decreases n,
{
    if n < 10 {
        seq![digit(n)]
    } else {
        numeral(n / 10).push(digit(n % 10))
    }
}

/// The text of one decimal digit.
fn digit_str(d: u64) -> (text: &'static str)
    requires
        d < 10,
    ensures
        text@ == seq![digit(d as nat)],
{
    proof {
        reveal_strlit("0");
        reveal_strlit("1");
        reveal_strlit("2");
        reveal_strlit("3");
        reveal_strlit("4");
        reveal_strlit("5");
        reveal_strlit("6");
        reveal_strlit("7");
        reveal_strlit("8");
        reveal_strlit("9");
    }
    let text = if d == 0 {
        "0"
    } else if d == 1 {
        "1"
    } else if d == 2 {
        "2"
    } else if d == 3 {
        "3"
    } else if d == 4 {
        "4"
    } else if d == 5 {
        "5"
    } else if d == 6 {
        "6"
    } else if d == 7 {
        "7"
    } else if d == 8 {
        "8"
    } else {
        "9"
    };
    assert(text@ =~= seq![digit(d as nat)]);
    text
}

/// The decimal numeral of `n` as text.
pub fn numeral_text(n: u64) -> (text: String)
    ensures
        text@ == numeral(n as nat),
{
    let mut text = String::from_str(digit_str(n % 10));
    let mut rest: u64 = n / 10;
    while rest > 0
        invariant
            rest > 0 ==> numeral(n as nat) == numeral(rest as nat) + text@,
            rest == 0 ==> numeral(n as nat) == text@,
        decreases rest,
    {
        let ghost before = text@;
        text = String::from_str(digit_str(rest % 10)).concat(text.as_str());
        proof {
            if rest >= 10 {
                assert(numeral(rest as nat) + before =~= numeral((rest / 10) as nat) + text@);
            } else {
                assert(numeral(rest as nat) + before =~= text@);
            }
        }
        rest = rest / 10;
    }
    text
}

/// A decimal number with three fractional digits, held as its count of
/// thousandths.
#[derive(Clone, Copy, Debug, PartialEq, Eq, Structural)]
pub struct Decimal {
    pub thousandths: i64,
}

impl Decimal {
    /// The size of the number without its sign, in thousandths.
    pub open spec fn magnitude(self) -> nat {
        if self.thousandths < 0 {
            (-self.thousandths) as nat
        } else {
            self.thousandths as nat
        }
    }

    /// The number as text: a minus sign where it is below zero, the whole part
    /// without leading zeros, a dot, and three fractional digits.
    pub open spec fn text(self) -> Seq<char> {
        let m = self.magnitude();
        let sign = if self.thousandths < 0 {
            seq!['-']
        } else {
            Seq::<char>::empty()
        };
        sign + numeral(m / 1000) + seq![
            '.',
            digit(m % 1000 / 100),
            digit(m % 100 / 10),
            digit(m % 10),
        ]
    }

    /// The number zero.
    pub fn zero() -> (number: Decimal)
        ensures
            number.thousandths == 0,
    {
        Decimal { thousandths: 0 }
    }

    /// The number as text.
    pub fn to_string(&self) -> (text: String)
        ensures
            text@ == self.text(),
    {
        proof {
            reveal_strlit("-");
            reveal_strlit(".");
            reveal_strlit("");
        }
        let negative = self.thousandths < 0;
        let m: u64 = if negative {
            (-(self.thousandths + 1)) as u64 + 1
        } else {
            self.thousandths as u64
        };
        assert(m == self.magnitude());
        let mut text = String::from_str(
            if negative {
                "-"
            } else {
                ""
            },
        );
        let whole = numeral_text(m / 1000);
        text.append(whole.as_str());
        text.append(".");
        text.append(digit_str(m % 1000 / 100));
        text.append(digit_str(m % 100 / 10));
        text.append(digit_str(m % 10));
        assert(text@ =~= self.text());
        text
    }
}

} // verus!
