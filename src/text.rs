use vstd::prelude::*;

verus! {

/// The character of a decimal digit.
pub open spec fn digit_char(d: nat) -> char {
    if d == 0 { '0' }
    else if d == 1 { '1' }
    else if d == 2 { '2' }
    else if d == 3 { '3' }
    else if d == 4 { '4' }
    else if d == 5 { '5' }
    else if d == 6 { '6' }
    else if d == 7 { '7' }
    else if d == 8 { '8' }
    else { '9' }
}

/// The decimal digits of a natural number, most significant first, no leading zeros.
pub open spec fn digits_of(n: nat) -> Seq<char>
    decreases n,
{
    if n < 10 {
        seq![digit_char(n)]
    } else {
        digits_of(n / 10).push(digit_char(n % 10))
    }
}

/// The textual form of an integer: a minus sign for negatives, then its digits.
pub open spec fn decimal_of(v: int) -> Seq<char> {
    if v < 0 {
        seq!['-'] + digits_of((-v) as nat)
    } else {
        digits_of(v as nat)
    }
}

fn digit_str(d: u64) -> (r: &'static str)
    requires
        d < 10,
    ensures
        r@ == seq![digit_char(d as nat)],
{
    proof {
        reveal_strlit("0");
        reveal_strlit("1");
        reveal_strlit("2");
        reveal_strlit("3");
        reveal_strlit("4");
        reveal_strlit("5");
        reveal_strlit("6");
        reveal_strlit("7");
        reveal_strlit("8");
        reveal_strlit("9");
    }
    match d {
        0 => "0",
        1 => "1",
        2 => "2",
        3 => "3",
        4 => "4",
        5 => "5",
        6 => "6",
        7 => "7",
        8 => "8",
        _ => "9",
    }
}

/// Writes an integer in decimal.
pub fn int_to_decimal(v: i32) -> (r: String)
    ensures
        r@ == decimal_of(v as int),
{
    let magnitude: u64 = if v < 0 { (0i64 - v as i64) as u64 } else { v as u64 };
    let mut n: u64 = magnitude;
    let mut acc = String::new();
    while n >= 10
        invariant
            digits_of(magnitude as nat) == digits_of(n as nat) + acc@,
        decreases n,
    {
        let d = digit_str(n % 10);
        let mut next = String::from_str(d);
        next.append(acc.as_str());
        proof {
            assert(digits_of(n as nat) == digits_of((n / 10) as nat).push(digit_char((n % 10) as nat)));
            assert(digits_of(n as nat) + acc@ =~= digits_of((n / 10) as nat) + next@);
        }
        acc = next;
        n = n / 10;
    }
    let mut digits = String::from_str(digit_str(n));
    digits.append(acc.as_str());
    assert(digits@ =~= digits_of(magnitude as nat));
    if v < 0 {
        let sign = "-";
        proof {
            reveal_strlit("-");
        }
        let mut out = String::from_str(sign);
        out.append(digits.as_str());
        out
    } else {
        digits
    }
}

} // verus!
