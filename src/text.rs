use vstd::prelude::*;
use vstd::string::*;

verus! {

/// The character of a decimal digit.
pub open spec fn digit_char(d: int) -> char {
    ('0' as int + d) as char
}

/// The decimal representation of `n`, without leading zeros.
pub open spec fn decimal_text(n: nat) -> Seq<char>
    decreases n,
{
    if n < 10 {
        seq![digit_char(n as int)]
    } else {
        decimal_text(n / 10).push(digit_char((n % 10) as int))
    }
}

fn digit_str(d: u64) -> (r: &'static str)
    requires
        d < 10,
    ensures
        r@ == seq![digit_char(d as int)],
{
    proof {
        reveal_strlit("0");
        reveal_strlit("1");
        reveal_strlit("2");
        reveal_strlit("3");
        reveal_strlit("4");
        reveal_strlit("5");
        reveal_strlit("6");
        reveal_strlit("7");
        reveal_strlit("8");
        reveal_strlit("9");
    }
    match d {
        0 => "0",
        1 => "1",
        2 => "2",
        3 => "3",
        4 => "4",
        5 => "5",
        6 => "6",
        7 => "7",
        8 => "8",
        _ => "9",
    }
}

/// Writes `n` in decimal.
pub fn decimal(n: u64) -> (r: String)
    ensures
        r@ == decimal_text(n as nat),
    decreases n,
{
    if n < 10 {
        String::from_str(digit_str(n))
    } else {
        let mut s = decimal(n / 10);
        s.append(digit_str(n % 10));
        s
    }
}

/// `m` millionths rounded to the nearest hundredth (halves up), counted in hundredths.
pub open spec fn micro_to_centi(m: u64) -> nat {
    (m / 10000 + if m % 10000 >= 5000 {
        1nat
    } else {
        0nat
    }) as nat
}

/// A quantity given in millionths, written with two decimal places.
pub open spec fn two_places_text(m: u64) -> Seq<char> {
    let c = micro_to_centi(m);
    decimal_text(c / 100) + "."@ + (if c % 100 < 10 {
        "0"@
    } else {
        Seq::empty()
    }) + decimal_text(c % 100)
}

/// Writes a quantity given in millionths with two decimal places, rounding halves up.
pub fn two_places(m: u64) -> (r: String)
    ensures
        r@ == two_places_text(m),
{
    let c: u64 = m / 10000 + if m % 10000 >= 5000 {
        1
    } else {
        0
    };
    let mut s = decimal(c / 100);
    s.append(".");
    if c % 100 < 10 {
        s.append("0");
    }
    let frac = decimal(c % 100);
    s.append(frac.as_str());
    s
}

} // verus!
