//! Text helpers: decimal rendering of small integers and the character
//! views of strings.

use vstd::prelude::*;

verus! {

/// The character views of a sequence of strings.
pub open spec fn string_views(v: Seq<String>) -> Seq<Seq<char>> {
    v.map_values(|s: String| s@)
}

/// The character of a decimal digit.
pub open spec fn digit_char(d: nat) -> char {
    if d == 0 { '0' }
    else if d == 1 { '1' }
    else if d == 2 { '2' }
    else if d == 3 { '3' }
    else if d == 4 { '4' }
    else if d == 5 { '5' }
    else if d == 6 { '6' }
    else if d == 7 { '7' }
    else if d == 8 { '8' }
    else { '9' }
}

/// The decimal representation of `n`, without leading zeros.
pub open spec fn decimal(n: nat) -> Seq<char>
    decreases n,
{
    if n < 10 {
        seq![digit_char(n)]
    } else {
        decimal(n / 10) + seq![digit_char(n % 10)]
    }
}

fn digit_str(d: u8) -> (s: &'static str)
    requires
        d < 10,
    ensures
        s@ == seq![digit_char(d as nat)],
{
    proof {
        reveal_strlit("0");
        reveal_strlit("1");
        reveal_strlit("2");
        reveal_strlit("3");
        reveal_strlit("4");
        reveal_strlit("5");
        reveal_strlit("6");
        reveal_strlit("7");
        reveal_strlit("8");
        reveal_strlit("9");
    }
    match d {
        0 => "0",
        1 => "1",
        2 => "2",
        3 => "3",
        4 => "4",
        5 => "5",
        6 => "6",
        7 => "7",
        8 => "8",
        _ => "9",
    }
}

/// Appends the decimal representation of `n` to `out`.
pub fn push_decimal_u8(out: &mut String, n: u8)
    ensures
        final(out)@ == old(out)@ + decimal(n as nat),
{
    let ghost start = out@;
    if n >= 100 {
        let hundreds = n / 100;
        let tens = (n / 10) % 10;
        let ones = n % 10;
        out.append(digit_str(hundreds));
        out.append(digit_str(tens));
        out.append(digit_str(ones));
        proof {
            let m = n as nat;
            assert(m / 10 / 10 == hundreds as nat);
            assert((m / 10) % 10 == tens as nat);
            assert(m % 10 == ones as nat);
            assert(m / 10 >= 10);
            assert(decimal(m / 10 / 10) == seq![digit_char(hundreds as nat)]);
            assert(decimal(m / 10) == decimal(m / 10 / 10) + seq![digit_char((m / 10) % 10)]);
            assert(decimal(m) == decimal(m / 10) + seq![digit_char(m % 10)]);
            assert(decimal(n as nat) =~= seq![digit_char(hundreds as nat), digit_char(tens as nat), digit_char(ones as nat)]);
            assert(out@ =~= start + decimal(n as nat));
        }
    } else if n >= 10 {
        let tens = n / 10;
        let ones = n % 10;
        out.append(digit_str(tens));
        out.append(digit_str(ones));
        proof {
            let m = n as nat;
            assert(m / 10 == tens as nat);
            assert(m % 10 == ones as nat);
            assert(decimal(m / 10) == seq![digit_char(tens as nat)]);
            assert(decimal(m) == decimal(m / 10) + seq![digit_char(m % 10)]);
            assert(decimal(n as nat) =~= seq![digit_char(tens as nat), digit_char(ones as nat)]);
            assert(out@ =~= start + decimal(n as nat));
        }
    } else {
        out.append(digit_str(n));
    }
}

} // verus!
