use vstd::prelude::*;

verus! {

/// The decimal digit character for a value below ten.
pub open spec fn digit_char(d: int) -> char {
    if d == 0 {
        '0'
    } else if d == 1 {
        '1'
    } else if d == 2 {
        '2'
    } else if d == 3 {
        '3'
    } else if d == 4 {
        '4'
    } else if d == 5 {
        '5'
    } else if d == 6 {
        '6'
    } else if d == 7 {
        '7'
    } else if d == 8 {
        '8'
    } else {
        '9'
    }
}

/// The decimal digits of `n`, most significant first.
pub open spec fn spec_decimal(n: nat) -> Seq<char>
    decreases n,
{
    if n < 10 {
        seq![digit_char(n as int)]
    } else {
        spec_decimal(n / 10) + seq![digit_char((n % 10) as int)]
    }
}

/// `n` scaled by `div` to a whole part and two rounded decimals, the
/// rounding carried into the whole part when it reaches one.
pub open spec fn spec_scaled(n: nat, div: nat) -> (nat, nat) {
    let whole = n / div;
    let frac = ((n % div) * 100 + div / 2) / div;
    if frac == 100 {
        ((whole + 1) as nat, 0nat)
    } else {
        (whole, frac)
    }
}

/// The whole part, a point, and exactly two decimals.
pub open spec fn spec_two_decimals(n: nat, div: nat) -> Seq<char> {
    let s = spec_scaled(n, div);
    spec_decimal(s.0) + seq!['.'] + seq![digit_char(s.1 as int / 10), digit_char(s.1 as int % 10)]
}

/// A byte count rendered for the detail column: plain bytes below one
/// kibibyte, then two-decimal multiples of the next unit up to
/// tebibytes, and a refusal beyond.
pub open spec fn spec_format_size(n: nat) -> Seq<char> {
    if n < 1024 {
        spec_decimal(n) + seq!['B']
    } else if n < 1024 * 1024 {
        spec_two_decimals(n, 1024) + seq!['K', 'B']
    } else if n < 1024 * 1024 * 1024 {
        spec_two_decimals(n, 1024 * 1024) + seq!['M', 'B']
    } else if n < 1024 * 1024 * 1024 * 1024 {
        spec_two_decimals(n, 1024 * 1024 * 1024) + seq!['G', 'B']
    } else if n < 1024 * 1024 * 1024 * 1024 * 1024 {
        spec_two_decimals(n, 1024 * 1024 * 1024 * 1024) + seq!['T', 'B']
    } else {
        seq!['T', 'o', 'o', ' ', 'b', 'i', 'g', '!']
    }
}

/// One decimal digit as text.
fn digit_str(d: u64) -> (s: &'static str)
    requires
        d < 10,
    ensures
        s@ == seq![digit_char(d as int)],
{
    proof {
        reveal_strlit("0");
        reveal_strlit("1");
        reveal_strlit("2");
        reveal_strlit("3");
        reveal_strlit("4");
        reveal_strlit("5");
        reveal_strlit("6");
        reveal_strlit("7");
        reveal_strlit("8");
        reveal_strlit("9");
    }
    let s = match d {
        0 => "0",
        1 => "1",
        2 => "2",
        3 => "3",
        4 => "4",
        5 => "5",
        6 => "6",
        7 => "7",
        8 => "8",
        _ => "9",
    };
    proof {
        assert(s@ =~= seq![digit_char(d as int)]);
    }
    s
}

/// Renders `n` in decimal.
fn decimal_string(n: u64) -> (s: String)
    ensures
        s@ == spec_decimal(n as nat),
    decreases n,
{
    if n < 10 {
        let s = String::from_str(digit_str(n));
        proof {
            assert(s@ =~= spec_decimal(n as nat));
        }
        s
    } else {
        let mut s = decimal_string(n / 10);
        s.append(digit_str(n % 10));
        proof {
            assert(s@ =~= spec_decimal(n as nat));
        }
        s
    }
}

/// Renders the whole part, a point, and two rounded decimals of
/// `n / div`.
fn two_decimals(n: u64, div: u64) -> (s: String)
    requires
        div >= 2,
        div <= 1099511627776,
    ensures
        s@ == spec_two_decimals(n as nat, div as nat),
{
    let whole = n / div;
    let rem = n % div;
    let frac = (rem * 100 + div / 2) / div;
    proof {
        assert(n as int / div as int <= n as int / 2) by (nonlinear_arith)
            requires
                div >= 2,
                n >= 0,
        ;
    }
    let (w, f) = if frac == 100 {
        (whole + 1, 0u64)
    } else {
        (whole, frac)
    };
    proof {
        assert((w as nat, f as nat) == spec_scaled(n as nat, div as nat));
        assert(f < 100) by {
            assert(rem < div);
            assert((rem as int * 100 + div as int / 2) / div as int <= 100) by (nonlinear_arith)
                requires
                    rem < div,
                    div >= 2,
            ;
        }
    }
    let mut s = decimal_string(w);
    proof {
        reveal_strlit(".");
    }
    s.append(".");
    s.append(digit_str(f / 10));
    s.append(digit_str(f % 10));
    proof {
        assert(s@ =~= spec_two_decimals(n as nat, div as nat));
    }
    s
}

/// Renders a byte count for the detail column, as `spec_format_size`
/// states it.
pub fn format_size(len: u64) -> (s: String)
    ensures
        s@ == spec_format_size(len as nat),
{
    proof {
        reveal_strlit("B");
        reveal_strlit("KB");
        reveal_strlit("MB");
        reveal_strlit("GB");
        reveal_strlit("TB");
        reveal_strlit("Too big!");
    }
    if len < 1024 {
        let mut s = decimal_string(len);
        s.append("B");
        proof {
            assert(s@ =~= spec_format_size(len as nat));
        }
        s
    } else if len < 1024 * 1024 {
        let mut s = two_decimals(len, 1024);
        s.append("KB");
        proof {
            assert(s@ =~= spec_format_size(len as nat));
        }
        s
    } else if len < 1024 * 1024 * 1024 {
        let mut s = two_decimals(len, 1024 * 1024);
        s.append("MB");
        proof {
            assert(s@ =~= spec_format_size(len as nat));
        }
        s
    } else if len < 1024 * 1024 * 1024 * 1024 {
        let mut s = two_decimals(len, 1024 * 1024 * 1024);
        s.append("GB");
        proof {
            assert(s@ =~= spec_format_size(len as nat));
        }
        s
    } else if len < 1024 * 1024 * 1024 * 1024 * 1024 {
        let mut s = two_decimals(len, 1024 * 1024 * 1024 * 1024);
        s.append("TB");
        proof {
            assert(s@ =~= spec_format_size(len as nat));
        }
        s
    } else {
        let s = String::from_str("Too big!");
        proof {
            assert(s@ =~= spec_format_size(len as nat));
        }
        s
    }
}

} // verus!
