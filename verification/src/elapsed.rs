//! Rendering of an elapsed-seconds counter as `MM:SS`, or `HH:MM:SS` once
//! a full hour has passed, with minutes and seconds always two digits and
//! the leading field zero-padded to at least two.

use vstd::prelude::*;
use vstd::string::StringExecFns;

verus! {

/// The decimal digit character for `d`.
pub open spec fn spec_digit(d: int) -> char {
    if d == 0 {
        '0'
    } else if d == 1 {
        '1'
    } else if d == 2 {
        '2'
    } else if d == 3 {
        '3'
    } else if d == 4 {
        '4'
    } else if d == 5 {
        '5'
    } else if d == 6 {
        '6'
    } else if d == 7 {
        '7'
    } else if d == 8 {
        '8'
    } else {
        '9'
    }
}

/// The decimal rendering of `n >= 0`, without padding.
pub open spec fn spec_decimal(n: int) -> Seq<char>
    decreases n,
{
    if n < 10 {
        seq![spec_digit(n)]
    } else {
        spec_decimal(n / 10).push(spec_digit(n % 10))
    }
}

/// The decimal rendering of `n >= 0`, zero-padded to at least two digits.
pub open spec fn spec_padded2(n: int) -> Seq<char> {
    if n < 10 {
        seq!['0'] + spec_decimal(n)
    } else {
        spec_decimal(n)
    }
}

/// What `format_elapsed` renders for `secs` elapsed seconds.
pub open spec fn spec_elapsed(secs: u64) -> Seq<char> {
    let h = secs as int / 3600;
    let m = (secs as int % 3600) / 60;
    let s = secs as int % 60;
    if h > 0 {
        spec_padded2(h) + seq![':'] + spec_padded2(m) + seq![':'] + spec_padded2(s)
    } else {
        spec_padded2(m) + seq![':'] + spec_padded2(s)
    }
}

fn digit_str(d: u64) -> (r: &'static str)
    requires
        d < 10,
    ensures
        r@ == seq![spec_digit(d as int)],
{
    if d == 0 {
        proof {
            reveal_strlit("0");
            assert("0"@ =~= seq![spec_digit(0)]);
        }
        "0"
    } else if d == 1 {
        proof {
            reveal_strlit("1");
            assert("1"@ =~= seq![spec_digit(1)]);
        }
        "1"
    } else if d == 2 {
        proof {
            reveal_strlit("2");
            assert("2"@ =~= seq![spec_digit(2)]);
        }
        "2"
    } else if d == 3 {
        proof {
            reveal_strlit("3");
            assert("3"@ =~= seq![spec_digit(3)]);
        }
        "3"
    } else if d == 4 {
        proof {
            reveal_strlit("4");
            assert("4"@ =~= seq![spec_digit(4)]);
        }
        "4"
    } else if d == 5 {
        proof {
            reveal_strlit("5");
            assert("5"@ =~= seq![spec_digit(5)]);
        }
        "5"
    } else if d == 6 {
        proof {
            reveal_strlit("6");
            assert("6"@ =~= seq![spec_digit(6)]);
        }
        "6"
    } else if d == 7 {
        proof {
            reveal_strlit("7");
            assert("7"@ =~= seq![spec_digit(7)]);
        }
        "7"
    } else if d == 8 {
        proof {
            reveal_strlit("8");
            assert("8"@ =~= seq![spec_digit(8)]);
        }
        "8"
    } else {
        proof {
            reveal_strlit("9");
            assert("9"@ =~= seq![spec_digit(9)]);
        }
        "9"
    }
}

/// The decimal rendering of `n`.
fn decimal(n: u64) -> (r: String)
    ensures
        r@ == spec_decimal(n as int),
    decreases n,
{
    if n < 10 {
        digit_str(n).to_owned()
    } else {
        let s = decimal(n / 10);
        let r = s.concat(digit_str(n % 10));
        proof {
            assert(r@ =~= spec_decimal(n as int));
        }
        r
    }
}

fn padded2(n: u64) -> (r: String)
    ensures
        r@ == spec_padded2(n as int),
{
    if n < 10 {
        let s = "0".to_owned();
        let r = s.concat(digit_str(n));
        proof {
            reveal_strlit("0");
            assert(r@ =~= spec_padded2(n as int));
        }
        r
    } else {
        decimal(n)
    }
}

/// Renders an elapsed-seconds count for display: `MM:SS` under an hour,
/// `HH:MM:SS` from the first full hour on.
pub fn format_elapsed(secs: u64) -> (r: String)
    ensures
        r@ == spec_elapsed(secs),
{
    let h = secs / 3600;
    let m = (secs % 3600) / 60;
    let s = secs % 60;
    if h > 0 {
        let mut out = padded2(h);
        out.append(":");
        out.append(padded2(m).as_str());
        out.append(":");
        out.append(padded2(s).as_str());
        proof {
            reveal_strlit(":");
            assert(out@ =~= spec_elapsed(secs));
        }
        out
    } else {
        let mut out = padded2(m);
        out.append(":");
        out.append(padded2(s).as_str());
        proof {
            reveal_strlit(":");
            assert(out@ =~= spec_elapsed(secs));
        }
        out
    }
}

} // verus!
