use vstd::prelude::*;
use vstd::string::StringExecFns;

verus! {

/// The character for one decimal digit value.
pub open spec fn digit_char(d: nat) -> char {
    if d == 0 {
        '0'
    } else if d == 1 {
        '1'
    } else if d == 2 {
        '2'
    } else if d == 3 {
        '3'
    } else if d == 4 {
        '4'
    } else if d == 5 {
        '5'
    } else if d == 6 {
        '6'
    } else if d == 7 {
        '7'
    } else if d == 8 {
        '8'
    } else {
        '9'
    }
}

/// The decimal text of a natural number, most significant digit first.
pub open spec fn dec_str_nat(n: nat) -> Seq<char>
    decreases n,
{
    if n < 10 {
        seq![digit_char(n)]
    } else {
        dec_str_nat(n / 10).push(digit_char(n % 10))
    }
}

/// The decimal text of a signed value: the magnitude's text, after a
/// minus sign when the value is negative.
pub open spec fn dec_str_int(i: int) -> Seq<char> {
    if i >= 0 {
        dec_str_nat(i as nat)
    } else {
        seq!['-'] + dec_str_nat((-i) as nat)
    }
}

fn digit_str(d: u64) -> (r: &'static str)
    requires
        d < 10,
    ensures
        r@ == seq![digit_char(d as nat)],
{
    match d {
        0 => {
            proof {
                reveal_strlit("0");
                assert("0"@ =~= seq![digit_char(d as nat)]);
            }
            "0"
        },
        1 => {
            proof {
                reveal_strlit("1");
                assert("1"@ =~= seq![digit_char(d as nat)]);
            }
            "1"
        },
        2 => {
            proof {
                reveal_strlit("2");
                assert("2"@ =~= seq![digit_char(d as nat)]);
            }
            "2"
        },
        3 => {
            proof {
                reveal_strlit("3");
                assert("3"@ =~= seq![digit_char(d as nat)]);
            }
            "3"
        },
        4 => {
            proof {
                reveal_strlit("4");
                assert("4"@ =~= seq![digit_char(d as nat)]);
            }
            "4"
        },
        5 => {
            proof {
                reveal_strlit("5");
                assert("5"@ =~= seq![digit_char(d as nat)]);
            }
            "5"
        },
        6 => {
            proof {
                reveal_strlit("6");
                assert("6"@ =~= seq![digit_char(d as nat)]);
            }
            "6"
        },
        7 => {
            proof {
                reveal_strlit("7");
                assert("7"@ =~= seq![digit_char(d as nat)]);
            }
            "7"
        },
        8 => {
            proof {
                reveal_strlit("8");
                assert("8"@ =~= seq![digit_char(d as nat)]);
            }
            "8"
        },
        _ => {
            proof {
                reveal_strlit("9");
                assert("9"@ =~= seq![digit_char(d as nat)]);
            }
            "9"
        },
    }
}

/// Decimal rendering of an unsigned value, proved against `dec_str_nat`.
pub fn u64_to_dec(n: u64) -> (r: String)
    ensures
        r@ == dec_str_nat(n as nat),
    decreases n,
{
    if n < 10 {
        let d = digit_str(n);
        d.to_owned()
    } else {
        let q: u64 = n / 10;
        let rem: u64 = n % 10;
        let mut s = u64_to_dec(q);
        s.append(digit_str(rem));
        proof {
            assert(s@ =~= dec_str_nat(n as nat));
        }
        s
    }
}

/// Decimal rendering of a signed value, proved against `dec_str_int`.
pub fn i64_to_dec(i: i64) -> (r: String)
    ensures
        r@ == dec_str_int(i as int),
{
    if i >= 0 {
        u64_to_dec(i as u64)
    } else {
        let wide: i128 = i as i128;
        let m: u64 = (-wide) as u64;
        proof {
            assert(m as int == -(i as int));
        }
        let mut s = "-".to_owned();
        let mag = u64_to_dec(m);
        s.append(mag.as_str());
        proof {
            reveal_strlit("-");
            assert(s@ =~= dec_str_int(i as int));
        }
        s
    }
}

} // verus!
