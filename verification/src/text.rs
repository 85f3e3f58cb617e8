//! Verified rendering of machine integers as decimal and hexadecimal text,
//! used to phrase the error messages.

use vstd::prelude::*;
use vstd::string::*;

verus! {

/// The character standing for one digit value below sixteen.
pub open spec fn digit_char(d: nat) -> char {
    if d == 0 {
        '0'
    } else if d == 1 {
        '1'
    } else if d == 2 {
        '2'
    } else if d == 3 {
        '3'
    } else if d == 4 {
        '4'
    } else if d == 5 {
        '5'
    } else if d == 6 {
        '6'
    } else if d == 7 {
        '7'
    } else if d == 8 {
        '8'
    } else if d == 9 {
        '9'
    } else if d == 10 {
        'a'
    } else if d == 11 {
        'b'
    } else if d == 12 {
        'c'
    } else if d == 13 {
        'd'
    } else if d == 14 {
        'e'
    } else {
        'f'
    }
}

/// The decimal rendering of `n`, most significant digit first.
pub open spec fn dec_chars(n: nat) -> Seq<char>
    decreases n,
{
    if n < 10 {
        seq![digit_char(n)]
    } else {
        dec_chars(n / 10).push(digit_char(n % 10))
    }
}

/// The hexadecimal rendering of `n`, most significant digit first, lower case,
/// without a radix prefix.
pub open spec fn hex_chars(n: nat) -> Seq<char>
    decreases n,
{
    if n < 16 {
        seq![digit_char(n)]
    } else {
        hex_chars(n / 16).push(digit_char(n % 16))
    }
}

/// The text for one digit value below sixteen.
fn digit_str(d: usize) -> (r: &'static str)
    requires
        d < 16,
    ensures
        r@ == seq![digit_char(d as nat)],
{
    proof {
        reveal_strlit("0");
        reveal_strlit("1");
        reveal_strlit("2");
        reveal_strlit("3");
        reveal_strlit("4");
        reveal_strlit("5");
        reveal_strlit("6");
        reveal_strlit("7");
        reveal_strlit("8");
        reveal_strlit("9");
        reveal_strlit("a");
        reveal_strlit("b");
        reveal_strlit("c");
        reveal_strlit("d");
        reveal_strlit("e");
        reveal_strlit("f");
    }
    let r = if d == 0 {
        "0"
    } else if d == 1 {
        "1"
    } else if d == 2 {
        "2"
    } else if d == 3 {
        "3"
    } else if d == 4 {
        "4"
    } else if d == 5 {
        "5"
    } else if d == 6 {
        "6"
    } else if d == 7 {
        "7"
    } else if d == 8 {
        "8"
    } else if d == 9 {
        "9"
    } else if d == 10 {
        "a"
    } else if d == 11 {
        "b"
    } else if d == 12 {
        "c"
    } else if d == 13 {
        "d"
    } else if d == 14 {
        "e"
    } else {
        "f"
    };
    proof {
        assert(r@ =~= seq![digit_char(d as nat)]);
    }
    r
}

/// Renders `n` in decimal.
pub fn dec_string(n: usize) -> (r: String)
    ensures
        r@ == dec_chars(n as nat),
    decreases n,
{
    let q = n / 10;
    let d = n % 10;
    if q == 0 {
        let r = digit_str(d).to_owned();
        proof {
            assert(r@ =~= dec_chars(n as nat));
        }
        r
    } else {
        let s = dec_string(q);
        let r = s.concat(digit_str(d));
        proof {
            assert(r@ =~= dec_chars(n as nat));
        }
        r
    }
}

/// Renders `n` in hexadecimal, lower case, without a radix prefix.
pub fn hex_string(n: usize) -> (r: String)
    ensures
        r@ == hex_chars(n as nat),
    decreases n,
{
    let q = n / 16;
    let d = n % 16;
    if q == 0 {
        let r = digit_str(d).to_owned();
        proof {
            assert(r@ =~= hex_chars(n as nat));
        }
        r
    } else {
        let s = hex_string(q);
        let r = s.concat(digit_str(d));
        proof {
            assert(r@ =~= hex_chars(n as nat));
        }
        r
    }
}

} // verus!
