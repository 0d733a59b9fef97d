//! Inline style text that places an element at a rectangle.
use vstd::prelude::*;
use vstd::string::StringExecFns;

verus! {

pub open spec fn digit_char(d: int) -> char {
    if d == 0 {
        '0'
    } else if d == 1 {
        '1'
    } else if d == 2 {
        '2'
    } else if d == 3 {
        '3'
    } else if d == 4 {
        '4'
    } else if d == 5 {
        '5'
    } else if d == 6 {
        '6'
    } else if d == 7 {
        '7'
    } else if d == 8 {
        '8'
    } else {
        '9'
    }
}

/// The decimal digits of `n`, without leading zeros.
pub open spec fn decimal(n: nat) -> Seq<char>
    decreases n,
{
    if n < 10 {
        seq![digit_char(n as int)]
    } else {
        decimal(n / 10).push(digit_char((n % 10) as int))
    }
}

/// `v` in decimal, with a minus sign when negative.
pub open spec fn signed_decimal(v: int) -> Seq<char> {
    if v < 0 {
        seq!['-'] + decimal((-v) as nat)
    } else {
        decimal(v as nat)
    }
}

/// `width: Wpx; height: Hpx; left: Xpx; top: Ypx;`
pub open spec fn placement(x: int, y: int, width: int, height: int) -> Seq<char> {
    seq!['w', 'i', 'd', 't', 'h', ':', ' '] + signed_decimal(width)
        + seq!['p', 'x', ';', ' ', 'h', 'e', 'i', 'g', 'h', 't', ':', ' '] + signed_decimal(height)
        + seq!['p', 'x', ';', ' ', 'l', 'e', 'f', 't', ':', ' '] + signed_decimal(x)
        + seq!['p', 'x', ';', ' ', 't', 'o', 'p', ':', ' '] + signed_decimal(y)
        + seq!['p', 'x', ';']
}

fn append_digit(s: &mut String, d: u64)
    requires
        d < 10,
    ensures
        final(s)@ == old(s)@.push(digit_char(d as int)),
{
    let text: &str = if d == 0 {
        proof { reveal_strlit("0"); }
        "0"
    } else if d == 1 {
        proof { reveal_strlit("1"); }
        "1"
    } else if d == 2 {
        proof { reveal_strlit("2"); }
        "2"
    } else if d == 3 {
        proof { reveal_strlit("3"); }
        "3"
    } else if d == 4 {
        proof { reveal_strlit("4"); }
        "4"
    } else if d == 5 {
        proof { reveal_strlit("5"); }
        "5"
    } else if d == 6 {
        proof { reveal_strlit("6"); }
        "6"
    } else if d == 7 {
        proof { reveal_strlit("7"); }
        "7"
    } else if d == 8 {
        proof { reveal_strlit("8"); }
        "8"
    } else {
        proof { reveal_strlit("9"); }
        "9"
    };
    s.append(text);
    assert(final(s)@ =~= old(s)@.push(digit_char(d as int)));
}

fn append_decimal(s: &mut String, n: u64)
    ensures
        final(s)@ == old(s)@ + decimal(n as nat),
    decreases n,
{
    if n >= 10 {
        append_decimal(s, n / 10);
    }
    append_digit(s, n % 10);
    assert(final(s)@ =~= old(s)@ + decimal(n as nat));
}

fn append_signed(s: &mut String, v: i64)
    ensures
        final(s)@ == old(s)@ + signed_decimal(v as int),
{
    if v < 0 {
        proof { reveal_strlit("-"); }
        s.append("-");
        let magnitude: u64 = (-(v as i128)) as u64;
        append_decimal(s, magnitude);
        assert(final(s)@ =~= old(s)@ + signed_decimal(v as int));
    } else {
        append_decimal(s, v as u64);
    }
}

/// The style text that sizes an element to `width` by `height` and places it at
/// `(x, y)`.
pub fn placement_css(x: i64, y: i64, width: i64, height: i64) -> (r: String)
    ensures
        r@ == placement(x as int, y as int, width as int, height as int),
{
    proof {
        reveal_strlit("width: ");
        reveal_strlit("px; height: ");
        reveal_strlit("px; left: ");
        reveal_strlit("px; top: ");
        reveal_strlit("px;");
    }
    let mut s = String::from_str("width: ");
    append_signed(&mut s, width);
    s.append("px; height: ");
    append_signed(&mut s, height);
    s.append("px; left: ");
    append_signed(&mut s, x);
    s.append("px; top: ");
    append_signed(&mut s, y);
    s.append("px;");
    assert(s@ =~= placement(x as int, y as int, width as int, height as int));
    s
}

} // verus!
