//! Building the text of messages.

use vstd::prelude::*;

verus! {

pub open spec fn digit_char(d: nat) -> char {
    if d == 0 {
        '0'
    } else if d == 1 {
        '1'
    } else if d == 2 {
        '2'
    } else if d == 3 {
        '3'
    } else if d == 4 {
        '4'
    } else if d == 5 {
        '5'
    } else if d == 6 {
        '6'
    } else if d == 7 {
        '7'
    } else if d == 8 {
        '8'
    } else {
        '9'
    }
}

/// The decimal digits of `n`, most significant first, without leading zeros.
pub open spec fn decimal(n: nat) -> Seq<char>
    decreases n,
{
    if n < 10 {
        seq![digit_char(n)]
    } else {
        decimal(n / 10).push(digit_char(n % 10))
    }
}

fn digit_str(d: u32) -> (r: &'static str)
    requires
        d < 10,
    ensures
        r@ == seq![digit_char(d as nat)],
{
    proof {
        reveal_strlit("0");
        reveal_strlit("1");
        reveal_strlit("2");
        reveal_strlit("3");
        reveal_strlit("4");
        reveal_strlit("5");
        reveal_strlit("6");
        reveal_strlit("7");
        reveal_strlit("8");
        reveal_strlit("9");
    }
    let r = if d == 0 {
        "0"
    } else if d == 1 {
        "1"
    } else if d == 2 {
        "2"
    } else if d == 3 {
        "3"
    } else if d == 4 {
        "4"
    } else if d == 5 {
        "5"
    } else if d == 6 {
        "6"
    } else if d == 7 {
        "7"
    } else if d == 8 {
        "8"
    } else {
        "9"
    };
    assert(r@ =~= seq![digit_char(d as nat)]);
    r
}

/// Appends the decimal digits of `n` to `out`.
pub fn write_decimal(n: u32, out: &mut String)
    ensures
        final(out)@ == old(out)@ + decimal(n as nat),
    decreases n,
{
    if n < 10 {
        out.append(digit_str(n));
    } else {
        write_decimal(n / 10, out);
        out.append(digit_str(n % 10));
        assert(out@ =~= old(out)@ + decimal(n as nat));
    }
}

/// The decimal digits of `n`, after a minus sign where `n` is negative.
pub open spec fn signed_decimal(n: int) -> Seq<char> {
    if n < 0 {
        "-"@ + decimal((-n) as nat)
    } else {
        decimal(n as nat)
    }
}

/// Appends the decimal digits of `n` to `out`, after a minus sign where `n`
/// is negative.
pub fn write_signed_decimal(n: i32, out: &mut String)
    ensures
        final(out)@ == old(out)@ + signed_decimal(n as int),
{
    if n < 0 {
        let wide: i64 = n as i64;
        let size: u32 = (0 - wide) as u32;
        out.append("-");
        write_decimal(size, out);
        assert(out@ =~= old(out)@ + signed_decimal(n as int));
    } else {
        write_decimal(n as u32, out);
    }
}

/// `true` or `false`.
pub open spec fn bool_text(b: bool) -> Seq<char> {
    if b {
        "true"@
    } else {
        "false"@
    }
}

/// Appends `true` or `false` to `out`.
pub fn write_bool(b: bool, out: &mut String)
    ensures
        final(out)@ == old(out)@ + bool_text(b),
{
    if b {
        out.append("true");
    } else {
        out.append("false");
    }
}

/// Pieces appended one by one to `s` make `s` followed by the pieces put
/// together.
pub proof fn lemma_prefix3(s: Seq<char>, a: Seq<char>, b: Seq<char>, c: Seq<char>)
    ensures
        s + a + b + c == s + (a + b + c),
{
    assert(s + a + b + c =~= s + (a + b + c));
}

pub proof fn lemma_prefix5(
    s: Seq<char>,
    a: Seq<char>,
    b: Seq<char>,
    c: Seq<char>,
    d: Seq<char>,
    e: Seq<char>,
)
    ensures
        s + a + b + c + d + e == s + (a + b + c + d + e),
{
    lemma_prefix3(s, a, b, c);
    lemma_prefix3(s, a + b + c, d, e);
    assert(a + b + c + d + e =~= (a + b + c) + d + e);
}

pub proof fn lemma_prefix7(
    s: Seq<char>,
    a: Seq<char>,
    b: Seq<char>,
    c: Seq<char>,
    d: Seq<char>,
    e: Seq<char>,
    f: Seq<char>,
    g: Seq<char>,
)
    ensures
        s + a + b + c + d + e + f + g == s + (a + b + c + d + e + f + g),
{
    lemma_prefix5(s, a, b, c, d, e);
    lemma_prefix3(s, a + b + c + d + e, f, g);
}

pub proof fn lemma_prefix9(
    s: Seq<char>,
    a: Seq<char>,
    b: Seq<char>,
    c: Seq<char>,
    d: Seq<char>,
    e: Seq<char>,
    f: Seq<char>,
    g: Seq<char>,
    h: Seq<char>,
    i: Seq<char>,
)
    ensures
        s + a + b + c + d + e + f + g + h + i == s + (a + b + c + d + e + f + g + h + i),
{
    lemma_prefix7(s, a, b, c, d, e, f, g);
    lemma_prefix3(s, a + b + c + d + e + f + g, h, i);
}

} // verus!
