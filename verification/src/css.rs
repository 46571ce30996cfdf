//! Numbers as decimal text, and the two CSS-style forms of a color.
//!
//! The text of alpha comes from the caller: alpha is a binary64 number, and
//! its shortest decimal form is not computed here.

use vstd::prelude::*;
use vstd::string::StringExecFns;

verus! {

/// The ten digits.
pub open spec fn digits() -> Seq<char> {
    seq!['0', '1', '2', '3', '4', '5', '6', '7', '8', '9']
}

/// A natural number in decimal, without leading zeros.
pub open spec fn decimal(n: nat) -> Seq<char>
    decreases n,
{
    if n < 10 {
        seq![digits()[n as int]]
    } else {
        decimal(n / 10).push(digits()[(n % 10) as int])
    }
}

/// The decimals of a number of hundredths below 100: nothing for none, and
/// else a point and one or two digits, without a trailing zero.
pub open spec fn fraction(hundredths: nat) -> Seq<char> {
    if hundredths == 0 {
        seq![]
    } else if hundredths % 10 == 0 {
        seq!['.', digits()[(hundredths / 10) as int]]
    } else {
        seq!['.', digits()[(hundredths / 10) as int], digits()[(hundredths % 10) as int]]
    }
}

/// A saturation or lightness in hundredths as a percentage. A value up to 1
/// is multiplied by 100, so its hundredths are the percentage; a value above
/// 1 is written as it is, with its decimals. Both end in `%`.
pub open spec fn percent(hundredths: nat) -> Seq<char> {
    if hundredths <= 100 {
        decimal(hundredths) + seq!['%']
    } else {
        decimal(hundredths / 100) + fraction(hundredths % 100) + seq!['%']
    }
}

/// `rgba(r, g, b, a)`, the channels in decimal.
pub open spec fn rgba_text(r: nat, g: nat, b: nat, alpha: Seq<char>) -> Seq<char> {
    seq!['r', 'g', 'b', 'a', '('] + decimal(r) + seq![',', ' '] + decimal(g) + seq![',', ' ']
        + decimal(b) + seq![',', ' '] + alpha + seq![')']
}

/// `hsla(h, s%, l%, a)`, the hue in decimal, saturation and lightness as
/// percentages.
pub open spec fn hsla_text(h: nat, s: nat, l: nat, alpha: Seq<char>) -> Seq<char> {
    seq!['h', 's', 'l', 'a', '('] + decimal(h) + seq![',', ' '] + percent(s) + seq![',', ' ']
        + percent(l) + seq![',', ' '] + alpha + seq![')']
}

/// One digit as text.
fn digit_text(d: u32) -> (out: &'static str)
    requires
        d < 10,
    ensures
        out@ == seq![digits()[d as int]],
{
    proof {
        reveal_strlit("0");
        reveal_strlit("1");
        reveal_strlit("2");
        reveal_strlit("3");
        reveal_strlit("4");
        reveal_strlit("5");
        reveal_strlit("6");
        reveal_strlit("7");
        reveal_strlit("8");
        reveal_strlit("9");
    }
    let out = match d {
        0 => "0",
        1 => "1",
        2 => "2",
        3 => "3",
        4 => "4",
        5 => "5",
        6 => "6",
        7 => "7",
        8 => "8",
        _ => "9",
    };
    assert(out@ =~= seq![digits()[d as int]]);
    out
}

/// Writes a number in decimal.
pub fn decimal_text(n: u32) -> (out: String)
    ensures
        out@ == decimal(n as nat),
    decreases n,
{
    if n < 10 {
        String::from_str(digit_text(n))
    } else {
        let mut out = decimal_text(n / 10);
        out.append(digit_text(n % 10));
        out
    }
}

/// Writes a saturation or lightness in hundredths as a percentage.
pub fn to_pct(hundredths: u16) -> (out: String)
    ensures
        out@ == percent(hundredths as nat),
{
    proof {
        reveal_strlit("%");
        reveal_strlit(".");
    }
    let n: u32 = hundredths as u32;
    let mut out: String;
    if n <= 100 {
        out = decimal_text(n);
    } else {
        out = decimal_text(n / 100);
        let rest: u32 = n % 100;
        if rest != 0 {
            out.append(".");
            out.append(digit_text(rest / 10));
            if rest % 10 != 0 {
                out.append(digit_text(rest % 10));
            }
        }
        assert(out@ =~= decimal((n / 100) as nat) + fraction((n % 100) as nat));
    }
    out.append("%");
    assert(out@ =~= percent(hundredths as nat));
    out
}

/// Writes `rgba(r, g, b, a)` with the given text for alpha.
pub fn rgba_string(r: u8, g: u8, b: u8, alpha: &str) -> (out: String)
    ensures
        out@ == rgba_text(r as nat, g as nat, b as nat, alpha@),
{
    proof {
        reveal_strlit("rgba(");
        reveal_strlit(", ");
        reveal_strlit(")");
    }
    let mut out = String::from_str("rgba(");
    assert(out@ =~= seq!['r', 'g', 'b', 'a', '(']);
    out.append(decimal_text(r as u32).as_str());
    out.append(", ");
    out.append(decimal_text(g as u32).as_str());
    out.append(", ");
    out.append(decimal_text(b as u32).as_str());
    out.append(", ");
    out.append(alpha);
    out.append(")");
    assert(out@ =~= rgba_text(r as nat, g as nat, b as nat, alpha@));
    out
}

/// Writes `hsla(h, s%, l%, a)` with the given text for alpha.
pub fn hsla_string(h: u16, s: u16, l: u16, alpha: &str) -> (out: String)
    ensures
        out@ == hsla_text(h as nat, s as nat, l as nat, alpha@),
{
    proof {
        reveal_strlit("hsla(");
        reveal_strlit(", ");
        reveal_strlit(")");
    }
    let mut out = String::from_str("hsla(");
    assert(out@ =~= seq!['h', 's', 'l', 'a', '(']);
    out.append(decimal_text(h as u32).as_str());
    out.append(", ");
    out.append(to_pct(s).as_str());
    out.append(", ");
    out.append(to_pct(l).as_str());
    out.append(", ");
    out.append(alpha);
    out.append(")");
    assert(out@ =~= hsla_text(h as nat, s as nat, l as nat, alpha@));
    out
}

} // verus!
