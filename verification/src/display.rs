//! The text shown for a colour: `rgb(R, G, B)` with decimal channels.

use crate::color::ColorValue;
use crate::palette::{ExtendedPalette, Role};
use crate::text::{decimal_text, digit_char};
use vstd::prelude::*;
use vstd::string::*;

verus! {

/// The notation of a colour: its three channels on the 0..=255 scale, in
/// decimal, separated by a comma and a blank and wrapped in `rgb(` and `)`.
pub open spec fn rgb_text(c: ColorValue) -> Seq<char> {
    seq!['r', 'g', 'b', '('] + decimal_text(c.r as nat) + seq![',', ' '] + decimal_text(
        c.g as nat,
    ) + seq![',', ' '] + decimal_text(c.b as nat) + seq![')']
}

/// The string that writes one decimal digit.
fn digit_str(d: u8) -> (s: &'static str)
    requires
        d < 10,
    ensures
        s@ == seq![digit_char(d as nat)],
{
    proof {
        reveal_strlit("0");
        reveal_strlit("1");
        reveal_strlit("2");
        reveal_strlit("3");
        reveal_strlit("4");
        reveal_strlit("5");
        reveal_strlit("6");
        reveal_strlit("7");
        reveal_strlit("8");
        reveal_strlit("9");
    }
    let s = match d {
        0 => "0",
        1 => "1",
        2 => "2",
        3 => "3",
        4 => "4",
        5 => "5",
        6 => "6",
        7 => "7",
        8 => "8",
        _ => "9",
    };
    assert(s@ =~= seq![digit_char(d as nat)]);
    s
}

/// Appends the decimal notation of `n` to `out`.
pub fn push_decimal(out: &mut String, n: u8)
    ensures
        final(out)@ == old(out)@ + decimal_text(n as nat),
{
    let ghost start = out@;
    if n >= 100 {
        out.append(digit_str(n / 100));
    }
    if n >= 10 {
        out.append(digit_str((n / 10) % 10));
    }
    out.append(digit_str(n % 10));
    proof {
        let v = n as nat;
        if v >= 100 {
            assert((v / 10) / 10 == v / 100);
            assert(decimal_text(v / 100) == seq![digit_char(v / 100)]);
            assert(decimal_text(v / 10) == decimal_text(v / 100).push(digit_char((v / 10) % 10)));
            assert(decimal_text(v) == decimal_text(v / 10).push(digit_char(v % 10)));
        } else if v >= 10 {
            assert(decimal_text(v / 10) == seq![digit_char(v / 10)]);
            assert((v / 10) % 10 == v / 10);
            assert(decimal_text(v) == decimal_text(v / 10).push(digit_char(v % 10)));
        } else {
            assert(decimal_text(v) == seq![digit_char(v)]);
        }
        assert(out@ =~= start + decimal_text(v));
    }
}

/// Writes a colour as `rgb(R, G, B)`.
pub fn color_text(color: ColorValue) -> (text: String)
    ensures
        text@ == rgb_text(color),
{
    proof {
        reveal_strlit("rgb(");
        reveal_strlit(", ");
        reveal_strlit(")");
    }
    let mut text = String::new();
    text.append("rgb(");
    push_decimal(&mut text, color.r);
    text.append(", ");
    push_decimal(&mut text, color.g);
    text.append(", ");
    push_decimal(&mut text, color.b);
    text.append(")");
    assert("rgb("@ =~= seq!['r', 'g', 'b', '(']);
    assert(", "@ =~= seq![',', ' ']);
    assert(")"@ =~= seq![')']);
    assert(text@ =~= rgb_text(color));
    text
}

/// The text for the colour that a palette renders at a role.
pub fn display_text(palette: &ExtendedPalette, role: Role) -> (text: String)
    ensures
        text@ == rgb_text(palette.pair(role).background),
{
    color_text(palette.display_color(role))
}

} // verus!
