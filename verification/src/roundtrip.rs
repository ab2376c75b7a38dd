//! Reading back what was written: the notation that the editor shows for a
//! colour parses to that very colour.

use crate::color::{ColorPair, ColorValue};
use crate::display::rgb_text;
use crate::palette::{
    lemma_overlay_idempotent, lemma_overlay_touches_one_role, ExtendedPalette, Role,
};
use crate::parse::{
    channel_color, channel_of, channel_prefix, channels, field_len, parsed, ParseError,
};
use crate::text::{
    all_digits, decimal_text, digit_char, digit_of, is_whitespace, leading_whitespace, number,
    trailing_whitespace, trimmed, unsigned_of, without_leading, without_trailing,
};
use vstd::prelude::*;

verus! {

/// Whether `c` is one of the characters `0` to `9`.
pub open spec fn is_decimal_digit(c: char) -> bool {
    0x30 <= c as u32 <= 0x39
}

/// Whether `s` consists of the characters `0` to `9` only.
pub open spec fn is_decimal(s: Seq<char>) -> bool {
    forall|i: int| 0 <= i < s.len() ==> is_decimal_digit(#[trigger] s[i])
}

/// The decimal notation of a number is not empty, holds decimal digits
/// only, and writes that number.
pub proof fn lemma_decimal_text(n: nat)
    ensures
        decimal_text(n).len() > 0,
        is_decimal(decimal_text(n)),
        all_digits(decimal_text(n), 10),
        number(decimal_text(n), 10) == n,
    decreases n,
{
    let text = decimal_text(n);
    let last = digit_char(n % 10);
    assert(is_decimal_digit(last) && digit_of(last, 10) == Some(n % 10));
    if n < 10 {
        assert(text =~= seq![last]);
        assert(text.drop_last() =~= Seq::<char>::empty());
        assert(number(text.drop_last(), 10) == 0);
    } else {
        lemma_decimal_text(n / 10);
        let front = decimal_text(n / 10);
        assert(text == front.push(last));
        assert(text.drop_last() =~= front);
        assert(text.last() == last);
        assert forall|i: int| 0 <= i < text.len() implies is_decimal_digit(#[trigger] text[i]) by {
            if i < front.len() {
                assert(text[i] == front[i]);
            }
        }
        assert forall|i: int| 0 <= i < text.len() implies (#[trigger] digit_of(text[i], 10))
            is Some by {
            assert(is_decimal_digit(text[i]));
        }
    }
}

/// A text that neither starts nor ends with white space is its own trimmed
/// form.
pub proof fn lemma_trimmed_is_identity(s: Seq<char>)
    requires
        s.len() > 0,
        !is_whitespace(s[0]),
        !is_whitespace(s.last()),
    ensures
        trimmed(s) == s,
{
    assert(leading_whitespace(s) == 0);
    assert(s.skip(0) =~= s);
    assert(trailing_whitespace(s) == 0);
    assert(s.take(s.len() as int) =~= s);
}

/// A field made of a blank and a decimal number of at most 255, or of such
/// a number alone, writes that number as its channel.
pub proof fn lemma_channel_of_decimal(n: u8, blank: bool)
    ensures
        channel_of(
            if blank {
                seq![' '] + decimal_text(n as nat)
            } else {
                decimal_text(n as nat)
            },
        ) == Some(n),
{
    let digits = decimal_text(n as nat);
    lemma_decimal_text(n as nat);
    assert(is_decimal_digit(digits[0]) && is_decimal_digit(digits.last()));
    lemma_trimmed_is_identity(digits);
    if blank {
        let field = seq![' '] + digits;
        assert(is_whitespace(field[0]));
        assert(field.drop_first() =~= digits);
        assert(leading_whitespace(digits) == 0);
        assert(leading_whitespace(field) == 1);
        assert(field.skip(1) =~= digits);
        assert(trimmed(field) == digits);
    }
    assert(unsigned_of(digits, 10, 255) == Some(n as nat));
}

/// A text without commas, followed by nothing or by a comma, is one field.
pub proof fn lemma_field_len(field: Seq<char>, rest: Seq<char>)
    requires
        !field.contains(','),
        rest.len() == 0 || rest[0] == ',',
    ensures
        field_len(field + rest) == field.len(),
    decreases field.len(),
{
    let s = field + rest;
    if field.len() == 0 {
        assert(s =~= rest);
    } else {
        assert(s[0] == field[0]);
        assert(field[0] != ',');
        assert forall|i: int| 0 <= i < field.drop_first().len() implies field.drop_first()[i]
            != ',' by {
            assert(field.drop_first()[i] == field[i + 1]);
        }
        lemma_field_len(field.drop_first(), rest);
        assert(s.drop_first() =~= field.drop_first() + rest);
    }
}

/// The channels of a text are the channel of its first field, if that
/// field writes one, followed by the channels of what comes after the
/// comma.
pub proof fn lemma_channels_split(field: Seq<char>, rest: Seq<char>)
    requires
        !field.contains(','),
    ensures
        channels(field + seq![','] + rest) == (match channel_of(field) {
            Some(v) => seq![v],
            None => Seq::<u8>::empty(),
        }) + channels(rest),
        channels(field) == (match channel_of(field) {
            Some(v) => seq![v],
            None => Seq::<u8>::empty(),
        }),
{
    let tail = seq![','] + rest;
    let s = field + seq![','] + rest;
    assert(s =~= field + tail);
    lemma_field_len(field, tail);
    assert(s.take(field.len() as int) =~= field);
    assert(s.skip(field.len() as int + 1) =~= rest);
    lemma_field_len(field, Seq::<char>::empty());
    assert(field + Seq::<char>::empty() =~= field);
    assert(field.take(field.len() as int) =~= field);
}

/// Decimal digits hold no comma, with or without a blank before them.
proof fn lemma_decimal_has_no_comma(s: Seq<char>)
    requires
        is_decimal(s),
    ensures
        !s.contains(','),
        !(seq![' '] + s).contains(','),
{
    assert forall|i: int| 0 <= i < s.len() implies s[i] != ',' by {
        assert(is_decimal_digit(s[i]));
    }
    let t = seq![' '] + s;
    assert forall|i: int| 0 <= i < t.len() implies t[i] != ',' by {
        if i > 0 {
            assert(t[i] == s[i - 1]);
            assert(is_decimal_digit(s[i - 1]));
        }
    }
}

/// Two ways of bracketing three fields and their separators.
proof fn lemma_regroup(r: Seq<char>, g: Seq<char>, b: Seq<char>)
    ensures
        r + seq![',', ' '] + g + seq![',', ' '] + b == r + seq![','] + ((seq![' '] + g) + seq![',']
            + (seq![' '] + b)),
{
    let left = r + seq![',', ' '] + g + seq![',', ' '] + b;
    let right = r + seq![','] + ((seq![' '] + g) + seq![','] + (seq![' '] + b));
    assert(left.len() == right.len());
    assert forall|i: int| 0 <= i < left.len() implies left[i] == right[i] by {
        if i < r.len() {
        } else if i < r.len() + 2 {
        } else if i < r.len() + 2 + g.len() {
        } else if i < r.len() + 4 + g.len() {
        } else {
        }
    }
    assert(left =~= right);
}

/// A field made of a decimal number of at most 255, with or without a
/// blank before it, is the only field of its text and writes that number.
proof fn lemma_channels_of_decimal(n: u8, blank: bool)
    ensures
        ({
            let field = if blank {
                seq![' '] + decimal_text(n as nat)
            } else {
                decimal_text(n as nat)
            };
            &&& !field.contains(',')
            &&& channel_of(field) == Some(n)
            &&& channels(field) == seq![n]
        }),
{
    let field = if blank {
        seq![' '] + decimal_text(n as nat)
    } else {
        decimal_text(n as nat)
    };
    lemma_decimal_text(n as nat);
    lemma_decimal_has_no_comma(decimal_text(n as nat));
    lemma_channel_of_decimal(n, blank);
    lemma_channels_split(field, Seq::<char>::empty());
}

/// Three decimal channels, separated by a comma and a blank, read back as
/// the colour that they write.
pub proof fn lemma_channels_of_triple(c: ColorValue)
    ensures
        channel_color(
            decimal_text(c.r as nat) + seq![',', ' '] + decimal_text(c.g as nat) + seq![',', ' ']
                + decimal_text(c.b as nat),
        ) == Ok::<ColorValue, ParseError>(c),
{
    let r = decimal_text(c.r as nat);
    let middle = seq![' '] + decimal_text(c.g as nat);
    let last = seq![' '] + decimal_text(c.b as nat);
    let tail = middle + seq![','] + last;
    let body = r + seq![','] + tail;
    lemma_regroup(r, decimal_text(c.g as nat), decimal_text(c.b as nat));
    assert(channels(last) == seq![c.b]) by {
        lemma_channels_of_decimal(c.b, true);
    }
    assert(channels(tail) == seq![c.g] + channels(last)) by {
        lemma_channels_of_decimal(c.g, true);
        lemma_channels_split(middle, last);
    }
    assert(channels(body) == seq![c.r] + channels(tail)) by {
        lemma_channels_of_decimal(c.r, false);
        lemma_channels_split(r, tail);
    }
    assert(channels(body) =~= seq![c.r, c.g, c.b]);
}

/// The notation shown for a colour parses to that colour.
pub proof fn lemma_rgb_text_parses(c: ColorValue)
    ensures
        parsed(rgb_text(c)) == Ok::<ColorValue, ParseError>(c),
{
    let r = decimal_text(c.r as nat);
    let g = decimal_text(c.g as nat);
    let b = decimal_text(c.b as nat);
    lemma_decimal_text(c.r as nat);
    lemma_decimal_text(c.b as nat);
    let body = r + seq![',', ' '] + g + seq![',', ' '] + b;
    let text = rgb_text(c);
    let open = channel_prefix();
    assert(text =~= open + body + seq![')']);
    assert(text[0] == 'r' && text.last() == ')');
    lemma_trimmed_is_identity(text);
    assert(text[4 + r.len() as int] == ',');
    assert(text.contains(','));
    // The opening wrapper comes off once; a digit follows it.
    let inner = body + seq![')'];
    assert(text.subrange(0, 4) =~= open);
    assert(open.is_prefix_of(text));
    assert(text.skip(4) =~= inner);
    assert(inner[0] == r[0]);
    assert(is_decimal_digit(r[0]));
    assert(!open.is_prefix_of(inner)) by {
        if open.is_prefix_of(inner) {
            assert(inner.subrange(0, 4)[0] == open[0]);
        }
    }
    assert(without_leading(inner, open) == inner);
    assert(without_leading(text, open) == inner);
    // The closing bracket comes off once; a digit precedes it.
    assert(inner.drop_last() =~= body);
    assert(body.last() == b.last());
    assert(is_decimal_digit(b.last()));
    assert(without_trailing(body, ')') == body);
    assert(without_trailing(inner, ')') == body);
    lemma_channels_of_triple(c);
}

/// Writing and reading back is lossless. Take any palette, overlay a role
/// with a colour, read the text shown for that role and overlay what it
/// parses to: the text parses to the very colour that was set, the second
/// overlay changes nothing, and the role still renders that colour.
pub proof fn lemma_display_text_round_trip(p: ExtendedPalette, role: Role, c: ColorValue)
    ensures
        parsed(rgb_text(p.overlaid(role, ColorPair::of(c)).pair(role).background)) == Ok::<
            ColorValue,
            ParseError,
        >(c),
        p.overlaid(role, ColorPair::of(c)).overlaid(role, ColorPair::of(c)) == p.overlaid(
            role,
            ColorPair::of(c),
        ),
        p.overlaid(role, ColorPair::of(c)).pair(role).background == c,
{
    lemma_overlay_touches_one_role(p, role, ColorPair::of(c));
    lemma_overlay_idempotent(p, role, ColorPair::of(c));
    lemma_rgb_text_parses(c);
}

} // verus!
