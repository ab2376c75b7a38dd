//! Reading a colour from free-form text. Three notations are accepted and
//! no other: three comma-separated decimal channels, optionally wrapped in
//! `rgb(` and `)`; a packed hexadecimal number behind a `#`; and a bare
//! packed hexadecimal number.

use crate::color::{unpacked, ColorValue};
use crate::text::{
    chars_of, contains_char, parse_unsigned, strip_leading, strip_trailing, trim, trimmed,
    unsigned_of, without_leading, without_trailing,
};
use vstd::prelude::*;
use vstd::slice::slice_subrange;

verus! {

/// Why a text is not a colour.
#[derive(Clone, Copy, Debug, PartialEq, Eq, Structural)]
pub enum ParseError {
    /// The text is empty or holds white space only.
    Empty,
    /// The text holds a comma, but not exactly three of its fields are
    /// numbers from 0 to 255.
    InvalidChannel,
    /// The text is no hexadecimal number that fits in 32 bits.
    InvalidHex,
}

/// The wrapper that may precede the channels of the comma notation.
pub open spec fn channel_prefix() -> Seq<char> {
    seq!['r', 'g', 'b', '(']
}

/// The length of the first comma-separated field of `s`.
pub open spec fn field_len(s: Seq<char>) -> nat
    decreases s.len(),
{
    if s.len() == 0 || s[0] == ',' {
        0
    } else {
        1 + field_len(s.drop_first())
    }
}

/// The channel that one field writes: after trimming, a decimal number from
/// 0 to 255.
pub open spec fn channel_of(field: Seq<char>) -> Option<u8> {
    match unsigned_of(trimmed(field), 10, 255) {
        Some(v) => Some(v as u8),
        None => None,
    }
}

/// The channels written by the comma-separated fields of `s`, in order.
/// Fields that write no channel are passed over.
pub open spec fn channels(s: Seq<char>) -> Seq<u8>
    decreases s.len(),
{
    let n = field_len(s);
    let head = match channel_of(s.take(n as int)) {
        Some(v) => seq![v],
        None => Seq::<u8>::empty(),
    };
    if n < s.len() {
        head + channels(s.skip(n as int + 1))
    } else {
        head
    }
}

/// `s` without one `#` at its start, if it starts with one.
pub open spec fn without_hash(s: Seq<char>) -> Seq<char> {
    if s.len() > 0 && s[0] == '#' {
        s.skip(1)
    } else {
        s
    }
}

/// The colour that a packed hexadecimal number writes.
pub open spec fn hex_color(digits: Seq<char>) -> Result<ColorValue, ParseError> {
    match unsigned_of(digits, 16, 0xffff_ffff) {
        Some(v) => Ok(unpacked(v as u32)),
        None => Err(ParseError::InvalidHex),
    }
}

/// The colour that three comma-separated channels write.
pub open spec fn channel_color(body: Seq<char>) -> Result<ColorValue, ParseError> {
    let values = channels(body);
    if values.len() == 3 {
        Ok(ColorValue { r: values[0], g: values[1], b: values[2] })
    } else {
        Err(ParseError::InvalidChannel)
    }
}

/// What a text means as a colour.
///
/// White space around the text is ignored. A text with a comma is read as
/// channels, after any `rgb(` at its start and any `)` at its end have been
/// removed. A text with a `#` is read as a hexadecimal number once a single
/// leading `#` is removed. Any other text is read as a hexadecimal number.
pub open spec fn parsed(text: Seq<char>) -> Result<ColorValue, ParseError> {
    let input = trimmed(text);
    if input.len() == 0 {
        Err(ParseError::Empty)
    } else if input.contains(',') {
        channel_color(without_trailing(without_leading(input, channel_prefix()), ')'))
    } else if input.contains('#') {
        hex_color(without_hash(input))
    } else {
        hex_color(input)
    }
}

/// Reads the channels out of the comma-separated fields of `s`.
pub fn parse_channels(s: &[char]) -> (values: Vec<u8>)
    ensures
        values@ == channels(s@),
{
    let n: usize = s.len();
    let mut values: Vec<u8> = Vec::new();
    let mut pos: usize = 0;
    assert(s@.skip(0) =~= s@);
    assert(values@ + channels(s@) =~= channels(s@));
    loop
        invariant_except_break
            pos <= n,
            channels(s@) == values@ + channels(s@.skip(pos as int)),
        invariant
            n == s@.len(),
        ensures
            values@ == channels(s@),
        decreases n - pos,
    {
        let ghost rest = s@.skip(pos as int);
        let ghost done = values@;
        let mut end: usize = pos;
        assert(rest.skip(0) =~= rest);
        while end < n && s[end] != ','
            invariant
                n == s@.len(),
                pos <= end <= n,
                rest == s@.skip(pos as int),
                field_len(rest) == (end - pos) + field_len(rest.skip(end - pos)),
            decreases n - end,
        {
            assert(rest.skip(end - pos).drop_first() =~= rest.skip(end - pos + 1));
            end += 1;
        }
        assert(field_len(rest.skip(end - pos)) == 0);
        let field = slice_subrange(s, pos, end);
        assert(field@ =~= rest.take(end - pos));
        let ghost head = match channel_of(field@) {
            Some(v) => seq![v],
            None => Seq::<u8>::empty(),
        };
        match parse_unsigned(trim(field), 10, 255) {
            Some(v) => {
                values.push(v as u8);
            },
            None => {},
        }
        assert(values@ =~= done + head);
        if end == n {
            assert(channels(rest) == head);
            break;
        }
        assert(rest.skip(end - pos + 1) =~= s@.skip(end + 1));
        assert(channels(rest) == head + channels(s@.skip(end + 1)));
        assert(done + (head + channels(s@.skip(end + 1))) =~= (done + head) + channels(
            s@.skip(end + 1),
        ));
        pos = end + 1;
    }
    values
}

/// Reads a colour from text.
///
/// Succeeds exactly on the texts to which `parsed` gives a colour, and
/// tells the three ways of failing apart: nothing but white space, a comma
/// notation without exactly three channels, and a text that is no
/// hexadecimal number.
pub fn parse(text: &str) -> (result: Result<ColorValue, ParseError>)
    ensures
        result == parsed(text@),
{
    let chars = chars_of(text);
    let input = trim(chars.as_slice());
    if input.len() == 0 {
        return Err(ParseError::Empty);
    }
    if contains_char(input, ',') {
        let prefix: [char; 4] = ['r', 'g', 'b', '('];
        assert(prefix@ =~= channel_prefix());
        let body = strip_trailing(strip_leading(input, prefix.as_slice()), ')');
        let values = parse_channels(body);
        if values.len() != 3 {
            return Err(ParseError::InvalidChannel);
        }
        Ok(ColorValue::from_rgb8(values[0], values[1], values[2]))
    } else {
        let digits = if contains_char(input, '#') && input[0] == '#' {
            let rest = slice_subrange(input, 1, input.len());
            assert(rest@ =~= input@.skip(1));
            rest
        } else {
            input
        };
        match parse_unsigned(digits, 16, 0xffff_ffff) {
            Some(v) => Ok(ColorValue::from_packed(v)),
            None => Err(ParseError::InvalidHex),
        }
    }
}

} // verus!
