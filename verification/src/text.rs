//! Character-level text handling: whitespace trimming, repeated affix
//! stripping and unsigned numbers in decimal and hexadecimal notation.

use vstd::prelude::*;
use vstd::slice::slice_subrange;

verus! {

/// The characters that count as white space: those with the Unicode
/// property `White_Space`.
pub open spec fn is_whitespace(c: char) -> bool {
    let u = c as u32;
    ||| 0x09 <= u <= 0x0d
    ||| u == 0x20
    ||| u == 0x85
    ||| u == 0xa0
    ||| u == 0x1680
    ||| 0x2000 <= u <= 0x200a
    ||| u == 0x2028
    ||| u == 0x2029
    ||| u == 0x202f
    ||| u == 0x205f
    ||| u == 0x3000
}

/// How many characters of white space `s` starts with.
pub open spec fn leading_whitespace(s: Seq<char>) -> nat
    decreases s.len(),
{
    if s.len() > 0 && is_whitespace(s[0]) {
        1 + leading_whitespace(s.drop_first())
    } else {
        0
    }
}

/// How many characters of white space `s` ends with.
pub open spec fn trailing_whitespace(s: Seq<char>) -> nat
    decreases s.len(),
{
    if s.len() > 0 && is_whitespace(s.last()) {
        1 + trailing_whitespace(s.drop_last())
    } else {
        0
    }
}

/// `s` without the white space at its start.
pub open spec fn trimmed_start(s: Seq<char>) -> Seq<char> {
    s.skip(leading_whitespace(s) as int)
}

/// `s` without the white space at its end.
pub open spec fn trimmed_end(s: Seq<char>) -> Seq<char> {
    s.take(s.len() - trailing_whitespace(s))
}

/// `s` without the white space at either end.
pub open spec fn trimmed(s: Seq<char>) -> Seq<char> {
    trimmed_end(trimmed_start(s))
}

/// `s` after `prefix` has been taken off its start as often as it stands
/// there.
pub open spec fn without_leading(s: Seq<char>, prefix: Seq<char>) -> Seq<char>
    decreases s.len(),
{
    if prefix.len() > 0 && prefix.is_prefix_of(s) {
        without_leading(s.skip(prefix.len() as int), prefix)
    } else {
        s
    }
}

/// `s` after the character `c` has been taken off its end as often as it
/// stands there.
pub open spec fn without_trailing(s: Seq<char>, c: char) -> Seq<char>
    decreases s.len(),
{
    if s.len() > 0 && s.last() == c {
        without_trailing(s.drop_last(), c)
    } else {
        s
    }
}

/// The value of `c` as a digit in the given radix: `0`-`9` stand for zero to
/// nine, letters of either case for ten and up. `None` where `c` is no
/// digit of that radix.
pub open spec fn digit_of(c: char, radix: nat) -> Option<nat> {
    let u = c as u32;
    let value: int = if 0x30 <= u <= 0x39 {
        u - 0x30
    } else if 0x61 <= u <= 0x7a {
        u - 0x61 + 10
    } else if 0x41 <= u <= 0x5a {
        u - 0x41 + 10
    } else {
        36
    };
    if value < radix {
        Some(value as nat)
    } else {
        None
    }
}

/// Whether `s` consists of digits of the given radix only.
pub open spec fn all_digits(s: Seq<char>, radix: nat) -> bool {
    forall|i: int| 0 <= i < s.len() ==> (#[trigger] digit_of(s[i], radix)) is Some
}

/// The number that the digits `s` write in positional notation.
pub open spec fn number(s: Seq<char>, radix: nat) -> nat
    decreases s.len(),
{
    if s.len() == 0 {
        0
    } else {
        number(s.drop_last(), radix) * radix + digit_of(s.last(), radix).unwrap()
    }
}

/// Reads an unsigned number of at most `max`: an optional `+`, then one or
/// more digits of the given radix and nothing else. `None` for any other
/// text and for a number above `max`.
pub open spec fn unsigned_of(s: Seq<char>, radix: nat, max: nat) -> Option<nat> {
    let digits = if s.len() > 0 && s[0] == '+' {
        s.skip(1)
    } else {
        s
    };
    if digits.len() > 0 && all_digits(digits, radix) && number(digits, radix) <= max {
        Some(number(digits, radix))
    } else {
        None
    }
}

/// The character that writes a single decimal digit.
pub open spec fn digit_char(d: nat) -> char {
    if d == 0 {
        '0'
    } else if d == 1 {
        '1'
    } else if d == 2 {
        '2'
    } else if d == 3 {
        '3'
    } else if d == 4 {
        '4'
    } else if d == 5 {
        '5'
    } else if d == 6 {
        '6'
    } else if d == 7 {
        '7'
    } else if d == 8 {
        '8'
    } else {
        '9'
    }
}

/// The shortest decimal notation of `n`.
pub open spec fn decimal_text(n: nat) -> Seq<char>
    decreases n,
{
    if n < 10 {
        seq![digit_char(n)]
    } else {
        decimal_text(n / 10).push(digit_char(n % 10))
    }
}

/// The characters of a string, in order.
pub fn chars_of(text: &str) -> (chars: Vec<char>)
    ensures
        chars@ == text@,
{
    let mut chars: Vec<char> = Vec::new();
    for c in it: text.chars()
        invariant
            chars@ == it.seq().take(it.index()),
    {
        chars.push(c);
    }
    chars
}

/// Tests a character for white space.
pub fn is_space(c: char) -> (b: bool)
    ensures
        b == is_whitespace(c),
{
    let u: u32 = c as u32;
    (0x09 <= u && u <= 0x0d) || u == 0x20 || u == 0x85 || u == 0xa0 || u == 0x1680 || (0x2000 <= u
        && u <= 0x200a) || u == 0x2028 || u == 0x2029 || u == 0x202f || u == 0x205f || u == 0x3000
}

/// Cuts the white space off both ends of `s`.
pub fn trim(s: &[char]) -> (out: &[char])
    ensures
        out@ == trimmed(s@),
{
    let n: usize = s.len();
    let mut lo: usize = 0;
    assert(s@.skip(0) =~= s@);
    while lo < n && is_space(s[lo])
        invariant
            n == s@.len(),
            lo <= n,
            leading_whitespace(s@) == lo + leading_whitespace(s@.skip(lo as int)),
        decreases n - lo,
    {
        assert(s@.skip(lo as int).drop_first() =~= s@.skip(lo + 1));
        lo += 1;
    }
    let ghost rest = s@.skip(lo as int);
    let mut hi: usize = n;
    assert(rest.take(n - lo) =~= rest);
    while hi > lo && is_space(s[hi - 1])
        invariant
            n == s@.len(),
            lo <= hi <= n,
            rest == s@.skip(lo as int),
            trailing_whitespace(rest) == (n - hi) + trailing_whitespace(rest.take(hi - lo)),
        decreases hi,
    {
        assert(rest.take(hi - lo).drop_last() =~= rest.take(hi - lo - 1));
        hi -= 1;
    }
    assert(trailing_whitespace(rest.take(hi - lo)) == 0);
    assert(s@.subrange(lo as int, hi as int) =~= rest.take(hi - lo));
    slice_subrange(s, lo, hi)
}

/// Whether the character `c` occurs in `s`.
pub fn contains_char(s: &[char], c: char) -> (found: bool)
    ensures
        found == s@.contains(c),
{
    let n: usize = s.len();
    let mut i: usize = 0;
    while i < n
        invariant
            n == s@.len(),
            i <= n,
            forall|k: int| 0 <= k < i ==> s@[k] != c,
        decreases n - i,
    {
        if s[i] == c {
            return true;
        }
        i += 1;
    }
    false
}

/// Whether `s` starts with `prefix`.
pub fn starts_with(s: &[char], prefix: &[char]) -> (yes: bool)
    ensures
        yes == prefix@.is_prefix_of(s@),
{
    let n: usize = prefix.len();
    if s.len() < n {
        return false;
    }
    let mut i: usize = 0;
    while i < n
        invariant
            n == prefix@.len(),
            n <= s@.len(),
            i <= n,
            forall|k: int| 0 <= k < i ==> s@[k] == prefix@[k],
        decreases n - i,
    {
        if s[i] != prefix[i] {
            assert(s@.subrange(0, n as int)[i as int] != prefix@[i as int]);
            return false;
        }
        i += 1;
    }
    assert(s@.subrange(0, n as int) =~= prefix@);
    true
}

/// Takes `prefix` off the start of `s` as often as it stands there.
pub fn strip_leading<'a>(s: &'a [char], prefix: &[char]) -> (out: &'a [char])
    ensures
        out@ == without_leading(s@, prefix@),
{
    let n: usize = s.len();
    let p: usize = prefix.len();
    if p == 0 {
        return s;
    }
    let mut lo: usize = 0;
    assert(s@.skip(0) =~= s@);
    loop
        invariant
            n == s@.len(),
            p == prefix@.len(),
            p > 0,
            lo <= n,
            without_leading(s@, prefix@) == without_leading(s@.skip(lo as int), prefix@),
        ensures
            lo <= n,
            without_leading(s@, prefix@) == s@.skip(lo as int),
        decreases n - lo,
    {
        let rest = slice_subrange(s, lo, n);
        assert(rest@ =~= s@.skip(lo as int));
        if !starts_with(rest, prefix) {
            break;
        }
        assert(rest@.skip(p as int) =~= s@.skip(lo + p));
        lo += p;
    }
    assert(s@.subrange(lo as int, n as int) =~= s@.skip(lo as int));
    slice_subrange(s, lo, n)
}

/// Takes the character `c` off the end of `s` as often as it stands there.
pub fn strip_trailing(s: &[char], c: char) -> (out: &[char])
    ensures
        out@ == without_trailing(s@, c),
{
    let mut hi: usize = s.len();
    assert(s@.take(hi as int) =~= s@);
    while hi > 0 && s[hi - 1] == c
        invariant
            hi <= s@.len(),
            without_trailing(s@, c) == without_trailing(s@.take(hi as int), c),
        decreases hi,
    {
        assert(s@.take(hi as int).drop_last() =~= s@.take(hi - 1));
        hi -= 1;
    }
    assert(s@.subrange(0, hi as int) =~= s@.take(hi as int));
    slice_subrange(s, 0, hi)
}

/// Reads a character as a digit of the given radix.
pub fn to_digit(c: char, radix: u32) -> (d: Option<u32>)
    requires
        2 <= radix <= 36,
    ensures
        d matches Some(v) ==> digit_of(c, radix as nat) == Some(v as nat),
        d is None ==> digit_of(c, radix as nat) is None,
{
    let u: u32 = c as u32;
    let value: u32 = if 0x30 <= u && u <= 0x39 {
        u - 0x30
    } else if 0x61 <= u && u <= 0x7a {
        u - 0x61 + 10
    } else if 0x41 <= u && u <= 0x5a {
        u - 0x41 + 10
    } else {
        36
    };
    if value < radix {
        Some(value)
    } else {
        None
    }
}

/// A number does not shrink when more digits follow.
pub proof fn lemma_number_grows(s: Seq<char>, k: int, radix: nat)
    requires
        0 <= k <= s.len(),
        radix >= 1,
    ensures
        number(s.take(k), radix) <= number(s, radix),
    decreases s.len(),
{
    if k == s.len() {
        assert(s.take(k) =~= s);
    } else {
        lemma_number_grows(s.drop_last(), k, radix);
        assert(s.drop_last().take(k) =~= s.take(k));
        let shorter = number(s.drop_last(), radix);
        assert(shorter * radix >= shorter) by (nonlinear_arith)
            requires
                radix >= 1,
                shorter >= 0,
        ;
    }
}

/// Reads an unsigned number of at most `max` in the given radix.
pub fn parse_unsigned(s: &[char], radix: u32, max: u32) -> (out: Option<u32>)
    requires
        2 <= radix <= 36,
    ensures
        out matches Some(v) ==> unsigned_of(s@, radix as nat, max as nat) == Some(v as nat),
        out is None ==> unsigned_of(s@, radix as nat, max as nat) is None,
{
    let n: usize = s.len();
    let start: usize = if n > 0 && s[0] == '+' {
        1
    } else {
        0
    };
    if start == n {
        return None;
    }
    let digits = slice_subrange(s, start, n);
    assert(digits@ =~= s@.skip(start as int));
    assert(s@.skip(0) =~= s@);
    assert(digits@ == if s@.len() > 0 && s@[0] == '+' {
        s@.skip(1)
    } else {
        s@
    });
    let m: usize = n - start;
    let mut value: u64 = 0;
    let mut i: usize = 0;
    assert(digits@.take(0) =~= Seq::<char>::empty());
    while i < m
        invariant
            m == digits@.len(),
            i <= m,
            2 <= radix <= 36,
            digits@ == if s@.len() > 0 && s@[0] == '+' {
                s@.skip(1)
            } else {
                s@
            },
            value == number(digits@.take(i as int), radix as nat),
            value <= max,
            all_digits(digits@.take(i as int), radix as nat),
        decreases m - i,
    {
        let ghost before = digits@.take(i as int);
        let ghost after = digits@.take(i + 1);
        assert(after.drop_last() =~= before);
        assert(after.last() == digits@[i as int]);
        match to_digit(digits[i], radix) {
            None => {
                assert(!all_digits(digits@, radix as nat));
                return None;
            },
            Some(d) => {
                assert(value * radix + d <= 0xffff_ffff * 36 + 35) by (nonlinear_arith)
                    requires
                        value <= 0xffff_ffff,
                        radix <= 36,
                        d < 36,
                ;
                let next: u64 = value * (radix as u64) + (d as u64);
                assert(next == number(after, radix as nat));
                if next > max as u64 {
                    proof {
                        lemma_number_grows(digits@, i + 1, radix as nat);
                    }
                    return None;
                }
                assert forall|k: int| 0 <= k < after.len() implies (#[trigger] digit_of(
                    after[k],
                    radix as nat,
                )) is Some by {
                    if k < i {
                        assert(after[k] == before[k]);
                    }
                }
                value = next;
            },
        }
        i += 1;
    }
    assert(digits@.take(m as int) =~= digits@);
    Some(value as u32)
}

} // verus!
