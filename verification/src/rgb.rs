//! A color as three 8-bit channels: reading it from hexadecimal text, mixing two
//! colors, and writing one out.

use crate::config::{HEX_6_DIGITS_WO_HASHTAG, HEX_6_DIGITS_W_HASHTAG};
use crate::text::{all_in_class, in_class, is_space, run_end, run_start, is_ascii_digit, is_hex, same_text, to_chars, trim, trim_bounds, CharClass};
use vstd::prelude::*;
use vstd::string::*;

verus! {

/// A color: its red, green and blue channels.
#[derive(Clone, Copy, Debug, PartialEq, Eq, Structural)]
pub struct RGB(pub u8, pub u8, pub u8);

/// The name of the format that writes a color as `#RRGGBB`.
pub open spec fn format_with_hash() -> Seq<char> {
    HEX_6_DIGITS_W_HASHTAG@
}

/// The name of the format that writes a color as `RRGGBB`.
pub open spec fn format_without_hash() -> Seq<char> {
    HEX_6_DIGITS_WO_HASHTAG@
}

/// The digits of a hexadecimal color: the text without its leading `#`, if it
/// has one.
pub open spec fn hex_digits(t: Seq<char>) -> Seq<char> {
    if t.len() > 0 && t[0] == '#' {
        t.skip(1)
    } else {
        t
    }
}

/// Whether `t` is a hexadecimal color: an optional `#` and exactly six
/// hexadecimal digits, nothing else.
pub open spec fn is_hex_color(t: Seq<char>) -> bool {
    let d = hex_digits(t);
    d.len() == 6 && forall|i: int| 0 <= i < 6 ==> is_hex(#[trigger] d[i])
}

/// The number that a hexadecimal digit stands for.
pub open spec fn hex_value(c: char) -> int {
    if is_ascii_digit(c) {
        c as int - '0' as int
    } else if 'a' <= c <= 'f' {
        c as int - 'a' as int + 10
    } else {
        c as int - 'A' as int + 10
    }
}

/// The channel that the two digits from index `2 * i` on stand for.
pub open spec fn channel_of(d: Seq<char>, i: int) -> int {
    hex_value(d[2 * i]) * 16 + hex_value(d[2 * i + 1])
}

/// The color that the hexadecimal color `t` stands for.
pub open spec fn color_of_hex(t: Seq<char>) -> RGB {
    let d = hex_digits(t);
    RGB(channel_of(d, 0) as u8, channel_of(d, 1) as u8, channel_of(d, 2) as u8)
}

/// What `new_from_hex` reports of a text that is no hexadecimal color.
pub open spec fn invalid_hex_message(t: Seq<char>) -> Seq<char> {
    "Invalid hex color `"@ + t + "`"@
}

/// What `format` reports of a format that it does not know.
pub open spec fn invalid_format_message(format: Seq<char>) -> Seq<char> {
    "Invalid color format `"@ + format + "`"@
}

/// The upper-case hexadecimal digit for `n`, which is below 16.
pub open spec fn upper_hex_digit(n: int) -> char {
    if n < 10 {
        ('0' as int + n) as char
    } else {
        ('A' as int + n - 10) as char
    }
}

/// The two upper-case hexadecimal digits of a channel.
pub open spec fn hex_pair(v: u8) -> Seq<char> {
    seq![upper_hex_digit(v as int / 16), upper_hex_digit(v as int % 16)]
}

/// The six upper-case hexadecimal digits of a color.
pub open spec fn hex_text(c: RGB) -> Seq<char> {
    hex_pair(c.0) + hex_pair(c.1) + hex_pair(c.2)
}

/// A color as text in the format named `format`, if there is such a format:
/// `#RRGGBB` or `RRGGBB`, in upper case.
pub open spec fn written(color: RGB, format: Seq<char>) -> Option<Seq<char>> {
    if format == format_with_hash() {
        Some(seq!['#'] + hex_text(color))
    } else if format == format_without_hash() {
        Some(hex_text(color))
    } else {
        None
    }
}

/// One channel of a mix: the share `amount` of `x` and the share
/// `100 - amount` of `y`, in hundredths, rounded towards zero. For an amount
/// above 100 the second share is negative, and the result is held within a
/// byte's range.
pub open spec fn mix_channel(x: u8, amount: u8, y: u8) -> u8 {
    let v = x as int * amount as int + y as int * (100 - amount as int);
    if v <= 0 {
        0u8
    } else if v / 100 > 255 {
        255u8
    } else {
        (v / 100) as u8
    }
}

/// The mix of two colors, channel by channel.
pub open spec fn mix_colors(a: RGB, amount: u8, b: RGB) -> RGB {
    RGB(mix_channel(a.0, amount, b.0), mix_channel(a.1, amount, b.1), mix_channel(a.2, amount, b.2))
}

/// Whether `m` lies between `x` and `y`, whichever of the two is the larger.
pub open spec fn is_between(x: u8, m: u8, y: u8) -> bool {
    x <= m <= y || y <= m <= x
}

/// One channel of a mix: with the amount 100 it is the first channel, with the
/// amount 0 the second, a channel mixed with itself stays as it is, and an
/// amount up to 100 keeps the mix between the two channels.
pub proof fn lemma_mix_channel(x: u8, amount: u8, y: u8)
    ensures
        mix_channel(x, 100, y) == x,
        mix_channel(x, 0, y) == y,
        mix_channel(x, amount, x) == x,
        amount <= 100 ==> is_between(x, mix_channel(x, amount, y), y),
{
    assert(mix_channel(x, amount, x) == x) by (nonlinear_arith);
    assert(amount <= 100 && x <= y ==> x <= mix_channel(x, amount, y) <= y) by (nonlinear_arith);
    assert(amount <= 100 && y <= x ==> y <= mix_channel(x, amount, y) <= x) by (nonlinear_arith);
}

/// A mix with the amount 100 is the first color, one with the amount 0 the
/// second, a color mixed with itself stays as it is, and an amount up to 100
/// keeps each of the three channels between the two channels that it mixes.
pub proof fn lemma_mix_bounds(a: RGB, amount: u8, b: RGB)
    ensures
        mix_colors(a, 100, b) == a,
        mix_colors(a, 0, b) == b,
        mix_colors(a, amount, a) == a,
        amount <= 100 ==> is_between(a.0, mix_colors(a, amount, b).0, b.0),
        amount <= 100 ==> is_between(a.1, mix_colors(a, amount, b).1, b.1),
        amount <= 100 ==> is_between(a.2, mix_colors(a, amount, b).2, b.2),
{
    lemma_mix_channel(a.0, amount, b.0);
    lemma_mix_channel(a.1, amount, b.1);
    lemma_mix_channel(a.2, amount, b.2);
    lemma_mix_channel(a.0, amount, a.0);
    lemma_mix_channel(a.1, amount, a.1);
    lemma_mix_channel(a.2, amount, a.2);
}

/// A hexadecimal digit in upper case.
pub open spec fn upper_hex(c: char) -> char {
    if 'a' <= c <= 'f' {
        (c as int - 'a' as int + 'A' as int) as char
    } else {
        c
    }
}

/// The canonical form of the hexadecimal color `t`: `#` and its six digits in
/// upper case.
pub open spec fn canonical_hex(t: Seq<char>) -> Seq<char> {
    seq!['#'] + Seq::new(6, |i: int| upper_hex(hex_digits(t)[i]))
}

/// Reading a hexadecimal color and writing it with the hash gives its
/// canonical form, whatever the case of its digits, whether or not it had the
/// hash, and whatever white space stood around it; and the canonical form
/// reads back as the same color.
pub proof fn lemma_hex_round_trip(text: Seq<char>)
    requires
        is_hex_color(trim(text)),
    ensures
        seq!['#'] + hex_text(color_of_hex(trim(text))) == canonical_hex(trim(text)),
        trim(canonical_hex(trim(text))) == canonical_hex(trim(text)),
        is_hex_color(canonical_hex(trim(text))),
        color_of_hex(canonical_hex(trim(text))) == color_of_hex(trim(text)),
{
    let t = trim(text);
    let d = hex_digits(t);
    let c = color_of_hex(t);
    let canon = canonical_hex(t);
    assert forall|i: int| 0 <= i < 6 implies {
        &&& 0 <= hex_value(d[i]) < 16
        &&& upper_hex_digit(hex_value(d[i])) == upper_hex(d[i])
        &&& is_hex(upper_hex(d[i]))
        &&& !is_space(upper_hex(d[i]))
        &&& hex_value(upper_hex(d[i])) == hex_value(d[i])
    } by {
        assert(is_hex(d[i]));
    }
    assert(hex_pair(c.0) =~= seq![upper_hex(d[0]), upper_hex(d[1])]);
    assert(hex_pair(c.1) =~= seq![upper_hex(d[2]), upper_hex(d[3])]);
    assert(hex_pair(c.2) =~= seq![upper_hex(d[4]), upper_hex(d[5])]);
    assert(seq!['#'] + hex_text(c) =~= canon);
    assert(canon.len() == 7);
    assert(hex_digits(canon) =~= Seq::new(6, |i: int| upper_hex(d[i])));
    assert(!is_space(canon[0]));
    assert(canon[6] == upper_hex(d[5]));
    assert(run_end(canon, 0, CharClass::Space) == 0);
    assert(run_start(canon, 7, CharClass::Space) == 7);
    assert(trim(canon) =~= canon);
}

/// A color that is written reads back as itself, in either format.
pub proof fn lemma_written_reads_back(c: RGB)
    ensures
        trim(seq!['#'] + hex_text(c)) == seq!['#'] + hex_text(c),
        is_hex_color(seq!['#'] + hex_text(c)),
        color_of_hex(seq!['#'] + hex_text(c)) == c,
        trim(hex_text(c)) == hex_text(c),
        is_hex_color(hex_text(c)),
        color_of_hex(hex_text(c)) == c,
{
    let text = hex_text(c);
    let hashed = seq!['#'] + text;
    assert(text.len() == 6);
    assert(text =~= seq![
        upper_hex_digit(c.0 as int / 16),
        upper_hex_digit(c.0 as int % 16),
        upper_hex_digit(c.1 as int / 16),
        upper_hex_digit(c.1 as int % 16),
        upper_hex_digit(c.2 as int / 16),
        upper_hex_digit(c.2 as int % 16),
    ]);
    assert forall|n: int| 0 <= n < 16 implies {
        &&& is_hex(#[trigger] upper_hex_digit(n))
        &&& !is_space(upper_hex_digit(n))
        &&& upper_hex_digit(n) != '#'
        &&& hex_value(upper_hex_digit(n)) == n
    } by {}
    assert(hex_digits(text) == text);
    assert(hex_digits(hashed) =~= text);
    assert(run_end(text, 0, CharClass::Space) == 0);
    assert(run_start(text, 6, CharClass::Space) == 6);
    assert(trim(text) =~= text);
    assert(!is_space(hashed[0]));
    assert(hashed[6] == text[5]);
    assert(run_end(hashed, 0, CharClass::Space) == 0);
    assert(run_start(hashed, 7, CharClass::Space) == 7);
    assert(trim(hashed) =~= hashed);
}

fn mix_one(x: u8, amount: u8, y: u8) -> (r: u8)
    ensures
        r == mix_channel(x, amount, y),
{
    assert(0 <= x * amount <= 255 * 255) by (nonlinear_arith)
        requires
            0 <= x <= 255,
            0 <= amount <= 255,
    ;
    assert(-255 * 155 <= y * (100 - amount) <= 255 * 100) by (nonlinear_arith)
        requires
            0 <= y <= 255,
            0 <= amount <= 255,
    ;
    let first: i32 = x as i32 * amount as i32;
    let second: i32 = y as i32 * (100 - amount as i32);
    let v: i32 = first + second;
    if v <= 0 {
        0
    } else if v / 100 > 255 {
        255
    } else {
        (v / 100) as u8
    }
}

fn hex_digit_value(c: char) -> (v: u8)
    requires
        is_hex(c),
    ensures
        v == hex_value(c),
        v < 16,
{
    let n: u32 = c as u32;
    if '0' <= c && c <= '9' {
        (n - 0x30) as u8
    } else if 'a' <= c && c <= 'f' {
        (n - 0x61 + 10) as u8
    } else {
        (n - 0x41 + 10) as u8
    }
}

fn push_hex_pair(out: &mut String, v: u8)
    ensures
        final(out)@ == old(out)@ + hex_pair(v),
{
    let digits = "0123456789ABCDEF";
    proof {
        reveal_strlit("0123456789ABCDEF");
    }
    let hi: usize = (v / 16) as usize;
    let lo: usize = (v % 16) as usize;
    let ghost before = out@;
    out.append(digits.substring_char(hi, hi + 1));
    out.append(digits.substring_char(lo, lo + 1));
    assert(digits@.subrange(hi as int, hi + 1) =~= seq![upper_hex_digit(hi as int)]);
    assert(digits@.subrange(lo as int, lo + 1) =~= seq![upper_hex_digit(lo as int)]);
    assert(out@ =~= before + hex_pair(v));
}

impl RGB {
    /// Reads a color from hexadecimal text: an optional `#` and six hexadecimal
    /// digits, with white space allowed around them.
    pub fn new_from_hex(hex: &str) -> (r: Result<Self, String>)
        ensures
            match r {
                Ok(c) => is_hex_color(trim(hex@)) && c == color_of_hex(trim(hex@)),
                Err(e) => !is_hex_color(trim(hex@)) && e@ == invalid_hex_message(trim(hex@)),
            },
    {
        let cs = to_chars(hex);
        let (a, b) = trim_bounds(&cs);
        let ghost t = trim(hex@);
        let start: usize = if a < b && cs[a] == '#' {
            a + 1
        } else {
            a
        };
        assert(hex_digits(t) =~= cs@.subrange(start as int, b as int));
        let ok = b - start == 6 && all_in_class(&cs, start, b, CharClass::Hex);
        proof {
            let d = hex_digits(t);
            if ok {
                assert forall|j: int| 0 <= j < 6 implies is_hex(#[trigger] d[j]) by {
                    assert(d[j] == cs@[start + j]);
                }
            } else if b - start == 6 {
                let j = choose|j: int| start <= j < b && !in_class(CharClass::Hex, cs@[j]);
                assert(d[j - start] == cs@[j]);
            }
        }
        if !ok {
            let mut e = String::from_str("Invalid hex color `");
            e.append(hex.substring_char(a, b));
            e.append("`");
            return Err(e);
        }
        let r = hex_digit_value(cs[start]) * 16 + hex_digit_value(cs[start + 1]);
        let g = hex_digit_value(cs[start + 2]) * 16 + hex_digit_value(cs[start + 3]);
        let bl = hex_digit_value(cs[start + 4]) * 16 + hex_digit_value(cs[start + 5]);
        proof {
            let d = hex_digits(t);
            assert(forall|j: int| 0 <= j < 6 ==> d[j] == cs@[start + j]);
        }
        Ok(RGB(r, g, bl))
    }

    /// Mixes this color with `color`: `amount` hundredths of this one, the rest
    /// of the other.
    pub fn mix(&self, amount: u8, color: &Self) -> (r: Self)
        ensures
            r == mix_colors(*self, amount, *color),
            amount == 100 ==> r == *self,
            amount == 0 ==> r == *color,
    {
        proof {
            lemma_mix_bounds(*self, amount, *color);
        }
        RGB(
            mix_one(self.0, amount, color.0),
            mix_one(self.1, amount, color.1),
            mix_one(self.2, amount, color.2),
        )
    }

    /// Writes the color in the format named `format`: `#6h` gives `#RRGGBB`,
    /// `6h` gives `RRGGBB`, both in upper case; any other name is an error.
    pub fn format(&self, format: &String) -> (r: Result<String, String>)
        ensures
            match r {
                Ok(s) => written(*self, format@) == Some(s@),
                Err(e) => written(*self, format@) is None && e@ == invalid_format_message(format@),
            },
    {
        proof {
            reveal_strlit("#");
        }
        let mut out = if same_text(format.as_str(), HEX_6_DIGITS_W_HASHTAG) {
            String::from_str("#")
        } else if same_text(format.as_str(), HEX_6_DIGITS_WO_HASHTAG) {
            String::new()
        } else {
            let mut e = String::from_str("Invalid color format `");
            e.append(format.as_str());
            e.append("`");
            return Err(e);
        };
        let ghost head = out@;
        push_hex_pair(&mut out, self.0);
        push_hex_pair(&mut out, self.1);
        push_hex_pair(&mut out, self.2);
        assert(out@ =~= head + hex_text(*self));
        assert("#"@ =~= seq!['#']);
        Ok(out)
    }
}

} // verus!
