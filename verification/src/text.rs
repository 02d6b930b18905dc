//! Character classes and the scanning primitives that the grammars are built on.
//! Within ASCII every class is spelled out here. Beyond ASCII the letters and
//! digits are those of the `regex` crate's patterns `\w` and `\d`, which the
//! classes ask for one character at a time.

use vstd::prelude::*;
use vstd::string::*;

verus! {

/// The classes of characters that the grammars of this crate distinguish.
#[derive(Clone, Copy, Debug, PartialEq, Eq, Structural)]
pub enum CharClass {
    /// White space, as Unicode defines the property `White_Space`.
    Space,
    /// The characters of a color name: letters, digits and `_`, and beyond
    /// ASCII whatever the pattern `\w` holds.
    Word,
    /// The decimal digits, and beyond ASCII whatever the pattern `\d` holds.
    Digit,
    /// The characters of a directive's name: those of `Word`, and `-`.
    Key,
    /// The ASCII hexadecimal digits, in either case.
    Hex,
    /// The line feed.
    LineFeed,
    /// Every character but the line feed.
    Inline,
}

/// Whether the pattern `pattern`, as the `regex` crate reads it, matches the
/// text that holds the character `c` alone; false where the crate does not
/// take `pattern` for a pattern.
pub uninterp spec fn pattern_holds(pattern: Seq<char>, c: char) -> bool;

/// Whether `c` has the Unicode property `White_Space`.
pub open spec fn is_space(c: char) -> bool {
    let n = c as u32;
    ||| 0x09 <= n <= 0x0D
    ||| n == 0x20
    ||| n == 0x85
    ||| n == 0xA0
    ||| n == 0x1680
    ||| 0x2000 <= n <= 0x200A
    ||| n == 0x2028
    ||| n == 0x2029
    ||| n == 0x202F
    ||| n == 0x205F
    ||| n == 0x3000
}

/// Whether `c` is an ASCII character.
pub open spec fn is_ascii(c: char) -> bool {
    (c as u32) < 0x80
}

/// Whether `c` is one of the digits `0` to `9`.
pub open spec fn is_ascii_digit(c: char) -> bool {
    '0' <= c <= '9'
}

/// Whether `c` is a decimal digit: one of `0` to `9`, or a character beyond
/// ASCII that the pattern `\d` holds.
pub open spec fn is_digit(c: char) -> bool {
    if is_ascii(c) {
        is_ascii_digit(c)
    } else {
        pattern_holds("\\d"@, c)
    }
}

/// Whether `c` may stand in a color name: an ASCII letter or digit, `_`, or a
/// character beyond ASCII that the pattern `\w` holds.
pub open spec fn is_word(c: char) -> bool {
    if is_ascii(c) {
        ||| 'a' <= c <= 'z'
        ||| 'A' <= c <= 'Z'
        ||| is_ascii_digit(c)
        ||| c == '_'
    } else {
        pattern_holds("\\w"@, c)
    }
}

/// Whether `c` is an ASCII hexadecimal digit.
pub open spec fn is_hex(c: char) -> bool {
    ||| is_ascii_digit(c)
    ||| 'a' <= c <= 'f'
    ||| 'A' <= c <= 'F'
}

/// Whether `c` belongs to the class `k`.
pub open spec fn in_class(k: CharClass, c: char) -> bool {
    match k {
        CharClass::Space => is_space(c),
        CharClass::Word => is_word(c),
        CharClass::Digit => is_digit(c),
        CharClass::Key => is_word(c) || c == '-',
        CharClass::Hex => is_hex(c),
        CharClass::LineFeed => c == '\n',
        CharClass::Inline => c != '\n',
    }
}

/// The end of the longest run of characters of class `k` that starts at `i`:
/// the first index from `i` on whose character is outside the class, or the
/// length of `s` when there is none.
pub open spec fn run_end(s: Seq<char>, i: int, k: CharClass) -> int
    decreases s.len() - i,
{
    if 0 <= i < s.len() && in_class(k, s[i]) {
        run_end(s, i + 1, k)
    } else {
        i
    }
}

/// The start of the longest run of characters of class `k` that ends at `j`.
pub open spec fn run_start(s: Seq<char>, j: int, k: CharClass) -> int
    decreases j,
{
    if 0 < j <= s.len() && in_class(k, s[j - 1]) {
        run_start(s, j - 1, k)
    } else {
        j
    }
}

/// A run ends inside the text, holds only characters of its class, and cannot
/// be extended.
pub proof fn lemma_run_end(s: Seq<char>, i: int, k: CharClass)
    requires
        0 <= i <= s.len(),
    ensures
        i <= run_end(s, i, k) <= s.len(),
        forall|x: int| i <= x < run_end(s, i, k) ==> in_class(k, #[trigger] s[x]),
        run_end(s, i, k) < s.len() ==> !in_class(k, s[run_end(s, i, k)]),
    decreases s.len() - i,
{
    if i < s.len() && in_class(k, s[i]) {
        lemma_run_end(s, i + 1, k);
    }
}

/// Whether `c` is white space.
pub fn is_whitespace(c: char) -> (b: bool)
    ensures
        b == is_space(c),
{
    let n: u32 = c as u32;
    (0x09 <= n && n <= 0x0D) || n == 0x20 || n == 0x85 || n == 0xA0 || n == 0x1680 || (0x2000 <= n
        && n <= 0x200A) || n == 0x2028 || n == 0x2029 || n == 0x202F || n == 0x205F || n == 0x3000
}

/// `regex::Regex::new` and `regex::Regex::is_match`: whether `pattern`, read
/// as a pattern, matches the text that holds `c` alone. A text that is no
/// pattern matches nothing. The pattern is read anew at each call, which is
/// why the classes ask only for characters beyond ASCII.
#[verifier::external_body]
fn pattern_has(pattern: &str, c: char) -> (r: bool)
    ensures
        r == pattern_holds(pattern@, c),
{
    let mut buffer = [0u8; 4];
    match regex::Regex::new(pattern) {
        Ok(compiled) => compiled.is_match(c.encode_utf8(&mut buffer)),
        Err(_) => false,
    }
}

/// Whether `c` belongs to the class `k`.
pub fn class_has(k: CharClass, c: char) -> (b: bool)
    ensures
        b == in_class(k, c),
{
    let ascii = (c as u32) < 0x80;
    let digit = '0' <= c && c <= '9';
    let letter = ('a' <= c && c <= 'z') || ('A' <= c && c <= 'Z');
    match k {
        CharClass::Space => is_whitespace(c),
        CharClass::Word => if ascii {
            letter || digit || c == '_'
        } else {
            pattern_has("\\w", c)
        },
        CharClass::Digit => if ascii {
            digit
        } else {
            pattern_has("\\d", c)
        },
        CharClass::Key => if ascii {
            letter || digit || c == '_' || c == '-'
        } else {
            pattern_has("\\w", c)
        },
        CharClass::Hex => digit || ('a' <= c && c <= 'f') || ('A' <= c && c <= 'F'),
        CharClass::LineFeed => c == '\n',
        CharClass::Inline => c != '\n',
    }
}

/// The characters of `s`, in order.
pub fn to_chars(s: &str) -> (v: Vec<char>)
    ensures
        v@ == s@,
{
    let mut v: Vec<char> = Vec::new();
    for c in it: s.chars()
        invariant
            v@ == it.seq().take(it.index() as int),
            it.seq() == s@,
    {
        v.push(c);
    }
    v
}

/// Scans forward from index `i` over the characters of class `k`: the index
/// of the first character from there on that is outside the class, or the
/// length of the text.
pub fn scan_run(cs: &Vec<char>, i: usize, k: CharClass) -> (j: usize)
    ensures
        j == run_end(cs@, i as int, k),
        i <= j,
        i <= cs.len() ==> j <= cs.len(),
{
    let mut j: usize = i;
    while j < cs.len() && class_has(k, cs[j])
        invariant
            i <= j,
            i <= cs.len() ==> j <= cs.len(),
            run_end(cs@, i as int, k) == run_end(cs@, j as int, k),
        decreases cs.len() - j,
    {
        j = j + 1;
    }
    j
}

/// Scans backward from index `j` over the characters of class `k`: the index
/// of the first character of the run that ends before `j`.
pub fn scan_run_back(cs: &Vec<char>, j: usize, k: CharClass) -> (i: usize)
    ensures
        i == run_start(cs@, j as int, k),
        i <= j,
{
    if j > cs.len() {
        return j;
    }
    let mut i: usize = j;
    while i > 0 && class_has(k, cs[i - 1])
        invariant
            i <= j <= cs.len(),
            run_start(cs@, j as int, k) == run_start(cs@, i as int, k),
        decreases i,
    {
        i = i - 1;
    }
    i
}

/// `s` without the white space at its two ends.
pub open spec fn trim(s: Seq<char>) -> Seq<char> {
    let a = run_end(s, 0, CharClass::Space);
    let b = run_start(s, s.len() as int, CharClass::Space);
    if a < b {
        s.subrange(a, b)
    } else {
        Seq::empty()
    }
}

/// The bounds of `trim` within the text: the characters from the first to the
/// second index are the trimmed text.
pub fn trim_bounds(cs: &Vec<char>) -> (r: (usize, usize))
    ensures
        r.0 <= r.1 <= cs.len(),
        cs@.subrange(r.0 as int, r.1 as int) == trim(cs@),
{
    let a = scan_run(cs, 0, CharClass::Space);
    let b = scan_run_back(cs, cs.len(), CharClass::Space);
    if a < b {
        (a, b)
    } else {
        assert(cs@.subrange(a as int, a as int) =~= Seq::<char>::empty());
        (a, a)
    }
}

/// Whether the two texts hold the same characters.
pub fn same_text(a: &str, b: &str) -> (r: bool)
    ensures
        r == (a@ == b@),
{
    let x = to_chars(a);
    let y = to_chars(b);
    if x.len() != y.len() {
        return false;
    }
    let mut i: usize = 0;
    while i < x.len()
        invariant
            x.len() == y.len(),
            i <= x.len(),
            x@ == a@,
            y@ == b@,
            forall|j: int| 0 <= j < i ==> x@[j] == y@[j],
        decreases x.len() - i,
    {
        if x[i] != y[i] {
            return false;
        }
        i = i + 1;
    }
    assert(x@ =~= y@);
    true
}

/// Whether every character from index `from` up to `to` belongs to the class `k`.
pub(crate) fn all_in_class(cs: &Vec<char>, from: usize, to: usize, k: CharClass) -> (r: bool)
    requires
        from <= to <= cs.len(),
    ensures
        r == forall|j: int| from <= j < to ==> in_class(k, #[trigger] cs@[j]),
{
    let mut i: usize = from;
    while i < to
        invariant
            from <= i <= to <= cs.len(),
            forall|j: int| from <= j < i ==> in_class(k, #[trigger] cs@[j]),
        decreases to - i,
    {
        if !class_has(k, cs[i]) {
            return false;
        }
        i = i + 1;
    }
    true
}

} // verus!
