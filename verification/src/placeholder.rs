//! The placeholders of a blueprint's body: `{name}` for a color of the table,
//! `{name:amount:name}` for a mix of two, each replaced by the color as text.

use crate::colortable::{composite_step, ColorTable};
use crate::directive::Directive;
use crate::rgb::{written, RGB};
use crate::text::{is_ascii_digit, lemma_run_end, run_end, scan_run, to_chars, CharClass};
use vstd::prelude::*;
use vstd::string::*;

verus! {

/// The parts of a placeholder that starts at some `{`: where its first name
/// ends and, for a mix, where the amount and the second name end. The first
/// name starts behind the `{`, the amount and the second name each behind a
/// `:`, and the `}` stands where the last name ends.
pub struct Span {
    pub name_end: int,
    pub mix: Option<(int, int)>,
}

impl Span {
    /// The index behind the closing `}`.
    pub open spec fn end(self) -> int {
        match self.mix {
            None => self.name_end + 1,
            Some(m) => m.1 + 1,
        }
    }
}

/// The placeholder that starts at index `i` of `s`, if one does: `{`, a name
/// of one or more letters, digits and `_`, and `}`; or `{`, a name, `:`, one or
/// more digits, `:`, a name, and `}`.
pub open spec fn placeholder_at(s: Seq<char>, i: int) -> Option<Span> {
    if !(0 <= i < s.len()) || s[i] != '{' {
        None
    } else {
        let name_end = run_end(s, i + 1, CharClass::Word);
        if name_end == i + 1 || name_end >= s.len() {
            None
        } else if s[name_end] == '}' {
            Some(Span { name_end, mix: None })
        } else if s[name_end] == ':' {
            let amount_end = run_end(s, name_end + 1, CharClass::Digit);
            if amount_end == name_end + 1 || amount_end >= s.len() || s[amount_end] != ':' {
                None
            } else {
                let second_end = run_end(s, amount_end + 1, CharClass::Word);
                if second_end == amount_end + 1 || second_end >= s.len() || s[second_end] != '}' {
                    None
                } else {
                    Some(Span { name_end, mix: Some((amount_end, second_end)) })
                }
            }
        } else {
            None
        }
    }
}

/// Whether every character of `digits` is one of `0` to `9`.
pub open spec fn all_ascii_digits(digits: Seq<char>) -> bool {
    forall|i: int| 0 <= i < digits.len() ==> is_ascii_digit(#[trigger] digits[i])
}

/// The number that a text of the digits `0` to `9` stands for.
pub open spec fn decimal_value(digits: Seq<char>) -> nat
    decreases digits.len(),
{
    if digits.len() == 0 {
        0
    } else {
        (decimal_value(digits.drop_last()) * 10 + (digits.last() as int - '0' as int)) as nat
    }
}

/// The amount that the digits of a placeholder stand for: their number, where
/// each is one of `0` to `9` and the number fits a byte. Digits of another
/// script stand for no amount.
pub open spec fn amount_of(digits: Seq<char>) -> Option<u8> {
    if all_ascii_digits(digits) && decimal_value(digits) <= 255 {
        Some(decimal_value(digits) as u8)
    } else {
        None
    }
}

/// A longer text of digits stands for no smaller number.
pub proof fn lemma_decimal_value_grows(digits: Seq<char>, n: int)
    requires
        all_ascii_digits(digits),
        0 <= n <= digits.len(),
    ensures
        decimal_value(digits.take(n)) <= decimal_value(digits),
    decreases digits.len() - n,
{
    if n < digits.len() {
        lemma_decimal_value_grows(digits, n + 1);
        let longer = digits.take(n + 1);
        assert(longer.drop_last() =~= digits.take(n));
        assert(is_ascii_digit(digits[n]));
        assert(longer.last() == digits[n]);
    } else {
        assert(digits.take(n) =~= digits);
    }
}

/// The amount that the characters from index `from` up to `to` stand for.
fn read_amount(cs: &Vec<char>, from: usize, to: usize) -> (r: Option<u8>)
    requires
        from <= to <= cs.len(),
    ensures
        r == amount_of(cs@.subrange(from as int, to as int)),
{
    let ghost digits = cs@.subrange(from as int, to as int);
    let mut value: u32 = 0;
    let mut i: usize = from;
    assert(digits.take(0) =~= Seq::<char>::empty());
    while i < to
        invariant
            from <= i <= to <= cs.len(),
            digits == cs@.subrange(from as int, to as int),
            all_ascii_digits(digits.take(i - from)),
            value == decimal_value(digits.take(i - from)),
            value <= 255,
        decreases to - i,
    {
        let c = cs[i];
        if !('0' <= c && c <= '9') {
            assert(!is_ascii_digit(digits[i - from]));
            return None;
        }
        proof {
            let longer = digits.take(i - from + 1);
            assert(longer.drop_last() =~= digits.take(i - from));
            assert(longer.last() == c);
            assert forall|j: int| 0 <= j < longer.len() implies is_ascii_digit(
                #[trigger] longer[j],
            ) by {
                if j < i - from {
                    assert(longer[j] == digits.take(i - from)[j]);
                }
            }
        }
        value = value * 10 + (c as u32 - 0x30);
        if value > 255 {
            proof {
                if all_ascii_digits(digits) {
                    lemma_decimal_value_grows(digits, i - from + 1);
                }
            }
            return None;
        }
        i = i + 1;
    }
    assert(digits.take(to - from) =~= digits);
    Some(value as u8)
}

/// What the scanner finds at an index of a line: a placeholder for a color, one
/// for a mix, or none. A placeholder is told by the indices at which its parts
/// end: the first name starts behind the `{`, the amount and the second name
/// each behind a `:`, and the `}` stands where the last name ends.
#[derive(Clone, Copy, Debug, PartialEq, Eq, Structural)]
pub enum Placeholder {
    /// `{name}`.
    PlainColor { name_end: usize },
    /// `{name:amount:name}`.
    Composite { name_end: usize, amount_end: usize, second_end: usize },
    /// No placeholder starts here.
    NoMatch,
}

impl View for Placeholder {
    type V = Option<Span>;

    open spec fn view(&self) -> Option<Span> {
        match *self {
            Placeholder::PlainColor { name_end } => Some(
                Span { name_end: name_end as int, mix: None },
            ),
            Placeholder::Composite { name_end, amount_end, second_end } => Some(
                Span { name_end: name_end as int, mix: Some((amount_end as int, second_end as int)) },
            ),
            Placeholder::NoMatch => None,
        }
    }
}

impl Placeholder {
    /// Whether this is what stands at index `i` of `s`, with its parts inside
    /// the text.
    pub open spec fn placed(self, s: Seq<char>, i: int) -> bool {
        &&& self@ == placeholder_at(s, i)
        &&& match self {
            Placeholder::PlainColor { name_end } => i + 1 < name_end < s.len(),
            Placeholder::Composite { name_end, amount_end, second_end } => {
                &&& i + 1 < name_end
                &&& name_end + 1 < amount_end
                &&& amount_end + 1 < second_end < s.len()
            },
            Placeholder::NoMatch => true,
        }
    }
}

/// The placeholder that starts at index `i` of a line, if one does.
pub fn scan_placeholder(cs: &Vec<char>, i: usize) -> (r: Placeholder)
    ensures
        r.placed(cs@, i as int),
{
    if i >= cs.len() || cs[i] != '{' {
        return Placeholder::NoMatch;
    }
    let name_end = scan_run(cs, i + 1, CharClass::Word);
    if name_end == i + 1 || name_end >= cs.len() {
        return Placeholder::NoMatch;
    }
    if cs[name_end] == '}' {
        return Placeholder::PlainColor { name_end };
    }
    if cs[name_end] != ':' {
        return Placeholder::NoMatch;
    }
    let amount_end = scan_run(cs, name_end + 1, CharClass::Digit);
    if amount_end == name_end + 1 || amount_end >= cs.len() || cs[amount_end] != ':' {
        return Placeholder::NoMatch;
    }
    let second_end = scan_run(cs, amount_end + 1, CharClass::Word);
    if second_end == amount_end + 1 || second_end >= cs.len() || cs[second_end] != '}' {
        return Placeholder::NoMatch;
    }
    Placeholder::Composite { name_end, amount_end, second_end }
}

/// The text of each of `v`, in order.
pub open spec fn texts_of(v: Seq<String>) -> Seq<Seq<char>> {
    Seq::new(v.len(), |i: int| v[i]@)
}

/// The color that the placeholder at index `i` asks for, and the table after
/// it was asked: a plain name is looked up as it stands; a mix goes through
/// the table's cache, and one whose amount does not fit a byte has no color.
pub open spec fn lookup(table: Map<Seq<char>, RGB>, s: Seq<char>, i: int, span: Span) -> (
    Map<Seq<char>, RGB>,
    Option<RGB>,
) {
    let first = s.subrange(i + 1, span.name_end);
    match span.mix {
        None => (
            table,
            if table.contains_key(first) {
                Some(table[first])
            } else {
                None
            },
        ),
        Some(m) => match amount_of(s.subrange(span.name_end + 1, m.0)) {
            None => (table, None),
            Some(amount) => composite_step(table, first, amount, s.subrange(m.0 + 1, m.1)),
        },
    }
}

/// What stands in place of a placeholder: the color as text, or nothing where
/// there is no color or no such format.
pub open spec fn replacement(color: Option<RGB>, format: Seq<char>) -> Seq<char> {
    match color {
        None => Seq::empty(),
        Some(c) => match written(c, format) {
            None => Seq::empty(),
            Some(text) => text,
        },
    }
}

/// The warning for a placeholder whose color the table does not have.
pub open spec fn retrieving_message(blueprint: Seq<char>, inner: Seq<char>) -> Seq<char> {
    "While parsing blueprint `"@ + blueprint + "`. An error occurred while retrieving color `"@
        + inner + "`. Can't replace it in the blueprint."@
}

/// The warning for a placeholder whose color cannot be written in the format.
pub open spec fn formatting_message(
    blueprint: Seq<char>,
    inner: Seq<char>,
    format: Seq<char>,
) -> Seq<char> {
    "While parsing blueprint `"@ + blueprint + "`. An error occurred while formatting color `"@
        + inner + "` as `"@ + format + "`. Can't replace it in the blueprint."@
}

/// The warnings that a placeholder gives rise to: one where nothing could be
/// put in its place, none else. `inner` is the placeholder without its braces.
pub open spec fn warnings_for(
    color: Option<RGB>,
    format: Seq<char>,
    inner: Seq<char>,
    blueprint: Seq<char>,
) -> Seq<Seq<char>> {
    match color {
        None => seq![retrieving_message(blueprint, inner)],
        Some(c) => if written(c, format) is None {
            seq![formatting_message(blueprint, inner, format)]
        } else {
            Seq::empty()
        },
    }
}

/// A line after its placeholders were replaced, the table after the mixes it
/// asked for, and the warnings it gave rise to.
pub struct Rendered {
    pub text: Seq<char>,
    pub table: Map<Seq<char>, RGB>,
    pub warnings: Seq<Seq<char>>,
}

/// The rendering of `s` from index `i` on, in one pass from left to right: a
/// placeholder that starts at the index is replaced and the pass goes on
/// behind it; any other character is kept.
pub open spec fn render_from(
    s: Seq<char>,
    i: int,
    table: Map<Seq<char>, RGB>,
    format: Seq<char>,
    blueprint: Seq<char>,
) -> Rendered
    decreases s.len() - i,
    via render_from_decreases
{
    if !(0 <= i < s.len()) {
        Rendered { text: Seq::empty(), table, warnings: Seq::empty() }
    } else {
        match placeholder_at(s, i) {
            None => {
                let rest = render_from(s, i + 1, table, format, blueprint);
                Rendered { text: seq![s[i]] + rest.text, table: rest.table, warnings: rest.warnings }
            },
            Some(span) => {
                let found = lookup(table, s, i, span);
                let rest = render_from(s, span.end(), found.0, format, blueprint);
                Rendered {
                    text: replacement(found.1, format) + rest.text,
                    table: rest.table,
                    warnings: warnings_for(
                        found.1,
                        format,
                        s.subrange(i + 1, span.end() - 1),
                        blueprint,
                    ) + rest.warnings,
                }
            },
        }
    }
}

#[via_fn]
proof fn render_from_decreases(
    s: Seq<char>,
    i: int,
    table: Map<Seq<char>, RGB>,
    format: Seq<char>,
    blueprint: Seq<char>,
) {
    if 0 <= i < s.len() {
        lemma_placeholder_bounds(s, i);
    }
}

/// A placeholder is not empty and ends inside the text.
pub proof fn lemma_placeholder_bounds(s: Seq<char>, i: int)
    requires
        0 <= i < s.len(),
    ensures
        match placeholder_at(s, i) {
            None => true,
            Some(span) => i + 1 < span.name_end < span.end() <= s.len(),
        },
{
    lemma_run_end(s, i + 1, CharClass::Word);
    let name_end = run_end(s, i + 1, CharClass::Word);
    if name_end < s.len() {
        lemma_run_end(s, name_end + 1, CharClass::Digit);
        let amount_end = run_end(s, name_end + 1, CharClass::Digit);
        if amount_end < s.len() {
            lemma_run_end(s, amount_end + 1, CharClass::Word);
        }
    }
}

/// The color that the placeholder at index `i` of the line asks for.
fn find_color(
    line: &str,
    cs: &Vec<char>,
    i: usize,
    token: Placeholder,
    colors: &mut ColorTable,
) -> (r: Option<RGB>)
    requires
        cs@ == line@,
        token != Placeholder::NoMatch,
        token.placed(cs@, i as int),
    ensures
        (final(colors)@, r) == lookup(old(colors)@, line@, i as int, token@->Some_0),
{
    match token {
        Placeholder::NoMatch => None,
        Placeholder::PlainColor { name_end } => {
            match colors.get(line.substring_char(i + 1, name_end)) {
                Some(c) => Some(*c),
                None => None,
            }
        },
        Placeholder::Composite { name_end, amount_end, second_end } => {
            match read_amount(cs, name_end + 1, amount_end) {
                None => None,
                Some(amount) => {
                    let first = String::from_str(line.substring_char(i + 1, name_end));
                    let second = String::from_str(line.substring_char(amount_end + 1, second_end));
                    match colors.get_composite(&first, amount, &second) {
                        Some(c) => Some(*c),
                        None => None,
                    }
                },
            }
        },
    }
}

/// Puts a color in the place of a placeholder, or warns that there is nothing
/// to put there; `inner` is the placeholder without its braces.
fn put_color(
    color: Option<RGB>,
    inner: &str,
    directives: &Directive,
    blueprint: &str,
    out: &mut String,
    warnings: &mut Vec<String>,
)
    ensures
        final(out)@ == old(out)@ + replacement(color, directives@.color_format),
        texts_of(final(warnings)@) == texts_of(old(warnings)@) + warnings_for(
            color,
            directives@.color_format,
            inner@,
            blueprint@,
        ),
{
    let ghost done = out@;
    let ghost warned = texts_of(warnings@);
    match color {
        None => {
            let mut w = String::from_str("While parsing blueprint `");
            w.append(blueprint);
            w.append("`. An error occurred while retrieving color `");
            w.append(inner);
            w.append("`. Can't replace it in the blueprint.");
            warnings.push(w);
        },
        Some(c) => match c.format(&directives.color_format) {
            Ok(text) => {
                out.append(text.as_str());
            },
            Err(_) => {
                let mut w = String::from_str("While parsing blueprint `");
                w.append(blueprint);
                w.append("`. An error occurred while formatting color `");
                w.append(inner);
                w.append("` as `");
                w.append(directives.color_format.as_str());
                w.append("`. Can't replace it in the blueprint.");
                warnings.push(w);
            },
        },
    }
    assert(out@ =~= done + replacement(color, directives@.color_format));
    assert(texts_of(warnings@) =~= warned + warnings_for(
        color,
        directives@.color_format,
        inner@,
        blueprint@,
    ));
}

/// Replaces the placeholders of a line of a blueprint's body by their colors,
/// written in the format that `directives` holds. A placeholder whose color
/// the table lacks, or whose color cannot be written, leaves nothing in its
/// place and a warning that names `blueprint`; the rest of the line is
/// rendered all the same. Returns the rendered line and the warnings.
pub fn parse_color(
    line: &str,
    colors: &mut ColorTable,
    directives: &Directive,
    blueprint: &str,
) -> (r: (String, Vec<String>))
    ensures
        ({
            let want = render_from(
                line@,
                0,
                old(colors)@,
                directives@.color_format,
                blueprint@,
            );
            &&& r.0@ == want.text
            &&& final(colors)@ == want.table
            &&& texts_of(r.1@) == want.warnings
        }),
{
    let cs = to_chars(line);
    let mut out = String::new();
    let mut warnings: Vec<String> = Vec::new();
    let ghost table0 = colors@;
    let ghost format = directives@.color_format;
    let ghost all = render_from(line@, 0, table0, format, blueprint@);
    let mut i: usize = 0;
    let mut copied: usize = 0;
    assert(texts_of(warnings@) =~= Seq::<Seq<char>>::empty());
    assert(out@ + line@.subrange(0, 0) + all.text =~= all.text);
    while i < cs.len()
        invariant
            copied <= i <= cs.len(),
            cs@ == line@,
            format == directives@.color_format,
            all == render_from(line@, 0, table0, format, blueprint@),
            all.text == out@ + line@.subrange(copied as int, i as int) + render_from(
                line@,
                i as int,
                colors@,
                format,
                blueprint@,
            ).text,
            all.table == render_from(line@, i as int, colors@, format, blueprint@).table,
            all.warnings == texts_of(warnings@) + render_from(
                line@,
                i as int,
                colors@,
                format,
                blueprint@,
            ).warnings,
        decreases cs.len() - i,
    {
        let ghost here = render_from(line@, i as int, colors@, format, blueprint@);
        let ghost done = out@;
        let ghost warned = texts_of(warnings@);
        let token = scan_placeholder(&cs, i);
        let end: usize = match token {
            Placeholder::NoMatch => i,
            Placeholder::PlainColor { name_end } => name_end + 1,
            Placeholder::Composite { second_end, .. } => second_end + 1,
        };
        if end == i {
            proof {
                let rest = render_from(line@, i + 1, colors@, format, blueprint@);
                assert(here.text == seq![line@[i as int]] + rest.text);
                assert(line@.subrange(copied as int, i as int) + seq![line@[i as int]]
                    =~= line@.subrange(copied as int, i + 1));
                assert(out@ + line@.subrange(copied as int, i as int) + (seq![line@[i as int]]
                    + rest.text) =~= out@ + line@.subrange(copied as int, i + 1) + rest.text);
            }
            i = i + 1;
        } else {
            out.append(line.substring_char(copied, i));
            let color = find_color(line, &cs, i, token, colors);
            let inner = line.substring_char(i + 1, end - 1);
            put_color(color, inner, directives, blueprint, &mut out, &mut warnings);
            proof {
                let rest = render_from(line@, end as int, colors@, format, blueprint@);
                let put = replacement(color, format);
                let new_warnings = warnings_for(color, format, inner@, blueprint@);
                assert(token@->Some_0.end() == end);
                assert(here.text == put + rest.text);
                assert(here.warnings == new_warnings + rest.warnings);
                assert(line@.subrange(end as int, end as int) =~= Seq::<char>::empty());
                assert(out@ + line@.subrange(end as int, end as int) + rest.text =~= done
                    + line@.subrange(copied as int, i as int) + (put + rest.text));
                assert(texts_of(warnings@) + rest.warnings =~= warned + (new_warnings
                    + rest.warnings));
            }
            i = end;
            copied = end;
        }
    }
    out.append(line.substring_char(copied, cs.len()));
    proof {
        let rest = render_from(line@, i as int, colors@, format, blueprint@);
        assert(rest.text =~= Seq::<char>::empty());
        assert(all.text =~= out@);
        assert(all.warnings =~= texts_of(warnings@));
    }
    (out, warnings)
}

} // verus!
