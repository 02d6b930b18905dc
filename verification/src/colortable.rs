//! The color table: the colors of a colorscheme by name, and the mixes of two
//! of them, each computed once and kept under a name of its own.

use crate::config::{
    color_name_known, is_color_name, COLOR_NAMES, HEX_6_DIGITS_W_HASHTAG,
    MIXED_COLOR_FIELD_SEPARATOR,
};
use crate::rgb::{color_of_hex, hex_text, invalid_hex_message, is_hex_color, mix_colors, RGB};
use crate::text::trim;
use vstd::hash_map::StringHashMap;
use vstd::prelude::*;
use vstd::string::*;

verus! {

/// The decimal digit for `n`, which is below 10.
pub open spec fn decimal_digit(n: int) -> char {
    ('0' as int + n) as char
}

/// The decimal text of a byte, without leading zeros.
pub open spec fn decimal_text(n: u8) -> Seq<char> {
    if n < 10 {
        seq![decimal_digit(n as int)]
    } else if n < 100 {
        seq![decimal_digit(n as int / 10), decimal_digit(n as int % 10)]
    } else {
        seq![
            decimal_digit(n as int / 100),
            decimal_digit(n as int / 10 % 10),
            decimal_digit(n as int % 10),
        ]
    }
}

/// The name under which the table keeps the mix of `color1` and `color2`: the
/// two names with the amount between them, the fields separated by `:`.
pub open spec fn composite_key(color1: Seq<char>, amount: u8, color2: Seq<char>) -> Seq<char> {
    color1 + MIXED_COLOR_FIELD_SEPARATOR@ + decimal_text(amount) + MIXED_COLOR_FIELD_SEPARATOR@
        + color2
}

/// What asking for the mix of `color1` and `color2` does to a table and what it
/// answers. A mix that the table holds is answered from it. One that it lacks is
/// computed from the two colors, where the table holds both, and kept. Where
/// either is missing there is no answer and the table stays as it is.
pub open spec fn composite_step(
    table: Map<Seq<char>, RGB>,
    color1: Seq<char>,
    amount: u8,
    color2: Seq<char>,
) -> (Map<Seq<char>, RGB>, Option<RGB>) {
    let key = composite_key(color1, amount, color2);
    if table.contains_key(key) {
        (table, Some(table[key]))
    } else if table.contains_key(color1) && table.contains_key(color2) {
        let mixed = mix_colors(table[color1], amount, table[color2]);
        (table.insert(key, mixed), Some(mixed))
    } else {
        (table, None)
    }
}

/// Asking for the same mix a second time changes nothing and gives the answer
/// of the first time.
pub proof fn lemma_composite_repeats(
    table: Map<Seq<char>, RGB>,
    color1: Seq<char>,
    amount: u8,
    color2: Seq<char>,
)
    ensures
        ({
            let first = composite_step(table, color1, amount, color2);
            let second = composite_step(first.0, color1, amount, color2);
            second == first
        }),
{
    let first = composite_step(table, color1, amount, color2);
    let second = composite_step(first.0, color1, amount, color2);
    assert(second.0 =~= first.0);
}

/// The decimal text of a byte holds digits only, and no two bytes have the
/// same text.
pub proof fn lemma_decimal_text(n: u8, m: u8)
    ensures
        1 <= decimal_text(n).len() <= 3,
        forall|i: int| 0 <= i < decimal_text(n).len() ==> '0' <= #[trigger] decimal_text(n)[i] <= '9',
        decimal_text(n) == decimal_text(m) ==> n == m,
{
    let x = decimal_text(n);
    let y = decimal_text(m);
    if x == y {
        assert(x.len() == y.len());
        assert(x[0] == y[0]);
        if x.len() >= 2 {
            assert(x[1] == y[1]);
        }
        if x.len() >= 3 {
            assert(x[2] == y[2]);
        }
    }
}

/// The name under which a mix is kept tells the mix: where neither first
/// color's name holds the separator, two mixes with the same name are the
/// same mix, of the same colors in the same order and by the same amount.
pub proof fn lemma_composite_key_unique(
    a: Seq<char>,
    k: u8,
    b: Seq<char>,
    a2: Seq<char>,
    k2: u8,
    b2: Seq<char>,
)
    requires
        !a.contains(':'),
        !a2.contains(':'),
        composite_key(a, k, b) == composite_key(a2, k2, b2),
    ensures
        a == a2,
        k == k2,
        b == b2,
{
    reveal_strlit(":");
    let sep = MIXED_COLOR_FIELD_SEPARATOR@;
    assert(sep =~= seq![':']);
    let d = decimal_text(k);
    let d2 = decimal_text(k2);
    lemma_decimal_text(k, k2);
    lemma_decimal_text(k2, k);
    let key = composite_key(a, k, b);
    let key2 = composite_key(a2, k2, b2);
    assert(key.len() == a.len() + d.len() + b.len() + 2);
    assert(key2.len() == a2.len() + d2.len() + b2.len() + 2);
    assert(key[a.len() as int] == ':');
    assert(key2[a2.len() as int] == ':');
    if a.len() < a2.len() {
        assert(key2[a.len() as int] == a2[a.len() as int]);
        assert(a2.contains(a2[a.len() as int]));
    }
    if a2.len() < a.len() {
        assert(key[a2.len() as int] == a[a2.len() as int]);
        assert(a.contains(a[a2.len() as int]));
    }
    assert(a =~= a2) by {
        assert forall|i: int| 0 <= i < a.len() implies a[i] == a2[i] by {
            assert(key[i] == a[i]);
            assert(key2[i] == a2[i]);
        }
    }
    let p: int = a.len() as int + 1;
    assert(key[p + d.len()] == ':');
    assert(key2[p + d2.len()] == ':');
    if d.len() < d2.len() {
        assert(key2[p + d.len()] == d2[d.len() as int]);
    }
    if d2.len() < d.len() {
        assert(key[p + d2.len()] == d[d2.len() as int]);
    }
    assert(d =~= d2) by {
        assert forall|i: int| 0 <= i < d.len() implies d[i] == d2[i] by {
            assert(key[p + i] == d[i]);
            assert(key2[p + i] == d2[i]);
        }
    }
    let q: int = p + d.len() as int + 1;
    assert(b =~= b2) by {
        assert forall|i: int| 0 <= i < b.len() implies b[i] == b2[i] by {
            assert(key[q + i] == b[i]);
            assert(key2[q + i] == b2[i]);
        }
    }
}

/// The name under which a mix is kept holds the separator, so it is the name
/// of no color: a color's name holds none.
pub proof fn lemma_composite_key_is_no_name(a: Seq<char>, k: u8, b: Seq<char>)
    ensures
        composite_key(a, k, b).contains(':'),
{
    reveal_strlit(":");
    let sep = MIXED_COLOR_FIELD_SEPARATOR@;
    assert(sep =~= seq![':']);
    let key = composite_key(a, k, b);
    assert(key[a.len() as int] == ':');
}

/// What the loader reports of a name that the colorscheme defines twice.
pub open spec fn already_defined_message(name: Seq<char>) -> Seq<char> {
    "Color `"@ + name + "` was already defined"@
}

/// What the loader reports of a name that no colorscheme may define.
pub open spec fn invalid_name_message(name: Seq<char>) -> Seq<char> {
    "Invalid color name `"@ + name + "`"@
}

/// What the loader reports of a color that the colorscheme lacks.
pub open spec fn missing_color_message(name: Seq<char>) -> Seq<char> {
    "Missing required color `"@ + name + "`"@
}

/// An entry of a colorscheme as plain text: the color's name and its
/// hexadecimal value.
pub open spec fn entry_text(e: (String, String)) -> (Seq<char>, Seq<char>) {
    (e.0@, e.1@)
}

/// The entries of a colorscheme as plain text, in order.
pub open spec fn entry_texts(entries: Seq<(String, String)>) -> Seq<(Seq<char>, Seq<char>)> {
    Seq::new(entries.len(), |i: int| entry_text(entries[i]))
}

/// What is wrong with one entry, given the table that the entries before it
/// made: its name was defined already, or is none of a colorscheme, or its
/// value is no hexadecimal color. The first of these that holds is reported.
pub open spec fn entry_error(table: Map<Seq<char>, RGB>, e: (Seq<char>, Seq<char>)) -> Option<
    Seq<char>,
> {
    if table.contains_key(e.0) {
        Some(already_defined_message(e.0))
    } else if !is_color_name(e.0) {
        Some(invalid_name_message(e.0))
    } else if !is_hex_color(trim(e.1)) {
        Some(invalid_hex_message(trim(e.1)))
    } else {
        None
    }
}

/// The table that the first `n` entries make, or what is wrong with the first
/// entry among them that is at fault.
pub open spec fn load_entries(entries: Seq<(Seq<char>, Seq<char>)>, n: int) -> Result<
    Map<Seq<char>, RGB>,
    Seq<char>,
>
    decreases n,
{
    if n <= 0 {
        Ok(Map::empty())
    } else {
        match load_entries(entries, n - 1) {
            Err(e) => Err(e),
            Ok(table) => match entry_error(table, entries[n - 1]) {
                Some(e) => Err(e),
                None => Ok(table.insert(entries[n - 1].0, color_of_hex(trim(entries[n - 1].1)))),
            },
        }
    }
}

/// The first color from index `i` on, in the order of `COLOR_NAMES`, that the
/// table lacks.
pub open spec fn first_missing(table: Map<Seq<char>, RGB>, i: int) -> Option<Seq<char>>
    decreases 19 - i,
{
    if 0 <= i < 19 {
        if table.contains_key(COLOR_NAMES[i]@) {
            first_missing(table, i + 1)
        } else {
            Some(COLOR_NAMES[i]@)
        }
    } else {
        None
    }
}

/// The table of a colorscheme, or what is wrong with it: the fault of the first
/// entry at fault, else the first color that is missing.
pub open spec fn load_colorscheme(entries: Seq<(Seq<char>, Seq<char>)>) -> Result<
    Map<Seq<char>, RGB>,
    Seq<char>,
> {
    match load_entries(entries, entries.len() as int) {
        Err(e) => Err(e),
        Ok(table) => match first_missing(table, 0) {
            Some(name) => Err(missing_color_message(name)),
            None => Ok(table),
        },
    }
}

/// Whether the table holds every color that a colorscheme defines.
pub open spec fn has_base_colors(table: Map<Seq<char>, RGB>) -> bool {
    forall|i: int| 0 <= i < 19 ==> table.contains_key((#[trigger] COLOR_NAMES[i])@)
}

/// Where no color is missing from index `i` on, the table holds them all from
/// there on.
pub proof fn lemma_first_missing_none(table: Map<Seq<char>, RGB>, i: int)
    requires
        0 <= i <= 19,
        first_missing(table, i) is None,
    ensures
        forall|j: int| i <= j < 19 ==> table.contains_key((#[trigger] COLOR_NAMES[j])@),
    decreases 19 - i,
{
    if i < 19 {
        lemma_first_missing_none(table, i + 1);
    }
}

/// The names of a table that the entries made are color names, each the name
/// of one of the entries.
pub proof fn lemma_load_entries_names(entries: Seq<(Seq<char>, Seq<char>)>, n: int)
    requires
        0 <= n <= entries.len(),
        load_entries(entries, n) is Ok,
    ensures
        forall|name: Seq<char>| #[trigger]
            load_entries(entries, n)->Ok_0.contains_key(name) ==> is_color_name(name) && exists|
                k: int,
            |
                0 <= k < n && (#[trigger] entries[k]).0 == name,
    decreases n,
{
    if n > 0 {
        lemma_load_entries_names(entries, n - 1);
        let before = load_entries(entries, n - 1)->Ok_0;
        let after = load_entries(entries, n)->Ok_0;
        assert forall|name: Seq<char>| #[trigger] after.contains_key(name) implies is_color_name(
            name,
        ) && exists|k: int| 0 <= k < n && (#[trigger] entries[k]).0 == name by {
            if name == entries[n - 1].0 {
                assert(entries[n - 1].0 == name);
            } else {
                assert(before.contains_key(name));
                let k = choose|k: int| 0 <= k < n - 1 && (#[trigger] entries[k]).0 == name;
                assert(entries[k].0 == name);
            }
        }
    }
}

/// A colorscheme that loads defines exactly the colors of `COLOR_NAMES`: the
/// table holds each of them and nothing else.
pub proof fn lemma_loaded_table(entries: Seq<(Seq<char>, Seq<char>)>)
    requires
        load_colorscheme(entries) is Ok,
    ensures
        has_base_colors(load_colorscheme(entries)->Ok_0),
        forall|name: Seq<char>|
            load_colorscheme(entries)->Ok_0.contains_key(name) <==> is_color_name(name),
{
    let table = load_entries(entries, entries.len() as int)->Ok_0;
    lemma_first_missing_none(table, 0);
    lemma_load_entries_names(entries, entries.len() as int);
    assert forall|name: Seq<char>| is_color_name(name) implies table.contains_key(name) by {
        let i = choose|i: int| 0 <= i < 19 && name == (#[trigger] COLOR_NAMES[i])@;
        assert(table.contains_key(COLOR_NAMES[i]@));
    }
}

/// Once an entry is at fault, the entries after it change nothing.
pub proof fn lemma_load_entries_err(entries: Seq<(Seq<char>, Seq<char>)>, n: int, m: int)
    requires
        n <= m,
    ensures
        load_entries(entries, n) is Err ==> load_entries(entries, m) == load_entries(entries, n),
    decreases m - n,
{
    if n < m {
        lemma_load_entries_err(entries, n, m - 1);
    }
}

/// The colorscheme of a table as text: for each color of `COLOR_NAMES` that
/// the table holds, among the first `n` and in their order, its name and its
/// value as `#RRGGBB`.
pub open spec fn hex_colors_upto(table: Map<Seq<char>, RGB>, n: int) -> Seq<
    (Seq<char>, Seq<char>),
>
    decreases n,
{
    if n <= 0 {
        Seq::empty()
    } else if table.contains_key(COLOR_NAMES[n - 1]@) {
        hex_colors_upto(table, n - 1).push(
            (COLOR_NAMES[n - 1]@, seq!['#'] + hex_text(table[COLOR_NAMES[n - 1]@])),
        )
    } else {
        hex_colors_upto(table, n - 1)
    }
}

fn push_digit(out: &mut String, d: u8)
    requires
        d < 10,
    ensures
        final(out)@ == old(out)@.push(decimal_digit(d as int)),
{
    let digits = "0123456789";
    proof {
        reveal_strlit("0123456789");
    }
    let i: usize = d as usize;
    let ghost before = out@;
    out.append(digits.substring_char(i, i + 1));
    assert(digits@.subrange(i as int, i + 1) =~= seq![decimal_digit(i as int)]);
    assert(out@ =~= before.push(decimal_digit(d as int)));
}

/// Appends the decimal text of `n` to `out`.
pub fn push_decimal(out: &mut String, n: u8)
    ensures
        final(out)@ == old(out)@ + decimal_text(n),
{
    let ghost before = out@;
    if n >= 100 {
        push_digit(out, n / 100);
    }
    if n >= 10 {
        push_digit(out, n / 10 % 10);
    }
    push_digit(out, n % 10);
    assert(out@ =~= before + decimal_text(n));
}

/// The colors of a colorscheme by name, with the mixes that were asked for.
pub struct ColorTable(StringHashMap<RGB>);

impl View for ColorTable {
    type V = Map<Seq<char>, RGB>;

    closed spec fn view(&self) -> Map<Seq<char>, RGB> {
        self.0@
    }
}

impl ColorTable {
    /// An empty table with room for `capacity` colors.
    pub fn with_capacity(capacity: usize) -> (r: ColorTable)
        ensures
            r@ == Map::<Seq<char>, RGB>::empty(),
    {
        ColorTable(StringHashMap::with_capacity(capacity))
    }

    /// The color kept under exactly the name `name`.
    pub fn get(&self, name: &str) -> (r: Option<&RGB>)
        ensures
            match r {
                Some(c) => self@.contains_key(name@) && *c == self@[name@],
                None => !self@.contains_key(name@),
            },
    {
        self.0.get(name)
    }

    /// Whether the table holds a color under the name `name`.
    pub fn contains_key(&self, name: &str) -> (r: bool)
        ensures
            r == self@.contains_key(name@),
    {
        self.0.contains_key(name)
    }

    /// Puts `color` under the name `name`, in place of what was there.
    pub fn insert(&mut self, name: String, color: RGB)
        ensures
            final(self)@ == old(self)@.insert(name@, color),
    {
        self.0.insert(name, color);
    }

    /// The name under which the table keeps the mix of `color1` and `color2`.
    pub fn composite_name(color1: &str, amount: u8, color2: &str) -> (r: String)
        ensures
            r@ == composite_key(color1@, amount, color2@),
    {
        let mut name = String::from_str(color1);
        name.append(MIXED_COLOR_FIELD_SEPARATOR);
        push_decimal(&mut name, amount);
        name.append(MIXED_COLOR_FIELD_SEPARATOR);
        name.append(color2);
        name
    }

    /// The mix of `color1` and `color2`, `amount` hundredths of the first: from
    /// the table where it holds that mix already, else computed from the two
    /// colors and kept. `None`, and no change, where the mix is not kept and
    /// either color is missing.
    pub fn get_composite(&mut self, color1: &String, amount: u8, color2: &String) -> (r: Option<
        &RGB,
    >)
        ensures
            final(self)@ == composite_step(old(self)@, color1@, amount, color2@).0,
            match r {
                Some(c) => Some(*c) == composite_step(old(self)@, color1@, amount, color2@).1,
                None => composite_step(old(self)@, color1@, amount, color2@).1 is None,
            },
    {
        let name = Self::composite_name(color1.as_str(), amount, color2.as_str());
        if self.0.contains_key(name.as_str()) {
            return self.get(name.as_str());
        }
        let composite = self._make_composite(color1, amount, color2);
        match composite {
            None => None,
            Some(mixed) => {
                self.0.insert(name.clone(), mixed);
                self.get(name.as_str())
            },
        }
    }

    /// The mix of the two colors, where the table holds both.
    pub fn _make_composite(&self, color1: &String, amount: u8, color2: &String) -> (r: Option<RGB>)
        ensures
            r == if self@.contains_key(color1@) && self@.contains_key(color2@) {
                Some(mix_colors(self@[color1@], amount, self@[color2@]))
            } else {
                None
            },
    {
        let first = self.get(color1.as_str());
        let second = self.get(color2.as_str());
        match (first, second) {
            (Some(a), Some(b)) => Some(a.mix(amount, b)),
            _ => None,
        }
    }
    /// The number of colors in the table, mixes included.
    pub fn len(&self) -> (r: usize)
        ensures
            r == self@.len(),
    {
        broadcast use vstd::hash_map::axiom_string_hash_map_spec_len;

        self.0.len()
    }

    /// Adds one entry of a colorscheme to the table that the entries before it
    /// made: the color `name` with the hexadecimal value `hex`. An entry whose
    /// name the table holds already, or is none of a colorscheme, or whose
    /// value is no hexadecimal color, is refused and changes nothing.
    pub fn add_entry(&mut self, name: &str, hex: &str) -> (r: Result<(), String>)
        ensures
            match r {
                Ok(_) => entry_error(old(self)@, (name@, hex@)) is None && final(self)@ == old(
                    self,
                )@.insert(name@, color_of_hex(trim(hex@))),
                Err(e) => entry_error(old(self)@, (name@, hex@)) == Some(e@) && final(self)@
                    == old(self)@,
            },
    {
        if self.contains_key(name) {
            let mut e = String::from_str("Color `");
            e.append(name);
            e.append("` was already defined");
            return Err(e);
        }
        if !color_name_known(name) {
            let mut e = String::from_str("Invalid color name `");
            e.append(name);
            e.append("`");
            return Err(e);
        }
        match RGB::new_from_hex(hex) {
            Err(e) => Err(e),
            Ok(color) => {
                self.insert(String::from_str(name), color);
                Ok(())
            },
        }
    }

    /// Whether the table holds every color of a colorscheme: an error that
    /// names the first color of `COLOR_NAMES` that it lacks.
    pub fn missing_color(&self) -> (r: Result<(), String>)
        ensures
            match r {
                Ok(_) => first_missing(self@, 0) is None && has_base_colors(self@),
                Err(e) => first_missing(self@, 0) matches Some(name) && e@
                    == missing_color_message(name),
            },
    {
        let mut k: usize = 0;
        while k < 19
            invariant
                k <= 19,
                first_missing(self@, 0) == first_missing(self@, k as int),
            decreases 19 - k,
        {
            if !self.contains_key(COLOR_NAMES[k]) {
                let mut e = String::from_str("Missing required color `");
                e.append(COLOR_NAMES[k]);
                e.append("`");
                return Err(e);
            }
            k = k + 1;
        }
        proof {
            lemma_first_missing_none(self@, 0);
        }
        Ok(())
    }

    /// The table of a colorscheme, from its entries in the order in which the
    /// colorscheme lists them: each a color's name and its hexadecimal value.
    /// A colorscheme defines each color of `COLOR_NAMES` exactly once and no
    /// other; the first entry at fault is reported, else the first color that
    /// is missing.
    pub fn from_entries(entries: &Vec<(String, String)>) -> (r: Result<ColorTable, String>)
        ensures
            match r {
                Ok(table) => load_colorscheme(entry_texts(entries@)) == Ok::<
                    Map<Seq<char>, RGB>,
                    Seq<char>,
                >(table@),
                Err(e) => load_colorscheme(entry_texts(entries@)) == Err::<
                    Map<Seq<char>, RGB>,
                    Seq<char>,
                >(e@),
            },
            r is Ok ==> has_base_colors(r->Ok_0@),
    {
        let ghost texts = entry_texts(entries@);
        let mut colors = ColorTable::with_capacity(entries.len());
        let mut i: usize = 0;
        while i < entries.len()
            invariant
                i <= entries.len(),
                texts == entry_texts(entries@),
                load_entries(texts, i as int) == Ok::<Map<Seq<char>, RGB>, Seq<char>>(colors@),
            decreases entries.len() - i,
        {
            assert(texts[i as int] == (entries[i as int].0@, entries[i as int].1@));
            proof {
                lemma_load_entries_err(texts, i + 1, entries.len() as int);
            }
            match colors.add_entry(entries[i].0.as_str(), entries[i].1.as_str()) {
                Err(e) => {
                    return Err(e);
                },
                Ok(_) => {},
            }
            i = i + 1;
        }
        match colors.missing_color() {
            Err(e) => Err(e),
            Ok(_) => {
                proof {
                    lemma_loaded_table(texts);
                }
                Ok(colors)
            },
        }
    }
    /// The colorscheme of the table as text, to keep a copy of it: the name of
    /// each color of `COLOR_NAMES` that the table holds, in their order, with
    /// its value as `#RRGGBB`. Mixes are left out.
    pub fn hex_colors(&self) -> (r: Vec<(String, String)>)
        ensures
            entry_texts(r@) == hex_colors_upto(self@, 19),
    {
        let mut out: Vec<(String, String)> = Vec::new();
        let format = String::from_str(HEX_6_DIGITS_W_HASHTAG);
        let mut i: usize = 0;
        assert(entry_texts(out@) =~= hex_colors_upto(self@, 0));
        while i < 19
            invariant
                i <= 19,
                format@ == HEX_6_DIGITS_W_HASHTAG@,
                entry_texts(out@) == hex_colors_upto(self@, i as int),
            decreases 19 - i,
        {
            let ghost before = entry_texts(out@);
            match self.get(COLOR_NAMES[i]) {
                None => {},
                Some(color) => {
                    match color.format(&format) {
                        Ok(text) => {
                            out.push((String::from_str(COLOR_NAMES[i]), text));
                            assert(entry_texts(out@) =~= before.push(
                                (COLOR_NAMES[i as int]@, text@),
                            ));
                        },
                        Err(_) => {},
                    }
                },
            }
            i = i + 1;
        }
        out
    }
}

} // verus!
