//! The cache of mixes never shows: what a line renders to depends on the
//! colorscheme alone, not on the mixes that the color table has kept so far.

use crate::colortable::{
    composite_key, composite_step, lemma_composite_key_is_no_name, lemma_composite_key_unique,
    lemma_loaded_table, load_colorscheme,
};
use crate::config::{is_color_name, COLOR_NAMES};
use crate::placeholder::{
    amount_of, lemma_placeholder_bounds, lookup, placeholder_at, render_from,
};
use crate::blueprint::{
    initial, render_blueprint, run_lines, table_after, BlueprintView, RendererView, Step,
};
use crate::directive::PathKind;
use crate::rgb::{mix_colors, RGB};
use crate::text::{in_class, lemma_run_end, CharClass};
use vstd::prelude::*;

verus! {

/// Whether a name is free of the separator of mixes, as the name of a color
/// is.
pub open spec fn is_plain(name: Seq<char>) -> bool {
    !name.contains(':')
}

/// Whether a table holds only names that are free of the separator: a
/// colorscheme with no mix kept yet.
pub open spec fn is_plain_table(base: Map<Seq<char>, RGB>) -> bool {
    forall|name: Seq<char>| #[trigger] base.contains_key(name) ==> is_plain(name)
}

/// Whether `value` under `key` is a mix of two colors of `base`, kept under
/// its own name.
pub open spec fn is_kept_mix(base: Map<Seq<char>, RGB>, key: Seq<char>, value: RGB) -> bool {
    exists|a: Seq<char>, k: u8, b: Seq<char>|
        {
            &&& is_plain(a)
            &&& #[trigger] composite_key(a, k, b) == key
            &&& base.contains_key(a)
            &&& base.contains_key(b)
            &&& value == mix_colors(base[a], k, base[b])
        }
}

/// Whether `table` is the colorscheme `base` with some of its mixes kept:
/// it holds every color of `base`, and whatever else it holds is a mix of two
/// of them under the mix's own name.
pub open spec fn extends(base: Map<Seq<char>, RGB>, table: Map<Seq<char>, RGB>) -> bool {
    &&& forall|name: Seq<char>| #[trigger]
        base.contains_key(name) ==> table.contains_key(name) && table[name] == base[name]
    &&& forall|key: Seq<char>| #[trigger]
        table.contains_key(key) ==> base.contains_key(key) || is_kept_mix(base, key, table[key])
}

/// A text of word characters is free of the separator.
pub proof fn lemma_words_are_plain(s: Seq<char>, from: int, to: int)
    requires
        0 <= from <= to <= s.len(),
        forall|x: int| from <= x < to ==> in_class(CharClass::Word, #[trigger] s[x]),
    ensures
        is_plain(s.subrange(from, to)),
{
    let name = s.subrange(from, to);
    if name.contains(':') {
        let j = choose|j: int| 0 <= j < name.len() && name[j] == ':';
        assert(in_class(CharClass::Word, s[from + j]));
    }
}

/// A placeholder asks the same of a colorscheme whatever mixes are kept: with
/// any table that extends the colorscheme it finds the same color, and leaves
/// a table that extends the colorscheme.
pub proof fn lemma_lookup_ignores_cache(
    base: Map<Seq<char>, RGB>,
    first: Map<Seq<char>, RGB>,
    second: Map<Seq<char>, RGB>,
    s: Seq<char>,
    i: int,
)
    requires
        is_plain_table(base),
        extends(base, first),
        extends(base, second),
        0 <= i < s.len(),
        placeholder_at(s, i) is Some,
    ensures
        ({
            let span = placeholder_at(s, i)->Some_0;
            &&& lookup(first, s, i, span).1 == lookup(second, s, i, span).1
            &&& extends(base, lookup(first, s, i, span).0)
            &&& extends(base, lookup(second, s, i, span).0)
        }),
{
    let span = placeholder_at(s, i)->Some_0;
    lemma_placeholder_bounds(s, i);
    lemma_run_end(s, i + 1, CharClass::Word);
    let a = s.subrange(i + 1, span.name_end);
    lemma_words_are_plain(s, i + 1, span.name_end);
    match span.mix {
        None => {
            lemma_plain_lookup(base, first, a);
            lemma_plain_lookup(base, second, a);
        },
        Some(m) => {
            lemma_run_end(s, span.name_end + 1, CharClass::Digit);
            lemma_run_end(s, m.0 + 1, CharClass::Word);
            let b = s.subrange(m.0 + 1, m.1);
            lemma_words_are_plain(s, m.0 + 1, m.1);
            match amount_of(s.subrange(span.name_end + 1, m.0)) {
                None => {},
                Some(k) => {
                    lemma_step_ignores_cache(base, first, a, k, b);
                    lemma_step_ignores_cache(base, second, a, k, b);
                },
            }
        },
    }
}

/// A table that extends a colorscheme holds a plain name exactly where the
/// colorscheme does, with the same color.
pub proof fn lemma_plain_lookup(
    base: Map<Seq<char>, RGB>,
    table: Map<Seq<char>, RGB>,
    name: Seq<char>,
)
    requires
        extends(base, table),
        is_plain(name),
    ensures
        table.contains_key(name) == base.contains_key(name),
        table.contains_key(name) ==> table[name] == base[name],
{
    if table.contains_key(name) && !base.contains_key(name) {
        assert(is_kept_mix(base, name, table[name]));
        let (a, k, b) = choose|a: Seq<char>, k: u8, b: Seq<char>|
            {
                &&& is_plain(a)
                &&& #[trigger] composite_key(a, k, b) == name
                &&& base.contains_key(a)
                &&& base.contains_key(b)
                &&& table[name] == mix_colors(base[a], k, base[b])
            };
        lemma_composite_key_is_no_name(a, k, b);
    }
}

/// Asking a table that extends a colorscheme for a mix of two plain names
/// gives the mix of the colorscheme's two colors, or nothing where the
/// colorscheme lacks one of them, and leaves a table that extends the
/// colorscheme.
pub proof fn lemma_step_ignores_cache(
    base: Map<Seq<char>, RGB>,
    table: Map<Seq<char>, RGB>,
    a: Seq<char>,
    k: u8,
    b: Seq<char>,
)
    requires
        is_plain_table(base),
        extends(base, table),
        is_plain(a),
        is_plain(b),
    ensures
        composite_step(table, a, k, b).1 == if base.contains_key(a) && base.contains_key(b) {
            Some(mix_colors(base[a], k, base[b]))
        } else {
            None
        },
        extends(base, composite_step(table, a, k, b).0),
{
    let key = composite_key(a, k, b);
    lemma_composite_key_is_no_name(a, k, b);
    lemma_plain_lookup(base, table, a);
    lemma_plain_lookup(base, table, b);
    assert(!base.contains_key(key));
    if table.contains_key(key) {
        assert(is_kept_mix(base, key, table[key]));
        let (a2, k2, b2) = choose|a2: Seq<char>, k2: u8, b2: Seq<char>|
            {
                &&& is_plain(a2)
                &&& #[trigger] composite_key(a2, k2, b2) == key
                &&& base.contains_key(a2)
                &&& base.contains_key(b2)
                &&& table[key] == mix_colors(base[a2], k2, base[b2])
            };
        lemma_composite_key_unique(a, k, b, a2, k2, b2);
    } else if table.contains_key(a) && table.contains_key(b) {
        let mixed = mix_colors(table[a], k, table[b]);
        let after = table.insert(key, mixed);
        assert forall|other: Seq<char>| #[trigger] after.contains_key(other) implies base.contains_key(
            other,
        ) || is_kept_mix(base, other, after[other]) by {
            if other == key {
                assert(composite_key(a, k, b) == key);
            } else {
                assert(table.contains_key(other));
            }
        }
    }
}

/// What a line renders to depends on the colorscheme alone. With any two
/// tables that extend the same colorscheme, whatever mixes each has kept, the
/// line renders to the same text with the same warnings, and each table
/// extends the colorscheme afterwards.
pub proof fn lemma_render_ignores_cache(
    base: Map<Seq<char>, RGB>,
    first: Map<Seq<char>, RGB>,
    second: Map<Seq<char>, RGB>,
    s: Seq<char>,
    i: int,
    format: Seq<char>,
    blueprint: Seq<char>,
)
    requires
        is_plain_table(base),
        extends(base, first),
        extends(base, second),
    ensures
        render_from(s, i, first, format, blueprint).text == render_from(
            s,
            i,
            second,
            format,
            blueprint,
        ).text,
        render_from(s, i, first, format, blueprint).warnings == render_from(
            s,
            i,
            second,
            format,
            blueprint,
        ).warnings,
        extends(base, render_from(s, i, first, format, blueprint).table),
        extends(base, render_from(s, i, second, format, blueprint).table),
    decreases s.len() - i,
{
    if 0 <= i < s.len() {
        match placeholder_at(s, i) {
            None => {
                lemma_render_ignores_cache(base, first, second, s, i + 1, format, blueprint);
            },
            Some(span) => {
                lemma_placeholder_bounds(s, i);
                lemma_lookup_ignores_cache(base, first, second, s, i);
                lemma_render_ignores_cache(
                    base,
                    lookup(first, s, i, span).0,
                    lookup(second, s, i, span).0,
                    s,
                    span.end(),
                    format,
                    blueprint,
                );
            },
        }
    }
}

/// Whether two renderings come to the same: both are refused for the same
/// reason, or both give the same output, settings and warnings.
pub open spec fn same_outcome(x: Result<Step, Seq<char>>, y: Result<Step, Seq<char>>) -> bool {
    match (x, y) {
        (Err(e), Err(f)) => e == f,
        (Ok(a), Ok(b)) => a.state == b.state && a.warnings == b.warnings,
        _ => false,
    }
}

/// What the lines of a blueprint render to depends on the colorscheme alone:
/// with any two tables that extend the same colorscheme the outcome is the
/// same, and each table extends the colorscheme afterwards.
pub proof fn lemma_lines_ignore_cache(
    base: Map<Seq<char>, RGB>,
    first: Map<Seq<char>, RGB>,
    second: Map<Seq<char>, RGB>,
    start: RendererView,
    lines: Seq<Seq<char>>,
    found: Seq<PathKind>,
    n: int,
    home: Seq<char>,
    blueprint: Seq<char>,
)
    requires
        is_plain_table(base),
        extends(base, first),
        extends(base, second),
    ensures
        same_outcome(
            run_lines(start, first, lines, found, n, home, blueprint),
            run_lines(start, second, lines, found, n, home, blueprint),
        ),
        run_lines(start, first, lines, found, n, home, blueprint) matches Ok(done) ==> extends(
            base,
            done.table,
        ),
        run_lines(start, second, lines, found, n, home, blueprint) matches Ok(done) ==> extends(
            base,
            done.table,
        ),
    decreases n,
{
    if n > 0 {
        lemma_lines_ignore_cache(base, first, second, start, lines, found, n - 1, home, blueprint);
        match (
            run_lines(start, first, lines, found, n - 1, home, blueprint),
            run_lines(start, second, lines, found, n - 1, home, blueprint),
        ) {
            (Ok(a), Ok(b)) => {
                lemma_render_ignores_cache(
                    base,
                    a.table,
                    b.table,
                    lines[n - 1],
                    0,
                    a.state.directives.color_format,
                    blueprint,
                );
            },
            _ => {},
        }
    }
}

/// What a blueprint of a batch renders to does not depend on the blueprints
/// before it. Where the batch starts with a table that extends a colorscheme,
/// each blueprint comes to the same as if it were rendered alone with the
/// colorscheme itself, and the table extends the colorscheme throughout.
pub proof fn lemma_batch_ignores_order(
    base: Map<Seq<char>, RGB>,
    table: Map<Seq<char>, RGB>,
    batch: Seq<BlueprintView>,
    n: int,
    home: Seq<char>,
    out_dir: Seq<char>,
)
    requires
        is_plain_table(base),
        extends(base, table),
        0 <= n < batch.len(),
    ensures
        extends(base, table_after(batch, n, table, home, out_dir)),
        extends(base, table_after(batch, n + 1, table, home, out_dir)),
        same_outcome(
            render_blueprint(batch[n], table_after(batch, n, table, home, out_dir), home, out_dir),
            render_blueprint(batch[n], base, home, out_dir),
        ),
    decreases n,
{
    if n > 0 {
        lemma_batch_ignores_order(base, table, batch, n - 1, home, out_dir);
    }
    let before = table_after(batch, n, table, home, out_dir);
    lemma_lines_ignore_cache(
        base,
        before,
        base,
        initial(out_dir),
        batch[n].lines,
        batch[n].found,
        batch[n].lines.len() as int,
        home,
        batch[n].path,
    );
}

/// The name of a color of a colorscheme is free of the separator.
pub proof fn lemma_color_names_are_plain(name: Seq<char>)
    requires
        is_color_name(name),
    ensures
        is_plain(name),
{
    reveal_strlit("background");
    reveal_strlit("foreground");
    reveal_strlit("cursor");
    reveal_strlit("color_01");
    reveal_strlit("color_02");
    reveal_strlit("color_03");
    reveal_strlit("color_04");
    reveal_strlit("color_05");
    reveal_strlit("color_06");
    reveal_strlit("color_07");
    reveal_strlit("color_08");
    reveal_strlit("color_09");
    reveal_strlit("color_10");
    reveal_strlit("color_11");
    reveal_strlit("color_12");
    reveal_strlit("color_13");
    reveal_strlit("color_14");
    reveal_strlit("color_15");
    reveal_strlit("color_16");
    let i = choose|i: int| 0 <= i < 19 && name == (#[trigger] COLOR_NAMES[i])@;
    if name.contains(':') {
        let j = choose|j: int| 0 <= j < name.len() && name[j] == ':';
        assert(name[j] == ':');
    }
}

/// A colorscheme that loads is a table of plain names, so that what is
/// rendered with it never depends on the mixes kept.
pub proof fn lemma_loaded_table_is_plain(entries: Seq<(Seq<char>, Seq<char>)>)
    requires
        load_colorscheme(entries) is Ok,
    ensures
        is_plain_table(load_colorscheme(entries)->Ok_0),
{
    lemma_loaded_table(entries);
    let table = load_colorscheme(entries)->Ok_0;
    assert forall|name: Seq<char>| #[trigger] table.contains_key(name) implies is_plain(name) by {
        lemma_color_names_are_plain(name);
    }
}

} // verus!
