//! The preview of a colorscheme: a table that shows every foreground color on
//! every background color.

use crate::colortable::{has_base_colors, ColorTable};
use crate::config::{
    alias_of, color_alias, BACKGROUND, COLOR_NAMES, COL_COLOR_NAMES, FOREGROUND, ROW_COLOR_NAMES,
};
use crate::rgb::RGB;
use crate::text::to_chars;
use vstd::prelude::*;
use vstd::string::*;

verus! {

/// A piece of text with the colors to print it in.
#[derive(Debug)]
pub struct Cell {
    pub background: RGB,
    pub foreground: RGB,
    pub text: String,
}

/// A cell as plain values.
pub struct CellView {
    pub background: RGB,
    pub foreground: RGB,
    pub text: Seq<char>,
}

impl View for Cell {
    type V = CellView;

    open spec fn view(&self) -> CellView {
        CellView { background: self.background, foreground: self.foreground, text: self.text@ }
    }
}

/// The cells of `v` as plain values, in order.
pub open spec fn cells_of(v: Seq<Cell>) -> Seq<CellView> {
    Seq::new(v.len(), |i: int| v[i]@)
}

/// `n` spaces.
pub open spec fn spaces(n: int) -> Seq<char> {
    Seq::new(
        if n > 0 {
            n as nat
        } else {
            0
        },
        |i: int| ' ',
    )
}

/// A text in the main colors of the colorscheme: its foreground on its
/// background.
pub open spec fn plain_cell(table: Map<Seq<char>, RGB>, text: Seq<char>) -> CellView {
    CellView { background: table[BACKGROUND@], foreground: table[FOREGROUND@], text }
}

/// The head of column `i`: the short name of its color, at the left of two
/// places, with three spaces before it and one behind.
pub open spec fn head_cell(table: Map<Seq<char>, RGB>, i: int) -> CellView {
    let alias = alias_of(COL_COLOR_NAMES[i]@);
    plain_cell(table, "   "@ + alias + spaces(2 - alias.len()) + " "@)
}

/// The heads of the first `n` columns.
pub open spec fn head_cells(table: Map<Seq<char>, RGB>, n: int) -> Seq<CellView>
    decreases n,
{
    if n <= 0 {
        Seq::empty()
    } else {
        head_cells(table, n - 1).push(head_cell(table, n - 1))
    }
}

/// The start of row `row`: the short name of its color, at the right of two
/// places, with a space before it.
pub open spec fn row_head(table: Map<Seq<char>, RGB>, row: int) -> CellView {
    let alias = alias_of(ROW_COLOR_NAMES[row]@);
    plain_cell(table, " "@ + spaces(2 - alias.len()) + alias)
}

/// The sample of row `row` in column `col`: the color of the row on the color
/// of the column.
pub open spec fn sample_cell(table: Map<Seq<char>, RGB>, row: int, col: int) -> CellView {
    CellView {
        background: table[COL_COLOR_NAMES[col]@],
        foreground: table[ROW_COLOR_NAMES[row]@],
        text: " gYw "@,
    }
}

/// Row `row` up to its first `n` samples, each with a space before it.
pub open spec fn row_cells(table: Map<Seq<char>, RGB>, row: int, n: int) -> Seq<CellView>
    decreases n,
{
    if n <= 0 {
        seq![row_head(table, row)]
    } else {
        row_cells(table, row, n - 1).push(plain_cell(table, " "@)).push(
            sample_cell(table, row, n - 1),
        )
    }
}

/// The first `n` rows, each ended by a space and a line feed.
pub open spec fn rows(table: Map<Seq<char>, RGB>, n: int) -> Seq<CellView>
    decreases n,
{
    if n <= 0 {
        Seq::empty()
    } else {
        rows(table, n - 1) + row_cells(table, n - 1, 9).push(plain_cell(table, " \n"@))
    }
}

/// The preview of a colorscheme: a line of column heads, a row for each
/// foreground color, and an empty line of 58 spaces.
pub open spec fn color_test_table(table: Map<Seq<char>, RGB>) -> Seq<CellView> {
    (seq![plain_cell(table, "   "@)] + head_cells(table, 9)).push(plain_cell(table, " \n"@))
        + rows(table, 18).push(plain_cell(table, spaces(58) + "\n"@))
}

fn push_cell(out: &mut Vec<Cell>, background: RGB, foreground: RGB, text: String)
    ensures
        cells_of(final(out)@) == cells_of(old(out)@).push(
            CellView { background, foreground, text: text@ },
        ),
{
    out.push(Cell { background, foreground, text });
    assert(cells_of(out@) =~= cells_of(old(out)@).push(
        CellView { background, foreground, text: text@ },
    ));
}

/// Appends `n` spaces to `out`.
fn push_spaces(out: &mut String, n: usize)
    ensures
        final(out)@ == old(out)@ + spaces(n as int),
{
    let ghost before = out@;
    let mut i: usize = 0;
    proof {
        reveal_strlit(" ");
    }
    assert(before + spaces(0) =~= before);
    while i < n
        invariant
            i <= n,
            out@ == before + spaces(i as int),
            " "@ == seq![' '],
        decreases n - i,
    {
        out.append(" ");
        i = i + 1;
        assert(out@ =~= before + spaces(i as int));
    }
    assert(" "@ =~= seq![' ']) by {
        reveal_strlit(" ");
    }
}

/// The color of the table under a name that it holds.
fn color_of(colors: &ColorTable, name: &str) -> (r: RGB)
    requires
        colors@.contains_key(name@),
    ensures
        r == colors@[name@],
{
    match colors.get(name) {
        Some(c) => *c,
        None => RGB(0, 0, 0),
    }
}

/// The preview of the colorscheme in `colors`, as the cells to print one
/// after the other. The table must hold every color of a colorscheme.
pub fn print_color_test_table(colors: &ColorTable) -> (r: Vec<Cell>)
    requires
        has_base_colors(colors@),
    ensures
        cells_of(r@) == color_test_table(colors@),
{
    let ghost table = colors@;
    assert(table.contains_key(COLOR_NAMES[0]@));
    assert(table.contains_key(COLOR_NAMES[1]@));
    let main_bg = color_of(colors, BACKGROUND);
    let main_fg = color_of(colors, FOREGROUND);
    let mut out: Vec<Cell> = Vec::new();
    assert(cells_of(out@) =~= Seq::<CellView>::empty());
    push_cell(&mut out, main_bg, main_fg, String::from_str("   "));
    assert(cells_of(out@) =~= seq![plain_cell(table, "   "@)] + head_cells(table, 0));
    let mut col: usize = 0;
    while col < 9
        invariant
            col <= 9,
            table == colors@,
            main_bg == table[BACKGROUND@],
            main_fg == table[FOREGROUND@],
            cells_of(out@) == seq![plain_cell(table, "   "@)] + head_cells(table, col as int),
        decreases 9 - col,
    {
        let alias = color_alias(COL_COLOR_NAMES[col]);
        let width = to_chars(alias).len();
        let mut text = String::from_str("   ");
        text.append(alias);
        push_spaces(
            &mut text,
            if width < 2 {
                2 - width
            } else {
                0
            },
        );
        text.append(" ");
        push_cell(&mut out, main_bg, main_fg, text);
        col = col + 1;
        assert(cells_of(out@) =~= seq![plain_cell(table, "   "@)] + head_cells(table, col as int));
    }
    push_cell(&mut out, main_bg, main_fg, String::from_str(" \n"));
    let ghost head = cells_of(out@);
    assert(head + rows(table, 0) =~= head);
    let mut row: usize = 0;
    while row < 18
        invariant
            row <= 18,
            table == colors@,
            has_base_colors(table),
            main_bg == table[BACKGROUND@],
            main_fg == table[FOREGROUND@],
            head == (seq![plain_cell(table, "   "@)] + head_cells(table, 9)).push(
                plain_cell(table, " \n"@),
            ),
            cells_of(out@) == head + rows(table, row as int),
        decreases 18 - row,
    {
        let ghost done = cells_of(out@);
        let row_name = ROW_COLOR_NAMES[row];
        proof {
            lemma_preview_names(table, row as int, 0);
        }
        let fg = color_of(colors, row_name);
        let alias = color_alias(row_name);
        let width = to_chars(alias).len();
        let mut text = String::from_str(" ");
        push_spaces(
            &mut text,
            if width < 2 {
                2 - width
            } else {
                0
            },
        );
        text.append(alias);
        push_cell(&mut out, main_bg, main_fg, text);
        assert(cells_of(out@) =~= done + row_cells(table, row as int, 0));
        let mut col: usize = 0;
        while col < 9
            invariant
                col <= 9,
                row < 18,
                table == colors@,
                has_base_colors(table),
                main_bg == table[BACKGROUND@],
                main_fg == table[FOREGROUND@],
                fg == table[ROW_COLOR_NAMES[row as int]@],
                cells_of(out@) == done + row_cells(table, row as int, col as int),
            decreases 9 - col,
        {
            proof {
                lemma_preview_names(table, row as int, col as int);
            }
            let bg = color_of(colors, COL_COLOR_NAMES[col]);
            push_cell(&mut out, main_bg, main_fg, String::from_str(" "));
            push_cell(&mut out, bg, fg, String::from_str(" gYw "));
            col = col + 1;
            assert(cells_of(out@) =~= done + row_cells(table, row as int, col as int));
        }
        push_cell(&mut out, main_bg, main_fg, String::from_str(" \n"));
        row = row + 1;
        assert(cells_of(out@) =~= head + rows(table, row as int));
    }
    let mut text = String::new();
    push_spaces(&mut text, 58);
    text.append("\n");
    assert(text@ =~= spaces(58) + "\n"@);
    push_cell(&mut out, main_bg, main_fg, text);
    assert(cells_of(out@) =~= color_test_table(table));
    out
}

/// A table that holds every color of a colorscheme holds the colors of the
/// preview's rows and columns.
pub proof fn lemma_preview_names(table: Map<Seq<char>, RGB>, row: int, col: int)
    requires
        has_base_colors(table),
        0 <= row < 18,
        0 <= col < 9,
    ensures
        table.contains_key(ROW_COLOR_NAMES[row]@),
        table.contains_key(COL_COLOR_NAMES[col]@),
{
    lemma_row_name(row);
    lemma_col_name(col);
}

proof fn lemma_row_name(row: int)
    requires
        0 <= row < 18,
    ensures
        exists|i: int| 0 <= i < 19 && ROW_COLOR_NAMES[row] == #[trigger] COLOR_NAMES[i],
{
    let i: int = if row == 0 {
        1
    } else if row == 1 {
        2
    } else if row % 2 == 0 {
        2 + row / 2
    } else {
        10 + row / 2
    };
    assert(ROW_COLOR_NAMES[row] == COLOR_NAMES[i]);
}

proof fn lemma_col_name(col: int)
    requires
        0 <= col < 9,
    ensures
        exists|i: int| 0 <= i < 19 && COL_COLOR_NAMES[col] == #[trigger] COLOR_NAMES[i],
{
    let i: int = if col == 0 {
        0
    } else {
        2 + col
    };
    assert(COL_COLOR_NAMES[col] == COLOR_NAMES[i]);
}

} // verus!
