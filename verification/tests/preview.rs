use chromasync::colortable::ColorTable;
use chromasync::config::{COLOR_NAMES, COL_COLOR_NAMES, ROW_COLOR_NAMES};
use chromasync::preview::print_color_test_table;
use chromasync::rgb::RGB;

fn colors() -> ColorTable {
    let entries: Vec<(String, String)> = COLOR_NAMES
        .iter()
        .enumerate()
        .map(|(i, n)| (n.to_string(), format!("#{:02X}0000", i)))
        .collect();
    ColorTable::from_entries(&entries).ok().unwrap()
}

fn index(name: &str) -> u8 {
    COLOR_NAMES.iter().position(|n| *n == name).unwrap() as u8
}

#[test]
fn preview_has_a_head_and_a_row_for_each_color() {
    let cells = print_color_test_table(&colors());
    assert_eq!(cells.len(), 1 + 9 + 1 + 18 * (1 + 2 * 9 + 1) + 1);
    let text: String = cells.iter().map(|c| c.text.as_str()).collect();
    let lines: Vec<&str> = text.split('\n').collect();
    assert_eq!(lines.len(), 21);
    assert_eq!(lines[0], "      b     1     2     3     4     5     6     7     8   ");
    assert_eq!(lines[1], "  f  gYw   gYw   gYw   gYw   gYw   gYw   gYw   gYw   gYw  ");
    assert_eq!(lines[3], "  1  gYw   gYw   gYw   gYw   gYw   gYw   gYw   gYw   gYw  ");
    assert_eq!(lines[6], " 10  gYw   gYw   gYw   gYw   gYw   gYw   gYw   gYw   gYw  ");
    assert_eq!(lines[18], " 16  gYw   gYw   gYw   gYw   gYw   gYw   gYw   gYw   gYw  ");
    assert_eq!(lines[19], " ".repeat(58));
    assert_eq!(lines[20], "");
    for line in &lines[..20] {
        assert_eq!(line.chars().count(), 58);
    }
}

#[test]
fn preview_shows_each_color_on_each_background() {
    let cells = print_color_test_table(&colors());
    let main_bg = RGB(index("background"), 0, 0);
    let main_fg = RGB(index("foreground"), 0, 0);
    let mut samples = 0;
    for (i, cell) in cells.iter().enumerate() {
        if cell.text == " gYw " {
            let at = i - 11;
            let row = at / 20;
            let col = (at % 20 - 1) / 2;
            assert_eq!(cell.foreground, RGB(index(ROW_COLOR_NAMES[row]), 0, 0));
            assert_eq!(cell.background, RGB(index(COL_COLOR_NAMES[col]), 0, 0));
            samples += 1;
        } else {
            assert_eq!(cell.background, main_bg);
            assert_eq!(cell.foreground, main_fg);
        }
    }
    assert_eq!(samples, 18 * 9);
    assert_eq!(cells[0].text, "   ");
    assert_eq!(cells[1].text, "   b  ");
    assert_eq!(cells[10].text, " \n");
    assert_eq!(cells[11].text, "  f");
    assert_eq!(cells[12].text, " ");
}
