//! The names that a colorscheme defines, the words of the directive block, and
//! the short names under which the preview shows the colors.

use crate::text::same_text;
use vstd::prelude::*;

verus! {

pub const APP_NAME: &'static str = "chromasync";

pub const DESCRIPTION: &'static str =
    "`chromasync` is a tool designed to automate the process of changing colorschemes for various terminal applications.\n";

/// The extension of a colorscheme's file.
pub const FILE_EXTENSION: &'static str = "json";

/// What separates the fields of a mixed color, in a placeholder and in the
/// name under which the color table keeps the mix.
pub const MIXED_COLOR_FIELD_SEPARATOR: &'static str = ":";

/// The character that a directive line starts with.
pub const PREFIX: &'static str = "%";

/// What separates a directive's name from its value.
pub const SEPARATOR: &'static str = " ";

pub const DIRECTIVE_COLOR_FORMAT: &'static str = "color-format";

pub const DIRECTIVE_OUTPUT_DIRECTORY: &'static str = "output-directory";

/// The format `#RRGGBB`.
pub const HEX_6_DIGITS_W_HASHTAG: &'static str = "#6h";

/// The format `RRGGBB`.
pub const HEX_6_DIGITS_WO_HASHTAG: &'static str = "6h";

pub const BACKGROUND: &'static str = "background";

pub const FOREGROUND: &'static str = "foreground";

pub const CURSOR: &'static str = "cursor";

pub const COLOR_01: &'static str = "color_01";

pub const COLOR_02: &'static str = "color_02";

pub const COLOR_03: &'static str = "color_03";

pub const COLOR_04: &'static str = "color_04";

pub const COLOR_05: &'static str = "color_05";

pub const COLOR_06: &'static str = "color_06";

pub const COLOR_07: &'static str = "color_07";

pub const COLOR_08: &'static str = "color_08";

pub const COLOR_09: &'static str = "color_09";

pub const COLOR_10: &'static str = "color_10";

pub const COLOR_11: &'static str = "color_11";

pub const COLOR_12: &'static str = "color_12";

pub const COLOR_13: &'static str = "color_13";

pub const COLOR_14: &'static str = "color_14";

pub const COLOR_15: &'static str = "color_15";

pub const COLOR_16: &'static str = "color_16";

/// The colors that every colorscheme defines, each exactly once.
pub const COLOR_NAMES: [&'static str; 19] = [
    BACKGROUND,
    FOREGROUND,
    CURSOR,
    COLOR_01,
    COLOR_02,
    COLOR_03,
    COLOR_04,
    COLOR_05,
    COLOR_06,
    COLOR_07,
    COLOR_08,
    COLOR_09,
    COLOR_10,
    COLOR_11,
    COLOR_12,
    COLOR_13,
    COLOR_14,
    COLOR_15,
    COLOR_16,
];

/// The foreground colors of the preview, one per row.
pub const ROW_COLOR_NAMES: [&'static str; 18] = [
    FOREGROUND,
    CURSOR,
    COLOR_01,
    COLOR_09,
    COLOR_02,
    COLOR_10,
    COLOR_03,
    COLOR_11,
    COLOR_04,
    COLOR_12,
    COLOR_05,
    COLOR_13,
    COLOR_06,
    COLOR_14,
    COLOR_07,
    COLOR_15,
    COLOR_08,
    COLOR_16,
];

/// The background colors of the preview, one per column.
pub const COL_COLOR_NAMES: [&'static str; 9] = [
    BACKGROUND,
    COLOR_01,
    COLOR_02,
    COLOR_03,
    COLOR_04,
    COLOR_05,
    COLOR_06,
    COLOR_07,
    COLOR_08,
];

/// Whether `name` is one of the colors that a colorscheme defines.
pub open spec fn is_color_name(name: Seq<char>) -> bool {
    exists|i: int| 0 <= i < 19 && name == (#[trigger] COLOR_NAMES[i])@
}

/// The short name of a color in the preview, `?` for any other text.
pub open spec fn alias_of(color: Seq<char>) -> Seq<char> {
    if color == FOREGROUND@ {
        "f"@
    }     else if color == BACKGROUND@ {
        "b"@
    }     else if color == CURSOR@ {
        "c"@
    }     else if color == COLOR_01@ {
        "1"@
    }     else if color == COLOR_02@ {
        "2"@
    }     else if color == COLOR_03@ {
        "3"@
    }     else if color == COLOR_04@ {
        "4"@
    }     else if color == COLOR_05@ {
        "5"@
    }     else if color == COLOR_06@ {
        "6"@
    }     else if color == COLOR_07@ {
        "7"@
    }     else if color == COLOR_08@ {
        "8"@
    }     else if color == COLOR_09@ {
        "9"@
    }     else if color == COLOR_10@ {
        "10"@
    }     else if color == COLOR_11@ {
        "11"@
    }     else if color == COLOR_12@ {
        "12"@
    }     else if color == COLOR_13@ {
        "13"@
    }     else if color == COLOR_14@ {
        "14"@
    }     else if color == COLOR_15@ {
        "15"@
    }     else if color == COLOR_16@ {
        "16"@
    } else {
        "?"@
    }
}

/// Whether `name` is one of the colors that a colorscheme defines.
pub fn color_name_known(name: &str) -> (r: bool)
    ensures
        r == is_color_name(name@),
{
    let mut i: usize = 0;
    while i < 19
        invariant
            i <= 19,
            forall|j: int| 0 <= j < i ==> name@ != (#[trigger] COLOR_NAMES[j])@,
        decreases 19 - i,
    {
        if same_text(name, COLOR_NAMES[i]) {
            return true;
        }
        i = i + 1;
    }
    false
}

/// The short name under which the preview shows the color `color`.
pub fn color_alias(color: &str) -> (r: &str)
    ensures
        r@ == alias_of(color@),
{
    if same_text(color, FOREGROUND) {
        "f"
    }     else if same_text(color, BACKGROUND) {
        "b"
    }     else if same_text(color, CURSOR) {
        "c"
    }     else if same_text(color, COLOR_01) {
        "1"
    }     else if same_text(color, COLOR_02) {
        "2"
    }     else if same_text(color, COLOR_03) {
        "3"
    }     else if same_text(color, COLOR_04) {
        "4"
    }     else if same_text(color, COLOR_05) {
        "5"
    }     else if same_text(color, COLOR_06) {
        "6"
    }     else if same_text(color, COLOR_07) {
        "7"
    }     else if same_text(color, COLOR_08) {
        "8"
    }     else if same_text(color, COLOR_09) {
        "9"
    }     else if same_text(color, COLOR_10) {
        "10"
    }     else if same_text(color, COLOR_11) {
        "11"
    }     else if same_text(color, COLOR_12) {
        "12"
    }     else if same_text(color, COLOR_13) {
        "13"
    }     else if same_text(color, COLOR_14) {
        "14"
    }     else if same_text(color, COLOR_15) {
        "15"
    }     else if same_text(color, COLOR_16) {
        "16"
    } else {
        "?"
    }
}

} // verus!
