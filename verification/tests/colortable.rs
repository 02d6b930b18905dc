use chromasync::colortable::{push_decimal, ColorTable};
use chromasync::config::COLOR_NAMES;
use chromasync::rgb::RGB;
use serde::de::{Deserializer, MapAccess, Visitor};
use std::fmt;

// The entries of a JSON object in the order in which it lists them, with the
// names that it lists twice.
struct Entries;

impl<'de> Visitor<'de> for Entries {
    type Value = Vec<(String, String)>;

    fn expecting(&self, formatter: &mut fmt::Formatter) -> fmt::Result {
        formatter.write_str("a colorscheme")
    }

    fn visit_map<M>(self, mut access: M) -> Result<Self::Value, M::Error>
    where
        M: MapAccess<'de>,
    {
        let mut entries = Vec::new();
        while let Some((name, hex)) = access.next_entry::<String, String>()? {
            entries.push((name, hex));
        }
        Ok(entries)
    }
}

fn load(json: &str) -> Result<ColorTable, String> {
    let mut deserializer = serde_json::Deserializer::from_str(json);
    let entries = deserializer.deserialize_map(Entries).map_err(|e| e.to_string())?;
    ColorTable::from_entries(&entries)
}

fn scheme(pairs: &[(&str, &str)]) -> Vec<(String, String)> {
    pairs.iter().map(|(n, h)| (n.to_string(), h.to_string())).collect()
}

fn full_scheme() -> Vec<(String, String)> {
    COLOR_NAMES
        .iter()
        .enumerate()
        .map(|(i, n)| (n.to_string(), format!("#{:02x}{:02X}{:02x}", i, 2 * i, 255 - i)))
        .collect()
}

fn table(pairs: &[(&str, RGB)]) -> ColorTable {
    let mut colors = ColorTable::with_capacity(pairs.len());
    for (name, color) in pairs {
        colors.insert(name.to_string(), *color);
    }
    colors
}

#[test]
fn test_correct_colorscheme() {
    let json = r##"{ "background": "#000000", "foreground": "#000000", "cursor": "#000000", "color_01": "#000000", "color_02": "#000000", "color_03": "#000000", "color_04": "#000000", "color_05": "#000000", "color_06": "#000000", "color_07": "#000000", "color_08": "#000000", "color_09": "#000000", "color_10": "#000000", "color_11": "#000000", "color_12": "#000000", "color_13": "#000000", "color_14": "#000000", "color_15": "#000000", "color_16": "#000000" }"##;
    let colorscheme = load(json);
    assert!(colorscheme.is_ok());
}

#[test]
fn test_missing_background() {
    let json = r##"{ "foreground": "#000000", "cursor": "#000000", "color_01": "#000000", "color_02": "#000000", "color_03": "#000000", "color_04": "#000000", "color_05": "#000000", "color_06": "#000000", "color_07": "#000000", "color_08": "#000000", "color_09": "#000000", "color_10": "#000000", "color_11": "#000000", "color_12": "#000000", "color_13": "#000000", "color_14": "#000000", "color_15": "#000000", "color_16": "#000000" }"##;
    let colorscheme = load(json);
    assert!(colorscheme.is_err());
}

#[test]
fn test_two_backgrounds() {
    let json = r##"{ "background": "#000000", "background": "#000000", "foreground": "#000000", "cursor": "#000000", "color_01": "#000000", "color_02": "#000000", "color_03": "#000000", "color_04": "#000000", "color_05": "#000000", "color_06": "#000000", "color_07": "#000000", "color_08": "#000000", "color_09": "#000000", "color_10": "#000000", "color_11": "#000000", "color_12": "#000000", "color_13": "#000000", "color_14": "#000000", "color_15": "#000000", "color_16": "#000000" }"##;
    let colorscheme = load(json);
    assert!(colorscheme.is_err());
}

#[test]
fn test_wrong_name() {
    let json = r##"{ "wrong_color_name": "#000000", "foreground": "#000000", "cursor": "#000000", "color_01": "#000000", "color_02": "#000000", "color_03": "#000000", "color_04": "#000000", "color_05": "#000000", "color_06": "#000000", "color_07": "#000000", "color_08": "#000000", "color_09": "#000000", "color_10": "#000000", "color_11": "#000000", "color_12": "#000000", "color_13": "#000000", "color_14": "#000000", "color_15": "#000000", "color_16": "#000000" }"##;
    let colorscheme = load(json);
    assert!(colorscheme.is_err());
}

#[test]
fn loaded_table_holds_the_colors() {
    let colors = ColorTable::from_entries(&full_scheme()).ok().unwrap();
    assert_eq!(colors.len(), 19);
    for (i, name) in COLOR_NAMES.iter().enumerate() {
        let i = i as u8;
        assert_eq!(colors.get(name), Some(&RGB(i, 2 * i, 255 - i)), "{}", name);
        assert!(colors.contains_key(name));
    }
    assert_eq!(colors.get("Background"), None);
    assert_eq!(colors.get(" background"), None);
    assert!(!colors.contains_key("color_17"));
}

#[test]
fn loader_reports_the_first_fault() {
    let mut entries = full_scheme();
    entries[3].1 = "#12345".to_string();
    entries.push(("cursor".to_string(), "#000000".to_string()));
    assert_eq!(
        ColorTable::from_entries(&entries).err().unwrap(),
        "Invalid hex color `#12345`"
    );
    let mut entries = full_scheme();
    entries.push(("cursor".to_string(), "zzz".to_string()));
    assert_eq!(
        ColorTable::from_entries(&entries).err().unwrap(),
        "Color `cursor` was already defined"
    );
    let mut entries = full_scheme();
    entries.insert(1, ("accent".to_string(), "zzz".to_string()));
    assert_eq!(
        ColorTable::from_entries(&entries).err().unwrap(),
        "Invalid color name `accent`"
    );
    let mut entries = full_scheme();
    entries.remove(18);
    entries.remove(2);
    assert_eq!(
        ColorTable::from_entries(&entries).err().unwrap(),
        "Missing required color `cursor`"
    );
    assert_eq!(
        ColorTable::from_entries(&Vec::new()).err().unwrap(),
        "Missing required color `background`"
    );
    assert_eq!(
        ColorTable::from_entries(&scheme(&[("background", " #000000 "), ("background", "#111111")]))
            .err().unwrap(),
        "Color `background` was already defined"
    );
}

#[test]
fn loader_accepts_any_order_and_white_space() {
    let mut entries = full_scheme();
    entries.reverse();
    entries[0].1 = "  ABCDEF\n".to_string();
    let colors = ColorTable::from_entries(&entries).ok().unwrap();
    assert_eq!(colors.get("color_16"), Some(&RGB(0xAB, 0xCD, 0xEF)));
    assert_eq!(colors.get("background"), Some(&RGB(0, 0, 255)));
}

#[test]
fn hex_colors_lists_the_colorscheme() {
    let mut colors = ColorTable::from_entries(&full_scheme()).ok().unwrap();
    let first = "background".to_string();
    let second = "cursor".to_string();
    assert!(colors.get_composite(&first, 30, &second).is_some());
    let listed = colors.hex_colors();
    assert_eq!(listed.len(), 19);
    for (i, (name, hex)) in listed.iter().enumerate() {
        assert_eq!(name, COLOR_NAMES[i]);
        assert_eq!(*hex, format!("#{:02X}{:02X}{:02X}", i, 2 * i, 255 - i));
    }
    assert_eq!(ColorTable::from_entries(&listed).ok().unwrap().hex_colors(), listed);
    let few = table(&[("cursor", RGB(1, 2, 3)), ("other", RGB(4, 5, 6))]);
    assert_eq!(few.hex_colors(), scheme(&[("cursor", "#010203")]));
}

#[test]
fn composite_is_computed_once_and_kept() {
    let mut colors = table(&[("a", RGB(0, 100, 200)), ("b", RGB(255, 50, 100))]);
    let a = "a".to_string();
    let b = "b".to_string();
    assert_eq!(colors.len(), 2);
    let first = colors.get_composite(&a, 70, &b).copied();
    assert_eq!(first, Some(RGB(76, 85, 170)));
    assert_eq!(colors.len(), 3);
    assert_eq!(colors.get("a:70:b"), Some(&RGB(76, 85, 170)));
    let second = colors.get_composite(&a, 70, &b).copied();
    assert_eq!(second, first);
    assert_eq!(colors.len(), 3);
    // The other way round is another mix, kept under another name.
    let swapped = colors.get_composite(&b, 70, &a).copied();
    assert_eq!(swapped, Some(RGB(178, 65, 130)));
    assert_ne!(swapped, first);
    assert_eq!(colors.len(), 4);
    assert_eq!(colors.get("b:70:a"), Some(&RGB(178, 65, 130)));
    assert_eq!(colors.get("a:70:b"), Some(&RGB(76, 85, 170)));
}

#[test]
fn composite_is_answered_from_the_table() {
    let mut colors = table(&[("a", RGB(0, 0, 0)), ("b", RGB(255, 255, 255))]);
    colors.insert("a:50:b".to_string(), RGB(1, 2, 3));
    let a = "a".to_string();
    let b = "b".to_string();
    assert_eq!(colors.get_composite(&a, 50, &b), Some(&RGB(1, 2, 3)));
    assert_eq!(colors.len(), 3);
    // The colors themselves may have gone: the kept mix is still answered.
    let mut colors = table(&[("x:5:y", RGB(9, 9, 9))]);
    let x = "x".to_string();
    let y = "y".to_string();
    assert_eq!(colors.get_composite(&x, 5, &y), Some(&RGB(9, 9, 9)));
    assert_eq!(colors._make_composite(&x, 5, &y), None);
}

#[test]
fn composite_of_a_missing_color_is_not_kept() {
    let mut colors = table(&[("a", RGB(1, 1, 1))]);
    let a = "a".to_string();
    let b = "b".to_string();
    assert_eq!(colors.get_composite(&a, 50, &b), None);
    assert_eq!(colors.get_composite(&b, 50, &a), None);
    assert_eq!(colors.get_composite(&b, 50, &b), None);
    assert_eq!(colors.len(), 1);
    assert!(!colors.contains_key("a:50:b"));
    colors.insert("b".to_string(), RGB(3, 3, 3));
    assert_eq!(colors.get_composite(&a, 50, &b), Some(&RGB(2, 2, 2)));
    assert_eq!(colors.len(), 3);
}

#[test]
fn composite_names_hold_the_amount_in_decimal() {
    for amount in [0u8, 1, 9, 10, 11, 99, 100, 101, 199, 200, 255] {
        assert_eq!(
            ColorTable::composite_name("first", amount, "second"),
            format!("first:{}:second", amount)
        );
    }
    for amount in 0..=255u8 {
        let mut text = "x".to_string();
        push_decimal(&mut text, amount);
        assert_eq!(text, format!("x{}", amount));
    }
    assert_eq!(ColorTable::composite_name("", 7, ""), ":7:");
}

#[test]
fn insert_replaces() {
    let mut colors = ColorTable::with_capacity(0);
    assert_eq!(colors.len(), 0);
    colors.insert("a".to_string(), RGB(1, 2, 3));
    colors.insert("a".to_string(), RGB(4, 5, 6));
    assert_eq!(colors.len(), 1);
    assert_eq!(colors.get("a"), Some(&RGB(4, 5, 6)));
}
