use chromasync::colortable::ColorTable;
use chromasync::directive::{expand_home_dir, Directive, PathKind};
use chromasync::placeholder::parse_color;
use chromasync::rgb::RGB;
use chromasync::text::{class_has, CharClass};
use regex::{Captures, Regex};

// Every text over `alphabet` of at most `max` characters.
fn texts(alphabet: &[char], max: usize) -> Vec<String> {
    let mut all = vec![String::new()];
    let mut last = vec![String::new()];
    for _ in 0..max {
        let mut next = Vec::new();
        for text in &last {
            for c in alphabet {
                let mut longer = text.clone();
                longer.push(*c);
                next.push(longer);
            }
        }
        all.extend(next.iter().cloned());
        last = next;
    }
    all
}

fn hex_agrees_with_pattern(first: char) {
    let pattern = Regex::new(r"^#?[0-9a-fA-F]{6}$").unwrap();
    let alphabet = ['#', '0', 'a', 'F', 'g', ' '];
    for rest in texts(&alphabet, 7) {
        let text = format!("{}{}", first, rest);
        let trimmed = text.trim();
        match RGB::new_from_hex(&text) {
            Ok(_) => assert!(pattern.is_match(trimmed), "{:?}", text),
            Err(e) => {
                assert!(!pattern.is_match(trimmed), "{:?}", text);
                assert_eq!(e, format!("Invalid hex color `{}`", trimmed));
            }
        }
    }
}

#[test]
fn hex_grammar_is_the_pattern_after_a_hash() {
    hex_agrees_with_pattern('#');
}

#[test]
fn hex_grammar_is_the_pattern_after_a_digit() {
    hex_agrees_with_pattern('0');
    hex_agrees_with_pattern('F');
}

#[test]
fn hex_grammar_is_the_pattern_after_a_space() {
    hex_agrees_with_pattern(' ');
    hex_agrees_with_pattern('g');
}

// What a directive line does, as the pattern of the grammar reads it.
fn by_pattern(pattern: &Regex, line: &str, found: PathKind) -> Result<(String, String), String> {
    let caps = pattern
        .captures(line)
        .ok_or(format!("Ill formed directive `{}`.", line))?;
    let name = caps.get(1).unwrap().as_str();
    let value = caps.get(3).unwrap().as_str();
    match name {
        "color-format" => {
            if value != "6h" && value != "#6h" {
                return Err(format!(
                    "Invalid color format `{}`. Valid color formats are `6h`, `#6h`.",
                    value
                ));
            }
            Ok((value.to_string(), "/out".to_string()))
        }
        "output-directory" => {
            let path = expand_home_dir(value, "/home");
            match found {
                PathKind::Missing => Err(format!("Output directory `{}` doesn't exist.", path)),
                PathKind::File => Err(format!("Output directory `{}` is not a directory.", path)),
                PathKind::Directory => Ok(("#6h".to_string(), path)),
            }
        }
        _ => Err(format!(
            "Invalid directive `{}`. Valid directives are `color-format`, `output-directory`",
            name
        )),
    }
}

fn directive_agrees_with_pattern(head: &str, alphabet: &[char], max: usize) {
    let pattern = Regex::new(r"^%((\w|-)+) \s*(.+)\s*$").unwrap();
    for rest in texts(alphabet, max) {
        let line = format!("{}{}", head, rest);
        for found in [PathKind::Missing, PathKind::Directory] {
            let mut d = Directive::new("/out");
            let got = d
                .parse(&line, "/home", found)
                .map(|_| (d.color_format.clone(), d.output_directory.clone()));
            assert_eq!(got, by_pattern(&pattern, &line, found), "{:?}", line);
        }
    }
}

#[test]
fn directive_grammar_is_the_pattern_on_values() {
    let alphabet = [' ', '\t', '\n', '\r', '6', 'h', '#', '\u{b}'];
    directive_agrees_with_pattern("%color-format", &alphabet, 5);
    let alphabet = [' ', '\n', '6', 'h', '\u{2003}', '\u{a0}'];
    directive_agrees_with_pattern("%color-format ", &alphabet, 4);
}

#[test]
fn directive_grammar_is_the_pattern_on_directories() {
    let alphabet = [' ', '\n', '/', 'd', '~', '%'];
    directive_agrees_with_pattern("%output-directory ", &alphabet, 5);
    directive_agrees_with_pattern("%output-directory", &alphabet, 5);
}

#[test]
fn directive_grammar_is_the_pattern_on_names() {
    let alphabet = ['%', 'c', '-', '_', '9', ' ', '\n', ':', '\t'];
    directive_agrees_with_pattern("", &alphabet, 5);
    directive_agrees_with_pattern("%", &alphabet, 5);
}

fn colors() -> ColorTable {
    let mut colors = ColorTable::with_capacity(4);
    colors.insert("a".to_string(), RGB(10, 20, 30));
    colors.insert("1".to_string(), RGB(200, 100, 0));
    colors.insert("a1".to_string(), RGB(0, 0, 0));
    colors.insert("_".to_string(), RGB(255, 255, 255));
    colors
}

// A line after its placeholders were replaced, as the pattern of the grammar
// finds them.
fn replaced_by_pattern(pattern: &Regex, line: &str, colors: &mut ColorTable) -> String {
    pattern
        .replace_all(line, |caps: &Captures| {
            let first = caps.get(1).unwrap().as_str().to_string();
            let color = match caps.get(4) {
                Some(second) => match caps.get(3).unwrap().as_str().parse::<u8>() {
                    Ok(amount) => colors
                        .get_composite(&first, amount, &second.as_str().to_string())
                        .copied(),
                    Err(_) => None,
                },
                None => colors.get(&first).copied(),
            };
            match color {
                Some(color) => color.format(&"6h".to_string()).unwrap(),
                None => String::new(),
            }
        })
        .to_string()
}

fn placeholders_agree_with_pattern(head: &str, alphabet: &[char], max: usize) {
    let pattern = Regex::new(r"\{(\w+)(:(\d+):(\w+))?\}").unwrap();
    let mut directives = Directive::new("/out");
    directives.color_format = "6h".to_string();
    for rest in texts(alphabet, max) {
        let line = format!("{}{}", head, rest);
        let mut mine = colors();
        let mut theirs = colors();
        let (got, warnings) = parse_color(&line, &mut mine, &directives, "bp");
        let want = replaced_by_pattern(&pattern, &line, &mut theirs);
        assert_eq!(got, want, "{:?}", line);
        assert_eq!(mine.len(), theirs.len(), "{:?}", line);
        for warning in warnings {
            assert!(warning.contains("retrieving color"), "{:?}", line);
        }
    }
}

#[test]
fn placeholder_grammar_is_the_pattern_on_plain_names() {
    let alphabet = ['{', '}', 'a', '1', '_', ' ', '-'];
    placeholders_agree_with_pattern("", &alphabet, 5);
}

#[test]
fn placeholder_grammar_is_the_pattern_on_mixes() {
    let alphabet = ['{', '}', ':', 'a', '1', '5'];
    placeholders_agree_with_pattern("{a:", &alphabet, 5);
    placeholders_agree_with_pattern("{a", &alphabet, 5);
}

#[test]
fn placeholder_grammar_is_the_pattern_on_amounts() {
    let alphabet = ['0', '2', '5', '6', ':', '}', '{', 'a'];
    placeholders_agree_with_pattern("{1:", &alphabet, 5);
    placeholders_agree_with_pattern("x{a:25", &alphabet, 4);
}

#[test]
fn directive_grammar_is_the_pattern_beyond_ascii() {
    let alphabet = ['c', 'é', '-', ' ', '→', '٥', '\u{a0}'];
    directive_agrees_with_pattern("%", &alphabet, 3);
}

#[test]
fn placeholder_grammar_is_the_pattern_beyond_ascii() {
    let alphabet = ['{', '}', ':', 'é', '٥', '½'];
    placeholders_agree_with_pattern("{a", &alphabet, 3);
    placeholders_agree_with_pattern("{a:5", &alphabet, 3);
    placeholders_agree_with_pattern("{", &alphabet, 3);
}

fn class_is_the_pattern(class: CharClass, pattern: &str, from: u32, to: u32) {
    let pattern = Regex::new(pattern).unwrap();
    let mut buffer = [0u8; 4];
    for n in from..to {
        if let Some(c) = char::from_u32(n) {
            assert_eq!(
                class_has(class, c),
                pattern.is_match(c.encode_utf8(&mut buffer)),
                "U+{:04X}",
                n
            );
        }
    }
}

#[test]
fn classes_are_the_patterns_on_ascii() {
    class_is_the_pattern(CharClass::Word, r"^\w$", 0, 0x80);
    class_is_the_pattern(CharClass::Digit, r"^\d$", 0, 0x80);
    class_is_the_pattern(CharClass::Key, r"^(\w|-)$", 0, 0x80);
    class_is_the_pattern(CharClass::Hex, r"^[0-9a-fA-F]$", 0, 0x80);
    class_is_the_pattern(CharClass::Inline, r"^.$", 0, 0x80);
}

#[test]
fn word_class_is_the_pattern_beyond_ascii() {
    class_is_the_pattern(CharClass::Word, r"^\w$", 0x80, 0x200);
    class_is_the_pattern(CharClass::Key, r"^(\w|-)$", 0x2000, 0x2080);
}

#[test]
fn digit_class_is_the_pattern_beyond_ascii() {
    class_is_the_pattern(CharClass::Digit, r"^\d$", 0x600, 0x700);
    class_is_the_pattern(CharClass::Digit, r"^\d$", 0xFF00, 0xFF40);
}

#[test]
fn space_class_is_the_pattern() {
    class_is_the_pattern(CharClass::Space, r"^\s$", 0, 0x110000);
}

#[test]
fn hex_and_line_classes_stay_ascii() {
    class_is_the_pattern(CharClass::Hex, r"^[0-9a-fA-F]$", 0x80, 0x4000);
    class_is_the_pattern(CharClass::Inline, r"^.$", 0x80, 0x4000);
    class_is_the_pattern(CharClass::LineFeed, r"^\n$", 0, 0x4000);
}
