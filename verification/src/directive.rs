//! The directive block of a blueprint: the lines at its top that set the format
//! in which colors are written and the directory that the result goes to.

use crate::config::{
    DIRECTIVE_COLOR_FORMAT, DIRECTIVE_OUTPUT_DIRECTORY, HEX_6_DIGITS_WO_HASHTAG,
    HEX_6_DIGITS_W_HASHTAG,
};
use crate::text::{run_end, run_start, same_text, scan_run, scan_run_back, to_chars, CharClass};
use vstd::prelude::*;
use vstd::string::*;

verus! {

/// What the file system holds at a path.
#[derive(Clone, Copy, Debug, PartialEq, Eq, Structural)]
pub enum PathKind {
    /// Nothing.
    Missing,
    /// Something that is no directory.
    File,
    /// A directory.
    Directory,
}

/// The settings of one blueprint.
#[derive(Debug)]
pub struct Directive {
    /// The name of the format in which colors are written.
    pub color_format: String,
    /// The directory that the rendered blueprint goes to.
    pub output_directory: String,
}

/// The settings of one blueprint, as plain text.
pub struct DirectiveView {
    pub color_format: Seq<char>,
    pub output_directory: Seq<char>,
}

impl View for Directive {
    type V = DirectiveView;

    open spec fn view(&self) -> DirectiveView {
        DirectiveView {
            color_format: self.color_format@,
            output_directory: self.output_directory@,
        }
    }
}

/// Where the value of a directive stands in its line, after the separator
/// that ends at `from`. White space after the separator is skipped, and the
/// value runs from there to the end of the line: to the first line feed, after
/// which only white space may follow. Where nothing but white space follows
/// the separator, the value is the last character of it that is no line feed.
pub open spec fn value_bounds(line: Seq<char>, from: int) -> Option<(int, int)> {
    let start = run_end(line, from, CharClass::Space);
    if start < line.len() {
        let end = run_end(line, start, CharClass::Inline);
        if run_end(line, end, CharClass::Space) == line.len() {
            Some((start, end))
        } else {
            None
        }
    } else {
        let last = run_start(line, line.len() as int, CharClass::LineFeed);
        if last > from {
            Some((last - 1, last))
        } else {
            None
        }
    }
}

/// The name and the value of a directive line: `%`, a name of one or more
/// letters, digits, `_` and `-`, one space, and the value. `None` for a line
/// that is not of this form.
pub open spec fn split_directive(line: Seq<char>) -> Option<(Seq<char>, Seq<char>)> {
    if line.len() == 0 || line[0] != '%' {
        None
    } else {
        let end = run_end(line, 1, CharClass::Key);
        if end == 1 || end >= line.len() || line[end] != ' ' {
            None
        } else {
            match value_bounds(line, end + 1) {
                None => None,
                Some(bounds) => Some((line.subrange(1, end), line.subrange(bounds.0, bounds.1))),
            }
        }
    }
}

/// Whether a line belongs to the directive block: whether it starts with `%`.
pub open spec fn starts_directive(line: Seq<char>) -> bool {
    line.len() > 0 && line[0] == '%'
}

/// Whether `format` names a format in which colors can be written.
pub open spec fn is_color_format(format: Seq<char>) -> bool {
    format == HEX_6_DIGITS_WO_HASHTAG@ || format == HEX_6_DIGITS_W_HASHTAG@
}

/// The path that `path` stands for: one that starts with `~/` is taken from
/// the home directory, as joining the rest of it to that directory gives it;
/// any other is left as it is.
pub open spec fn expand_home(path: Seq<char>, home: Seq<char>) -> Seq<char> {
    if path.len() >= 2 && path[0] == '~' && path[1] == '/' {
        let rest = path.skip(2);
        if rest.len() > 0 && rest[0] == '/' {
            rest
        } else if home.len() == 0 || home.last() == '/' {
            home + rest
        } else {
            home + seq!['/'] + rest
        }
    } else {
        path
    }
}

/// What is reported of a line that starts like a directive and is none.
pub open spec fn ill_formed_message(line: Seq<char>) -> Seq<char> {
    "Ill formed directive `"@ + line + "`."@
}

/// What is reported of a directive with an unknown name.
pub open spec fn invalid_directive_message(name: Seq<char>) -> Seq<char> {
    "Invalid directive `"@ + name + "`. Valid directives are `color-format`, `output-directory`"@
}

/// What is reported of a color format that does not exist.
pub open spec fn invalid_color_format_message(format: Seq<char>) -> Seq<char> {
    "Invalid color format `"@ + format + "`. Valid color formats are `6h`, `#6h`."@
}

/// What is reported of an output directory that does not exist.
pub open spec fn missing_directory_message(path: Seq<char>) -> Seq<char> {
    "Output directory `"@ + path + "` doesn't exist."@
}

/// What is reported of an output directory that is no directory.
pub open spec fn not_a_directory_message(path: Seq<char>) -> Seq<char> {
    "Output directory `"@ + path + "` is not a directory."@
}

/// The settings after a new color format was asked for, or why it is refused.
pub open spec fn with_color_format(d: DirectiveView, format: Seq<char>) -> Result<
    DirectiveView,
    Seq<char>,
> {
    if is_color_format(format) {
        Ok(DirectiveView { color_format: format, output_directory: d.output_directory })
    } else {
        Err(invalid_color_format_message(format))
    }
}

/// The settings after a new output directory was asked for, or why it is
/// refused; `found` is what the file system holds at the expanded path.
pub open spec fn with_output_directory(
    d: DirectiveView,
    path: Seq<char>,
    home: Seq<char>,
    found: PathKind,
) -> Result<DirectiveView, Seq<char>> {
    let expanded = expand_home(path, home);
    match found {
        PathKind::Missing => Err(missing_directory_message(expanded)),
        PathKind::File => Err(not_a_directory_message(expanded)),
        PathKind::Directory => Ok(
            DirectiveView { color_format: d.color_format, output_directory: expanded },
        ),
    }
}

/// The settings after a directive line, or why the line is refused.
pub open spec fn apply_directive(
    d: DirectiveView,
    line: Seq<char>,
    home: Seq<char>,
    found: PathKind,
) -> Result<DirectiveView, Seq<char>> {
    match split_directive(line) {
        None => Err(ill_formed_message(line)),
        Some(parts) => if parts.0 == DIRECTIVE_COLOR_FORMAT@ {
            with_color_format(d, parts.1)
        } else if parts.0 == DIRECTIVE_OUTPUT_DIRECTORY@ {
            with_output_directory(d, parts.1, home, found)
        } else {
            Err(invalid_directive_message(parts.0))
        },
    }
}

/// The directory that a line asks for: the expanded value of a well-formed
/// `output-directory` directive.
pub open spec fn asked_directory(line: Seq<char>, home: Seq<char>) -> Option<Seq<char>> {
    match split_directive(line) {
        None => None,
        Some(parts) => if parts.0 == DIRECTIVE_OUTPUT_DIRECTORY@ {
            Some(expand_home(parts.1, home))
        } else {
            None
        },
    }
}

/// Whether `line` starts with the prefix of a directive.
pub fn is_directive_line(line: &str) -> (r: bool)
    ensures
        r == starts_directive(line@),
{
    let cs = to_chars(line);
    cs.len() > 0 && cs[0] == '%'
}

/// The bounds of a directive's name and of its value within its line.
fn directive_bounds(cs: &Vec<char>) -> (r: Option<(usize, usize, usize)>)
    ensures
        match r {
            None => split_directive(cs@) is None,
            Some(b) => {
                &&& 1 <= b.0 <= b.1 <= b.2 <= cs.len()
                &&& split_directive(cs@) == Some(
                    (cs@.subrange(1, b.0 as int), cs@.subrange(b.1 as int, b.2 as int)),
                )
            },
        },
{
    if cs.len() == 0 || cs[0] != '%' {
        return None;
    }
    let end = scan_run(cs, 1, CharClass::Key);
    if end == 1 || end >= cs.len() || cs[end] != ' ' {
        return None;
    }
    let start = scan_run(cs, end + 1, CharClass::Space);
    if start < cs.len() {
        let stop = scan_run(cs, start, CharClass::Inline);
        let after = scan_run(cs, stop, CharClass::Space);
        if after == cs.len() {
            Some((end, start, stop))
        } else {
            None
        }
    } else {
        let last = scan_run_back(cs, cs.len(), CharClass::LineFeed);
        if last > end + 1 {
            Some((end, last - 1, last))
        } else {
            None
        }
    }
}

/// The path that `path` stands for, with a leading `~/` taken from the home
/// directory `home`.
pub fn expand_home_dir(path: &str, home: &str) -> (r: String)
    ensures
        r@ == expand_home(path@, home@),
{
    let pc = to_chars(path);
    if !(pc.len() >= 2 && pc[0] == '~' && pc[1] == '/') {
        return String::from_str(path);
    }
    let rest = path.substring_char(2, pc.len());
    assert(rest@ =~= path@.skip(2));
    if pc.len() > 2 && pc[2] == '/' {
        return String::from_str(rest);
    }
    let hc = to_chars(home);
    let mut expanded = String::from_str(home);
    if hc.len() > 0 && hc[hc.len() - 1] != '/' {
        proof {
            reveal_strlit("/");
        }
        expanded.append("/");
        assert("/"@ =~= seq!['/']);
    }
    expanded.append(rest);
    expanded
}

impl Directive {
    /// The settings that a blueprint starts with: colors written as
    /// `#RRGGBB`, into the directory `output_directory`.
    pub fn new(output_directory: &str) -> (r: Self)
        ensures
            r@.color_format == HEX_6_DIGITS_W_HASHTAG@,
            r@.output_directory == output_directory@,
    {
        Directive {
            color_format: String::from_str(HEX_6_DIGITS_W_HASHTAG),
            output_directory: String::from_str(output_directory),
        }
    }

    /// The directory that the line asks for, if it is a well-formed
    /// `output-directory` directive: the path to look up before the line is
    /// handed to `parse`.
    pub fn requested_directory(line: &str, home: &str) -> (r: Option<String>)
        ensures
            match r {
                Some(path) => asked_directory(line@, home@) == Some(path@),
                None => asked_directory(line@, home@) is None,
            },
    {
        let cs = to_chars(line);
        match directive_bounds(&cs) {
            None => None,
            Some((end, start, stop)) => {
                let name = line.substring_char(1, end);
                if same_text(name, DIRECTIVE_OUTPUT_DIRECTORY) {
                    Some(expand_home_dir(line.substring_char(start, stop), home))
                } else {
                    None
                }
            },
        }
    }

    /// Reads one line of the directive block and changes the settings as it
    /// says. `home` is the home directory, and `found` what the file system
    /// holds at the directory that the line asks for (see
    /// `requested_directory`); it is not looked at for any other line. A line
    /// that is refused leaves the settings as they were.
    pub fn parse(&mut self, line: &str, home: &str, found: PathKind) -> (r: Result<(), String>)
        ensures
            match r {
                Ok(_) => apply_directive(old(self)@, line@, home@, found) == Ok::<
                    DirectiveView,
                    Seq<char>,
                >(final(self)@),
                Err(e) => apply_directive(old(self)@, line@, home@, found) == Err::<
                    DirectiveView,
                    Seq<char>,
                >(e@) && final(self)@ == old(self)@,
            },
    {
        let cs = to_chars(line);
        match directive_bounds(&cs) {
            None => {
                let mut e = String::from_str("Ill formed directive `");
                e.append(line);
                e.append("`.");
                Err(e)
            },
            Some((end, start, stop)) => {
                let name = line.substring_char(1, end);
                let value = line.substring_char(start, stop);
                if same_text(name, DIRECTIVE_COLOR_FORMAT) {
                    self.update_color_format(value)
                } else if same_text(name, DIRECTIVE_OUTPUT_DIRECTORY) {
                    self.update_output_directory(value, home, found)
                } else {
                    let mut e = String::from_str("Invalid directive `");
                    e.append(name);
                    e.append("`. Valid directives are `color-format`, `output-directory`");
                    Err(e)
                }
            },
        }
    }

    /// Sets the format in which colors are written, if `color_format` names
    /// one.
    pub fn update_color_format(&mut self, color_format: &str) -> (r: Result<(), String>)
        ensures
            match r {
                Ok(_) => with_color_format(old(self)@, color_format@) == Ok::<
                    DirectiveView,
                    Seq<char>,
                >(final(self)@),
                Err(e) => with_color_format(old(self)@, color_format@) == Err::<
                    DirectiveView,
                    Seq<char>,
                >(e@) && final(self)@ == old(self)@,
            },
    {
        if !(same_text(color_format, HEX_6_DIGITS_WO_HASHTAG) || same_text(
            color_format,
            HEX_6_DIGITS_W_HASHTAG,
        )) {
            let mut e = String::from_str("Invalid color format `");
            e.append(color_format);
            e.append("`. Valid color formats are `6h`, `#6h`.");
            return Err(e);
        }
        self.color_format = String::from_str(color_format);
        Ok(())
    }

    /// Sets the directory that the result goes to, if the file system holds a
    /// directory at the expanded path: `found` says what it holds there.
    pub fn update_output_directory(
        &mut self,
        output_directory: &str,
        home: &str,
        found: PathKind,
    ) -> (r: Result<(), String>)
        ensures
            match r {
                Ok(_) => with_output_directory(old(self)@, output_directory@, home@, found) == Ok::<
                    DirectiveView,
                    Seq<char>,
                >(final(self)@),
                Err(e) => with_output_directory(old(self)@, output_directory@, home@, found)
                    == Err::<DirectiveView, Seq<char>>(e@) && final(self)@ == old(self)@,
            },
    {
        let expanded = expand_home_dir(output_directory, home);
        match found {
            PathKind::Missing => {
                let mut e = String::from_str("Output directory `");
                e.append(expanded.as_str());
                e.append("` doesn't exist.");
                Err(e)
            },
            PathKind::File => {
                let mut e = String::from_str("Output directory `");
                e.append(expanded.as_str());
                e.append("` is not a directory.");
                Err(e)
            },
            PathKind::Directory => {
                self.output_directory = expanded;
                Ok(())
            },
        }
    }
}

} // verus!
