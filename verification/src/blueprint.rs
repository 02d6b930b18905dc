//! The rendering of one blueprint: the directive block at its top, then the
//! body, line by line.

use crate::colortable::ColorTable;
use crate::config::HEX_6_DIGITS_W_HASHTAG;
use crate::directive::{
    apply_directive, is_directive_line, starts_directive, Directive, DirectiveView, PathKind,
};
use crate::logging::Error;
use crate::placeholder::{parse_color, render_from, texts_of};
use crate::rgb::RGB;
use crate::text::{lemma_run_end, run_end, scan_run, to_chars, CharClass};
use vstd::prelude::*;
use vstd::string::*;

verus! {

/// Where the rendering of a blueprint stands.
#[derive(Clone, Copy, Debug, PartialEq, Eq, Structural)]
pub enum Phase {
    /// Every line so far was a directive.
    InDirectives,
    /// A line that is no directive was seen: from here on every line is body.
    InBody,
}

/// The rendering of one blueprint, as far as its lines were fed.
#[derive(Debug)]
pub struct Renderer {
    /// Whether the directive block is over.
    pub phase: Phase,
    /// The settings that the directive block made.
    pub directives: Directive,
    /// The rendered body so far.
    pub output: String,
}

/// A rendering as plain values.
pub struct RendererView {
    pub phase: Phase,
    pub directives: DirectiveView,
    pub output: Seq<char>,
}

impl View for Renderer {
    type V = RendererView;

    open spec fn view(&self) -> RendererView {
        RendererView { phase: self.phase, directives: self.directives@, output: self.output@ }
    }
}

/// What a line does to a rendering: the rendering and the color table after
/// it, and the warnings it gave rise to.
pub struct Step {
    pub state: RendererView,
    pub table: Map<Seq<char>, RGB>,
    pub warnings: Seq<Seq<char>>,
}

/// The phase in which a line is read: the directive block lasts as long as
/// every line starts with `%`, and is over for good with the first that does
/// not.
pub open spec fn phase_for(phase: Phase, line: Seq<char>) -> Phase {
    if phase == Phase::InDirectives && starts_directive(line) {
        Phase::InDirectives
    } else {
        Phase::InBody
    }
}

/// What feeding one line does. In the directive block the line changes the
/// settings, or is refused, which ends the rendering. In the body its
/// placeholders are replaced and it is added to the output with a line feed.
pub open spec fn step(
    state: RendererView,
    table: Map<Seq<char>, RGB>,
    line: Seq<char>,
    home: Seq<char>,
    found: PathKind,
    blueprint: Seq<char>,
) -> Result<Step, Seq<char>> {
    match phase_for(state.phase, line) {
        Phase::InDirectives => match apply_directive(state.directives, line, home, found) {
            Err(e) => Err(e),
            Ok(directives) => Ok(
                Step {
                    state: RendererView {
                        phase: Phase::InDirectives,
                        directives,
                        output: state.output,
                    },
                    table,
                    warnings: Seq::empty(),
                },
            ),
        },
        Phase::InBody => {
            let rendered = render_from(line, 0, table, state.directives.color_format, blueprint);
            Ok(
                Step {
                    state: RendererView {
                        phase: Phase::InBody,
                        directives: state.directives,
                        output: state.output + rendered.text + seq!['\n'],
                    },
                    table: rendered.table,
                    warnings: rendered.warnings,
                },
            )
        },
    }
}

/// What the file system holds at the directory that line `i` asks for, as far
/// as `found` says it: nothing, where `found` is too short.
pub open spec fn found_at(found: Seq<PathKind>, i: int) -> PathKind {
    if 0 <= i < found.len() {
        found[i]
    } else {
        PathKind::Missing
    }
}

/// What feeding the first `n` lines does, one after the other.
pub open spec fn run_lines(
    start: RendererView,
    table: Map<Seq<char>, RGB>,
    lines: Seq<Seq<char>>,
    found: Seq<PathKind>,
    n: int,
    home: Seq<char>,
    blueprint: Seq<char>,
) -> Result<Step, Seq<char>>
    decreases n,
{
    if n <= 0 {
        Ok(Step { state: start, table, warnings: Seq::empty() })
    } else {
        match run_lines(start, table, lines, found, n - 1, home, blueprint) {
            Err(e) => Err(e),
            Ok(before) => match step(
                before.state,
                before.table,
                lines[n - 1],
                home,
                found_at(found, n - 1),
                blueprint,
            ) {
                Err(e) => Err(e),
                Ok(after) => Ok(
                    Step {
                        state: after.state,
                        table: after.table,
                        warnings: before.warnings + after.warnings,
                    },
                ),
            },
        }
    }
}

/// The rendering with which a blueprint starts: in the directive block, with
/// colors written as `#RRGGBB` into `output_directory`, and nothing rendered.
pub open spec fn initial(output_directory: Seq<char>) -> RendererView {
    RendererView {
        phase: Phase::InDirectives,
        directives: DirectiveView {
            color_format: HEX_6_DIGITS_W_HASHTAG@,
            output_directory,
        },
        output: Seq::empty(),
    }
}

/// In the body every line is body, one that looks like a directive too: it is
/// rendered like any other, the settings stay as they are, and no line is
/// refused.
pub proof fn lemma_body_is_final(
    state: RendererView,
    table: Map<Seq<char>, RGB>,
    line: Seq<char>,
    home: Seq<char>,
    found: PathKind,
    blueprint: Seq<char>,
)
    requires
        state.phase == Phase::InBody,
    ensures
        step(state, table, line, home, found, blueprint) is Ok,
        ({
            let after = step(state, table, line, home, found, blueprint)->Ok_0;
            let rendered = render_from(line, 0, table, state.directives.color_format, blueprint);
            &&& after.state.phase == Phase::InBody
            &&& after.state.directives == state.directives
            &&& after.state.output == state.output + rendered.text + seq!['\n']
            &&& after.table == rendered.table
        }),
{
}

/// As long as the rendering is in the directive block, nothing was rendered
/// and the color table is as it was; and once it is in the body it stays
/// there.
pub proof fn lemma_run_lines_phases(
    start: RendererView,
    table: Map<Seq<char>, RGB>,
    lines: Seq<Seq<char>>,
    found: Seq<PathKind>,
    n: int,
    home: Seq<char>,
    blueprint: Seq<char>,
)
    requires
        0 <= n <= lines.len(),
    ensures
        match run_lines(start, table, lines, found, n, home, blueprint) {
            Err(_) => start.phase == Phase::InDirectives,
            Ok(after) => {
                &&& start.phase == Phase::InBody ==> after.state.phase == Phase::InBody
                    && after.state.directives == start.directives
                &&& after.state.phase == Phase::InDirectives ==> after.table == table
                    && after.state.output == start.output && start.phase == Phase::InDirectives
            },
        },
    decreases n,
{
    if n > 0 {
        lemma_run_lines_phases(start, table, lines, found, n - 1, home, blueprint);
    }
}

/// A line that is refused ends the rendering: whatever lines follow, the
/// result is that refusal.
pub proof fn lemma_run_lines_err(
    start: RendererView,
    table: Map<Seq<char>, RGB>,
    lines: Seq<Seq<char>>,
    found: Seq<PathKind>,
    n: int,
    m: int,
    home: Seq<char>,
    blueprint: Seq<char>,
)
    requires
        n <= m,
    ensures
        run_lines(start, table, lines, found, n, home, blueprint) is Err ==> run_lines(
            start,
            table,
            lines,
            found,
            m,
            home,
            blueprint,
        ) == run_lines(start, table, lines, found, n, home, blueprint),
    decreases m - n,
{
    if n < m {
        lemma_run_lines_err(start, table, lines, found, n, m - 1, home, blueprint);
    }
}

/// A line as read from a text: without the carriage return before the line
/// feed that ended it.
pub open spec fn without_carriage_return(line: Seq<char>, ended: bool) -> Seq<char> {
    if ended && line.len() > 0 && line.last() == '\r' {
        line.drop_last()
    } else {
        line
    }
}

/// The lines of `s` from index `i` on. A line ends with a line feed, or with a
/// carriage return and a line feed, neither of which belongs to it; the last
/// line needs no such end, and after a final line feed no empty line follows.
pub open spec fn lines_from(s: Seq<char>, i: int) -> Seq<Seq<char>>
    decreases s.len() - i,
    via lines_from_decreases
{
    if !(0 <= i < s.len()) {
        Seq::empty()
    } else {
        let end = run_end(s, i, CharClass::Inline);
        let line = without_carriage_return(s.subrange(i, end), end < s.len());
        if end < s.len() {
            seq![line] + lines_from(s, end + 1)
        } else {
            seq![line]
        }
    }
}

#[via_fn]
proof fn lines_from_decreases(s: Seq<char>, i: int) {
    if 0 <= i < s.len() {
        lemma_run_end(s, i, CharClass::Inline);
    }
}

/// The lines of a text.
pub fn split_lines(text: &str) -> (r: Vec<String>)
    ensures
        texts_of(r@) == lines_from(text@, 0),
{
    let cs = to_chars(text);
    let mut lines: Vec<String> = Vec::new();
    let mut i: usize = 0;
    assert(texts_of(lines@) =~= Seq::<Seq<char>>::empty());
    while i < cs.len()
        invariant
            i <= cs.len(),
            cs@ == text@,
            lines_from(text@, 0) == texts_of(lines@) + lines_from(text@, i as int),
        decreases cs.len() - i,
    {
        let end = scan_run(&cs, i, CharClass::Inline);
        let stop: usize = if end < cs.len() && end > i && cs[end - 1] == '\r' {
            end - 1
        } else {
            end
        };
        let ghost before = texts_of(lines@);
        let ghost line = without_carriage_return(text@.subrange(i as int, end as int), end < cs.len());
        assert(text@.subrange(i as int, stop as int) =~= line);
        lines.push(String::from_str(text.substring_char(i, stop)));
        assert(texts_of(lines@) =~= before + seq![line]);
        assert(before + (seq![line] + lines_from(text@, end + 1)) =~= before + seq![line]
            + lines_from(text@, end + 1));
        if end < cs.len() {
            i = end + 1;
        } else {
            i = end;
        }
    }
    assert(lines_from(text@, i as int) =~= Seq::<Seq<char>>::empty());
    assert(texts_of(lines@) + Seq::<Seq<char>>::empty() =~= texts_of(lines@));
    lines
}

/// A rendered blueprint: the directory it goes to, its text, and the warnings
/// that its placeholders gave rise to.
#[derive(Debug)]
pub struct Rendering {
    pub output_directory: String,
    pub content: String,
    pub warnings: Vec<String>,
}

impl Renderer {
    /// The rendering with which a blueprint starts: in the directive block,
    /// with colors written as `#RRGGBB` into `output_directory`.
    pub fn new(output_directory: &str) -> (r: Self)
        ensures
            r@ == initial(output_directory@),
    {
        Renderer {
            phase: Phase::InDirectives,
            directives: Directive::new(output_directory),
            output: String::new(),
        }
    }

    /// Feeds the next line of the blueprint named `blueprint`. `home` is the
    /// home directory, and `found` is what the file system holds at the
    /// directory that the line asks for, if it asks for one (see
    /// `Directive::requested_directory`). Returns the warnings that the line
    /// gave rise to. A line of the directive block that is refused is an
    /// error, and leaves the rendering and the color table as they were.
    pub fn feed(
        &mut self,
        line: &str,
        home: &str,
        found: PathKind,
        colors: &mut ColorTable,
        blueprint: &str,
    ) -> (r: Result<Vec<String>, Error>)
        ensures
            match r {
                Ok(warnings) => step(old(self)@, old(colors)@, line@, home@, found, blueprint@)
                    == Ok::<Step, Seq<char>>(
                    Step { state: final(self)@, table: final(colors)@, warnings: texts_of(warnings@) },
                ),
                Err(e) => {
                    &&& e matches Error::BlueprintError(m)
                    &&& step(old(self)@, old(colors)@, line@, home@, found, blueprint@) == Err::<
                        Step,
                        Seq<char>,
                    >(m@)
                    &&& final(self)@ == old(self)@
                    &&& final(colors)@ == old(colors)@
                },
            },
    {
        if self.phase == Phase::InDirectives && !is_directive_line(line) {
            self.phase = Phase::InBody;
        }
        match self.phase {
            Phase::InDirectives => match self.directives.parse(line, home, found) {
                Err(e) => Err(Error::BlueprintError(e)),
                Ok(_) => {
                    let warnings: Vec<String> = Vec::new();
                    assert(texts_of(warnings@) =~= Seq::<Seq<char>>::empty());
                    Ok(warnings)
                },
            },
            Phase::InBody => {
                let ghost before = self.output@;
                let (text, warnings) = parse_color(line, colors, &self.directives, blueprint);
                self.output.append(text.as_str());
                proof {
                    reveal_strlit("\n");
                }
                self.output.append("\n");
                assert("\n"@ =~= seq!['\n']);
                assert(self.output@ =~= before + text@ + seq!['\n']);
                Ok(warnings)
            },
        }
    }

    /// Ends the rendering: the directory that the blueprint goes to and its
    /// rendered text.
    pub fn finish(self) -> (r: (String, String))
        ensures
            r.0@ == self@.directives.output_directory,
            r.1@ == self@.output,
    {
        (self.directives.output_directory, self.output)
    }
}

/// Renders the blueprint named `path` from its lines. Colors come from
/// `colors`, which keeps the mixes that the body asks for. `home` is the home
/// directory, `out_dir` the directory that a blueprint goes to unless it says
/// otherwise, and `found` holds, for each line, what the file system holds at
/// the directory that the line asks for. A line of the directive block that is
/// refused is an error: nothing is rendered then, and the color table is left
/// as it was.
pub fn build_blueprint(
    path: &str,
    lines: &Vec<String>,
    found: &Vec<PathKind>,
    home: &str,
    out_dir: &str,
    colors: &mut ColorTable,
) -> (r: Result<Rendering, Error>)
    ensures
        match r {
            Ok(done) => run_lines(
                initial(out_dir@),
                old(colors)@,
                texts_of(lines@),
                found@,
                lines.len() as int,
                home@,
                path@,
            ) matches Ok(want) && {
                &&& done.output_directory@ == want.state.directives.output_directory
                &&& done.content@ == want.state.output
                &&& texts_of(done.warnings@) == want.warnings
                &&& final(colors)@ == want.table
            },
            Err(e) => {
                &&& e matches Error::BlueprintError(m)
                &&& run_lines(
                    initial(out_dir@),
                    old(colors)@,
                    texts_of(lines@),
                    found@,
                    lines.len() as int,
                    home@,
                    path@,
                ) == Err::<Step, Seq<char>>(m@)
                &&& final(colors)@ == old(colors)@
            },
        },
{
    let ghost table0 = colors@;
    let ghost texts = texts_of(lines@);
    let mut renderer = Renderer::new(out_dir);
    let mut warnings: Vec<String> = Vec::new();
    let mut i: usize = 0;
    assert(texts_of(warnings@) =~= Seq::<Seq<char>>::empty());
    while i < lines.len()
        invariant
            i <= lines.len(),
            texts == texts_of(lines@),
            table0 == old(colors)@,
            run_lines(initial(out_dir@), table0, texts, found@, i as int, home@, path@) == Ok::<
                Step,
                Seq<char>,
            >(Step { state: renderer@, table: colors@, warnings: texts_of(warnings@) }),
        decreases lines.len() - i,
    {
        let kind = if i < found.len() {
            found[i]
        } else {
            PathKind::Missing
        };
        let ghost before = texts_of(warnings@);
        proof {
            lemma_run_lines_err(
                initial(out_dir@),
                table0,
                texts,
                found@,
                i + 1,
                lines.len() as int,
                home@,
                path@,
            );
            lemma_run_lines_phases(initial(out_dir@), table0, texts, found@, i as int, home@, path@);
        }
        assert(texts[i as int] == lines[i as int]@);
        match renderer.feed(lines[i].as_str(), home, kind, colors, path) {
            Err(e) => {
                return Err(e);
            },
            Ok(mut more) => {
                let ghost added = texts_of(more@);
                warnings.append(&mut more);
                assert(texts_of(warnings@) =~= before + added);
            },
        }
        i = i + 1;
    }
    let (output_directory, content) = renderer.finish();
    Ok(Rendering { output_directory, content, warnings })
}

/// A blueprint as it was read: its name, its lines and, for each line, what
/// the file system holds at the directory that the line asks for.
#[derive(Debug)]
pub struct Blueprint {
    pub path: String,
    pub lines: Vec<String>,
    pub found: Vec<PathKind>,
}

/// A blueprint as plain values.
pub struct BlueprintView {
    pub path: Seq<char>,
    pub lines: Seq<Seq<char>>,
    pub found: Seq<PathKind>,
}

impl View for Blueprint {
    type V = BlueprintView;

    open spec fn view(&self) -> BlueprintView {
        BlueprintView { path: self.path@, lines: texts_of(self.lines@), found: self.found@ }
    }
}

/// The blueprints of `v` as plain values, in order.
pub open spec fn blueprints_of(v: Seq<Blueprint>) -> Seq<BlueprintView> {
    Seq::new(v.len(), |i: int| v[i]@)
}

/// What rendering one blueprint gives, with the color table as it stands.
pub open spec fn render_blueprint(
    b: BlueprintView,
    table: Map<Seq<char>, RGB>,
    home: Seq<char>,
    out_dir: Seq<char>,
) -> Result<Step, Seq<char>> {
    run_lines(initial(out_dir), table, b.lines, b.found, b.lines.len() as int, home, b.path)
}

/// The color table after the first `n` blueprints of a batch were rendered
/// one after the other. A blueprint that is refused leaves it as it is.
pub open spec fn table_after(
    batch: Seq<BlueprintView>,
    n: int,
    table: Map<Seq<char>, RGB>,
    home: Seq<char>,
    out_dir: Seq<char>,
) -> Map<Seq<char>, RGB>
    decreases n,
{
    if n <= 0 {
        table
    } else {
        let before = table_after(batch, n - 1, table, home, out_dir);
        match render_blueprint(batch[n - 1], before, home, out_dir) {
            Ok(done) => done.table,
            Err(_) => before,
        }
    }
}

/// What is reported of a blueprint that is refused.
pub open spec fn refused_message(path: Seq<char>, reason: Seq<char>) -> Seq<char> {
    "While parsing blueprint `"@ + path + "`. "@ + reason
}

/// Whether `got` is the outcome `want` of rendering the blueprint named
/// `path`: the rendered blueprint, or the error that names the blueprint and
/// says why it is refused.
pub open spec fn is_outcome(
    got: Result<Rendering, Error>,
    want: Result<Step, Seq<char>>,
    path: Seq<char>,
) -> bool {
    match got {
        Ok(done) => want matches Ok(step) && {
            &&& done.output_directory@ == step.state.directives.output_directory
            &&& done.content@ == step.state.output
            &&& texts_of(done.warnings@) == step.warnings
        },
        Err(e) => want matches Err(reason) && e matches Error::BlueprintError(m) && m@
            == refused_message(path, reason),
    }
}

/// A blueprint that is refused is as good as absent. Where blueprint `k` of a
/// batch is refused, every other blueprint is rendered with the color table
/// that it would meet if blueprint `k` were not in the batch, and so to the
/// same result: before `k` nothing differs, and after `k` the table is the
/// one of the batch without it.
pub proof fn lemma_refused_blueprint_is_skipped(
    batch: Seq<BlueprintView>,
    k: int,
    j: int,
    table: Map<Seq<char>, RGB>,
    home: Seq<char>,
    out_dir: Seq<char>,
)
    requires
        0 <= k < batch.len(),
        0 <= j < batch.len(),
        render_blueprint(batch[k], table_after(batch, k, table, home, out_dir), home, out_dir)
            is Err,
    ensures
        j <= k ==> table_after(batch.remove(k), j, table, home, out_dir) == table_after(
            batch,
            j,
            table,
            home,
            out_dir,
        ),
        j >= k ==> table_after(batch.remove(k), j, table, home, out_dir) == table_after(
            batch,
            j + 1,
            table,
            home,
            out_dir,
        ),
    decreases j,
{
    let rest = batch.remove(k);
    if j > 0 {
        lemma_refused_blueprint_is_skipped(batch, k, j - 1, table, home, out_dir);
        if j <= k {
            assert(rest[j - 1] == batch[j - 1]);
        } else {
            assert(rest[j - 1] == batch[j]);
        }
    }
}

/// The error for a blueprint that is refused: it names the blueprint and says
/// why it is refused.
pub fn refusal(path: &str, reason: &str) -> (r: Error)
    ensures
        match r {
            Error::BlueprintError(m) => m@ == refused_message(path@, reason@),
            _ => false,
        },
{
    let mut m = String::from_str("While parsing blueprint `");
    m.append(path);
    m.append("`. ");
    m.append(reason);
    Error::BlueprintError(m)
}

/// Renders a batch of blueprints, one after the other, with the same color
/// table, so that a mix is computed once for the whole batch. A blueprint
/// that is refused gives an error that names it, and changes nothing for the
/// others. Returns the outcome of each blueprint, in order.
pub fn build_blueprints(
    blueprints: &Vec<Blueprint>,
    home: &str,
    out_dir: &str,
    colors: &mut ColorTable,
) -> (r: Vec<Result<Rendering, Error>>)
    ensures
        r.len() == blueprints.len(),
        final(colors)@ == table_after(
            blueprints_of(blueprints@),
            blueprints.len() as int,
            old(colors)@,
            home@,
            out_dir@,
        ),
        forall|i: int|
            0 <= i < r.len() ==> is_outcome(
                #[trigger] r[i],
                render_blueprint(
                    blueprints[i]@,
                    table_after(blueprints_of(blueprints@), i, old(colors)@, home@, out_dir@),
                    home@,
                    out_dir@,
                ),
                blueprints[i]@.path,
            ),
{
    let ghost batch = blueprints_of(blueprints@);
    let ghost table0 = colors@;
    let mut outcomes: Vec<Result<Rendering, Error>> = Vec::new();
    let mut i: usize = 0;
    while i < blueprints.len()
        invariant
            i <= blueprints.len(),
            batch == blueprints_of(blueprints@),
            table0 == old(colors)@,
            outcomes.len() == i,
            colors@ == table_after(batch, i as int, table0, home@, out_dir@),
            forall|j: int|
                0 <= j < i ==> is_outcome(
                    #[trigger] outcomes[j],
                    render_blueprint(
                        blueprints[j]@,
                        table_after(batch, j, table0, home@, out_dir@),
                        home@,
                        out_dir@,
                    ),
                    blueprints[j]@.path,
                ),
        decreases blueprints.len() - i,
    {
        let blueprint = &blueprints[i];
        assert(batch[i as int] == blueprint@);
        let outcome = match build_blueprint(
            blueprint.path.as_str(),
            &blueprint.lines,
            &blueprint.found,
            home,
            out_dir,
            colors,
        ) {
            Ok(done) => Ok(done),
            Err(e) => Err(refusal(blueprint.path.as_str(), e.message())),
        };
        outcomes.push(outcome);
        i = i + 1;
    }
    outcomes
}

/// The paths of `paths`, each between backticks but for the first one's
/// opening and the last one's closing backtick, with commas between them.
pub open spec fn joined(paths: Seq<Seq<char>>, n: int) -> Seq<char>
    decreases n,
{
    if n <= 0 {
        Seq::empty()
    } else if n == 1 {
        paths[0]
    } else {
        joined(paths, n - 1) + "`, `"@ + paths[n - 1]
    }
}

/// What is reported of a blueprint that is at none of the places searched.
pub open spec fn not_found_message(blueprint: Seq<char>, paths: Seq<Seq<char>>) -> Seq<char> {
    "Can't find blueprint `"@ + blueprint + "`. Neither of the following files exists `"@ + joined(
        paths,
        paths.len() as int,
    ) + "`"@
}

/// The first of the first `n` places at which the file system holds
/// something.
pub open spec fn first_found(found: Seq<PathKind>, n: int) -> Option<int>
    decreases n,
{
    if n <= 0 {
        None
    } else {
        match first_found(found, n - 1) {
            Some(i) => Some(i),
            None => if found_at(found, n - 1) != PathKind::Missing {
                Some(n - 1)
            } else {
                None
            },
        }
    }
}

/// The place of the blueprint `blueprint`: the first of `paths` at which the
/// file system holds something, `found` saying for each what it holds there;
/// an error that lists the places where it holds nothing at any.
pub fn search_blueprint(blueprint: &str, paths: &Vec<String>, found: &Vec<PathKind>) -> (r: Result<
    String,
    String,
>)
    ensures
        match r {
            Ok(path) => first_found(found@, paths.len() as int) matches Some(i) && path@
                == paths[i]@,
            Err(e) => first_found(found@, paths.len() as int) is None && e@ == not_found_message(
                blueprint@,
                texts_of(paths@),
            ),
        },
{
    let mut i: usize = 0;
    while i < paths.len()
        invariant
            i <= paths.len(),
            first_found(found@, i as int) is None,
        decreases paths.len() - i,
    {
        let kind = if i < found.len() {
            found[i]
        } else {
            PathKind::Missing
        };
        if kind != PathKind::Missing {
            proof {
                lemma_first_found_stays(found@, i + 1, paths.len() as int);
            }
            return Ok(paths[i].clone());
        }
        i = i + 1;
    }
    let mut e = String::from_str("Can't find blueprint `");
    e.append(blueprint);
    e.append("`. Neither of the following files exists `");
    let ghost head = e@;
    let ghost texts = texts_of(paths@);
    let mut k: usize = 0;
    assert(head + joined(texts, 0) =~= head);
    while k < paths.len()
        invariant
            k <= paths.len(),
            texts == texts_of(paths@),
            e@ == head + joined(texts, k as int),
        decreases paths.len() - k,
    {
        if k > 0 {
            e.append("`, `");
        }
        e.append(paths[k].as_str());
        k = k + 1;
        assert(e@ =~= head + joined(texts, k as int));
    }
    e.append("`");
    Err(e)
}

/// Once a place is found, searching further places finds the same.
pub proof fn lemma_first_found_stays(found: Seq<PathKind>, n: int, m: int)
    requires
        n <= m,
    ensures
        first_found(found, n) is Some ==> first_found(found, m) == first_found(found, n),
    decreases m - n,
{
    if n < m {
        lemma_first_found_stays(found, n, m - 1);
    }
}

} // verus!
