//! The command line: its subcommands and their arguments, and what is read
//! from it. The parser is a `clap::Command`. Of such a value, and of the
//! arguments, groups and values that it is built from, Verus sees nothing, so
//! each gets a view that says what it holds; the contracts of the calls into
//! `clap` say what each call does to that view, and `build_parser` is proved
//! to hold exactly the command line that `command_line` describes.

use crate::config::{APP_NAME, DESCRIPTION};
use crate::logging::{set_verbosity, verbosity_after, Verbosity};
use crate::text::same_text;
use vstd::prelude::*;

verus! {

#[verifier::external_type_specification]
#[verifier::external_body]
pub struct ExCommand(clap::Command);

#[verifier::external_type_specification]
#[verifier::external_body]
pub struct ExArg(clap::Arg);

#[verifier::external_type_specification]
#[verifier::external_body]
pub struct ExArgGroup(clap::ArgGroup);

#[verifier::external_type_specification]
#[verifier::external_body]
pub struct ExPossibleValue(clap::builder::PossibleValue);

#[verifier::external_type_specification]
#[verifier::external_body]
pub struct ExArgMatches(clap::ArgMatches);

/// What an argument does when the command line holds it.
#[derive(Clone, Copy, Debug, PartialEq, Eq, Structural)]
pub enum Action {
    /// Its presence is recorded.
    SetTrue,
    /// Its value is added to those given before.
    Append,
}

/// What a value of an argument holds: its name and its other names.
pub struct ValueView {
    pub name: Seq<char>,
    pub aliases: Seq<Seq<char>>,
}

/// What an argument holds, as far as this library sets it: its name, its long
/// and its short flag, its help text, whether the command line must hold it,
/// what it does, and the values that it takes, where these are listed.
pub struct ArgView {
    pub id: Seq<char>,
    pub long: Option<Seq<char>>,
    pub short: Option<char>,
    pub help: Option<Seq<char>>,
    pub required: bool,
    pub action: Option<Action>,
    pub values: Option<Seq<ValueView>>,
}

/// What a group of arguments holds: its name and the names of its arguments.
pub struct GroupView {
    pub id: Seq<char>,
    pub args: Seq<Seq<char>>,
}

/// What a command holds, as far as this library sets it: its name, its
/// description and author, whether it asks for a subcommand, and its
/// arguments, groups and subcommands in the order in which they were added.
pub struct CommandView {
    pub name: Seq<char>,
    pub about: Option<Seq<char>>,
    pub author: Option<Seq<char>>,
    pub subcommand_required: bool,
    pub args: Seq<ArgView>,
    pub groups: Seq<GroupView>,
    pub subcommands: Seq<CommandView>,
}

/// What a `clap::Command` holds.
pub uninterp spec fn command_view(command: clap::Command) -> CommandView;

/// What a `clap::Arg` holds.
pub uninterp spec fn arg_view(arg: clap::Arg) -> ArgView;

/// What a `clap::ArgGroup` holds.
pub uninterp spec fn group_view(group: clap::ArgGroup) -> GroupView;

/// What a `clap::builder::PossibleValue` holds.
pub uninterp spec fn value_view(value: clap::builder::PossibleValue) -> ValueView;

/// The text of each of `names`, in order.
pub open spec fn names_of(names: Seq<&'static str>) -> Seq<Seq<char>> {
    Seq::new(names.len(), |i: int| names[i]@)
}

/// What each of `values` holds, in order.
pub open spec fn values_of(values: Seq<clap::builder::PossibleValue>) -> Seq<ValueView> {
    Seq::new(values.len(), |i: int| value_view(values[i]))
}

/// A command with nothing but its name.
pub open spec fn bare_command(name: Seq<char>) -> CommandView {
    CommandView {
        name,
        about: None,
        author: None,
        subcommand_required: false,
        args: Seq::empty(),
        groups: Seq::empty(),
        subcommands: Seq::empty(),
    }
}

/// An argument with nothing but its name.
pub open spec fn bare_arg(id: Seq<char>) -> ArgView {
    ArgView { id, long: None, short: None, help: None, required: false, action: None, values: None }
}

/// `clap::Command::new`: a command of this name, with no description, no
/// author, no arguments, groups or subcommands, that asks for no subcommand.
#[verifier::external_body]
fn command_new(name: &'static str) -> (r: clap::Command)
    ensures
        command_view(r) == bare_command(name@),
{
    clap::Command::new(name)
}

/// `clap::Command::about`: the command with this description, all else as it
/// was.
#[verifier::external_body]
fn command_about(command: clap::Command, about: &'static str) -> (r: clap::Command)
    ensures
        command_view(r) == (CommandView { about: Some(about@), ..command_view(command) }),
{
    command.about(about)
}

/// `clap::Command::author`: the command with this author, all else as it was.
#[verifier::external_body]
fn command_author(command: clap::Command, author: &'static str) -> (r: clap::Command)
    ensures
        command_view(r) == (CommandView { author: Some(author@), ..command_view(command) }),
{
    command.author(author)
}

/// `clap::Command::subcommand_required`: the command, asking for a subcommand
/// or not, all else as it was.
#[verifier::external_body]
fn command_subcommand_required(command: clap::Command, yes: bool) -> (r: clap::Command)
    ensures
        command_view(r) == (CommandView { subcommand_required: yes, ..command_view(command) }),
{
    command.subcommand_required(yes)
}

/// `clap::Command::subcommand`: the command with this subcommand behind those
/// that it had, all else as it was.
#[verifier::external_body]
fn command_subcommand(command: clap::Command, subcommand: clap::Command) -> (r: clap::Command)
    ensures
        command_view(r) == (CommandView {
            subcommands: command_view(command).subcommands.push(command_view(subcommand)),
            ..command_view(command)
        }),
{
    command.subcommand(subcommand)
}

/// `clap::Command::arg`: the command with this argument behind those that it
/// had, all else as it was.
#[verifier::external_body]
fn command_arg(command: clap::Command, arg: clap::Arg) -> (r: clap::Command)
    ensures
        command_view(r) == (CommandView {
            args: command_view(command).args.push(arg_view(arg)),
            ..command_view(command)
        }),
{
    command.arg(arg)
}

/// `clap::Command::group`: the command with this group behind those that it
/// had, all else as it was.
#[verifier::external_body]
fn command_group(command: clap::Command, group: clap::ArgGroup) -> (r: clap::Command)
    ensures
        command_view(r) == (CommandView {
            groups: command_view(command).groups.push(group_view(group)),
            ..command_view(command)
        }),
{
    command.group(group)
}

/// `clap::Arg::new`: an argument of this name, with no flag, no help text, no
/// action and no list of values, that the command line need not hold.
#[verifier::external_body]
fn arg_new(name: &'static str) -> (r: clap::Arg)
    ensures
        arg_view(r) == bare_arg(name@),
{
    clap::Arg::new(name)
}

/// `clap::Arg::long`: the argument with this long flag, all else as it was.
#[verifier::external_body]
fn arg_long(arg: clap::Arg, long: &'static str) -> (r: clap::Arg)
    ensures
        arg_view(r) == (ArgView { long: Some(long@), ..arg_view(arg) }),
{
    arg.long(long)
}

/// `clap::Arg::short`: the argument with this short flag, which must not be
/// `-`, all else as it was.
#[verifier::external_body]
fn arg_short(arg: clap::Arg, short: char) -> (r: clap::Arg)
    requires
        short != '-',
    ensures
        arg_view(r) == (ArgView { short: Some(short), ..arg_view(arg) }),
{
    arg.short(short)
}

/// `clap::Arg::help`: the argument with this help text, all else as it was.
#[verifier::external_body]
fn arg_help(arg: clap::Arg, help: &'static str) -> (r: clap::Arg)
    ensures
        arg_view(r) == (ArgView { help: Some(help@), ..arg_view(arg) }),
{
    arg.help(help)
}

/// `clap::Arg::required`: the argument, required or not, all else as it was.
#[verifier::external_body]
fn arg_required(arg: clap::Arg, yes: bool) -> (r: clap::Arg)
    ensures
        arg_view(r) == (ArgView { required: yes, ..arg_view(arg) }),
{
    arg.required(yes)
}

/// `clap::Arg::action`: the argument with this action, all else as it was.
#[verifier::external_body]
fn arg_action(arg: clap::Arg, action: Action) -> (r: clap::Arg)
    ensures
        arg_view(r) == (ArgView { action: Some(action), ..arg_view(arg) }),
{
    arg.action(
        match action {
            Action::SetTrue => clap::ArgAction::SetTrue,
            Action::Append => clap::ArgAction::Append,
        },
    )
}

/// `clap::Arg::value_parser`, for a list of values: the argument, taking one
/// of these values, all else as it was.
#[verifier::external_body]
fn arg_value_parser(arg: clap::Arg, values: Vec<clap::builder::PossibleValue>) -> (r: clap::Arg)
    ensures
        arg_view(r) == (ArgView { values: Some(values_of(values@)), ..arg_view(arg) }),
{
    arg.value_parser(values)
}

/// `clap::builder::PossibleValue::new`: a value of this name, with no other
/// name.
#[verifier::external_body]
fn possible_value_new(name: &'static str) -> (r: clap::builder::PossibleValue)
    ensures
        value_view(r) == (ValueView { name: name@, aliases: Seq::empty() }),
{
    clap::builder::PossibleValue::new(name)
}

/// `clap::builder::PossibleValue::aliases`: the value with these other names
/// behind those that it had, its name as it was.
#[verifier::external_body]
fn possible_value_aliases(
    value: clap::builder::PossibleValue,
    names: Vec<&'static str>,
) -> (r: clap::builder::PossibleValue)
    ensures
        value_view(r) == (ValueView {
            name: value_view(value).name,
            aliases: value_view(value).aliases + names_of(names@),
        }),
{
    value.aliases(names)
}

/// `clap::ArgGroup::new`: a group of this name, with no arguments.
#[verifier::external_body]
fn group_new(name: &'static str) -> (r: clap::ArgGroup)
    ensures
        group_view(r) == (GroupView { id: name@, args: Seq::empty() }),
{
    clap::ArgGroup::new(name)
}

/// `clap::ArgGroup::args`: the group with these arguments behind those that it
/// had, its name as it was.
#[verifier::external_body]
fn group_args(group: clap::ArgGroup, names: Vec<&'static str>) -> (r: clap::ArgGroup)
    ensures
        group_view(r) == (GroupView {
            id: group_view(group).id,
            args: group_view(group).args + names_of(names@),
        }),
{
    group.args(names)
}

/// What a command line that was read holds for the flag `name`: whether the
/// flag was given, or nothing where the command line defines no flag of that
/// name or the flag has no value.
pub uninterp spec fn flag_value(args: clap::ArgMatches, name: Seq<char>) -> Option<bool>;

/// `clap::ArgMatches::try_get_one`, for a `bool`: what the command line holds
/// for the flag `name`.
#[verifier::external_body]
fn flag(args: &clap::ArgMatches, name: &str) -> (r: Option<bool>)
    ensures
        r == flag_value(*args, name@),
{
    match args.try_get_one::<bool>(name) {
        Ok(Some(value)) => Some(*value),
        Ok(None) => None,
        Err(_) => None,
    }
}

/// A switch: an argument that the command line need not hold, with its name as
/// its long flag, a short flag and a help text, whose presence is recorded.
pub open spec fn switch_view(name: Seq<char>, short: char, help: Seq<char>) -> ArgView {
    ArgView {
        id: name,
        long: Some(name),
        short: Some(short),
        help: Some(help),
        required: false,
        action: Some(Action::SetTrue),
        values: None,
    }
}

/// The subcommand `load`: it takes the name of the colorscheme to load, which
/// the command line must hold.
pub open spec fn load_view() -> CommandView {
    CommandView {
        about: Some("Load a new colorscheme"@),
        args: seq![
            ArgView {
                help: Some(
                    "Name of the colorscheme to load. Run `chromasync list` to list the available themes"@,
                ),
                required: true,
                ..bare_arg("colorscheme"@)
            },
        ],
        ..bare_command("load"@)
    }
}

/// The subcommand `reload`: it takes the blueprints to reload, as many as are
/// given with `--blueprint` or `-b`, and the switch `--no-script`.
pub open spec fn reload_view() -> CommandView {
    CommandView {
        about: Some("Reload the latest colorscheme"@),
        args: seq![
            ArgView {
                long: Some("blueprint"@),
                short: Some('b'),
                help: Some(
                    "The specific blueprint to reload. If not specified, all blueprints are reloaded"@,
                ),
                action: Some(Action::Append),
                ..bare_arg("blueprint"@)
            },
            ArgView {
                long: Some("no-script"@),
                help: Some("Prevent the execution of `chromasync-post.sh`"@),
                action: Some(Action::SetTrue),
                ..bare_arg("no-script"@)
            },
        ],
        ..bare_command("reload"@)
    }
}

/// The orders in which `list` can sort, each with its other names.
pub open spec fn sort_order_views() -> Seq<ValueView> {
    seq![
        ValueView { name: "name"@, aliases: seq!["n"@] },
        ValueView {
            name: "background-luminance"@,
            aliases: seq![
                "background_luminance"@,
                "bg-lum"@,
                "bg_lum"@,
                "bglum"@,
                "background"@,
                "bg"@,
                "luminance"@,
                "lum"@,
                "background-brightness"@,
                "background_brightness"@,
                "brightness"@,
            ],
        },
        ValueView {
            name: "contrast"@,
            aliases: seq!["contr"@, "cont"@, "con"@, "cntr"@, "cnt"@],
        },
    ]
}

/// The subcommand `list`: the switches `--dark` and `--light`, which form a
/// group so that only one of them may be given, and `--sort-by` with the
/// order to sort in.
pub open spec fn list_view() -> CommandView {
    CommandView {
        about: Some("List the available colorschemes"@),
        args: seq![
            switch_view("dark"@, 'd', "List colorschemes with a dark background color"@),
            switch_view("light"@, 'l', "List colorschemes with a light background color"@),
            ArgView {
                long: Some("sort-by"@),
                help: Some("Specify the sorting order"@),
                values: Some(sort_order_views()),
                ..bare_arg("sort-by"@)
            },
        ],
        groups: seq![GroupView { id: "light-dark-group"@, args: seq!["dark"@, "light"@] }],
        ..bare_command("list"@)
    }
}

/// The command line of the program: the subcommands `load`, `reload` and
/// `list`, of which one is required, and the switches `--quiet` and
/// `--verbose`, which form a group so that only one of them may be given.
pub open spec fn command_line() -> CommandView {
    CommandView {
        name: APP_NAME@,
        about: Some(DESCRIPTION@),
        author: Some("Daniele Monzani"@),
        subcommand_required: true,
        args: seq![
            switch_view("quiet"@, 'q', "Disable logs on the terminal"@),
            switch_view("verbose"@, 'v', "Show more logs on the terminal"@),
        ],
        groups: seq![GroupView { id: "verbosity-group"@, args: seq!["quiet"@, "verbose"@] }],
        subcommands: seq![load_view(), reload_view(), list_view()],
    }
}

/// A flag: an optional argument with a long and a short form whose presence is
/// recorded.
fn switch(name: &'static str, short: char, help: &'static str) -> (r: clap::Arg)
    requires
        short != '-',
    ensures
        arg_view(r) == switch_view(name@, short, help@),
{
    arg_required(
        arg_action(arg_help(arg_short(arg_long(arg_new(name), name), short), help), Action::SetTrue),
        false,
    )
}

/// The subcommand `load`, with the colorscheme to load.
fn load_command() -> (r: clap::Command)
    ensures
        command_view(r) == load_view(),
{
    let colorscheme = arg_required(
        arg_help(
            arg_new("colorscheme"),
            "Name of the colorscheme to load. Run `chromasync list` to list the available themes",
        ),
        true,
    );
    let command = command_arg(
        command_about(command_new("load"), "Load a new colorscheme"),
        colorscheme,
    );
    assert(command_view(command).args =~= load_view().args);
    command
}

/// The subcommand `reload`, with the blueprints to reload and the switch that
/// keeps the script from running.
fn reload_command() -> (r: clap::Command)
    ensures
        command_view(r) == reload_view(),
{
    let blueprint = arg_required(
        arg_action(
            arg_help(
                arg_short(arg_long(arg_new("blueprint"), "blueprint"), 'b'),
                "The specific blueprint to reload. If not specified, all blueprints are reloaded",
            ),
            Action::Append,
        ),
        false,
    );
    let no_script = arg_required(
        arg_action(
            arg_help(
                arg_long(arg_new("no-script"), "no-script"),
                "Prevent the execution of `chromasync-post.sh`",
            ),
            Action::SetTrue,
        ),
        false,
    );
    let command = command_arg(
        command_arg(command_about(command_new("reload"), "Reload the latest colorscheme"), blueprint),
        no_script,
    );
    assert(command_view(command).args =~= reload_view().args);
    command
}

/// The orders in which `list` can sort, each with its other names.
fn sort_orders() -> (r: Vec<clap::builder::PossibleValue>)
    ensures
        values_of(r@) == sort_order_views(),
{
    let by_name = possible_value_aliases(possible_value_new("name"), vec!["n"]);
    let by_luminance = possible_value_aliases(
        possible_value_new("background-luminance"),
        vec![
            "background_luminance",
            "bg-lum",
            "bg_lum",
            "bglum",
            "background",
            "bg",
            "luminance",
            "lum",
            "background-brightness",
            "background_brightness",
            "brightness",
        ],
    );
    let by_contrast = possible_value_aliases(
        possible_value_new("contrast"),
        vec!["contr", "cont", "con", "cntr", "cnt"],
    );
    assert(value_view(by_name).aliases =~= sort_order_views()[0].aliases);
    assert(value_view(by_luminance).aliases =~= sort_order_views()[1].aliases);
    assert(value_view(by_contrast).aliases =~= sort_order_views()[2].aliases);
    let mut orders: Vec<clap::builder::PossibleValue> = Vec::new();
    orders.push(by_name);
    orders.push(by_luminance);
    orders.push(by_contrast);
    assert(values_of(orders@) =~= sort_order_views());
    orders
}

/// The subcommand `list`, with the switches for dark and light colorschemes,
/// of which one may be given, and the order to sort in.
fn list_command() -> (r: clap::Command)
    ensures
        command_view(r) == list_view(),
{
    let dark = switch("dark", 'd', "List colorschemes with a dark background color");
    let light = switch("light", 'l', "List colorschemes with a light background color");
    let sort_by = arg_value_parser(
        arg_required(
            arg_help(arg_long(arg_new("sort-by"), "sort-by"), "Specify the sorting order"),
            false,
        ),
        sort_orders(),
    );
    let group = group_args(group_new("light-dark-group"), vec!["dark", "light"]);
    assert(group_view(group).args =~= seq!["dark"@, "light"@]);
    let command = command_about(command_new("list"), "List the available colorschemes");
    let command = command_arg(command_arg(command, dark), light);
    let command = command_group(command, group);
    let command = command_arg(command, sort_by);
    assert(command_view(command).args =~= list_view().args);
    assert(command_view(command).groups =~= list_view().groups);
    command
}

/// The command line of the program: the subcommands `load`, `reload` and
/// `list`, of which one is required, and the switches `--quiet` and
/// `--verbose`, of which one may be given.
pub fn build_parser() -> (r: clap::Command)
    ensures
        command_view(r) == command_line(),
{
    let command = command_subcommand_required(
        command_author(command_about(command_new(APP_NAME), DESCRIPTION), "Daniele Monzani"),
        true,
    );
    let command = command_subcommand(command, load_command());
    let command = command_subcommand(command, reload_command());
    let command = command_subcommand(command, list_command());
    let command = command_arg(command, switch("quiet", 'q', "Disable logs on the terminal"));
    let command = command_arg(command, switch("verbose", 'v', "Show more logs on the terminal"));
    let group = group_args(group_new("verbosity-group"), vec!["quiet", "verbose"]);
    assert(group_view(group).args =~= seq!["quiet"@, "verbose"@]);
    let command = command_group(command, group);
    assert(command_view(command).args =~= command_line().args);
    assert(command_view(command).groups =~= command_line().groups);
    assert(command_view(command).subcommands =~= command_line().subcommands);
    command
}

/// The order in which `list` shows the colorschemes.
#[derive(Clone, Copy, Debug, PartialEq, Eq, Structural)]
pub enum SortOrder {
    /// By name.
    Name,
    /// By the luminance of the background.
    BackgroundLuminance,
    /// By the contrast between foreground and background.
    Contrast,
}

/// The order that a value of `--sort-by` names, if it names one.
pub open spec fn sort_order_named(name: Seq<char>) -> Option<SortOrder> {
    if name == "name"@ || name == "n"@ {
        Some(SortOrder::Name)
    } else if name == "background-luminance"@
        || name == "background_luminance"@
        || name == "bg-lum"@
        || name == "bg_lum"@
        || name == "bglum"@
        || name == "background"@
        || name == "bg"@
        || name == "luminance"@
        || name == "lum"@
        || name == "background-brightness"@
        || name == "background_brightness"@
        || name == "brightness"@ {
        Some(SortOrder::BackgroundLuminance)
    } else if name == "contrast"@
        || name == "contr"@
        || name == "cont"@
        || name == "con"@
        || name == "cntr"@
        || name == "cnt"@ {
        Some(SortOrder::Contrast)
    } else {
        None
    }
}

/// The order in which to sort: by name where `--sort-by` was not given, else
/// the order that its value names, if it names one.
pub fn sort_order(name: Option<&str>) -> (r: Option<SortOrder>)
    ensures
        r == match name {
            None => Some(SortOrder::Name),
            Some(n) => sort_order_named(n@),
        },
{
    match name {
        None => Some(SortOrder::Name),
        Some(name) => {
            if same_text(name, "name") || same_text(name, "n") {
                Some(SortOrder::Name)
            } else if same_text(name, "background-luminance")
                || same_text(name, "background_luminance")
                || same_text(name, "bg-lum")
                || same_text(name, "bg_lum")
                || same_text(name, "bglum")
                || same_text(name, "background")
                || same_text(name, "bg")
                || same_text(name, "luminance")
                || same_text(name, "lum")
                || same_text(name, "background-brightness")
                || same_text(name, "background_brightness")
                || same_text(name, "brightness") {
                Some(SortOrder::BackgroundLuminance)
            } else if same_text(name, "contrast")
                || same_text(name, "contr")
                || same_text(name, "cont")
                || same_text(name, "con")
                || same_text(name, "cntr")
                || same_text(name, "cnt") {
                Some(SortOrder::Contrast)
            } else {
                None
            }
        },
    }
}

/// Reads the switches `--verbose` and `--quiet` from a command line that was
/// read, and sets the verbosity by them. A switch that the command line does
/// not define counts as not given.
pub fn read_verbosity(args: &clap::ArgMatches, v: &mut Verbosity)
    ensures
        *final(v) == verbosity_after(
            *old(v),
            flag_value(*args, "verbose"@) == Some(true),
            flag_value(*args, "quiet"@) == Some(true),
        ),
{
    let verbose = match flag(args, "verbose") {
        Some(value) => value,
        None => false,
    };
    let quiet = match flag(args, "quiet") {
        Some(value) => value,
        None => false,
    };
    set_verbosity(v, verbose, quiet);
}

} // verus!
