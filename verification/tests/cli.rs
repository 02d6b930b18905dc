use chromasync::cli::{build_parser, read_verbosity, sort_order, SortOrder};
use chromasync::config::APP_NAME;
use chromasync::logging::Verbosity;
use clap::error::Result;
use clap::ArgMatches;

// Helper function
fn parse_args(args: &str) -> Result<ArgMatches> {
    // Prepends the app's name and splits by whitespace
    let args = format!("{} {}", APP_NAME, args);
    let args_vec = args.split_whitespace();

    // Builds the parser and parses the arguments
    let parser = build_parser();

    parser.try_get_matches_from(args_vec)
}

fn should_parse(args: &str, error_msg: &str) {
    let matches = parse_args(args);
    assert!(matches.is_ok(), "{}", error_msg);
}

fn should_parse_auto_err(args: &str) {
    let error_msg = &format!("Can't parse `{} {}`", APP_NAME, args).to_string();

    should_parse(args, error_msg)
}

fn should_fail_to_parse(args: &str, error_msg: &str) {
    let matches = parse_args(args);
    assert!(matches.is_err(), "{}", error_msg);
}

#[test]
fn load() {
    should_parse_auto_err("load my-theme");
    should_fail_to_parse(
        "load",
        "Should fail cause positional argument `colorscheme` is missing, but got ok",
    );
}

#[test]
fn reload() {
    should_parse_auto_err("reload");
}

#[test]
fn reload_blueprint() {
    should_parse_auto_err("reload -b my-blueprint");
    should_parse_auto_err("reload --blueprint my-blueprint");
}

#[test]
fn reload_no_script() {
    should_parse_auto_err("reload --no-script");
}

#[test]
fn list() {
    should_parse_auto_err("list");
}

#[test]
fn list_light_dark() {
    should_parse_auto_err("list -l");
    should_parse_auto_err("list --light");

    should_parse_auto_err("list -d");
    should_parse_auto_err("list --dark");

    should_fail_to_parse(
        "list -d -l",
        "Should fail to parse when both --light and --dark options are specified, but got ok",
    );
}

#[test]
fn list_sort_by() {
    should_parse_auto_err("list --sort-by name");
    should_parse_auto_err("list --sort-by n");

    should_parse_auto_err("list --sort-by background-luminance");
    should_parse_auto_err("list --sort-by background_luminance");
    should_parse_auto_err("list --sort-by bg-lum");
    should_parse_auto_err("list --sort-by bg_lum");
    should_parse_auto_err("list --sort-by bglum");
    should_parse_auto_err("list --sort-by background");
    should_parse_auto_err("list --sort-by bg");
    should_parse_auto_err("list --sort-by luminance");
    should_parse_auto_err("list --sort-by lum");
    should_parse_auto_err("list --sort-by background-brightness");
    should_parse_auto_err("list --sort-by background_brightness");
    should_parse_auto_err("list --sort-by brightness");

    should_parse_auto_err("list --sort-by contrast");
    should_parse_auto_err("list --sort-by contr");
    should_parse_auto_err("list --sort-by cont");
    should_parse_auto_err("list --sort-by con");
    should_parse_auto_err("list --sort-by cntr");
    should_parse_auto_err("list --sort-by cnt");

    should_fail_to_parse(
        "list --sort-by name --sort-by luminance",
        "Should fail to parse when more --sort-by args are specified",
    );
}

#[test]
fn verbosity_group() {
    should_parse_auto_err("-v list");
    should_parse_auto_err("--verbose list");

    should_parse_auto_err("-q list");
    should_parse_auto_err("--quiet list");

    should_fail_to_parse(
        "-v -q list",
        "Should fail to parse when both --verbose and --quiet options are specified, but got ok",
    );
}

#[test]
fn subcommand_is_required() {
    should_fail_to_parse("", "Should fail without a subcommand");
    should_fail_to_parse("-v", "Should fail without a subcommand");
    should_fail_to_parse("preview x", "Should fail on an unknown subcommand");
    should_fail_to_parse("list --sort-by size", "Should fail on an unknown order");
}

#[test]
fn parsed_values_can_be_read() {
    let matches = parse_args("reload -b one --blueprint two --no-script").unwrap();
    let (name, sub) = matches.subcommand().unwrap();
    assert_eq!(name, "reload");
    let blueprints: Vec<&String> = sub.get_many::<String>("blueprint").unwrap().collect();
    assert_eq!(blueprints, vec!["one", "two"]);
    assert!(sub.get_flag("no-script"));

    let matches = parse_args("load nord").unwrap();
    let (name, sub) = matches.subcommand().unwrap();
    assert_eq!(name, "load");
    assert_eq!(sub.get_one::<String>("colorscheme").unwrap(), "nord");

    let matches = parse_args("list -d --sort-by bg").unwrap();
    let (_, sub) = matches.subcommand().unwrap();
    assert!(sub.get_flag("dark"));
    assert!(!sub.get_flag("light"));
    assert_eq!(sub.get_one::<String>("sort-by").unwrap(), "bg");
}

#[test]
fn parser_describes_itself() {
    let parser = build_parser();
    assert_eq!(parser.get_name(), "chromasync");
    assert_eq!(parser.get_author(), Some("Daniele Monzani"));
    let names: Vec<&str> = parser.get_subcommands().map(|c| c.get_name()).collect();
    assert_eq!(names, vec!["load", "reload", "list"]);
    let quiet = parser.get_arguments().find(|a| a.get_id() == "quiet").unwrap();
    assert_eq!(quiet.get_short(), Some('q'));
    assert_eq!(quiet.get_long(), Some("quiet"));
    assert!(!quiet.is_required_set());
}

#[test]
fn verbosity_is_read_from_the_command_line() {
    let mut v = Verbosity::new();
    read_verbosity(&parse_args("list").unwrap(), &mut v);
    assert_eq!(v, Verbosity { verbose: false, quiet: false });
    read_verbosity(&parse_args("-q list").unwrap(), &mut v);
    assert_eq!(v, Verbosity { verbose: false, quiet: true });
    read_verbosity(&parse_args("list").unwrap(), &mut v);
    assert_eq!(v, Verbosity { verbose: false, quiet: true });
    read_verbosity(&parse_args("--verbose list").unwrap(), &mut v);
    assert_eq!(v, Verbosity { verbose: true, quiet: false });
    // The matches of a subcommand define neither switch.
    let matches = parse_args("-q list").unwrap();
    let (_, sub) = matches.subcommand().unwrap();
    read_verbosity(sub, &mut v);
    assert_eq!(v, Verbosity { verbose: true, quiet: false });
}

#[test]
fn sort_orders_by_name() {
    assert_eq!(sort_order(None), Some(SortOrder::Name));
    assert_eq!(sort_order(Some("name")), Some(SortOrder::Name));
    assert_eq!(sort_order(Some("n")), Some(SortOrder::Name));
    for name in [
        "background-luminance",
        "background_luminance",
        "bg-lum",
        "bg_lum",
        "bglum",
        "background",
        "bg",
        "luminance",
        "lum",
        "background-brightness",
        "background_brightness",
        "brightness",
    ] {
        assert_eq!(sort_order(Some(name)), Some(SortOrder::BackgroundLuminance), "{}", name);
    }
    for name in ["contrast", "contr", "cont", "con", "cntr", "cnt"] {
        assert_eq!(sort_order(Some(name)), Some(SortOrder::Contrast), "{}", name);
    }
    assert_eq!(sort_order(Some("background luminance")), None);
    assert_eq!(sort_order(Some("")), None);
    assert_eq!(sort_order(Some("Name")), None);
}

// Everything that the parser was given, read back from it.
fn describe(command: &clap::Command, indent: &str, out: &mut Vec<String>) {
    out.push(format!(
        "{}command {} about={:?} author={:?} subcommand_required={}",
        indent,
        command.get_name(),
        command.get_about().map(|a| a.to_string()),
        command.get_author(),
        command.is_subcommand_required_set()
    ));
    for arg in command.get_arguments() {
        out.push(format!(
            "{}  arg {} long={:?} short={:?} required={} action={:?} help={:?}",
            indent,
            arg.get_id(),
            arg.get_long(),
            arg.get_short(),
            arg.is_required_set(),
            arg.get_action(),
            arg.get_help().map(|h| h.to_string())
        ));
        for value in arg.get_possible_values() {
            let names: Vec<&str> = value.get_name_and_aliases().collect();
            out.push(format!("{}    value {}", indent, names.join(" ")));
        }
    }
    for group in command.get_groups() {
        let args: Vec<&str> = group.get_args().map(|a| a.as_str()).collect();
        out.push(format!("{}  group {} {}", indent, group.get_id(), args.join(" ")));
    }
    for subcommand in command.get_subcommands() {
        describe(subcommand, &format!("{}  ", indent), out);
    }
}

#[test]
fn parser_holds_what_it_was_given() {
    let mut got = Vec::new();
    describe(&build_parser(), "", &mut got);
    let want = vec![
        "command chromasync about=Some(\"`chromasync` is a tool designed to automate the process of changing colorschemes for various terminal applications.\\n\") author=Some(\"Daniele Monzani\") subcommand_required=true",
        "  arg quiet long=Some(\"quiet\") short=Some('q') required=false action=SetTrue help=Some(\"Disable logs on the terminal\")",
        "  arg verbose long=Some(\"verbose\") short=Some('v') required=false action=SetTrue help=Some(\"Show more logs on the terminal\")",
        "  group verbosity-group quiet verbose",
        "  command load about=Some(\"Load a new colorscheme\") author=None subcommand_required=false",
        "    arg colorscheme long=None short=None required=true action=Set help=Some(\"Name of the colorscheme to load. Run `chromasync list` to list the available themes\")",
        "  command reload about=Some(\"Reload the latest colorscheme\") author=None subcommand_required=false",
        "    arg blueprint long=Some(\"blueprint\") short=Some('b') required=false action=Append help=Some(\"The specific blueprint to reload. If not specified, all blueprints are reloaded\")",
        "    arg no-script long=Some(\"no-script\") short=None required=false action=SetTrue help=Some(\"Prevent the execution of `chromasync-post.sh`\")",
        "  command list about=Some(\"List the available colorschemes\") author=None subcommand_required=false",
        "    arg dark long=Some(\"dark\") short=Some('d') required=false action=SetTrue help=Some(\"List colorschemes with a dark background color\")",
        "    arg light long=Some(\"light\") short=Some('l') required=false action=SetTrue help=Some(\"List colorschemes with a light background color\")",
        "    arg sort-by long=Some(\"sort-by\") short=None required=false action=Set help=Some(\"Specify the sorting order\")",
        "      value name n",
        "      value background-luminance background_luminance bg-lum bg_lum bglum background bg luminance lum background-brightness background_brightness brightness",
        "      value contrast contr cont con cntr cnt",
        "    group light-dark-group dark light",
    ];
    assert_eq!(got, want);
}
