use chromasync::config::{color_alias, color_name_known, COLOR_NAMES};
use chromasync::logging::{
    log_as, log_as_error, log_as_warning, set_verbosity, Error, Level, Verbosity,
};
use chromasync::text::{class_has, same_text, to_chars, CharClass};

fn loud() -> Verbosity {
    Verbosity { verbose: true, quiet: false }
}

#[test]
fn lines_carry_the_label_of_their_level() {
    let v = Verbosity::new();
    assert_eq!(
        log_as_error(&v, Error::SystemError("disk".to_string())),
        Some("[\x1b[31mERR\x1b[0m] disk".to_string())
    );
    assert_eq!(
        log_as_warning(&v, Error::BlueprintError("bp".to_string())),
        Some("[\x1b[33mWRN\x1b[0m] bp".to_string())
    );
    assert_eq!(
        log_as(&loud(), Level::Info, Error::ExecError(String::new())),
        Some("[\x1b[32mNFO\x1b[0m] ".to_string())
    );
}

#[test]
fn quiet_logs_nothing_and_info_needs_verbose() {
    let quiet = Verbosity { verbose: false, quiet: true };
    let both = Verbosity { verbose: true, quiet: true };
    for v in [quiet, both] {
        assert_eq!(log_as_error(&v, Error::SystemError("x".to_string())), None);
        assert_eq!(log_as_warning(&v, Error::SystemError("x".to_string())), None);
        assert_eq!(log_as(&v, Level::Info, Error::SystemError("x".to_string())), None);
    }
    assert_eq!(
        log_as(&Verbosity::new(), Level::Info, Error::SystemError("x".to_string())),
        None
    );
    assert!(log_as(&loud(), Level::Error, Error::HelpMessage("x".to_string())).is_some());
    assert!(log_as(&loud(), Level::Warning, Error::InvalidEnvironment("x".to_string())).is_some());
}

#[test]
fn every_error_says_its_message() {
    let m = || "what happened".to_string();
    for e in [
        Error::HelpMessage(m()),
        Error::InvalidCommandLineArgument(m()),
        Error::InvalidEnvironment(m()),
        Error::ColorschemeError(m()),
        Error::BlueprintError(m()),
        Error::ExecError(m()),
        Error::SystemError(m()),
    ] {
        assert_eq!(e.message(), "what happened");
    }
}

#[test]
fn command_line_errors_lose_their_prefix() {
    match Error::from_command_line(true, "error: usage") {
        Error::HelpMessage(m) => assert_eq!(m, "error: usage"),
        other => panic!("unexpected {:?}", other),
    }
    let stripped = |text: &str| match Error::from_command_line(false, text) {
        Error::InvalidCommandLineArgument(m) => m,
        other => panic!("unexpected {:?}", other),
    };
    assert_eq!(stripped("error: unexpected argument"), "unexpected argument");
    assert_eq!(stripped("error: "), "");
    assert_eq!(stripped("error:"), "error:");
    assert_eq!(stripped("Error: x"), "Error: x");
    assert_eq!(stripped(" error: x"), " error: x");
    assert_eq!(stripped("error: error: x"), "error: x");
    assert_eq!(stripped(""), "");
    assert_eq!(stripped("error: é"), "é");
}

#[test]
fn command_line_errors_of_the_parser() {
    let failure = chromasync::cli::build_parser()
        .try_get_matches_from(["chromasync", "load"])
        .unwrap_err();
    let help = failure.kind() == clap::error::ErrorKind::DisplayHelp;
    match Error::from_command_line(help, &failure.to_string()) {
        Error::InvalidCommandLineArgument(m) => {
            assert!(!m.starts_with("error: "));
            assert_eq!(format!("error: {}", m), failure.to_string());
        }
        other => panic!("unexpected {:?}", other),
    }
    let failure = chromasync::cli::build_parser()
        .try_get_matches_from(["chromasync", "--help"])
        .unwrap_err();
    let help = failure.kind() == clap::error::ErrorKind::DisplayHelp;
    match Error::from_command_line(help, &failure.to_string()) {
        Error::HelpMessage(m) => assert_eq!(m, failure.to_string()),
        other => panic!("unexpected {:?}", other),
    }
}

#[test]
fn verbosity_follows_the_switches() {
    let mut v = Verbosity::new();
    set_verbosity(&mut v, false, false);
    assert_eq!(v, Verbosity { verbose: false, quiet: false });
    set_verbosity(&mut v, false, true);
    assert_eq!(v, Verbosity { verbose: false, quiet: true });
    set_verbosity(&mut v, false, false);
    assert_eq!(v, Verbosity { verbose: false, quiet: true });
    set_verbosity(&mut v, true, false);
    assert_eq!(v, Verbosity { verbose: true, quiet: false });
    set_verbosity(&mut v, true, true);
    assert_eq!(v, Verbosity { verbose: true, quiet: false });
}

#[test]
fn colors_have_short_names() {
    assert_eq!(color_alias("foreground"), "f");
    assert_eq!(color_alias("background"), "b");
    assert_eq!(color_alias("cursor"), "c");
    for i in 1..=16 {
        assert_eq!(color_alias(&format!("color_{:02}", i)), i.to_string());
    }
    for other in ["", "color_00", "color_17", "color_1", "Cursor", "cursor ", "f"] {
        assert_eq!(color_alias(other), "?", "{:?}", other);
        assert!(!color_name_known(other));
    }
    for name in COLOR_NAMES {
        assert!(color_name_known(name));
        assert_ne!(color_alias(name), "?");
    }
}

#[test]
fn character_classes() {
    for c in ['a', 'z', 'A', 'Z', '0', '9', '_'] {
        assert!(class_has(CharClass::Word, c));
        assert!(class_has(CharClass::Key, c));
    }
    for c in ['é', 'ß', 'Ω', '٣', '５', '中', '\u{203F}'] {
        assert!(class_has(CharClass::Word, c), "{:?}", c);
        assert!(class_has(CharClass::Key, c), "{:?}", c);
        assert!(!class_has(CharClass::Hex, c), "{:?}", c);
    }
    for c in ['٣', '５', '९'] {
        assert!(class_has(CharClass::Digit, c), "{:?}", c);
    }
    for c in ['é', '½', '²', '\u{2160}', '→'] {
        assert!(!class_has(CharClass::Digit, c), "{:?}", c);
    }
    for c in ['-', ':', '{', '}', ' ', '%', '→', '½', '\u{a0}', '`', '@', '[', '/'] {
        assert!(!class_has(CharClass::Word, c), "{:?}", c);
        assert!(!class_has(CharClass::Digit, c), "{:?}", c);
        assert!(!class_has(CharClass::Hex, c), "{:?}", c);
    }
    assert!(class_has(CharClass::Key, '-'));
    for c in ['0', '5', '9'] {
        assert!(class_has(CharClass::Digit, c));
    }
    for c in ['a', 'f', 'A', 'F', '0', '9'] {
        assert!(class_has(CharClass::Hex, c));
    }
    for c in ['g', 'G', 'x'] {
        assert!(!class_has(CharClass::Hex, c));
        assert!(!class_has(CharClass::Digit, c));
    }
    assert!(class_has(CharClass::LineFeed, '\n'));
    assert!(!class_has(CharClass::LineFeed, '\r'));
    assert!(class_has(CharClass::Inline, '\r'));
    assert!(!class_has(CharClass::Inline, '\n'));
    assert!(class_has(CharClass::Space, '\u{3000}'));
    assert!(!class_has(CharClass::Space, '\u{200B}'));
}

#[test]
fn texts_compare_by_their_characters() {
    assert!(same_text("", ""));
    assert!(same_text("héllo", "héllo"));
    assert!(!same_text("hello", "hellO"));
    assert!(!same_text("hello", "hell"));
    assert!(!same_text("", " "));
    assert_eq!(to_chars("aé\n"), vec!['a', 'é', '\n']);
    assert_eq!(to_chars(""), Vec::<char>::new());
}
