use cfgopt::schema::{App, Flag, Positional};
use cfgopt::types::ValueType;
use cfgopt::error::{Error, DupKind};
use cfgopt::validate::inject_help;

fn flag(name: &str, short: char) -> Flag {
    Flag {
        name: name.to_owned(),
        value_type: ValueType::Boolean,
        help: "h".to_owned(),
        multiple: false,
        short,
        default: None,
        aliases: Vec::new(),
        value_name: None,
        env: None,
    }
}

fn positional(name: &str) -> Positional {
    Positional {
        name: name.to_owned(),
        value_type: ValueType::String,
        help: "h".to_owned(),
        multiple: false,
    }
}

fn app_with(flags: Vec<Flag>, positionals: Vec<Positional>) -> App {
    App {
        name: "t".to_owned(),
        version: None,
        about: None,
        no_auto_help: true,
        flags,
        positionals,
    }
}

#[test]
fn distinct_names_pass() {
    let app = app_with(vec![flag("a", 'x'), flag("b", '\0')], vec![positional("c")]);
    assert!(app.check_app().is_ok());
}

#[test]
fn duplicate_flag_name_fails() {
    let app = app_with(vec![flag("a", '\0'), flag("a", '\0')], vec![]);
    let err = app.check_app().unwrap_err();
    match &err {
        Error::DuplicateName { kind, name } => {
            assert_eq!(*kind, DupKind::FlagName);
            assert_eq!(name, "a");
        }
        _ => panic!("expected a duplicate-name error"),
    }
    assert_eq!(err.message(), "cfgopt: Duplicated flag name: a");
}

#[test]
fn duplicate_short_name_fails() {
    let app = app_with(vec![flag("x", 'a'), flag("y", 'a')], vec![]);
    let err = app.check_app().unwrap_err();
    match &err {
        Error::DuplicateName { kind, name } => {
            assert_eq!(*kind, DupKind::FlagShort);
            assert_eq!(name, "y");
        }
        _ => panic!("expected a duplicate-name error"),
    }
    assert_eq!(err.message(), "cfgopt: Duplicated flag short name: y");
}

#[test]
fn flag_and_positional_share_name_fails() {
    let app = app_with(vec![flag("n", '\0')], vec![positional("n")]);
    let err = app.check_app().unwrap_err();
    match &err {
        Error::DuplicateName { kind, name } => {
            assert_eq!(*kind, DupKind::PositionalName);
            assert_eq!(name, "n");
        }
        _ => panic!("expected a duplicate-name error"),
    }
    assert_eq!(err.message(), "cfgopt: Duplicated positional name: n");
}

#[test]
fn long_name_collides_with_earlier_short_form() {
    let app = app_with(vec![flag("verbose", 'v'), flag("v", '\0')], vec![]);
    let err = app.check_app().unwrap_err();
    match &err {
        Error::DuplicateName { kind, name } => {
            assert_eq!(*kind, DupKind::FlagName);
            assert_eq!(name, "v");
        }
        _ => panic!("expected a duplicate-name error"),
    }
}

#[test]
fn short_form_collides_with_own_long_name() {
    let app = app_with(vec![flag("v", 'v')], vec![]);
    let err = app.check_app().unwrap_err();
    match &err {
        Error::DuplicateName { kind, name } => {
            assert_eq!(*kind, DupKind::FlagShort);
            assert_eq!(name, "v");
        }
        _ => panic!("expected a duplicate-name error"),
    }
}

#[test]
fn help_flag_appended_last() {
    let mut app = app_with(vec![flag("verbose", 'v')], vec![]);
    app.no_auto_help = false;
    inject_help(&mut app);
    assert_eq!(app.flags.len(), 2);
    assert_eq!(app.flags[0].name, "verbose");
    let last = &app.flags[1];
    assert_eq!(last.name, "help");
    assert_eq!(last.short, 'h');
    assert!(matches!(last.value_type, ValueType::Boolean));
    assert!(!last.multiple);
    assert_eq!(last.help, "print this help and exit");
    assert!(last.default.is_none());
}

#[test]
fn no_auto_help_leaves_flags_alone() {
    let mut app = app_with(vec![flag("verbose", 'v')], vec![]);
    inject_help(&mut app);
    assert_eq!(app.flags.len(), 1);
    assert_eq!(app.flags[0].name, "verbose");
}

#[test]
fn user_help_flag_collides_with_synthetic_one() {
    let mut app = app_with(vec![flag("help", '\0')], vec![]);
    app.no_auto_help = false;
    let err = cfgopt::generate(app).unwrap_err();
    match &err {
        Error::DuplicateName { kind, name } => {
            assert_eq!(*kind, DupKind::FlagName);
            assert_eq!(name, "help");
        }
        _ => panic!("expected a duplicate-name error"),
    }
}

#[test]
fn user_help_flag_passes_with_no_auto_help() {
    let app = app_with(vec![flag("help", '\0')], vec![]);
    assert!(cfgopt::generate(app).is_ok());
}

#[test]
fn error_messages_for_io_kinds() {
    let e = Error::SourceUnavailable { detail: "\"cfgopt.toml\": missing".to_owned() };
    assert_eq!(e.message(), "cfgopt: Failed to open config file \"cfgopt.toml\": missing");
    let e = Error::SchemaMalformed { detail: "\"cfgopt.toml\": bad key".to_owned() };
    assert_eq!(e.message(), "cfgopt: Failed to parse config file \"cfgopt.toml\": bad key");
    let e = Error::OutputUnwritable { detail: "denied".to_owned() };
    assert_eq!(e.message(), "cfgopt: Failed write output: denied");
}
