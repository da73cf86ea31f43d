use cfgopt::schema::App;
use cfgopt::types::ValueType;
use cfgopt::error::Error;

fn malformed_detail(r: Result<App, Error>) -> String {
    match r {
        Err(Error::SchemaMalformed { detail }) => detail,
        Err(_) => panic!("expected a malformed-schema error"),
        Ok(_) => panic!("expected an error"),
    }
}

#[test]
fn full_schema_decodes() {
    let text = r#"
name = "demo"
version = "1.2.3"
about = "a demo app"

[[flags]]
name = "port"
type = "int64"
help = "listen port"
short = "p"
default = "8080"
alias = ["listen-port"]
value_name = "PORT"
env = "DEMO_PORT"

[[flags]]
name = "tags"
type = "string"
help = "tag list"
multiple = true

[[positionals]]
name = "input"
type = "string"
help = "input file"
"#;
    let app = App::from_toml_str(text).unwrap();
    assert_eq!(app.name, "demo");
    assert_eq!(app.version.as_deref(), Some("1.2.3"));
    assert_eq!(app.about.as_deref(), Some("a demo app"));
    assert!(!app.no_auto_help);
    assert_eq!(app.flags.len(), 2);
    let port = &app.flags[0];
    assert_eq!(port.name, "port");
    assert!(matches!(port.value_type, ValueType::Int64));
    assert_eq!(port.help, "listen port");
    assert!(!port.multiple);
    assert_eq!(port.short, 'p');
    assert_eq!(port.default.as_deref(), Some("8080"));
    assert_eq!(port.aliases, vec!["listen-port".to_owned()]);
    assert_eq!(port.value_name.as_deref(), Some("PORT"));
    assert_eq!(port.env.as_deref(), Some("DEMO_PORT"));
    let tags = &app.flags[1];
    assert_eq!(tags.name, "tags");
    assert!(tags.multiple);
    assert_eq!(tags.short, '\0');
    assert!(tags.default.is_none());
    assert_eq!(app.positionals.len(), 1);
    assert_eq!(app.positionals[0].name, "input");
    assert!(matches!(app.positionals[0].value_type, ValueType::String));
}

#[test]
fn minimal_schema_uses_defaults() {
    let app = App::from_toml_str("name = \"tiny\"\n").unwrap();
    assert_eq!(app.name, "tiny");
    assert!(app.version.is_none());
    assert!(app.about.is_none());
    assert!(!app.no_auto_help);
    assert!(app.flags.is_empty());
    assert!(app.positionals.is_empty());
}

#[test]
fn unknown_root_key_is_rejected() {
    let detail = malformed_detail(App::from_toml_str("name = \"x\"\nbogus = 1\n"));
    assert_eq!(detail, "unrecognized key in schema");
}

#[test]
fn unknown_root_key_beats_validation() {
    // A schema with both an unrecognized key and a duplicate flag name
    // fails at decoding, before validation ever runs.
    let text = r#"
name = "x"
bogus = true

[[flags]]
name = "a"
type = "boolean"
help = "first"

[[flags]]
name = "a"
type = "boolean"
help = "second"
"#;
    let err = App::from_toml_str(text).unwrap_err();
    assert!(matches!(err, Error::SchemaMalformed { .. }));
}

#[test]
fn unknown_flag_key_is_rejected() {
    let text = r#"
name = "x"

[[flags]]
name = "a"
type = "boolean"
help = "h"
shorthand = "a"
"#;
    let detail = malformed_detail(App::from_toml_str(text));
    assert_eq!(detail, "unrecognized key in flag entry");
}

#[test]
fn unknown_positional_key_is_rejected() {
    let text = r#"
name = "x"

[[positionals]]
name = "a"
type = "string"
help = "h"
short = "a"
"#;
    let detail = malformed_detail(App::from_toml_str(text));
    assert_eq!(detail, "unrecognized key in positional entry");
}

#[test]
fn missing_name_is_rejected() {
    let detail = malformed_detail(App::from_toml_str("version = \"1\"\n"));
    assert_eq!(detail, "missing key: name");
}

#[test]
fn missing_flag_type_is_rejected() {
    let text = r#"
name = "x"

[[flags]]
name = "a"
help = "h"
"#;
    let detail = malformed_detail(App::from_toml_str(text));
    assert_eq!(detail, "missing key: type");
}

#[test]
fn bad_type_tag_is_rejected() {
    let text = r#"
name = "x"

[[flags]]
name = "a"
type = "int32"
help = "h"
"#;
    let detail = malformed_detail(App::from_toml_str(text));
    assert_eq!(detail, "key type: expected one of boolean, int64, float64, string");
}

#[test]
fn wrongly_typed_values_are_rejected() {
    let detail = malformed_detail(App::from_toml_str("name = 3\n"));
    assert_eq!(detail, "key name: expected a string");
    let detail = malformed_detail(App::from_toml_str("name = \"x\"\nno-auto-help = \"yes\"\n"));
    assert_eq!(detail, "key no-auto-help: expected a boolean");
    let detail = malformed_detail(App::from_toml_str("name = \"x\"\nflags = 7\n"));
    assert_eq!(detail, "key flags: expected an array");
}

#[test]
fn long_short_form_is_rejected() {
    let text = r#"
name = "x"

[[flags]]
name = "a"
type = "boolean"
help = "h"
short = "ab"
"#;
    let detail = malformed_detail(App::from_toml_str(text));
    assert_eq!(detail, "key short: expected a single character");
}

#[test]
fn toml_syntax_error_is_malformed() {
    let err = App::from_toml_str("name = \n").unwrap_err();
    match err {
        Error::SchemaMalformed { detail } => assert!(!detail.is_empty()),
        _ => panic!("expected a malformed-schema error"),
    }
}

#[test]
fn metadata_keys_do_not_change_output() {
    // alias, value_name and env are accepted but no current emission
    // consumes them: outputs with and without them are byte-identical.
    let bare = r#"
name = "m"

[[flags]]
name = "port"
type = "int64"
help = "listen port"
"#;
    let with_metadata = r#"
name = "m"

[[flags]]
name = "port"
type = "int64"
help = "listen port"
alias = ["listen-port"]
value_name = "PORT"
env = "M_PORT"
"#;
    let a = cfgopt::generate(App::from_toml_str(bare).unwrap()).unwrap();
    let b = cfgopt::generate(App::from_toml_str(with_metadata).unwrap()).unwrap();
    assert_eq!(a, b);
}

#[test]
fn default_reaches_help_line() {
    let text = r#"
name = "srv"
no-auto-help = true

[[flags]]
name = "port"
type = "int64"
short = "p"
default = "8080"
help = "listen port"
"#;
    let out = cfgopt::generate(App::from_toml_str(text).unwrap()).unwrap();
    assert!(out.contains("  \"-p, --port (int64) default: 8080, listen port\",\n"));
}

#[test]
fn decoded_schema_generates_end_to_end() {
    let text = r#"
name = "demo"

[[flags]]
name = "verbose"
type = "boolean"
short = "v"
help = "be verbose"
"#;
    let app = App::from_toml_str(text).unwrap();
    let out = cfgopt::generate(app).unwrap();
    assert!(out.starts_with("struct demo_config {\n  bool f_verbose;\n  bool f_help;\n};\n"));
    assert!(out.ends_with("#endif\n"));
}
