use cfgopt::schema::{App, Flag, Positional};
use cfgopt::types::ValueType;

fn flag(name: &str, ty: ValueType, short: char, help: &str) -> Flag {
    Flag {
        name: name.to_owned(),
        value_type: ty,
        help: help.to_owned(),
        multiple: false,
        short,
        default: None,
        aliases: Vec::new(),
        value_name: None,
        env: None,
    }
}

#[test]
fn scenario_boolean_flag_full_output() {
    let app = App {
        name: "demo".to_owned(),
        version: None,
        about: None,
        no_auto_help: false,
        flags: vec![flag("verbose", ValueType::Boolean, 'v', "be verbose")],
        positionals: vec![],
    };
    let text = cfgopt::generate(app).unwrap();
    let lines = [
        "struct demo_config {",
        "  bool f_verbose;",
        "  bool f_help;",
        "};",
        "",
        "void demo_config_init(struct demo_config *cfg);",
        "void demo_config_parse(struct demo_config *cfg, int argc, char **argv);",
        "",
        "void demo_parse_verbose_boolean(bool *out, char const *arg);",
        "void demo_parse_help_boolean(bool *out, char const *arg);",
        "",
        "#ifdef demo_IMPLEMENTATION",
        "char const *demo_help[] = {",
        "  \"demo\",",
        "  \"-v, --verbose (boolean)  be verbose\",",
        "  \"-h, --help (boolean)  print this help and exit\",",
        "};",
        "",
        "void demo_config_init(struct demo_config *cfg) {",
        "  cfg->f_verbose = false;",
        "  cfg->f_help = false;",
        "}",
        "",
        "void demo_config_parse(struct demo_config *cfg, int argc, char **argv) {",
        "  demo_config_init(cfg);",
        "  for (int i = 1; i < argc; i++) {",
        "    if (strncmp(argv[i], \"-verbose\", sizeof \"-verbose\" - 1) == 0) {",
        "      demo_parse_verbose_boolean(&cfg->f_verbose, argv[i]);",
        "      continue;",
        "    }",
        "    if (strncmp(argv[i], \"-help\", sizeof \"-help\" - 1) == 0) {",
        "      demo_parse_help_boolean(&cfg->f_help, argv[i]);",
        "      continue;",
        "    }",
        "  }",
        "}",
        "#endif",
    ];
    let expected = lines.join("\n") + "\n";
    assert_eq!(text, expected);
}

#[test]
fn scenario_explicit_default_overrides_zero() {
    let app = App {
        name: "srv".to_owned(),
        version: None,
        about: None,
        no_auto_help: true,
        flags: vec![Flag {
            name: "port".to_owned(),
            value_type: ValueType::Int64,
            help: "listen port".to_owned(),
            multiple: false,
            short: 'p',
            default: Some("8080".to_owned()),
            aliases: Vec::new(),
            value_name: None,
            env: None,
        }],
        positionals: vec![],
    };
    let text = cfgopt::generate(app).unwrap();
    assert!(text.contains("  int64_t f_port;\n"));
    assert!(text.contains("  cfg->f_port = 8080;\n"));
    assert!(!text.contains("  cfg->f_port = 0;\n"));
}

#[test]
fn scenario_string_array_storage_and_init() {
    let app = App {
        name: "srv".to_owned(),
        version: None,
        about: None,
        no_auto_help: true,
        flags: vec![Flag {
            name: "tags".to_owned(),
            value_type: ValueType::String,
            help: "tag list".to_owned(),
            multiple: true,
            short: '\0',
            default: None,
            aliases: Vec::new(),
            value_name: None,
            env: None,
        }],
        positionals: vec![],
    };
    let text = cfgopt::generate(app).unwrap();
    assert!(text.contains("  struct cfgopt_string_array f_tags;\n"));
    assert!(text.contains("  cfg->f_tags = (struct cfgopt_string_array) cfgopt_array_init();\n"));
}

#[test]
fn struct_fields_follow_declaration_order() {
    let app = App {
        name: "t".to_owned(),
        version: None,
        about: None,
        no_auto_help: true,
        flags: vec![
            flag("alpha", ValueType::Int64, '\0', "a"),
            Flag {
                name: "beta".to_owned(),
                value_type: ValueType::String,
                help: "b".to_owned(),
                multiple: true,
                short: '\0',
                default: None,
                aliases: Vec::new(),
                value_name: None,
                env: None,
            },
        ],
        positionals: vec![Positional {
            name: "gamma".to_owned(),
            value_type: ValueType::Float64,
            help: "g".to_owned(),
            multiple: false,
        }],
    };
    let text = cfgopt::generate(app).unwrap();
    let lines = [
        "struct t_config {",
        "  int64_t f_alpha;",
        "  struct cfgopt_string_array f_beta;",
        "  double f_gamma;",
        "};",
        "",
    ];
    let expected_struct = lines.join("\n");
    assert!(text.starts_with(&expected_struct));
}

#[test]
fn rendering_is_idempotent() {
    let build = || App {
        name: "twice".to_owned(),
        version: Some("1.2.3".to_owned()),
        about: Some("an app".to_owned()),
        no_auto_help: false,
        flags: vec![flag("verbose", ValueType::Boolean, 'v', "be verbose")],
        positionals: vec![Positional {
            name: "input".to_owned(),
            value_type: ValueType::String,
            help: "input file".to_owned(),
            multiple: true,
        }],
    };
    let first = cfgopt::generate(build()).unwrap();
    let second = cfgopt::generate(build()).unwrap();
    assert_eq!(first, second);
    let mut app = build();
    cfgopt::validate::inject_help(&mut app);
    assert_eq!(app.render(), app.render());
}

#[test]
fn version_and_about_reach_help_array() {
    let app = App {
        name: "meta".to_owned(),
        version: Some("0.9".to_owned()),
        about: Some("does things".to_owned()),
        no_auto_help: true,
        flags: vec![],
        positionals: vec![],
    };
    let text = cfgopt::generate(app).unwrap();
    assert!(text.contains("char const *meta_help[] = {\n  \"meta 0.9\",\n  \"does things\",\n};\n"));
}

#[test]
fn prefix_match_order_keeps_earlier_flag_first() {
    // The dispatch comparison is length-bounded by the earlier flag's name,
    // so a flag declared first shadows a later flag it is a prefix of; the
    // emitted checks must keep declaration order.
    let app = App {
        name: "sh".to_owned(),
        version: None,
        about: None,
        no_auto_help: true,
        flags: vec![
            flag("log", ValueType::String, '\0', "log"),
            flag("log-level", ValueType::String, '\0', "level"),
        ],
        positionals: vec![],
    };
    let text = cfgopt::generate(app).unwrap();
    let short_check = "strncmp(argv[i], \"-log\", sizeof \"-log\" - 1)";
    let long_check = "strncmp(argv[i], \"-log-level\", sizeof \"-log-level\" - 1)";
    let at_short = text.find(short_check).unwrap();
    let at_long = text.find(long_check).unwrap();
    assert!(at_short < at_long);
}

#[test]
fn no_text_on_validation_failure() {
    let app = App {
        name: "bad".to_owned(),
        version: None,
        about: None,
        no_auto_help: true,
        flags: vec![flag("a", ValueType::Boolean, '\0', "1"), flag("a", ValueType::Boolean, '\0', "2")],
        positionals: vec![],
    };
    assert!(cfgopt::generate(app).is_err());
}
