use cfgopt::types::{ValueType, type_tag_of, c_type_of, c_default_of};
use cfgopt::schema::Flag;

fn flag_of(ty: ValueType, multiple: bool) -> Flag {
    Flag {
        name: "x".to_owned(),
        value_type: ty,
        help: "h".to_owned(),
        multiple,
        short: '\0',
        default: None,
        aliases: Vec::new(),
        value_name: None,
        env: None,
    }
}

#[test]
fn type_tag_scalars() {
    assert_eq!(type_tag_of(ValueType::Boolean, false), "boolean");
    assert_eq!(type_tag_of(ValueType::Int64, false), "int64");
    assert_eq!(type_tag_of(ValueType::Float64, false), "float64");
    assert_eq!(type_tag_of(ValueType::String, false), "string");
}

#[test]
fn type_tag_arrays() {
    assert_eq!(type_tag_of(ValueType::Boolean, true), "boolean_array");
    assert_eq!(type_tag_of(ValueType::Int64, true), "int64_array");
    assert_eq!(type_tag_of(ValueType::Float64, true), "float64_array");
    assert_eq!(type_tag_of(ValueType::String, true), "string_array");
}

#[test]
fn c_type_scalars() {
    assert_eq!(c_type_of(ValueType::Boolean, false), "bool");
    assert_eq!(c_type_of(ValueType::Int64, false), "int64_t");
    assert_eq!(c_type_of(ValueType::Float64, false), "double");
    assert_eq!(c_type_of(ValueType::String, false), "char const *");
}

#[test]
fn c_type_arrays() {
    assert_eq!(c_type_of(ValueType::Boolean, true), "struct cfgopt_boolean_array");
    assert_eq!(c_type_of(ValueType::Int64, true), "struct cfgopt_int64_array");
    assert_eq!(c_type_of(ValueType::Float64, true), "struct cfgopt_float64_array");
    assert_eq!(c_type_of(ValueType::String, true), "struct cfgopt_string_array");
}

#[test]
fn c_default_scalars() {
    assert_eq!(c_default_of(ValueType::Boolean, false), "false");
    assert_eq!(c_default_of(ValueType::Int64, false), "0");
    assert_eq!(c_default_of(ValueType::Float64, false), "0.0");
    assert_eq!(c_default_of(ValueType::String, false), "NULL");
}

#[test]
fn c_default_arrays() {
    assert_eq!(
        c_default_of(ValueType::Boolean, true),
        "(struct cfgopt_boolean_array) cfgopt_array_init()"
    );
    assert_eq!(
        c_default_of(ValueType::Int64, true),
        "(struct cfgopt_int64_array) cfgopt_array_init()"
    );
    assert_eq!(
        c_default_of(ValueType::Float64, true),
        "(struct cfgopt_float64_array) cfgopt_array_init()"
    );
    assert_eq!(
        c_default_of(ValueType::String, true),
        "(struct cfgopt_string_array) cfgopt_array_init()"
    );
}

#[test]
fn flag_methods_agree_with_type_system() {
    let f = flag_of(ValueType::Int64, true);
    assert_eq!(f.type_tag(), "int64_array");
    assert_eq!(f.c_type(), "struct cfgopt_int64_array");
    assert_eq!(f.c_default(), "(struct cfgopt_int64_array) cfgopt_array_init()");
    let g = flag_of(ValueType::String, false);
    assert_eq!(g.type_tag(), "string");
    assert_eq!(g.c_type(), "char const *");
    assert_eq!(g.c_default(), "NULL");
}

#[test]
fn flag_help_with_short_and_default() {
    let f = Flag {
        name: "port".to_owned(),
        value_type: ValueType::Int64,
        help: "listen port".to_owned(),
        multiple: false,
        short: 'p',
        default: Some("8080".to_owned()),
        aliases: Vec::new(),
        value_name: None,
        env: None,
    };
    assert_eq!(f.flag_help(), "-p, --port (int64) default: 8080, listen port");
}

#[test]
fn flag_help_without_short_or_default() {
    let f = Flag {
        name: "tags".to_owned(),
        value_type: ValueType::String,
        help: "tag list".to_owned(),
        multiple: true,
        short: '\0',
        default: None,
        aliases: Vec::new(),
        value_name: None,
        env: None,
    };
    assert_eq!(f.flag_help(), "--tags (string_array)  tag list");
}
