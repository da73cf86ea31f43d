//! Strict schema decoding: the mapping from a parsed TOML root table to the
//! schema model. Any key not recognized by the model, a missing required
//! key, or a value of the wrong shape is a hard error, so schema typos are
//! caught before validation.

use vstd::prelude::*;
use crate::schema::{App, AppV, Flag, FlagV, Positional, PositionalV};
use crate::types::ValueType;
use crate::error::{Error, ErrorV};

verus! {

#[verifier::external_type_specification]
#[verifier::external_body]
#[verifier::reject_recursive_types(K)]
#[verifier::reject_recursive_types(V)]
pub struct ExTomlMap<K, V>(toml::map::Map<K, V>);

#[verifier::external_type_specification]
#[verifier::external_body]
pub struct ExTomlValue(toml::Value);

/// What a TOML table holds: a map from key text to the value at that key.
pub uninterp spec fn table_model(t: toml::Table) -> Map<Seq<char>, toml::Value>;

/// What `toml::Value::as_str` returns: the payload of a string value.
pub uninterp spec fn str_of(v: toml::Value) -> Option<Seq<char>>;

/// What `toml::Value::as_bool` returns: the payload of a boolean value.
pub uninterp spec fn bool_of(v: toml::Value) -> Option<bool>;

/// What `toml::Value::as_array` returns: the items of an array value.
pub uninterp spec fn arr_of(v: toml::Value) -> Option<Seq<toml::Value>>;

/// What `toml::Value::as_table` returns: the contents of a table value.
pub uninterp spec fn tab_of(v: toml::Value) -> Option<Map<Seq<char>, toml::Value>>;

/// What parsing TOML text yields: the model of the root table, or `None`
/// where the text is not a TOML document.
pub uninterp spec fn toml_of(s: Seq<char>) -> Option<Map<Seq<char>, toml::Value>>;

/// Relies on toml::from_str for the root table: parses TOML text, a function
/// of the text alone; the error case carries the parser's own message,
/// positional detail included.
#[verifier::external_body]
fn toml_parse(s: &str) -> (r: Result<toml::Table, String>)
    ensures
        match r {
            Ok(t) => toml_of(s@) == Some(table_model(t)),
            Err(m) => toml_of(s@) is None,
        },
{
    match toml::from_str::<toml::Table>(s) {
        Ok(t) => Ok(t),
        Err(e) => Err(e.to_string()),
    }
}

/// Relies on toml::map::Map::get: the value at a key of a table.
#[verifier::external_body]
fn table_get<'a>(t: &'a toml::Table, key: &str) -> (r: Option<&'a toml::Value>)
    ensures
        match r {
            Some(v) => table_model(*t).dom().contains(key@) && *v == table_model(*t)[key@],
            None => !table_model(*t).dom().contains(key@),
        },
{
    t.get(key)
}

/// Relies on toml::map::Map::keys: the keys of a table, each cloned.
#[verifier::external_body]
fn table_keys(t: &toml::Table) -> (r: Vec<String>)
    ensures
        (r@.map_values(|s: String| s@)).to_set() == table_model(*t).dom(),
{
    t.keys().cloned().collect()
}

/// Relies on toml::Value::as_str: present exactly on a string value.
#[verifier::external_body]
fn value_as_str<'a>(v: &'a toml::Value) -> (r: Option<&'a str>)
    ensures
        match r {
            Some(s) => str_of(*v) == Some(s@),
            None => str_of(*v) is None,
        },
{
    v.as_str()
}

/// Relies on toml::Value::as_bool: present exactly on a boolean value.
#[verifier::external_body]
fn value_as_bool(v: &toml::Value) -> (r: Option<bool>)
    ensures
        match r {
            Some(b) => bool_of(*v) == Some(b),
            None => bool_of(*v) is None,
        },
{
    v.as_bool()
}

/// Relies on toml::Value::as_array: present exactly on an array value.
#[verifier::external_body]
fn value_as_array<'a>(v: &'a toml::Value) -> (r: Option<&'a Vec<toml::Value>>)
    ensures
        match r {
            Some(a) => arr_of(*v) == Some(a@),
            None => arr_of(*v) is None,
        },
{
    v.as_array()
}

/// Relies on toml::Value::as_table: present exactly on a table value.
#[verifier::external_body]
fn value_as_table<'a>(v: &'a toml::Value) -> (r: Option<&'a toml::Table>)
    ensures
        match r {
            Some(t) => tab_of(*v) == Some(table_model(*t)),
            None => tab_of(*v) is None,
        },
{
    v.as_table()
}

/// Relies on str's `==`: equality of the character sequences.
#[verifier::external_body]
fn str_eq(a: &str, b: &str) -> (r: bool)
    ensures
        r == (a@ == b@),
{
    a == b
}

/// The keys the schema root recognizes.
pub open spec fn root_key_set() -> Set<Seq<char>> {
    set!["name"@, "version"@, "about"@, "no-auto-help"@, "flags"@, "positionals"@]
}

/// The keys a flag entry recognizes.
pub open spec fn flag_key_set() -> Set<Seq<char>> {
    set![
        "name"@,
        "type"@,
        "help"@,
        "multiple"@,
        "short"@,
        "default"@,
        "alias"@,
        "value_name"@,
        "env"@,
    ]
}

/// The keys a positional entry recognizes.
pub open spec fn positional_key_set() -> Set<Seq<char>> {
    set!["name"@, "type"@, "help"@, "multiple"@]
}

/// A decoding failure with its detail text.
pub open spec fn malformed(detail: Seq<char>) -> ErrorV {
    ErrorV::SchemaMalformed { detail }
}

/// An optional string-valued key: absent is `None`; present with any other
/// shape is an error.
pub open spec fn opt_str_field(m: Map<Seq<char>, toml::Value>, key: Seq<char>) -> Result<
    Option<Seq<char>>,
    ErrorV,
> {
    if !m.dom().contains(key) {
        Ok(None)
    } else {
        match str_of(m[key]) {
            Some(s) => Ok(Some(s)),
            None => Err(malformed("key "@ + key + ": expected a string"@)),
        }
    }
}

/// A required string-valued key.
pub open spec fn req_str_field(m: Map<Seq<char>, toml::Value>, key: Seq<char>) -> Result<
    Seq<char>,
    ErrorV,
> {
    if !m.dom().contains(key) {
        Err(malformed("missing key: "@ + key))
    } else {
        match str_of(m[key]) {
            Some(s) => Ok(s),
            None => Err(malformed("key "@ + key + ": expected a string"@)),
        }
    }
}

/// An optional boolean-valued key, defaulting to false.
pub open spec fn opt_bool_field(m: Map<Seq<char>, toml::Value>, key: Seq<char>) -> Result<
    bool,
    ErrorV,
> {
    if !m.dom().contains(key) {
        Ok(false)
    } else {
        match bool_of(m[key]) {
            Some(b) => Ok(b),
            None => Err(malformed("key "@ + key + ": expected a boolean"@)),
        }
    }
}

/// The optional short form: a one-character string; absent is the sentinel.
pub open spec fn short_field(m: Map<Seq<char>, toml::Value>) -> Result<char, ErrorV> {
    if !m.dom().contains("short"@) {
        Ok('\0')
    } else {
        match str_of(m["short"@]) {
            Some(s) => if s.len() == 1 {
                Ok(s[0])
            } else {
                Err(malformed("key short: expected a single character"@))
            },
            None => Err(malformed("key short: expected a string"@)),
        }
    }
}

/// The value type a type tag denotes, if any.
pub open spec fn value_type_of(s: Seq<char>) -> Option<ValueType> {
    if s == "boolean"@ {
        Some(ValueType::Boolean)
    } else if s == "int64"@ {
        Some(ValueType::Int64)
    } else if s == "float64"@ {
        Some(ValueType::Float64)
    } else if s == "string"@ {
        Some(ValueType::String)
    } else {
        None
    }
}

/// The required `type` key: one of the four type tags.
pub open spec fn type_field(m: Map<Seq<char>, toml::Value>) -> Result<ValueType, ErrorV> {
    match req_str_field(m, "type"@) {
        Err(e) => Err(e),
        Ok(s) => match value_type_of(s) {
            Some(t) => Ok(t),
            None => Err(malformed("key type: expected one of boolean, int64, float64, string"@)),
        },
    }
}

/// The items of an alias array, each of which must be a string.
pub open spec fn strings_field_items(vs: Seq<toml::Value>, acc: Seq<Seq<char>>) -> Result<
    Seq<Seq<char>>,
    ErrorV,
>
    decreases vs.len(),
{
    if vs.len() == 0 {
        Ok(acc)
    } else {
        match str_of(vs[0]) {
            Some(s) => strings_field_items(vs.drop_first(), acc.push(s)),
            None => Err(malformed("key alias: expected an array of strings"@)),
        }
    }
}

/// The optional `alias` key: an array of strings, defaulting to empty.
pub open spec fn alias_field(m: Map<Seq<char>, toml::Value>) -> Result<Seq<Seq<char>>, ErrorV> {
    if !m.dom().contains("alias"@) {
        Ok(Seq::empty())
    } else {
        match arr_of(m["alias"@]) {
            Some(vs) => strings_field_items(vs, Seq::empty()),
            None => Err(malformed("key alias: expected an array"@)),
        }
    }
}

/// Decode one flag entry from its table.
pub open spec fn decode_flag_spec(m: Map<Seq<char>, toml::Value>) -> Result<FlagV, ErrorV> {
    if !m.dom().subset_of(flag_key_set()) {
        Err(malformed("unrecognized key in flag entry"@))
    } else {
        match req_str_field(m, "name"@) {
            Err(e) => Err(e),
            Ok(name) => match type_field(m) {
                Err(e) => Err(e),
                Ok(ty) => match req_str_field(m, "help"@) {
                    Err(e) => Err(e),
                    Ok(help) => match opt_bool_field(m, "multiple"@) {
                        Err(e) => Err(e),
                        Ok(multiple) => match short_field(m) {
                            Err(e) => Err(e),
                            Ok(short) => match opt_str_field(m, "default"@) {
                                Err(e) => Err(e),
                                Ok(default) => match alias_field(m) {
                                    Err(e) => Err(e),
                                    Ok(aliases) => match opt_str_field(m, "value_name"@) {
                                        Err(e) => Err(e),
                                        Ok(value_name) => match opt_str_field(m, "env"@) {
                                            Err(e) => Err(e),
                                            Ok(env) => Ok(
                                                FlagV {
                                                    name,
                                                    ty,
                                                    help,
                                                    multiple,
                                                    short,
                                                    default,
                                                    aliases,
                                                    value_name,
                                                    env,
                                                },
                                            ),
                                        },
                                    },
                                },
                            },
                        },
                    },
                },
            },
        }
    }
}

/// Decode one positional entry from its table.
pub open spec fn decode_positional_spec(m: Map<Seq<char>, toml::Value>) -> Result<
    PositionalV,
    ErrorV,
> {
    if !m.dom().subset_of(positional_key_set()) {
        Err(malformed("unrecognized key in positional entry"@))
    } else {
        match req_str_field(m, "name"@) {
            Err(e) => Err(e),
            Ok(name) => match type_field(m) {
                Err(e) => Err(e),
                Ok(ty) => match req_str_field(m, "help"@) {
                    Err(e) => Err(e),
                    Ok(help) => match opt_bool_field(m, "multiple"@) {
                        Err(e) => Err(e),
                        Ok(multiple) => Ok(PositionalV { name, ty, help, multiple }),
                    },
                },
            },
        }
    }
}

/// Decode the items of the `flags` array, each of which must be a table.
pub open spec fn decode_flags_items(vs: Seq<toml::Value>, acc: Seq<FlagV>) -> Result<
    Seq<FlagV>,
    ErrorV,
>
    decreases vs.len(),
{
    if vs.len() == 0 {
        Ok(acc)
    } else {
        match tab_of(vs[0]) {
            None => Err(malformed("flag entry: expected a table"@)),
            Some(m) => match decode_flag_spec(m) {
                Err(e) => Err(e),
                Ok(f) => decode_flags_items(vs.drop_first(), acc.push(f)),
            },
        }
    }
}

/// The optional `flags` key: an array of flag tables, defaulting to empty.
pub open spec fn flags_field(m: Map<Seq<char>, toml::Value>) -> Result<Seq<FlagV>, ErrorV> {
    if !m.dom().contains("flags"@) {
        Ok(Seq::empty())
    } else {
        match arr_of(m["flags"@]) {
            Some(vs) => decode_flags_items(vs, Seq::empty()),
            None => Err(malformed("key flags: expected an array"@)),
        }
    }
}

/// Decode the items of the `positionals` array.
pub open spec fn decode_positionals_items(vs: Seq<toml::Value>, acc: Seq<PositionalV>) -> Result<
    Seq<PositionalV>,
    ErrorV,
>
    decreases vs.len(),
{
    if vs.len() == 0 {
        Ok(acc)
    } else {
        match tab_of(vs[0]) {
            None => Err(malformed("positional entry: expected a table"@)),
            Some(m) => match decode_positional_spec(m) {
                Err(e) => Err(e),
                Ok(p) => decode_positionals_items(vs.drop_first(), acc.push(p)),
            },
        }
    }
}

/// The optional `positionals` key: an array of positional tables.
pub open spec fn positionals_field(m: Map<Seq<char>, toml::Value>) -> Result<
    Seq<PositionalV>,
    ErrorV,
> {
    if !m.dom().contains("positionals"@) {
        Ok(Seq::empty())
    } else {
        match arr_of(m["positionals"@]) {
            Some(vs) => decode_positionals_items(vs, Seq::empty()),
            None => Err(malformed("key positionals: expected an array"@)),
        }
    }
}

/// The view of an exec field result, for stating exec decoding against the
/// spec decoders.
pub open spec fn res_opt_str_view(r: Result<Option<String>, Error>) -> Result<
    Option<Seq<char>>,
    ErrorV,
> {
    match r {
        Ok(Some(s)) => Ok(Some(s@)),
        Ok(None) => Ok(None),
        Err(e) => Err(e@),
    }
}

/// The view of an exec required-string result.
pub open spec fn res_str_view(r: Result<String, Error>) -> Result<Seq<char>, ErrorV> {
    match r {
        Ok(s) => Ok(s@),
        Err(e) => Err(e@),
    }
}

/// The view of an exec boolean-field result.
pub open spec fn res_bool_view(r: Result<bool, Error>) -> Result<bool, ErrorV> {
    match r {
        Ok(b) => Ok(b),
        Err(e) => Err(e@),
    }
}

/// The view of an exec short-form result.
pub open spec fn res_char_view(r: Result<char, Error>) -> Result<char, ErrorV> {
    match r {
        Ok(c) => Ok(c),
        Err(e) => Err(e@),
    }
}

/// The view of an exec type-tag result.
pub open spec fn res_type_view(r: Result<ValueType, Error>) -> Result<ValueType, ErrorV> {
    match r {
        Ok(t) => Ok(t),
        Err(e) => Err(e@),
    }
}

/// The view of an exec alias-list result.
pub open spec fn res_strings_view(r: Result<Vec<String>, Error>) -> Result<
    Seq<Seq<char>>,
    ErrorV,
> {
    match r {
        Ok(v) => Ok(v@.map_values(|s: String| s@)),
        Err(e) => Err(e@),
    }
}

/// The view of an exec flag-entry result.
pub open spec fn res_flag_view(r: Result<Flag, Error>) -> Result<FlagV, ErrorV> {
    match r {
        Ok(f) => Ok(f@),
        Err(e) => Err(e@),
    }
}

/// The view of an exec positional-entry result.
pub open spec fn res_positional_view(r: Result<Positional, Error>) -> Result<
    PositionalV,
    ErrorV,
> {
    match r {
        Ok(p) => Ok(p@),
        Err(e) => Err(e@),
    }
}

/// The view of an exec flag-list result.
pub open spec fn res_flags_view(r: Result<Vec<Flag>, Error>) -> Result<Seq<FlagV>, ErrorV> {
    match r {
        Ok(v) => Ok(v@.map_values(|f: Flag| f@)),
        Err(e) => Err(e@),
    }
}

/// The view of an exec positional-list result.
pub open spec fn res_positionals_view(r: Result<Vec<Positional>, Error>) -> Result<
    Seq<PositionalV>,
    ErrorV,
> {
    match r {
        Ok(v) => Ok(v@.map_values(|p: Positional| p@)),
        Err(e) => Err(e@),
    }
}

/// The view of an exec whole-schema result.
pub open spec fn res_app_view(r: Result<App, Error>) -> Result<AppV, ErrorV> {
    match r {
        Ok(a) => Ok(a@),
        Err(e) => Err(e@),
    }
}

/// Decode a whole schema from its root table.
pub open spec fn decode_app_spec(m: Map<Seq<char>, toml::Value>) -> Result<AppV, ErrorV> {
    if !m.dom().subset_of(root_key_set()) {
        Err(malformed("unrecognized key in schema"@))
    } else {
        match req_str_field(m, "name"@) {
            Err(e) => Err(e),
            Ok(name) => match opt_str_field(m, "version"@) {
                Err(e) => Err(e),
                Ok(version) => match opt_str_field(m, "about"@) {
                    Err(e) => Err(e),
                    Ok(about) => match opt_bool_field(m, "no-auto-help"@) {
                        Err(e) => Err(e),
                        Ok(no_auto_help) => match flags_field(m) {
                            Err(e) => Err(e),
                            Ok(flags) => match positionals_field(m) {
                                Err(e) => Err(e),
                                Ok(positionals) => Ok(
                                    AppV {
                                        name,
                                        version,
                                        about,
                                        no_auto_help,
                                        flags,
                                        positionals,
                                    },
                                ),
                            },
                        },
                    },
                },
            },
        }
    }
}

fn key_error(key: &str, what: &str) -> (r: Error)
    ensures
        r@ == malformed("key "@ + key@ + what@),
{
    let mut d = "key ".to_owned();
    d.append(key);
    d.append(what);
    Error::SchemaMalformed { detail: d }
}

fn missing_error(key: &str) -> (r: Error)
    ensures
        r@ == malformed("missing key: "@ + key@),
{
    let mut d = "missing key: ".to_owned();
    d.append(key);
    Error::SchemaMalformed { detail: d }
}

fn get_opt_str(t: &toml::Table, key: &str) -> (r: Result<Option<String>, Error>)
    ensures
        res_opt_str_view(r) == opt_str_field(table_model(*t), key@),
{
    match table_get(t, key) {
        None => Ok(None),
        Some(v) => match value_as_str(v) {
            Some(s) => Ok(Some(s.to_owned())),
            None => Err(key_error(key, ": expected a string")),
        },
    }
}

fn get_req_str(t: &toml::Table, key: &str) -> (r: Result<String, Error>)
    ensures
        res_str_view(r) == req_str_field(table_model(*t), key@),
{
    match table_get(t, key) {
        None => Err(missing_error(key)),
        Some(v) => match value_as_str(v) {
            Some(s) => Ok(s.to_owned()),
            None => Err(key_error(key, ": expected a string")),
        },
    }
}

fn get_opt_bool(t: &toml::Table, key: &str) -> (r: Result<bool, Error>)
    ensures
        res_bool_view(r) == opt_bool_field(table_model(*t), key@),
{
    match table_get(t, key) {
        None => Ok(false),
        Some(v) => match value_as_bool(v) {
            Some(b) => Ok(b),
            None => Err(key_error(key, ": expected a boolean")),
        },
    }
}

fn get_short(t: &toml::Table) -> (r: Result<char, Error>)
    ensures
        res_char_view(r) == short_field(table_model(*t)),
{
    match table_get(t, "short") {
        None => Ok('\0'),
        Some(v) => match value_as_str(v) {
            Some(s) => {
                if s.unicode_len() == 1 {
                    Ok(s.get_char(0))
                } else {
                    Err(
                        Error::SchemaMalformed {
                            detail: "key short: expected a single character".to_owned(),
                        },
                    )
                }
            },
            None => Err(
                Error::SchemaMalformed { detail: "key short: expected a string".to_owned() },
            ),
        },
    }
}

fn get_type(t: &toml::Table) -> (r: Result<ValueType, Error>)
    ensures
        res_type_view(r) == type_field(table_model(*t)),
{
    match get_req_str(t, "type") {
        Err(e) => Err(e),
        Ok(s) => {
            if str_eq(s.as_str(), "boolean") {
                Ok(ValueType::Boolean)
            } else if str_eq(s.as_str(), "int64") {
                Ok(ValueType::Int64)
            } else if str_eq(s.as_str(), "float64") {
                Ok(ValueType::Float64)
            } else if str_eq(s.as_str(), "string") {
                Ok(ValueType::String)
            } else {
                Err(
                    Error::SchemaMalformed {
                        detail: "key type: expected one of boolean, int64, float64, string".to_owned(),
                    },
                )
            }
        },
    }
}

fn get_aliases(t: &toml::Table) -> (r: Result<Vec<String>, Error>)
    ensures
        res_strings_view(r) == alias_field(table_model(*t)),
{
    match table_get(t, "alias") {
        None => {
            let out: Vec<String> = Vec::new();
            proof {
                assert(out@.map_values(|s: String| s@) =~= Seq::<Seq<char>>::empty());
            }
            Ok(out)
        },
        Some(v) => match value_as_array(v) {
            None => Err(
                Error::SchemaMalformed { detail: "key alias: expected an array".to_owned() },
            ),
            Some(items) => {
                let ghost full = items@;
                let mut out: Vec<String> = Vec::new();
                proof {
                    assert(out@.map_values(|s: String| s@) =~= Seq::<Seq<char>>::empty());
                    assert(full.skip(0) =~= full);
                }
                let mut i: usize = 0;
                while i < items.len()
                    invariant
                        i <= items@.len(),
                        full == items@,
                        table_model(*t).dom().contains("alias"@),
                        arr_of(table_model(*t)["alias"@]) == Some(full),
                        strings_field_items(full, Seq::empty()) == strings_field_items(
                            full.skip(i as int),
                            out@.map_values(|s: String| s@),
                        ),
                    decreases items@.len() - i,
                {
                    let ghost rem = full.skip(i as int);
                    proof {
                        assert(rem[0] == full[i as int]);
                        assert(rem.drop_first() =~= full.skip(i as int + 1));
                    }
                    match value_as_str(&items[i]) {
                        Some(s) => {
                            let owned = s.to_owned();
                            let ghost sv = owned@;
                            let ghost prev = out@;
                            out.push(owned);
                            proof {
                                assert(out@.map_values(|s2: String| s2@) =~= prev.map_values(
                                    |s2: String| s2@,
                                ).push(sv));
                            }
                        },
                        None => {
                            return Err(
                                Error::SchemaMalformed {
                                    detail: "key alias: expected an array of strings".to_owned(),
                                },
                            );
                        },
                    }
                    i = i + 1;
                }
                proof {
                    assert(full.skip(items@.len() as int) =~= Seq::<toml::Value>::empty());
                }
                Ok(out)
            },
        },
    }
}

fn root_key_known(k: &str) -> (r: bool)
    ensures
        r == root_key_set().contains(k@),
{
    str_eq(k, "name") || str_eq(k, "version") || str_eq(k, "about") || str_eq(k, "no-auto-help")
        || str_eq(k, "flags") || str_eq(k, "positionals")
}

fn flag_key_known(k: &str) -> (r: bool)
    ensures
        r == flag_key_set().contains(k@),
{
    str_eq(k, "name") || str_eq(k, "type") || str_eq(k, "help") || str_eq(k, "multiple")
        || str_eq(k, "short") || str_eq(k, "default") || str_eq(k, "alias") || str_eq(
        k,
        "value_name",
    ) || str_eq(k, "env")
}

fn positional_key_known(k: &str) -> (r: bool)
    ensures
        r == positional_key_set().contains(k@),
{
    str_eq(k, "name") || str_eq(k, "type") || str_eq(k, "help") || str_eq(k, "multiple")
}

fn root_keys_ok(t: &toml::Table) -> (r: bool)
    ensures
        r == table_model(*t).dom().subset_of(root_key_set()),
{
    let keys = table_keys(t);
    let ghost ks = keys@.map_values(|s: String| s@);
    let mut i: usize = 0;
    while i < keys.len()
        invariant
            i <= keys@.len(),
            ks == keys@.map_values(|s: String| s@),
            ks.to_set() == table_model(*t).dom(),
            forall|j: int| 0 <= j < i ==> root_key_set().contains(#[trigger] ks[j]),
        decreases keys@.len() - i,
    {
        if !root_key_known(keys[i].as_str()) {
            proof {
                assert(ks[i as int] == keys@[i as int]@);
                assert(ks.contains(ks[i as int]));
                assert(ks.to_set().contains(ks[i as int]));
            }
            return false;
        }
        proof {
            assert(ks[i as int] == keys@[i as int]@);
        }
        i = i + 1;
    }
    proof {
        assert forall|k: Seq<char>| table_model(*t).dom().contains(k) implies root_key_set()
            .contains(k) by {
            assert(ks.to_set().contains(k));
            assert(ks.contains(k));
            let j = choose|j: int| 0 <= j < ks.len() && ks[j] == k;
            assert(root_key_set().contains(ks[j]));
        }
    }
    true
}

fn flag_keys_ok(t: &toml::Table) -> (r: bool)
    ensures
        r == table_model(*t).dom().subset_of(flag_key_set()),
{
    let keys = table_keys(t);
    let ghost ks = keys@.map_values(|s: String| s@);
    let mut i: usize = 0;
    while i < keys.len()
        invariant
            i <= keys@.len(),
            ks == keys@.map_values(|s: String| s@),
            ks.to_set() == table_model(*t).dom(),
            forall|j: int| 0 <= j < i ==> flag_key_set().contains(#[trigger] ks[j]),
        decreases keys@.len() - i,
    {
        if !flag_key_known(keys[i].as_str()) {
            proof {
                assert(ks[i as int] == keys@[i as int]@);
                assert(ks.contains(ks[i as int]));
                assert(ks.to_set().contains(ks[i as int]));
            }
            return false;
        }
        proof {
            assert(ks[i as int] == keys@[i as int]@);
        }
        i = i + 1;
    }
    proof {
        assert forall|k: Seq<char>| table_model(*t).dom().contains(k) implies flag_key_set()
            .contains(k) by {
            assert(ks.to_set().contains(k));
            assert(ks.contains(k));
            let j = choose|j: int| 0 <= j < ks.len() && ks[j] == k;
            assert(flag_key_set().contains(ks[j]));
        }
    }
    true
}

fn positional_keys_ok(t: &toml::Table) -> (r: bool)
    ensures
        r == table_model(*t).dom().subset_of(positional_key_set()),
{
    let keys = table_keys(t);
    let ghost ks = keys@.map_values(|s: String| s@);
    let mut i: usize = 0;
    while i < keys.len()
        invariant
            i <= keys@.len(),
            ks == keys@.map_values(|s: String| s@),
            ks.to_set() == table_model(*t).dom(),
            forall|j: int| 0 <= j < i ==> positional_key_set().contains(#[trigger] ks[j]),
        decreases keys@.len() - i,
    {
        if !positional_key_known(keys[i].as_str()) {
            proof {
                assert(ks[i as int] == keys@[i as int]@);
                assert(ks.contains(ks[i as int]));
                assert(ks.to_set().contains(ks[i as int]));
            }
            return false;
        }
        proof {
            assert(ks[i as int] == keys@[i as int]@);
        }
        i = i + 1;
    }
    proof {
        assert forall|k: Seq<char>| table_model(*t).dom().contains(k) implies positional_key_set()
            .contains(k) by {
            assert(ks.to_set().contains(k));
            assert(ks.contains(k));
            let j = choose|j: int| 0 <= j < ks.len() && ks[j] == k;
            assert(positional_key_set().contains(ks[j]));
        }
    }
    true
}

fn decode_flag(t: &toml::Table) -> (r: Result<Flag, Error>)
    ensures
        res_flag_view(r) == decode_flag_spec(table_model(*t)),
{
    if !flag_keys_ok(t) {
        return Err(
            Error::SchemaMalformed { detail: "unrecognized key in flag entry".to_owned() },
        );
    }
    let name = match get_req_str(t, "name") {
        Ok(s) => s,
        Err(e) => {
            return Err(e);
        },
    };
    let value_type = match get_type(t) {
        Ok(x) => x,
        Err(e) => {
            return Err(e);
        },
    };
    let help = match get_req_str(t, "help") {
        Ok(s) => s,
        Err(e) => {
            return Err(e);
        },
    };
    let multiple = match get_opt_bool(t, "multiple") {
        Ok(b) => b,
        Err(e) => {
            return Err(e);
        },
    };
    let short = match get_short(t) {
        Ok(c) => c,
        Err(e) => {
            return Err(e);
        },
    };
    let default = match get_opt_str(t, "default") {
        Ok(d) => d,
        Err(e) => {
            return Err(e);
        },
    };
    let aliases = match get_aliases(t) {
        Ok(a) => a,
        Err(e) => {
            return Err(e);
        },
    };
    let value_name = match get_opt_str(t, "value_name") {
        Ok(v) => v,
        Err(e) => {
            return Err(e);
        },
    };
    let env = match get_opt_str(t, "env") {
        Ok(v) => v,
        Err(e) => {
            return Err(e);
        },
    };
    Ok(Flag { name, value_type, help, multiple, short, default, aliases, value_name, env })
}

fn decode_positional(t: &toml::Table) -> (r: Result<Positional, Error>)
    ensures
        res_positional_view(r) == decode_positional_spec(table_model(*t)),
{
    if !positional_keys_ok(t) {
        return Err(
            Error::SchemaMalformed { detail: "unrecognized key in positional entry".to_owned() },
        );
    }
    let name = match get_req_str(t, "name") {
        Ok(s) => s,
        Err(e) => {
            return Err(e);
        },
    };
    let value_type = match get_type(t) {
        Ok(x) => x,
        Err(e) => {
            return Err(e);
        },
    };
    let help = match get_req_str(t, "help") {
        Ok(s) => s,
        Err(e) => {
            return Err(e);
        },
    };
    let multiple = match get_opt_bool(t, "multiple") {
        Ok(b) => b,
        Err(e) => {
            return Err(e);
        },
    };
    Ok(Positional { name, value_type, help, multiple })
}

fn get_flags(t: &toml::Table) -> (r: Result<Vec<Flag>, Error>)
    ensures
        res_flags_view(r) == flags_field(table_model(*t)),
{
    match table_get(t, "flags") {
        None => {
            let out: Vec<Flag> = Vec::new();
            proof {
                assert(out@.map_values(|f: Flag| f@) =~= Seq::<FlagV>::empty());
            }
            Ok(out)
        },
        Some(v) => match value_as_array(v) {
            None => Err(
                Error::SchemaMalformed { detail: "key flags: expected an array".to_owned() },
            ),
            Some(items) => {
                let ghost full = items@;
                let mut out: Vec<Flag> = Vec::new();
                proof {
                    assert(out@.map_values(|f: Flag| f@) =~= Seq::<FlagV>::empty());
                    assert(full.skip(0) =~= full);
                }
                let mut i: usize = 0;
                while i < items.len()
                    invariant
                        i <= items@.len(),
                        full == items@,
                        table_model(*t).dom().contains("flags"@),
                        arr_of(table_model(*t)["flags"@]) == Some(full),
                        decode_flags_items(full, Seq::empty()) == decode_flags_items(
                            full.skip(i as int),
                            out@.map_values(|f: Flag| f@),
                        ),
                    decreases items@.len() - i,
                {
                    let ghost rem = full.skip(i as int);
                    proof {
                        assert(rem[0] == full[i as int]);
                        assert(rem.drop_first() =~= full.skip(i as int + 1));
                    }
                    match value_as_table(&items[i]) {
                        None => {
                            return Err(
                                Error::SchemaMalformed {
                                    detail: "flag entry: expected a table".to_owned(),
                                },
                            );
                        },
                        Some(ft) => match decode_flag(ft) {
                            Err(e) => {
                                return Err(e);
                            },
                            Ok(f) => {
                                let ghost prev = out@;
                                let ghost fv = f@;
                                out.push(f);
                                proof {
                                    assert(out@.map_values(|f2: Flag| f2@) =~= prev.map_values(
                                        |f2: Flag| f2@,
                                    ).push(fv));
                                }
                            },
                        },
                    }
                    i = i + 1;
                }
                proof {
                    assert(full.skip(items@.len() as int) =~= Seq::<toml::Value>::empty());
                }
                Ok(out)
            },
        },
    }
}

fn get_positionals(t: &toml::Table) -> (r: Result<Vec<Positional>, Error>)
    ensures
        res_positionals_view(r) == positionals_field(table_model(*t)),
{
    match table_get(t, "positionals") {
        None => {
            let out: Vec<Positional> = Vec::new();
            proof {
                assert(out@.map_values(|p: Positional| p@) =~= Seq::<PositionalV>::empty());
            }
            Ok(out)
        },
        Some(v) => match value_as_array(v) {
            None => Err(
                Error::SchemaMalformed {
                    detail: "key positionals: expected an array".to_owned(),
                },
            ),
            Some(items) => {
                let ghost full = items@;
                let mut out: Vec<Positional> = Vec::new();
                proof {
                    assert(out@.map_values(|p: Positional| p@) =~= Seq::<PositionalV>::empty());
                    assert(full.skip(0) =~= full);
                }
                let mut i: usize = 0;
                while i < items.len()
                    invariant
                        i <= items@.len(),
                        full == items@,
                        table_model(*t).dom().contains("positionals"@),
                        arr_of(table_model(*t)["positionals"@]) == Some(full),
                        decode_positionals_items(full, Seq::empty()) == decode_positionals_items(
                            full.skip(i as int),
                            out@.map_values(|p: Positional| p@),
                        ),
                    decreases items@.len() - i,
                {
                    let ghost rem = full.skip(i as int);
                    proof {
                        assert(rem[0] == full[i as int]);
                        assert(rem.drop_first() =~= full.skip(i as int + 1));
                    }
                    match value_as_table(&items[i]) {
                        None => {
                            return Err(
                                Error::SchemaMalformed {
                                    detail: "positional entry: expected a table".to_owned(),
                                },
                            );
                        },
                        Some(pt) => match decode_positional(pt) {
                            Err(e) => {
                                return Err(e);
                            },
                            Ok(p) => {
                                let ghost prev = out@;
                                let ghost pv = p@;
                                out.push(p);
                                proof {
                                    assert(out@.map_values(|p2: Positional| p2@) =~= prev
                                        .map_values(|p2: Positional| p2@).push(pv));
                                }
                            },
                        },
                    }
                    i = i + 1;
                }
                proof {
                    assert(full.skip(items@.len() as int) =~= Seq::<toml::Value>::empty());
                }
                Ok(out)
            },
        },
    }
}

impl App {
    /// Decode a schema from its parsed root table, strictly: unrecognized
    /// keys, missing required keys, and wrongly shaped values are errors.
    pub fn from_table(t: &toml::Table) -> (r: Result<App, Error>)
        ensures
            res_app_view(r) == decode_app_spec(table_model(*t)),
    {
        if !root_keys_ok(t) {
            return Err(
                Error::SchemaMalformed { detail: "unrecognized key in schema".to_owned() },
            );
        }
        let name = match get_req_str(t, "name") {
            Ok(s) => s,
            Err(e) => {
                return Err(e);
            },
        };
        let version = match get_opt_str(t, "version") {
            Ok(v) => v,
            Err(e) => {
                return Err(e);
            },
        };
        let about = match get_opt_str(t, "about") {
            Ok(a) => a,
            Err(e) => {
                return Err(e);
            },
        };
        let no_auto_help = match get_opt_bool(t, "no-auto-help") {
            Ok(b) => b,
            Err(e) => {
                return Err(e);
            },
        };
        let flags = match get_flags(t) {
            Ok(fs) => fs,
            Err(e) => {
                return Err(e);
            },
        };
        let positionals = match get_positionals(t) {
            Ok(ps) => ps,
            Err(e) => {
                return Err(e);
            },
        };
        Ok(App { name, version, about, no_auto_help, flags, positionals })
    }

    /// Parse schema text and decode it strictly: the result is the strict
    /// decoding of the parsed root table, and text that is not a TOML
    /// document is rejected. Every failure is a malformed-schema error.
    pub fn from_toml_str(s: &str) -> (r: Result<App, Error>)
        ensures
            toml_of(s@) matches Some(m) ==> res_app_view(r) == decode_app_spec(m),
            toml_of(s@) is None ==> r is Err,
            r matches Err(e) ==> e@ is SchemaMalformed,
    {
        match toml_parse(s) {
            Err(msg) => Err(Error::SchemaMalformed { detail: msg }),
            Ok(t) => {
                proof {
                    lemma_decode_app_err_malformed(table_model(t));
                }
                App::from_table(&t)
            },
        }
    }
}

proof fn lemma_strings_items_err_malformed(vs: Seq<toml::Value>, acc: Seq<Seq<char>>)
    ensures
        strings_field_items(vs, acc) matches Err(e) ==> e is SchemaMalformed,
    decreases vs.len(),
{
    if vs.len() > 0 {
        match str_of(vs[0]) {
            Some(s) => {
                lemma_strings_items_err_malformed(vs.drop_first(), acc.push(s));
            },
            None => {
            },
        }
    }
}

proof fn lemma_decode_flag_err_malformed(m: Map<Seq<char>, toml::Value>)
    ensures
        decode_flag_spec(m) matches Err(e) ==> e is SchemaMalformed,
{
    if m.dom().contains("alias"@) {
        match arr_of(m["alias"@]) {
            Some(vs) => {
                lemma_strings_items_err_malformed(vs, Seq::empty());
            },
            None => {
            },
        }
    }
}

proof fn lemma_flags_items_err_malformed(vs: Seq<toml::Value>, acc: Seq<FlagV>)
    ensures
        decode_flags_items(vs, acc) matches Err(e) ==> e is SchemaMalformed,
    decreases vs.len(),
{
    if vs.len() > 0 {
        match tab_of(vs[0]) {
            Some(m) => {
                lemma_decode_flag_err_malformed(m);
                match decode_flag_spec(m) {
                    Ok(f) => {
                        lemma_flags_items_err_malformed(vs.drop_first(), acc.push(f));
                    },
                    Err(e) => {
                    },
                }
            },
            None => {
            },
        }
    }
}

proof fn lemma_positionals_items_err_malformed(vs: Seq<toml::Value>, acc: Seq<PositionalV>)
    ensures
        decode_positionals_items(vs, acc) matches Err(e) ==> e is SchemaMalformed,
    decreases vs.len(),
{
    if vs.len() > 0 {
        match tab_of(vs[0]) {
            Some(m) => {
                match decode_positional_spec(m) {
                    Ok(p) => {
                        lemma_positionals_items_err_malformed(vs.drop_first(), acc.push(p));
                    },
                    Err(e) => {
                    },
                }
            },
            None => {
            },
        }
    }
}

/// Every decoding failure is a malformed-schema error: decoding never
/// reports any other kind.
pub proof fn lemma_decode_app_err_malformed(m: Map<Seq<char>, toml::Value>)
    ensures
        decode_app_spec(m) matches Err(e) ==> e is SchemaMalformed,
{
    if m.dom().contains("flags"@) {
        match arr_of(m["flags"@]) {
            Some(vs) => {
                lemma_flags_items_err_malformed(vs, Seq::empty());
            },
            None => {
            },
        }
    }
    if m.dom().contains("positionals"@) {
        match arr_of(m["positionals"@]) {
            Some(vs) => {
                lemma_positionals_items_err_malformed(vs, Seq::empty());
            },
            None => {
            },
        }
    }
}

/// Scenario law: an unrecognized root key makes decoding fail, before
/// validation ever runs.
pub proof fn lemma_unknown_root_key_rejected(m: Map<Seq<char>, toml::Value>, k: Seq<char>)
    requires
        m.dom().contains(k),
        !root_key_set().contains(k),
    ensures
        decode_app_spec(m) is Err,
{
    assert(!m.dom().subset_of(root_key_set()));
}

} // verus!
