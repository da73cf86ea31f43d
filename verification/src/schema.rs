//! The schema model: `Flag`, `Positional` and `App` records, with their
//! mathematical views, and the per-flag naming helpers.

use vstd::prelude::*;
use crate::types::{ValueType, type_tag_view, c_type_view, c_default_view};
use crate::types::{type_tag_of, c_type_of, c_default_of};

verus! {

/// A named switch with a value type and cardinality. `short == '\0'` is the
/// sentinel for "no short form". `default`, when present, is a raw literal in
/// target-language syntax, taken verbatim. `aliases`, `value_name` and `env`
/// are metadata only: no current emission consumes them.
#[derive(Debug)]
pub struct Flag {
    pub name: String,
    pub value_type: ValueType,
    pub help: String,
    pub multiple: bool,
    pub short: char,
    pub default: Option<String>,
    pub aliases: Vec<String>,
    pub value_name: Option<String>,
    pub env: Option<String>,
}

/// An argument identified by position: no short form, no default, no aliases.
#[derive(Debug)]
pub struct Positional {
    pub name: String,
    pub value_type: ValueType,
    pub help: String,
    pub multiple: bool,
}

/// The schema root: the application name prefixes every emitted symbol;
/// flags and positionals keep their declaration order end-to-end.
#[derive(Debug)]
pub struct App {
    pub name: String,
    pub version: Option<String>,
    pub about: Option<String>,
    pub no_auto_help: bool,
    pub flags: Vec<Flag>,
    pub positionals: Vec<Positional>,
}

/// The mathematical view of a `Flag`.
pub ghost struct FlagV {
    pub name: Seq<char>,
    pub ty: ValueType,
    pub help: Seq<char>,
    pub multiple: bool,
    pub short: char,
    pub default: Option<Seq<char>>,
    pub aliases: Seq<Seq<char>>,
    pub value_name: Option<Seq<char>>,
    pub env: Option<Seq<char>>,
}

/// The mathematical view of a `Positional`.
pub ghost struct PositionalV {
    pub name: Seq<char>,
    pub ty: ValueType,
    pub help: Seq<char>,
    pub multiple: bool,
}

/// The mathematical view of an `App`.
pub ghost struct AppV {
    pub name: Seq<char>,
    pub version: Option<Seq<char>>,
    pub about: Option<Seq<char>>,
    pub no_auto_help: bool,
    pub flags: Seq<FlagV>,
    pub positionals: Seq<PositionalV>,
}

impl View for Flag {
    type V = FlagV;

    open spec fn view(&self) -> FlagV {
        FlagV {
            name: self.name@,
            ty: self.value_type,
            help: self.help@,
            multiple: self.multiple,
            short: self.short,
            default: match self.default {
                Some(d) => Some(d@),
                None => None,
            },
            aliases: self.aliases@.map_values(|a: String| a@),
            value_name: match self.value_name {
                Some(v) => Some(v@),
                None => None,
            },
            env: match self.env {
                Some(e) => Some(e@),
                None => None,
            },
        }
    }
}

impl View for Positional {
    type V = PositionalV;

    open spec fn view(&self) -> PositionalV {
        PositionalV {
            name: self.name@,
            ty: self.value_type,
            help: self.help@,
            multiple: self.multiple,
        }
    }
}

impl View for App {
    type V = AppV;

    open spec fn view(&self) -> AppV {
        AppV {
            name: self.name@,
            version: match self.version {
                Some(v) => Some(v@),
                None => None,
            },
            about: match self.about {
                Some(a) => Some(a@),
                None => None,
            },
            no_auto_help: self.no_auto_help,
            flags: self.flags@.map_values(|f: Flag| f@),
            positionals: self.positionals@.map_values(|p: Positional| p@),
        }
    }
}

/// Relies on `String::from` for `char`: the string holding that one character.
#[verifier::external_body]
pub(crate) fn char_to_string(c: char) -> (r: String)
    ensures
        r@ == seq![c],
{
    String::from(c)
}

/// The usage line for a flag: its switch names, type tag, optional default,
/// and help text.
pub open spec fn flag_help_view(f: FlagV) -> Seq<char> {
    (if f.short == '\0' {
        "--"@ + f.name
    } else {
        "-"@ + seq![f.short] + ", --"@ + f.name
    }) + " ("@ + type_tag_view(f.ty, f.multiple) + ") "@ + (match f.default {
        Some(d) => "default: "@ + d + ","@,
        None => ""@,
    }) + " "@ + f.help
}

impl Flag {
    /// The canonical lowercase type tag of this flag.
    pub fn type_tag(&self) -> (r: String)
        ensures
            r@ == type_tag_view(self@.ty, self@.multiple),
    {
        type_tag_of(self.value_type, self.multiple)
    }

    /// The C storage type of this flag.
    pub fn c_type(&self) -> (r: String)
        ensures
            r@ == c_type_view(self@.ty, self@.multiple),
    {
        c_type_of(self.value_type, self.multiple)
    }

    /// The default-value literal used when this flag has no explicit default.
    pub fn c_default(&self) -> (r: String)
        ensures
            r@ == c_default_view(self@.ty, self@.multiple),
    {
        c_default_of(self.value_type, self.multiple)
    }

    /// The usage line for this flag.
    pub fn flag_help(&self) -> (r: String)
        ensures
            r@ == flag_help_view(self@),
    {
        let mut s: String;
        if self.short == '\0' {
            s = "--".to_owned();
            s.append(self.name.as_str());
        } else {
            s = "-".to_owned();
            let short_str = char_to_string(self.short);
            s.append(short_str.as_str());
            s.append(", --");
            s.append(self.name.as_str());
        }
        s.append(" (");
        let tag = type_tag_of(self.value_type, self.multiple);
        s.append(tag.as_str());
        s.append(") ");
        let defpart: String = match &self.default {
            Some(d) => {
                let mut t = "default: ".to_owned();
                t.append(d.as_str());
                t.append(",");
                t
            },
            None => "".to_owned(),
        };
        s.append(defpart.as_str());
        s.append(" ");
        s.append(self.help.as_str());
        s
    }
}

} // verus!
