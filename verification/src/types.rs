//! The type system: maps a value type and a cardinality to the canonical
//! lowercase type tag, the C storage type, and the default-value literal.

use vstd::prelude::*;

verus! {

/// The closed set of value types a flag or positional may carry.
#[derive(Clone, Copy, Debug, PartialEq, Eq, Structural)]
pub enum ValueType {
    Boolean,
    Int64,
    Float64,
    String,
}

/// The canonical lowercase type tag for a (value type, cardinality) pair,
/// used to name dispatch functions.
pub open spec fn type_tag_view(t: ValueType, multiple: bool) -> Seq<char> {
    if multiple {
        match t {
            ValueType::Boolean => "boolean_array"@,
            ValueType::Int64 => "int64_array"@,
            ValueType::Float64 => "float64_array"@,
            ValueType::String => "string_array"@,
        }
    } else {
        match t {
            ValueType::Boolean => "boolean"@,
            ValueType::Int64 => "int64"@,
            ValueType::Float64 => "float64"@,
            ValueType::String => "string"@,
        }
    }
}

/// The C storage type for a (value type, cardinality) pair. An array is a
/// distinct aggregate type per element type, not a generic template.
pub open spec fn c_type_view(t: ValueType, multiple: bool) -> Seq<char> {
    if multiple {
        match t {
            ValueType::Boolean => "struct cfgopt_boolean_array"@,
            ValueType::Int64 => "struct cfgopt_int64_array"@,
            ValueType::Float64 => "struct cfgopt_float64_array"@,
            ValueType::String => "struct cfgopt_string_array"@,
        }
    } else {
        match t {
            ValueType::Boolean => "bool"@,
            ValueType::Int64 => "int64_t"@,
            ValueType::Float64 => "double"@,
            ValueType::String => "char const *"@,
        }
    }
}

/// The default-value literal used when no explicit default is supplied:
/// a zero literal for scalars, an array-init invocation for arrays.
pub open spec fn c_default_view(t: ValueType, multiple: bool) -> Seq<char> {
    if multiple {
        "("@ + c_type_view(t, multiple) + ") cfgopt_array_init()"@
    } else {
        match t {
            ValueType::Boolean => "false"@,
            ValueType::Int64 => "0"@,
            ValueType::Float64 => "0.0"@,
            ValueType::String => "NULL"@,
        }
    }
}

/// The canonical lowercase type tag for a (value type, cardinality) pair.
pub fn type_tag_of(t: ValueType, multiple: bool) -> (r: String)
    ensures
        r@ == type_tag_view(t, multiple),
{
    if multiple {
        match t {
            ValueType::Boolean => "boolean_array",
            ValueType::Int64 => "int64_array",
            ValueType::Float64 => "float64_array",
            ValueType::String => "string_array",
        }
    } else {
        match t {
            ValueType::Boolean => "boolean",
            ValueType::Int64 => "int64",
            ValueType::Float64 => "float64",
            ValueType::String => "string",
        }
    }.to_owned()
}

/// The C storage type for a (value type, cardinality) pair.
pub fn c_type_of(t: ValueType, multiple: bool) -> (r: String)
    ensures
        r@ == c_type_view(t, multiple),
{
    if multiple {
        match t {
            ValueType::Boolean => "struct cfgopt_boolean_array",
            ValueType::Int64 => "struct cfgopt_int64_array",
            ValueType::Float64 => "struct cfgopt_float64_array",
            ValueType::String => "struct cfgopt_string_array",
        }
    } else {
        match t {
            ValueType::Boolean => "bool",
            ValueType::Int64 => "int64_t",
            ValueType::Float64 => "double",
            ValueType::String => "char const *",
        }
    }.to_owned()
}

/// The default-value literal for a (value type, cardinality) pair.
pub fn c_default_of(t: ValueType, multiple: bool) -> (r: String)
    ensures
        r@ == c_default_view(t, multiple),
{
    if multiple {
        let mut s = "(".to_owned();
        s.append(c_type_of(t, multiple).as_str());
        s.append(") cfgopt_array_init()");
        s
    } else {
        match t {
            ValueType::Boolean => "false",
            ValueType::Int64 => "0",
            ValueType::Float64 => "0.0",
            ValueType::String => "NULL",
        }.to_owned()
    }
}

} // verus!
