//! cfgopt: a schema-to-code compiler for command-line argument parsers.
//!
//! A declarative schema describes an application's flags and positional
//! arguments; this library validates the schema and renders C declarations
//! and definitions implementing a parser for it.

use vstd::prelude::*;

pub mod decode;
pub mod emit;
pub mod error;
pub mod schema;
pub mod types;
pub mod validate;

verus! {

use crate::schema::App;
use crate::error::Error;
use crate::validate::{with_auto_help, check_result, namespace, inject_help};
use crate::emit::render_view;

/// The generation pipeline on a deserialized schema: append the synthetic
/// help flag unless suppressed, validate the combined namespace, and render.
/// Succeeds exactly when the prepared namespace is duplicate-free; no text
/// is produced when validation fails.
pub fn generate(app: App) -> (r: Result<String, Error>)
    ensures
        r is Ok <==> namespace(with_auto_help(app@)).no_duplicates(),
        r matches Ok(text) ==> text@ == render_view(with_auto_help(app@)),
        r matches Err(e) ==> check_result(with_auto_help(app@)) == Some(e@),
{
    let mut prepared = app;
    inject_help(&mut prepared);
    match prepared.check_app() {
        Ok(()) => Ok(prepared.render()),
        Err(e) => Err(e),
    }
}

} // verus!
