//! Error kinds of the generation pipeline. Every error is terminal to the
//! run: there is no recovery, retry, or degraded-output mode.

use vstd::prelude::*;

verus! {

/// Which kind of name collided in the shared namespace.
#[derive(Clone, Copy, Debug, PartialEq, Eq, Structural)]
pub enum DupKind {
    FlagName,
    FlagShort,
    PositionalName,
}

/// A failure of one stage of the generation run.
#[derive(Debug)]
pub enum Error {
    /// The schema source cannot be read.
    SourceUnavailable { detail: String },
    /// The schema text does not parse as the expected structure.
    SchemaMalformed { detail: String },
    /// Two entries collide in the shared name namespace. `name` is the name
    /// of the offending flag or positional, as reported by the validator.
    DuplicateName { kind: DupKind, name: String },
    /// The output destination cannot be created or written.
    OutputUnwritable { detail: String },
}

/// The mathematical view of an `Error`.
pub ghost enum ErrorV {
    SourceUnavailable { detail: Seq<char> },
    SchemaMalformed { detail: Seq<char> },
    DuplicateName { kind: DupKind, name: Seq<char> },
    OutputUnwritable { detail: Seq<char> },
}

impl View for Error {
    type V = ErrorV;

    open spec fn view(&self) -> ErrorV {
        match self {
            Error::SourceUnavailable { detail } => ErrorV::SourceUnavailable { detail: detail@ },
            Error::SchemaMalformed { detail } => ErrorV::SchemaMalformed { detail: detail@ },
            Error::DuplicateName { kind, name } => ErrorV::DuplicateName {
                kind: *kind,
                name: name@,
            },
            Error::OutputUnwritable { detail } => ErrorV::OutputUnwritable { detail: detail@ },
        }
    }
}

/// The diagnostic line for an error.
pub open spec fn message_view(e: ErrorV) -> Seq<char> {
    match e {
        ErrorV::SourceUnavailable { detail } => "cfgopt: Failed to open config file "@ + detail,
        ErrorV::SchemaMalformed { detail } => "cfgopt: Failed to parse config file "@ + detail,
        ErrorV::DuplicateName { kind, name } => match kind {
            DupKind::FlagName => "cfgopt: Duplicated flag name: "@ + name,
            DupKind::FlagShort => "cfgopt: Duplicated flag short name: "@ + name,
            DupKind::PositionalName => "cfgopt: Duplicated positional name: "@ + name,
        },
        ErrorV::OutputUnwritable { detail } => "cfgopt: Failed write output: "@ + detail,
    }
}

impl Error {
    /// The diagnostic line for this error.
    pub fn message(&self) -> (r: String)
        ensures
            r@ == message_view(self@),
    {
        let mut s: String;
        match self {
            Error::SourceUnavailable { detail } => {
                s = "cfgopt: Failed to open config file ".to_owned();
                s.append(detail.as_str());
            },
            Error::SchemaMalformed { detail } => {
                s = "cfgopt: Failed to parse config file ".to_owned();
                s.append(detail.as_str());
            },
            Error::DuplicateName { kind, name } => {
                match kind {
                    DupKind::FlagName => {
                        s = "cfgopt: Duplicated flag name: ".to_owned();
                    },
                    DupKind::FlagShort => {
                        s = "cfgopt: Duplicated flag short name: ".to_owned();
                    },
                    DupKind::PositionalName => {
                        s = "cfgopt: Duplicated positional name: ".to_owned();
                    },
                }
                s.append(name.as_str());
            },
            Error::OutputUnwritable { detail } => {
                s = "cfgopt: Failed write output: ".to_owned();
                s.append(detail.as_str());
            },
        }
        s
    }
}

} // verus!
