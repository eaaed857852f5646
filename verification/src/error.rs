//! The error type of the manifest parsers.

use vstd::prelude::*;
use vstd::string::*;
use crate::text::{debug_string, debug_text};
use xml::reader::Error as XmlReaderError;

verus! {

/// What went wrong while reading a manifest.
#[derive(Clone, Copy, Debug, PartialEq, Eq, Structural)]
pub enum ErrorKind {
    /// A error occured parsing the document
    Xml,
    /// The manifest isn't structured as expected
    UnexpectedStructure,
    /// An element other than the expected one was found
    UnexpectedTag,
    /// A required attribute is absent
    MissingAttribute,
    /// An attribute value could not be read as the expected type
    TypeParseError,
}

/// An error met while reading a manifest: its kind, an optional description
/// and, for errors of the XML reader, the reader's own error.
#[derive(Debug)]
pub struct ManifestError {
    pub kind: ErrorKind,
    pub source: Option<XmlReaderError>,
    pub description: Option<String>,
}

/// An error as the contracts see it: its kind, its description, and
/// whether it carries an error of the XML reader as its source.
pub struct ErrorView {
    pub kind: ErrorKind,
    pub description: Option<Seq<char>>,
    pub sourced: bool,
}

impl View for ManifestError {
    type V = ErrorView;

    open spec fn view(&self) -> ErrorView {
        ErrorView {
            kind: self.kind,
            description: match self.description {
                Some(d) => Some(d@),
                None => None,
            },
            sourced: self.source is Some,
        }
    }
}

/// An error of the given kind with the given description, without a source.
pub open spec fn error_view(kind: ErrorKind, description: Option<Seq<char>>) -> ErrorView {
    ErrorView { kind, description, sourced: false }
}

/// The error that reports a failure of the XML reader: it carries the
/// reader's error as its source.
pub open spec fn xml_error_view() -> ErrorView {
    ErrorView { kind: ErrorKind::Xml, description: None, sourced: true }
}

/// An unexpected structure, with an optional description.
pub open spec fn unexpected_view(description: Option<Seq<char>>) -> ErrorView {
    error_view(ErrorKind::UnexpectedStructure, description)
}

/// An unexpected tag, described.
pub open spec fn unexpected_tag_view(description: Seq<char>) -> ErrorView {
    error_view(ErrorKind::UnexpectedTag, Some(description))
}

/// The name of an error kind, as `Debug` prints it.
pub open spec fn kind_name(kind: ErrorKind) -> Seq<char> {
    match kind {
        ErrorKind::Xml => "Xml"@,
        ErrorKind::UnexpectedStructure => "UnexpectedStructure"@,
        ErrorKind::UnexpectedTag => "UnexpectedTag"@,
        ErrorKind::MissingAttribute => "MissingAttribute"@,
        ErrorKind::TypeParseError => "TypeParseError"@,
    }
}

/// An optional text as `Debug` prints it.
pub open spec fn optional_debug_text(d: Option<Seq<char>>) -> Seq<char> {
    match d {
        None => "None"@,
        Some(t) => "Some("@ + debug_text(t) + ")"@,
    }
}

/// The message of an error: for an unexpected tag and a missing attribute,
/// the printed optional description after `Unexpected tag: Found ` or
/// `Missing attribute: `; for the other kinds the kind's name, followed by
/// `: ` and the description if there is one.
pub open spec fn error_message(e: ErrorView) -> Seq<char> {
    match e.kind {
        ErrorKind::UnexpectedTag => "Unexpected tag: Found "@ + optional_debug_text(e.description),
        ErrorKind::MissingAttribute => "Missing attribute: "@ + optional_debug_text(e.description),
        _ => match e.description {
            Some(t) => kind_name(e.kind) + ": "@ + t,
            None => kind_name(e.kind),
        },
    }
}

/// Prints the name of an error kind.
fn kind_to_string(kind: ErrorKind) -> (r: String)
    ensures
        r@ == kind_name(kind),
{
    match kind {
        ErrorKind::Xml => String::from_str("Xml"),
        ErrorKind::UnexpectedStructure => String::from_str("UnexpectedStructure"),
        ErrorKind::UnexpectedTag => String::from_str("UnexpectedTag"),
        ErrorKind::MissingAttribute => String::from_str("MissingAttribute"),
        ErrorKind::TypeParseError => String::from_str("TypeParseError"),
    }
}

/// Prints an optional description as `Debug` does.
fn optional_debug_string(d: &Option<String>) -> (r: String)
    ensures
        r@ == optional_debug_text(
            match d {
                Some(t) => Some(t@),
                None => None,
            },
        ),
{
    match d {
        None => String::from_str("None"),
        Some(t) => {
            let mut r = String::from_str("Some(");
            let quoted = debug_string(t.as_str());
            r.append(quoted.as_str());
            r.append(")");
            r
        },
    }
}

impl ManifestError {
    /// The message of this error, as it is displayed.
    pub fn to_string(&self) -> (r: String)
        ensures
            r@ == error_message(self@),
    {
        match self.kind {
            ErrorKind::UnexpectedTag => {
                let mut m = String::from_str("Unexpected tag: Found ");
                let d = optional_debug_string(&self.description);
                m.append(d.as_str());
                m
            },
            ErrorKind::MissingAttribute => {
                let mut m = String::from_str("Missing attribute: ");
                let d = optional_debug_string(&self.description);
                m.append(d.as_str());
                m
            },
            _ => match &self.description {
                Some(t) => {
                    let mut m = kind_to_string(self.kind);
                    m.append(": ");
                    m.append(t.as_str());
                    m
                },
                None => kind_to_string(self.kind),
            },
        }
    }

    /// An unexpected structure, with an optional description.
    pub fn new_unexpected(description: Option<String>) -> (e: ManifestError)
        ensures
            e@ == unexpected_view(
                match description {
                    Some(d) => Some(d@),
                    None => None,
                },
            ),
            e.source is None,
    {
        ManifestError { kind: ErrorKind::UnexpectedStructure, source: None, description }
    }

    /// An error of the given kind without a description.
    pub fn new_with_kind(kind: ErrorKind) -> (e: ManifestError)
        ensures
            e@ == error_view(kind, None),
            e.source is None,
    {
        ManifestError { kind, source: None, description: None }
    }

    /// An error of the given kind with a description.
    pub fn new(kind: ErrorKind, description: String) -> (e: ManifestError)
        ensures
            e@ == error_view(kind, Some(description@)),
            e.source is None,
    {
        ManifestError { kind, source: None, description: Some(description) }
    }

    /// An unexpected tag, described.
    pub fn new_unexpected_tag(description: String) -> (e: ManifestError)
        ensures
            e@ == unexpected_tag_view(description@),
            e.source is None,
    {
        ManifestError { kind: ErrorKind::UnexpectedTag, source: None, description: Some(description) }
    }

    /// An error of the XML reader, kept as the source.
    pub fn from_xml(source: XmlReaderError) -> (e: ManifestError)
        ensures
            e@ == xml_error_view(),
            e.source == Some(source),
    {
        ManifestError { kind: ErrorKind::Xml, source: Some(source), description: None }
    }

    /// The kind of this error.
    pub fn kind(&self) -> (k: ErrorKind)
        ensures
            k == self.kind,
    {
        self.kind
    }

    /// The description of this error, if it has one.
    pub fn description(&self) -> (d: Option<&String>)
        ensures
            d == match self.description {
                Some(s) => Some(&s),
                None => None,
            },
    {
        match &self.description {
            Some(s) => Some(s),
            None => None,
        }
    }

    /// The error of the XML reader behind this error, if any.
    pub fn source(&self) -> (s: Option<&XmlReaderError>)
        ensures
            s == match self.source {
                Some(x) => Some(&x),
                None => None,
            },
    {
        match &self.source {
            Some(x) => Some(x),
            None => None,
        }
    }
}

} // verus!
