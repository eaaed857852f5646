//! Payload templates of a provider, their data items and in-types, and the
//! names of the functions generated for them.

use vstd::prelude::*;
use vstd::string::*;
use crate::error::{ErrorKind, ErrorView, ManifestError, error_view, unexpected_tag_view, unexpected_view};
use crate::reading::{find_attribute, find_attribute_spec, first_value};
use crate::text::{ascii_lower, ascii_upper, char_uppercase, debug_string, debug_text, is_uppercase, push_char, text_eq, to_ascii_lower};
use crate::xml_stream::{
    StreamEnd,
    element_events,
    Attribute, EventStream, EventView, StreamView, XmlEvent, attributes_view, step, };

verus! {

/// Windows InTypes
///
/// [XML Schema Documentation](https://learn.microsoft.com/en-us/windows/win32/wes/eventmanifestschema-inputtype-complextype)
#[derive(Debug, Clone, Copy, PartialEq, Eq, Structural)]
#[non_exhaustive]
pub enum WinInType {
    Int8,
    UInt8,
    Int16,
    UInt16,
    Int32,
    UInt32,
    Int64,
    UInt64,
    Float,
    Double,
    Boolean,
    AnsiString,
    UnicodeString,
    Binary,
    Pointer,
    SizeT,
    Guid,
    Sid,
    Filetime,
    Systemtime,
}

/// The in-type that a manifest names, if it is one that is read.
pub open spec fn in_type_of(s: Seq<char>) -> Option<WinInType> {
    if s == "win:Int8"@ {
        Some(WinInType::Int8)
    } else if s == "win:UInt8"@ {
        Some(WinInType::UInt8)
    } else if s == "win:Int16"@ {
        Some(WinInType::Int16)
    } else if s == "win:UInt16"@ {
        Some(WinInType::UInt16)
    } else if s == "win:Int32"@ {
        Some(WinInType::Int32)
    } else if s == "win:UInt32"@ {
        Some(WinInType::UInt32)
    } else if s == "win:HexInt32"@ {
        Some(WinInType::UInt32)
    } else if s == "win:Int64"@ {
        Some(WinInType::Int64)
    } else if s == "win:UInt64"@ {
        Some(WinInType::UInt64)
    } else if s == "win:HexInt64"@ {
        Some(WinInType::UInt64)
    } else if s == "win:Float"@ {
        Some(WinInType::Float)
    } else if s == "win:Double"@ {
        Some(WinInType::Double)
    } else if s == "win:Boolean"@ {
        Some(WinInType::Boolean)
    } else if s == "win:AnsiString"@ {
        Some(WinInType::AnsiString)
    } else if s == "win:UnicodeString"@ {
        Some(WinInType::UnicodeString)
    } else if s == "win:Binary"@ {
        Some(WinInType::Binary)
    } else if s == "win:HexDump"@ {
        Some(WinInType::Binary)
    } else if s == "win:Pointer"@ {
        Some(WinInType::Pointer)
    } else if s == "win:SizeT"@ {
        Some(WinInType::SizeT)
    } else if s == "win:GUID"@ {
        Some(WinInType::Guid)
    } else if s == "win:SID"@ {
        Some(WinInType::Sid)
    } else if s == "win:FILETIME"@ {
        Some(WinInType::Filetime)
    } else if s == "win:SYSTEMTIME"@ {
        Some(WinInType::Systemtime)
    } else {
        None
    }
}

/// The character in-types, which are known but not implemented: reading one
/// stops the program.
pub open spec fn unsupported_in_type(s: Seq<char>) -> bool {
    s == "win:AnsiChar"@ || s == "win:UnicodeChar"@
}

/// The error for a text that names no in-type.
#[derive(Debug, Clone)]
pub struct ParseInTypeError(pub String);

impl ParseInTypeError {
    /// The message of this error: ``can't parse `{text}` to a WinInType``.
    pub fn to_string(&self) -> (r: String)
        ensures
            r@ == "can't parse `"@ + self.0@ + "` to a WinInType"@,
    {
        let mut m = String::from_str("can't parse `");
        m.append(self.0.as_str());
        m.append("` to a WinInType");
        m
    }
}

/// Whether `s` names one of the character in-types.
fn is_unsupported_in_type(s: &str) -> (b: bool)
    ensures
        b == unsupported_in_type(s@),
{
    text_eq(s, "win:AnsiChar") || text_eq(s, "win:UnicodeChar")
}

/// The in-type that `s` names.
fn in_type_lookup(s: &str) -> (r: Option<WinInType>)
    ensures
        r == in_type_of(s@),
{
    if text_eq(s, "win:Int8") {
        Some(WinInType::Int8)
    } else if text_eq(s, "win:UInt8") {
        Some(WinInType::UInt8)
    } else if text_eq(s, "win:Int16") {
        Some(WinInType::Int16)
    } else if text_eq(s, "win:UInt16") {
        Some(WinInType::UInt16)
    } else if text_eq(s, "win:Int32") {
        Some(WinInType::Int32)
    } else if text_eq(s, "win:UInt32") {
        Some(WinInType::UInt32)
    } else if text_eq(s, "win:HexInt32") {
        Some(WinInType::UInt32)
    } else if text_eq(s, "win:Int64") {
        Some(WinInType::Int64)
    } else if text_eq(s, "win:UInt64") {
        Some(WinInType::UInt64)
    } else if text_eq(s, "win:HexInt64") {
        Some(WinInType::UInt64)
    } else if text_eq(s, "win:Float") {
        Some(WinInType::Float)
    } else if text_eq(s, "win:Double") {
        Some(WinInType::Double)
    } else if text_eq(s, "win:Boolean") {
        Some(WinInType::Boolean)
    } else if text_eq(s, "win:AnsiString") {
        Some(WinInType::AnsiString)
    } else if text_eq(s, "win:UnicodeString") {
        Some(WinInType::UnicodeString)
    } else if text_eq(s, "win:Binary") {
        Some(WinInType::Binary)
    } else if text_eq(s, "win:HexDump") {
        Some(WinInType::Binary)
    } else if text_eq(s, "win:Pointer") {
        Some(WinInType::Pointer)
    } else if text_eq(s, "win:SizeT") {
        Some(WinInType::SizeT)
    } else if text_eq(s, "win:GUID") {
        Some(WinInType::Guid)
    } else if text_eq(s, "win:SID") {
        Some(WinInType::Sid)
    } else if text_eq(s, "win:FILETIME") {
        Some(WinInType::Filetime)
    } else if text_eq(s, "win:SYSTEMTIME") {
        Some(WinInType::Systemtime)
    } else {
        None
    }
}

/// The name of an in-type's variant (`Int8`, `UInt32`, ...).
pub open spec fn in_type_name_of(t: WinInType) -> Seq<char> {
    match t {
        WinInType::Int8 => "Int8"@,
        WinInType::UInt8 => "UInt8"@,
        WinInType::Int16 => "Int16"@,
        WinInType::UInt16 => "UInt16"@,
        WinInType::Int32 => "Int32"@,
        WinInType::UInt32 => "UInt32"@,
        WinInType::Int64 => "Int64"@,
        WinInType::UInt64 => "UInt64"@,
        WinInType::Float => "Float"@,
        WinInType::Double => "Double"@,
        WinInType::Boolean => "Boolean"@,
        WinInType::AnsiString => "AnsiString"@,
        WinInType::UnicodeString => "UnicodeString"@,
        WinInType::Binary => "Binary"@,
        WinInType::Pointer => "Pointer"@,
        WinInType::SizeT => "SizeT"@,
        WinInType::Guid => "Guid"@,
        WinInType::Sid => "Sid"@,
        WinInType::Filetime => "Filetime"@,
        WinInType::Systemtime => "Systemtime"@,
    }
}

/// The in-types that manifests spell in capitals: `GUID`, `SID`,
/// `FILETIME` and `SYSTEMTIME`.
pub open spec fn is_capitalized_in_type(t: WinInType) -> bool {
    t is Guid || t is Sid || t is Filetime || t is Systemtime
}

/// The name by which a manifest writes an in-type: `win:` and the variant's
/// name, in capitals for the capitalized ones.
pub open spec fn in_type_manifest_name(t: WinInType) -> Seq<char> {
    if is_capitalized_in_type(t) {
        "win:"@ + in_type_name_of(t).map_values(|c: char| ascii_upper(c))
    } else {
        "win:"@ + in_type_name_of(t)
    }
}

/// The other names a manifest may use for an in-type.
pub open spec fn is_in_type_alias(s: Seq<char>, t: WinInType) -> bool {
    ||| s == "win:HexInt32"@ && t == WinInType::UInt32
    ||| s == "win:HexInt64"@ && t == WinInType::UInt64
    ||| s == "win:HexDump"@ && t == WinInType::Binary
}

/// Each in-type is read from its own name in a manifest: `win:` and the
/// variant's name (in capitals for `GUID`, `SID`, `FILETIME` and
/// `SYSTEMTIME`) gives that very variant, for every variant, and is none of
/// the character in-types.
pub proof fn lemma_in_type_read_from_its_name(t: WinInType)
    ensures
        in_type_of(in_type_manifest_name(t)) == Some(t),
        !unsupported_in_type(in_type_manifest_name(t)),
{
    reveal_strlit("win:");
    match t {
        WinInType::Int8 => {
            reveal_strlit("Int8");
            reveal_strlit("win:Int8");
            reveal_strlit("win:AnsiChar");
            reveal_strlit("win:UnicodeChar");
            assert(in_type_manifest_name(WinInType::Int8) =~= "win:Int8"@);
            assert("win:Int8"@.len() != "win:AnsiChar"@.len());
            assert("win:Int8"@.len() != "win:UnicodeChar"@.len());
        },
        WinInType::UInt8 => {
            reveal_strlit("UInt8");
            reveal_strlit("win:UInt8");
            reveal_strlit("win:Int8");
            reveal_strlit("win:AnsiChar");
            reveal_strlit("win:UnicodeChar");
            assert(in_type_manifest_name(WinInType::UInt8) =~= "win:UInt8"@);
            assert("win:UInt8"@.len() != "win:Int8"@.len());
            assert("win:UInt8"@.len() != "win:AnsiChar"@.len());
            assert("win:UInt8"@.len() != "win:UnicodeChar"@.len());
        },
        WinInType::Int16 => {
            reveal_strlit("Int16");
            reveal_strlit("win:Int16");
            reveal_strlit("win:Int8");
            reveal_strlit("win:UInt8");
            reveal_strlit("win:AnsiChar");
            reveal_strlit("win:UnicodeChar");
            assert(in_type_manifest_name(WinInType::Int16) =~= "win:Int16"@);
            assert("win:Int16"@.len() != "win:Int8"@.len());
            assert("win:Int16"@[4] != "win:UInt8"@[4]);
            assert("win:Int16"@.len() != "win:AnsiChar"@.len());
            assert("win:Int16"@.len() != "win:UnicodeChar"@.len());
        },
        WinInType::UInt16 => {
            reveal_strlit("UInt16");
            reveal_strlit("win:UInt16");
            reveal_strlit("win:Int8");
            reveal_strlit("win:UInt8");
            reveal_strlit("win:Int16");
            reveal_strlit("win:AnsiChar");
            reveal_strlit("win:UnicodeChar");
            assert(in_type_manifest_name(WinInType::UInt16) =~= "win:UInt16"@);
            assert("win:UInt16"@.len() != "win:Int8"@.len());
            assert("win:UInt16"@.len() != "win:UInt8"@.len());
            assert("win:UInt16"@.len() != "win:Int16"@.len());
            assert("win:UInt16"@.len() != "win:AnsiChar"@.len());
            assert("win:UInt16"@.len() != "win:UnicodeChar"@.len());
        },
        WinInType::Int32 => {
            reveal_strlit("Int32");
            reveal_strlit("win:Int32");
            reveal_strlit("win:Int8");
            reveal_strlit("win:UInt8");
            reveal_strlit("win:Int16");
            reveal_strlit("win:UInt16");
            reveal_strlit("win:AnsiChar");
            reveal_strlit("win:UnicodeChar");
            assert(in_type_manifest_name(WinInType::Int32) =~= "win:Int32"@);
            assert("win:Int32"@.len() != "win:Int8"@.len());
            assert("win:Int32"@[4] != "win:UInt8"@[4]);
            assert("win:Int32"@[7] != "win:Int16"@[7]);
            assert("win:Int32"@.len() != "win:UInt16"@.len());
            assert("win:Int32"@.len() != "win:AnsiChar"@.len());
            assert("win:Int32"@.len() != "win:UnicodeChar"@.len());
        },
        WinInType::UInt32 => {
            reveal_strlit("UInt32");
            reveal_strlit("win:UInt32");
            reveal_strlit("win:Int8");
            reveal_strlit("win:UInt8");
            reveal_strlit("win:Int16");
            reveal_strlit("win:UInt16");
            reveal_strlit("win:Int32");
            reveal_strlit("win:AnsiChar");
            reveal_strlit("win:UnicodeChar");
            assert(in_type_manifest_name(WinInType::UInt32) =~= "win:UInt32"@);
            assert("win:UInt32"@.len() != "win:Int8"@.len());
            assert("win:UInt32"@.len() != "win:UInt8"@.len());
            assert("win:UInt32"@.len() != "win:Int16"@.len());
            assert("win:UInt32"@[8] != "win:UInt16"@[8]);
            assert("win:UInt32"@.len() != "win:Int32"@.len());
            assert("win:UInt32"@.len() != "win:AnsiChar"@.len());
            assert("win:UInt32"@.len() != "win:UnicodeChar"@.len());
        },
        WinInType::Int64 => {
            reveal_strlit("Int64");
            reveal_strlit("win:Int64");
            reveal_strlit("win:Int8");
            reveal_strlit("win:UInt8");
            reveal_strlit("win:Int16");
            reveal_strlit("win:UInt16");
            reveal_strlit("win:Int32");
            reveal_strlit("win:UInt32");
            reveal_strlit("win:HexInt32");
            reveal_strlit("win:AnsiChar");
            reveal_strlit("win:UnicodeChar");
            assert(in_type_manifest_name(WinInType::Int64) =~= "win:Int64"@);
            assert("win:Int64"@.len() != "win:Int8"@.len());
            assert("win:Int64"@[4] != "win:UInt8"@[4]);
            assert("win:Int64"@[7] != "win:Int16"@[7]);
            assert("win:Int64"@.len() != "win:UInt16"@.len());
            assert("win:Int64"@[7] != "win:Int32"@[7]);
            assert("win:Int64"@.len() != "win:UInt32"@.len());
            assert("win:Int64"@.len() != "win:HexInt32"@.len());
            assert("win:Int64"@.len() != "win:AnsiChar"@.len());
            assert("win:Int64"@.len() != "win:UnicodeChar"@.len());
        },
        WinInType::UInt64 => {
            reveal_strlit("UInt64");
            reveal_strlit("win:UInt64");
            reveal_strlit("win:Int8");
            reveal_strlit("win:UInt8");
            reveal_strlit("win:Int16");
            reveal_strlit("win:UInt16");
            reveal_strlit("win:Int32");
            reveal_strlit("win:UInt32");
            reveal_strlit("win:HexInt32");
            reveal_strlit("win:Int64");
            reveal_strlit("win:AnsiChar");
            reveal_strlit("win:UnicodeChar");
            assert(in_type_manifest_name(WinInType::UInt64) =~= "win:UInt64"@);
            assert("win:UInt64"@.len() != "win:Int8"@.len());
            assert("win:UInt64"@.len() != "win:UInt8"@.len());
            assert("win:UInt64"@.len() != "win:Int16"@.len());
            assert("win:UInt64"@[8] != "win:UInt16"@[8]);
            assert("win:UInt64"@.len() != "win:Int32"@.len());
            assert("win:UInt64"@[8] != "win:UInt32"@[8]);
            assert("win:UInt64"@.len() != "win:HexInt32"@.len());
            assert("win:UInt64"@.len() != "win:Int64"@.len());
            assert("win:UInt64"@.len() != "win:AnsiChar"@.len());
            assert("win:UInt64"@.len() != "win:UnicodeChar"@.len());
        },
        WinInType::Float => {
            reveal_strlit("Float");
            reveal_strlit("win:Float");
            reveal_strlit("win:Int8");
            reveal_strlit("win:UInt8");
            reveal_strlit("win:Int16");
            reveal_strlit("win:UInt16");
            reveal_strlit("win:Int32");
            reveal_strlit("win:UInt32");
            reveal_strlit("win:HexInt32");
            reveal_strlit("win:Int64");
            reveal_strlit("win:UInt64");
            reveal_strlit("win:HexInt64");
            reveal_strlit("win:AnsiChar");
            reveal_strlit("win:UnicodeChar");
            assert(in_type_manifest_name(WinInType::Float) =~= "win:Float"@);
            assert("win:Float"@.len() != "win:Int8"@.len());
            assert("win:Float"@[4] != "win:UInt8"@[4]);
            assert("win:Float"@[4] != "win:Int16"@[4]);
            assert("win:Float"@.len() != "win:UInt16"@.len());
            assert("win:Float"@[4] != "win:Int32"@[4]);
            assert("win:Float"@.len() != "win:UInt32"@.len());
            assert("win:Float"@.len() != "win:HexInt32"@.len());
            assert("win:Float"@[4] != "win:Int64"@[4]);
            assert("win:Float"@.len() != "win:UInt64"@.len());
            assert("win:Float"@.len() != "win:HexInt64"@.len());
            assert("win:Float"@.len() != "win:AnsiChar"@.len());
            assert("win:Float"@.len() != "win:UnicodeChar"@.len());
        },
        WinInType::Double => {
            reveal_strlit("Double");
            reveal_strlit("win:Double");
            reveal_strlit("win:Int8");
            reveal_strlit("win:UInt8");
            reveal_strlit("win:Int16");
            reveal_strlit("win:UInt16");
            reveal_strlit("win:Int32");
            reveal_strlit("win:UInt32");
            reveal_strlit("win:HexInt32");
            reveal_strlit("win:Int64");
            reveal_strlit("win:UInt64");
            reveal_strlit("win:HexInt64");
            reveal_strlit("win:Float");
            reveal_strlit("win:AnsiChar");
            reveal_strlit("win:UnicodeChar");
            assert(in_type_manifest_name(WinInType::Double) =~= "win:Double"@);
            assert("win:Double"@.len() != "win:Int8"@.len());
            assert("win:Double"@.len() != "win:UInt8"@.len());
            assert("win:Double"@.len() != "win:Int16"@.len());
            assert("win:Double"@[4] != "win:UInt16"@[4]);
            assert("win:Double"@.len() != "win:Int32"@.len());
            assert("win:Double"@[4] != "win:UInt32"@[4]);
            assert("win:Double"@.len() != "win:HexInt32"@.len());
            assert("win:Double"@.len() != "win:Int64"@.len());
            assert("win:Double"@[4] != "win:UInt64"@[4]);
            assert("win:Double"@.len() != "win:HexInt64"@.len());
            assert("win:Double"@.len() != "win:Float"@.len());
            assert("win:Double"@.len() != "win:AnsiChar"@.len());
            assert("win:Double"@.len() != "win:UnicodeChar"@.len());
        },
        WinInType::Boolean => {
            reveal_strlit("Boolean");
            reveal_strlit("win:Boolean");
            reveal_strlit("win:Int8");
            reveal_strlit("win:UInt8");
            reveal_strlit("win:Int16");
            reveal_strlit("win:UInt16");
            reveal_strlit("win:Int32");
            reveal_strlit("win:UInt32");
            reveal_strlit("win:HexInt32");
            reveal_strlit("win:Int64");
            reveal_strlit("win:UInt64");
            reveal_strlit("win:HexInt64");
            reveal_strlit("win:Float");
            reveal_strlit("win:Double");
            reveal_strlit("win:AnsiChar");
            reveal_strlit("win:UnicodeChar");
            assert(in_type_manifest_name(WinInType::Boolean) =~= "win:Boolean"@);
            assert("win:Boolean"@.len() != "win:Int8"@.len());
            assert("win:Boolean"@.len() != "win:UInt8"@.len());
            assert("win:Boolean"@.len() != "win:Int16"@.len());
            assert("win:Boolean"@.len() != "win:UInt16"@.len());
            assert("win:Boolean"@.len() != "win:Int32"@.len());
            assert("win:Boolean"@.len() != "win:UInt32"@.len());
            assert("win:Boolean"@.len() != "win:HexInt32"@.len());
            assert("win:Boolean"@.len() != "win:Int64"@.len());
            assert("win:Boolean"@.len() != "win:UInt64"@.len());
            assert("win:Boolean"@.len() != "win:HexInt64"@.len());
            assert("win:Boolean"@.len() != "win:Float"@.len());
            assert("win:Boolean"@.len() != "win:Double"@.len());
            assert("win:Boolean"@.len() != "win:AnsiChar"@.len());
            assert("win:Boolean"@.len() != "win:UnicodeChar"@.len());
        },
        WinInType::AnsiString => {
            reveal_strlit("AnsiString");
            reveal_strlit("win:AnsiString");
            reveal_strlit("win:Int8");
            reveal_strlit("win:UInt8");
            reveal_strlit("win:Int16");
            reveal_strlit("win:UInt16");
            reveal_strlit("win:Int32");
            reveal_strlit("win:UInt32");
            reveal_strlit("win:HexInt32");
            reveal_strlit("win:Int64");
            reveal_strlit("win:UInt64");
            reveal_strlit("win:HexInt64");
            reveal_strlit("win:Float");
            reveal_strlit("win:Double");
            reveal_strlit("win:Boolean");
            reveal_strlit("win:AnsiChar");
            reveal_strlit("win:UnicodeChar");
            assert(in_type_manifest_name(WinInType::AnsiString) =~= "win:AnsiString"@);
            assert("win:AnsiString"@.len() != "win:Int8"@.len());
            assert("win:AnsiString"@.len() != "win:UInt8"@.len());
            assert("win:AnsiString"@.len() != "win:Int16"@.len());
            assert("win:AnsiString"@.len() != "win:UInt16"@.len());
            assert("win:AnsiString"@.len() != "win:Int32"@.len());
            assert("win:AnsiString"@.len() != "win:UInt32"@.len());
            assert("win:AnsiString"@.len() != "win:HexInt32"@.len());
            assert("win:AnsiString"@.len() != "win:Int64"@.len());
            assert("win:AnsiString"@.len() != "win:UInt64"@.len());
            assert("win:AnsiString"@.len() != "win:HexInt64"@.len());
            assert("win:AnsiString"@.len() != "win:Float"@.len());
            assert("win:AnsiString"@.len() != "win:Double"@.len());
            assert("win:AnsiString"@.len() != "win:Boolean"@.len());
            assert("win:AnsiString"@.len() != "win:AnsiChar"@.len());
            assert("win:AnsiString"@.len() != "win:UnicodeChar"@.len());
        },
        WinInType::UnicodeString => {
            reveal_strlit("UnicodeString");
            reveal_strlit("win:UnicodeString");
            reveal_strlit("win:Int8");
            reveal_strlit("win:UInt8");
            reveal_strlit("win:Int16");
            reveal_strlit("win:UInt16");
            reveal_strlit("win:Int32");
            reveal_strlit("win:UInt32");
            reveal_strlit("win:HexInt32");
            reveal_strlit("win:Int64");
            reveal_strlit("win:UInt64");
            reveal_strlit("win:HexInt64");
            reveal_strlit("win:Float");
            reveal_strlit("win:Double");
            reveal_strlit("win:Boolean");
            reveal_strlit("win:AnsiString");
            reveal_strlit("win:AnsiChar");
            reveal_strlit("win:UnicodeChar");
            assert(in_type_manifest_name(WinInType::UnicodeString) =~= "win:UnicodeString"@);
            assert("win:UnicodeString"@.len() != "win:Int8"@.len());
            assert("win:UnicodeString"@.len() != "win:UInt8"@.len());
            assert("win:UnicodeString"@.len() != "win:Int16"@.len());
            assert("win:UnicodeString"@.len() != "win:UInt16"@.len());
            assert("win:UnicodeString"@.len() != "win:Int32"@.len());
            assert("win:UnicodeString"@.len() != "win:UInt32"@.len());
            assert("win:UnicodeString"@.len() != "win:HexInt32"@.len());
            assert("win:UnicodeString"@.len() != "win:Int64"@.len());
            assert("win:UnicodeString"@.len() != "win:UInt64"@.len());
            assert("win:UnicodeString"@.len() != "win:HexInt64"@.len());
            assert("win:UnicodeString"@.len() != "win:Float"@.len());
            assert("win:UnicodeString"@.len() != "win:Double"@.len());
            assert("win:UnicodeString"@.len() != "win:Boolean"@.len());
            assert("win:UnicodeString"@.len() != "win:AnsiString"@.len());
            assert("win:UnicodeString"@.len() != "win:AnsiChar"@.len());
            assert("win:UnicodeString"@.len() != "win:UnicodeChar"@.len());
        },
        WinInType::Binary => {
            reveal_strlit("Binary");
            reveal_strlit("win:Binary");
            reveal_strlit("win:Int8");
            reveal_strlit("win:UInt8");
            reveal_strlit("win:Int16");
            reveal_strlit("win:UInt16");
            reveal_strlit("win:Int32");
            reveal_strlit("win:UInt32");
            reveal_strlit("win:HexInt32");
            reveal_strlit("win:Int64");
            reveal_strlit("win:UInt64");
            reveal_strlit("win:HexInt64");
            reveal_strlit("win:Float");
            reveal_strlit("win:Double");
            reveal_strlit("win:Boolean");
            reveal_strlit("win:AnsiString");
            reveal_strlit("win:UnicodeString");
            reveal_strlit("win:AnsiChar");
            reveal_strlit("win:UnicodeChar");
            assert(in_type_manifest_name(WinInType::Binary) =~= "win:Binary"@);
            assert("win:Binary"@.len() != "win:Int8"@.len());
            assert("win:Binary"@.len() != "win:UInt8"@.len());
            assert("win:Binary"@.len() != "win:Int16"@.len());
            assert("win:Binary"@[4] != "win:UInt16"@[4]);
            assert("win:Binary"@.len() != "win:Int32"@.len());
            assert("win:Binary"@[4] != "win:UInt32"@[4]);
            assert("win:Binary"@.len() != "win:HexInt32"@.len());
            assert("win:Binary"@.len() != "win:Int64"@.len());
            assert("win:Binary"@[4] != "win:UInt64"@[4]);
            assert("win:Binary"@.len() != "win:HexInt64"@.len());
            assert("win:Binary"@.len() != "win:Float"@.len());
            assert("win:Binary"@[4] != "win:Double"@[4]);
            assert("win:Binary"@.len() != "win:Boolean"@.len());
            assert("win:Binary"@.len() != "win:AnsiString"@.len());
            assert("win:Binary"@.len() != "win:UnicodeString"@.len());
            assert("win:Binary"@.len() != "win:AnsiChar"@.len());
            assert("win:Binary"@.len() != "win:UnicodeChar"@.len());
        },
        WinInType::Pointer => {
            reveal_strlit("Pointer");
            reveal_strlit("win:Pointer");
            reveal_strlit("win:Int8");
            reveal_strlit("win:UInt8");
            reveal_strlit("win:Int16");
            reveal_strlit("win:UInt16");
            reveal_strlit("win:Int32");
            reveal_strlit("win:UInt32");
            reveal_strlit("win:HexInt32");
            reveal_strlit("win:Int64");
            reveal_strlit("win:UInt64");
            reveal_strlit("win:HexInt64");
            reveal_strlit("win:Float");
            reveal_strlit("win:Double");
            reveal_strlit("win:Boolean");
            reveal_strlit("win:AnsiString");
            reveal_strlit("win:UnicodeString");
            reveal_strlit("win:Binary");
            reveal_strlit("win:HexDump");
            reveal_strlit("win:AnsiChar");
            reveal_strlit("win:UnicodeChar");
            assert(in_type_manifest_name(WinInType::Pointer) =~= "win:Pointer"@);
            assert("win:Pointer"@.len() != "win:Int8"@.len());
            assert("win:Pointer"@.len() != "win:UInt8"@.len());
            assert("win:Pointer"@.len() != "win:Int16"@.len());
            assert("win:Pointer"@.len() != "win:UInt16"@.len());
            assert("win:Pointer"@.len() != "win:Int32"@.len());
            assert("win:Pointer"@.len() != "win:UInt32"@.len());
            assert("win:Pointer"@.len() != "win:HexInt32"@.len());
            assert("win:Pointer"@.len() != "win:Int64"@.len());
            assert("win:Pointer"@.len() != "win:UInt64"@.len());
            assert("win:Pointer"@.len() != "win:HexInt64"@.len());
            assert("win:Pointer"@.len() != "win:Float"@.len());
            assert("win:Pointer"@.len() != "win:Double"@.len());
            assert("win:Pointer"@[4] != "win:Boolean"@[4]);
            assert("win:Pointer"@.len() != "win:AnsiString"@.len());
            assert("win:Pointer"@.len() != "win:UnicodeString"@.len());
            assert("win:Pointer"@.len() != "win:Binary"@.len());
            assert("win:Pointer"@[4] != "win:HexDump"@[4]);
            assert("win:Pointer"@.len() != "win:AnsiChar"@.len());
            assert("win:Pointer"@.len() != "win:UnicodeChar"@.len());
        },
        WinInType::SizeT => {
            reveal_strlit("SizeT");
            reveal_strlit("win:SizeT");
            reveal_strlit("win:Int8");
            reveal_strlit("win:UInt8");
            reveal_strlit("win:Int16");
            reveal_strlit("win:UInt16");
            reveal_strlit("win:Int32");
            reveal_strlit("win:UInt32");
            reveal_strlit("win:HexInt32");
            reveal_strlit("win:Int64");
            reveal_strlit("win:UInt64");
            reveal_strlit("win:HexInt64");
            reveal_strlit("win:Float");
            reveal_strlit("win:Double");
            reveal_strlit("win:Boolean");
            reveal_strlit("win:AnsiString");
            reveal_strlit("win:UnicodeString");
            reveal_strlit("win:Binary");
            reveal_strlit("win:HexDump");
            reveal_strlit("win:Pointer");
            reveal_strlit("win:AnsiChar");
            reveal_strlit("win:UnicodeChar");
            assert(in_type_manifest_name(WinInType::SizeT) =~= "win:SizeT"@);
            assert("win:SizeT"@.len() != "win:Int8"@.len());
            assert("win:SizeT"@[4] != "win:UInt8"@[4]);
            assert("win:SizeT"@[4] != "win:Int16"@[4]);
            assert("win:SizeT"@.len() != "win:UInt16"@.len());
            assert("win:SizeT"@[4] != "win:Int32"@[4]);
            assert("win:SizeT"@.len() != "win:UInt32"@.len());
            assert("win:SizeT"@.len() != "win:HexInt32"@.len());
            assert("win:SizeT"@[4] != "win:Int64"@[4]);
            assert("win:SizeT"@.len() != "win:UInt64"@.len());
            assert("win:SizeT"@.len() != "win:HexInt64"@.len());
            assert("win:SizeT"@[4] != "win:Float"@[4]);
            assert("win:SizeT"@.len() != "win:Double"@.len());
            assert("win:SizeT"@.len() != "win:Boolean"@.len());
            assert("win:SizeT"@.len() != "win:AnsiString"@.len());
            assert("win:SizeT"@.len() != "win:UnicodeString"@.len());
            assert("win:SizeT"@.len() != "win:Binary"@.len());
            assert("win:SizeT"@.len() != "win:HexDump"@.len());
            assert("win:SizeT"@.len() != "win:Pointer"@.len());
            assert("win:SizeT"@.len() != "win:AnsiChar"@.len());
            assert("win:SizeT"@.len() != "win:UnicodeChar"@.len());
        },
        WinInType::Guid => {
            reveal_strlit("Guid");
            reveal_strlit("win:GUID");
            reveal_strlit("win:Int8");
            reveal_strlit("win:UInt8");
            reveal_strlit("win:Int16");
            reveal_strlit("win:UInt16");
            reveal_strlit("win:Int32");
            reveal_strlit("win:UInt32");
            reveal_strlit("win:HexInt32");
            reveal_strlit("win:Int64");
            reveal_strlit("win:UInt64");
            reveal_strlit("win:HexInt64");
            reveal_strlit("win:Float");
            reveal_strlit("win:Double");
            reveal_strlit("win:Boolean");
            reveal_strlit("win:AnsiString");
            reveal_strlit("win:UnicodeString");
            reveal_strlit("win:Binary");
            reveal_strlit("win:HexDump");
            reveal_strlit("win:Pointer");
            reveal_strlit("win:SizeT");
            reveal_strlit("win:AnsiChar");
            reveal_strlit("win:UnicodeChar");
            assert(in_type_manifest_name(WinInType::Guid) =~= "win:GUID"@);
            assert("win:GUID"@[4] != "win:Int8"@[4]);
            assert("win:GUID"@.len() != "win:UInt8"@.len());
            assert("win:GUID"@.len() != "win:Int16"@.len());
            assert("win:GUID"@.len() != "win:UInt16"@.len());
            assert("win:GUID"@.len() != "win:Int32"@.len());
            assert("win:GUID"@.len() != "win:UInt32"@.len());
            assert("win:GUID"@.len() != "win:HexInt32"@.len());
            assert("win:GUID"@.len() != "win:Int64"@.len());
            assert("win:GUID"@.len() != "win:UInt64"@.len());
            assert("win:GUID"@.len() != "win:HexInt64"@.len());
            assert("win:GUID"@.len() != "win:Float"@.len());
            assert("win:GUID"@.len() != "win:Double"@.len());
            assert("win:GUID"@.len() != "win:Boolean"@.len());
            assert("win:GUID"@.len() != "win:AnsiString"@.len());
            assert("win:GUID"@.len() != "win:UnicodeString"@.len());
            assert("win:GUID"@.len() != "win:Binary"@.len());
            assert("win:GUID"@.len() != "win:HexDump"@.len());
            assert("win:GUID"@.len() != "win:Pointer"@.len());
            assert("win:GUID"@.len() != "win:SizeT"@.len());
            assert("win:GUID"@.len() != "win:AnsiChar"@.len());
            assert("win:GUID"@.len() != "win:UnicodeChar"@.len());
        },
        WinInType::Sid => {
            reveal_strlit("Sid");
            reveal_strlit("win:SID");
            reveal_strlit("win:Int8");
            reveal_strlit("win:UInt8");
            reveal_strlit("win:Int16");
            reveal_strlit("win:UInt16");
            reveal_strlit("win:Int32");
            reveal_strlit("win:UInt32");
            reveal_strlit("win:HexInt32");
            reveal_strlit("win:Int64");
            reveal_strlit("win:UInt64");
            reveal_strlit("win:HexInt64");
            reveal_strlit("win:Float");
            reveal_strlit("win:Double");
            reveal_strlit("win:Boolean");
            reveal_strlit("win:AnsiString");
            reveal_strlit("win:UnicodeString");
            reveal_strlit("win:Binary");
            reveal_strlit("win:HexDump");
            reveal_strlit("win:Pointer");
            reveal_strlit("win:SizeT");
            reveal_strlit("win:GUID");
            reveal_strlit("win:AnsiChar");
            reveal_strlit("win:UnicodeChar");
            assert(in_type_manifest_name(WinInType::Sid) =~= "win:SID"@);
            assert("win:SID"@.len() != "win:Int8"@.len());
            assert("win:SID"@.len() != "win:UInt8"@.len());
            assert("win:SID"@.len() != "win:Int16"@.len());
            assert("win:SID"@.len() != "win:UInt16"@.len());
            assert("win:SID"@.len() != "win:Int32"@.len());
            assert("win:SID"@.len() != "win:UInt32"@.len());
            assert("win:SID"@.len() != "win:HexInt32"@.len());
            assert("win:SID"@.len() != "win:Int64"@.len());
            assert("win:SID"@.len() != "win:UInt64"@.len());
            assert("win:SID"@.len() != "win:HexInt64"@.len());
            assert("win:SID"@.len() != "win:Float"@.len());
            assert("win:SID"@.len() != "win:Double"@.len());
            assert("win:SID"@.len() != "win:Boolean"@.len());
            assert("win:SID"@.len() != "win:AnsiString"@.len());
            assert("win:SID"@.len() != "win:UnicodeString"@.len());
            assert("win:SID"@.len() != "win:Binary"@.len());
            assert("win:SID"@.len() != "win:HexDump"@.len());
            assert("win:SID"@.len() != "win:Pointer"@.len());
            assert("win:SID"@.len() != "win:SizeT"@.len());
            assert("win:SID"@.len() != "win:GUID"@.len());
            assert("win:SID"@.len() != "win:AnsiChar"@.len());
            assert("win:SID"@.len() != "win:UnicodeChar"@.len());
        },
        WinInType::Filetime => {
            reveal_strlit("Filetime");
            reveal_strlit("win:FILETIME");
            reveal_strlit("win:Int8");
            reveal_strlit("win:UInt8");
            reveal_strlit("win:Int16");
            reveal_strlit("win:UInt16");
            reveal_strlit("win:Int32");
            reveal_strlit("win:UInt32");
            reveal_strlit("win:HexInt32");
            reveal_strlit("win:Int64");
            reveal_strlit("win:UInt64");
            reveal_strlit("win:HexInt64");
            reveal_strlit("win:Float");
            reveal_strlit("win:Double");
            reveal_strlit("win:Boolean");
            reveal_strlit("win:AnsiString");
            reveal_strlit("win:UnicodeString");
            reveal_strlit("win:Binary");
            reveal_strlit("win:HexDump");
            reveal_strlit("win:Pointer");
            reveal_strlit("win:SizeT");
            reveal_strlit("win:GUID");
            reveal_strlit("win:SID");
            reveal_strlit("win:AnsiChar");
            reveal_strlit("win:UnicodeChar");
            assert(in_type_manifest_name(WinInType::Filetime) =~= "win:FILETIME"@);
            assert("win:FILETIME"@.len() != "win:Int8"@.len());
            assert("win:FILETIME"@.len() != "win:UInt8"@.len());
            assert("win:FILETIME"@.len() != "win:Int16"@.len());
            assert("win:FILETIME"@.len() != "win:UInt16"@.len());
            assert("win:FILETIME"@.len() != "win:Int32"@.len());
            assert("win:FILETIME"@.len() != "win:UInt32"@.len());
            assert("win:FILETIME"@[4] != "win:HexInt32"@[4]);
            assert("win:FILETIME"@.len() != "win:Int64"@.len());
            assert("win:FILETIME"@.len() != "win:UInt64"@.len());
            assert("win:FILETIME"@[4] != "win:HexInt64"@[4]);
            assert("win:FILETIME"@.len() != "win:Float"@.len());
            assert("win:FILETIME"@.len() != "win:Double"@.len());
            assert("win:FILETIME"@.len() != "win:Boolean"@.len());
            assert("win:FILETIME"@.len() != "win:AnsiString"@.len());
            assert("win:FILETIME"@.len() != "win:UnicodeString"@.len());
            assert("win:FILETIME"@.len() != "win:Binary"@.len());
            assert("win:FILETIME"@.len() != "win:HexDump"@.len());
            assert("win:FILETIME"@.len() != "win:Pointer"@.len());
            assert("win:FILETIME"@.len() != "win:SizeT"@.len());
            assert("win:FILETIME"@.len() != "win:GUID"@.len());
            assert("win:FILETIME"@.len() != "win:SID"@.len());
            assert("win:FILETIME"@[4] != "win:AnsiChar"@[4]);
            assert("win:FILETIME"@.len() != "win:UnicodeChar"@.len());
        },
        WinInType::Systemtime => {
            reveal_strlit("Systemtime");
            reveal_strlit("win:SYSTEMTIME");
            reveal_strlit("win:Int8");
            reveal_strlit("win:UInt8");
            reveal_strlit("win:Int16");
            reveal_strlit("win:UInt16");
            reveal_strlit("win:Int32");
            reveal_strlit("win:UInt32");
            reveal_strlit("win:HexInt32");
            reveal_strlit("win:Int64");
            reveal_strlit("win:UInt64");
            reveal_strlit("win:HexInt64");
            reveal_strlit("win:Float");
            reveal_strlit("win:Double");
            reveal_strlit("win:Boolean");
            reveal_strlit("win:AnsiString");
            reveal_strlit("win:UnicodeString");
            reveal_strlit("win:Binary");
            reveal_strlit("win:HexDump");
            reveal_strlit("win:Pointer");
            reveal_strlit("win:SizeT");
            reveal_strlit("win:GUID");
            reveal_strlit("win:SID");
            reveal_strlit("win:FILETIME");
            reveal_strlit("win:AnsiChar");
            reveal_strlit("win:UnicodeChar");
            assert(in_type_manifest_name(WinInType::Systemtime) =~= "win:SYSTEMTIME"@);
            assert("win:SYSTEMTIME"@.len() != "win:Int8"@.len());
            assert("win:SYSTEMTIME"@.len() != "win:UInt8"@.len());
            assert("win:SYSTEMTIME"@.len() != "win:Int16"@.len());
            assert("win:SYSTEMTIME"@.len() != "win:UInt16"@.len());
            assert("win:SYSTEMTIME"@.len() != "win:Int32"@.len());
            assert("win:SYSTEMTIME"@.len() != "win:UInt32"@.len());
            assert("win:SYSTEMTIME"@.len() != "win:HexInt32"@.len());
            assert("win:SYSTEMTIME"@.len() != "win:Int64"@.len());
            assert("win:SYSTEMTIME"@.len() != "win:UInt64"@.len());
            assert("win:SYSTEMTIME"@.len() != "win:HexInt64"@.len());
            assert("win:SYSTEMTIME"@.len() != "win:Float"@.len());
            assert("win:SYSTEMTIME"@.len() != "win:Double"@.len());
            assert("win:SYSTEMTIME"@.len() != "win:Boolean"@.len());
            assert("win:SYSTEMTIME"@[4] != "win:AnsiString"@[4]);
            assert("win:SYSTEMTIME"@.len() != "win:UnicodeString"@.len());
            assert("win:SYSTEMTIME"@.len() != "win:Binary"@.len());
            assert("win:SYSTEMTIME"@.len() != "win:HexDump"@.len());
            assert("win:SYSTEMTIME"@.len() != "win:Pointer"@.len());
            assert("win:SYSTEMTIME"@.len() != "win:SizeT"@.len());
            assert("win:SYSTEMTIME"@.len() != "win:GUID"@.len());
            assert("win:SYSTEMTIME"@.len() != "win:SID"@.len());
            assert("win:SYSTEMTIME"@.len() != "win:FILETIME"@.len());
            assert("win:SYSTEMTIME"@.len() != "win:AnsiChar"@.len());
            assert("win:SYSTEMTIME"@.len() != "win:UnicodeChar"@.len());
        },
    }
}

/// The aliases are read as the in-types they stand for: `win:HexInt32` as
/// `UInt32`, `win:HexInt64` as `UInt64`, `win:HexDump` as `Binary`.
pub proof fn lemma_in_type_aliases_read(s: Seq<char>, t: WinInType)
    requires
        is_in_type_alias(s, t),
    ensures
        in_type_of(s) == Some(t),
        !unsupported_in_type(s),
{
    if s == "win:HexInt32"@ {
        reveal_strlit("win:HexInt32");
        reveal_strlit("win:Int8");
        reveal_strlit("win:UInt8");
        reveal_strlit("win:Int16");
        reveal_strlit("win:UInt16");
        reveal_strlit("win:Int32");
        reveal_strlit("win:UInt32");
        reveal_strlit("win:AnsiChar");
        reveal_strlit("win:UnicodeChar");
        assert("win:HexInt32"@.len() != "win:Int8"@.len());
        assert("win:HexInt32"@.len() != "win:UInt8"@.len());
        assert("win:HexInt32"@.len() != "win:Int16"@.len());
        assert("win:HexInt32"@.len() != "win:UInt16"@.len());
        assert("win:HexInt32"@.len() != "win:Int32"@.len());
        assert("win:HexInt32"@.len() != "win:UInt32"@.len());
        assert("win:HexInt32"@[4] != "win:AnsiChar"@[4]);
        assert("win:HexInt32"@.len() != "win:UnicodeChar"@.len());
    }
    if s == "win:HexInt64"@ {
        reveal_strlit("win:HexInt64");
        reveal_strlit("win:Int8");
        reveal_strlit("win:UInt8");
        reveal_strlit("win:Int16");
        reveal_strlit("win:UInt16");
        reveal_strlit("win:Int32");
        reveal_strlit("win:UInt32");
        reveal_strlit("win:HexInt32");
        reveal_strlit("win:Int64");
        reveal_strlit("win:UInt64");
        reveal_strlit("win:AnsiChar");
        reveal_strlit("win:UnicodeChar");
        assert("win:HexInt64"@.len() != "win:Int8"@.len());
        assert("win:HexInt64"@.len() != "win:UInt8"@.len());
        assert("win:HexInt64"@.len() != "win:Int16"@.len());
        assert("win:HexInt64"@.len() != "win:UInt16"@.len());
        assert("win:HexInt64"@.len() != "win:Int32"@.len());
        assert("win:HexInt64"@.len() != "win:UInt32"@.len());
        assert("win:HexInt64"@[10] != "win:HexInt32"@[10]);
        assert("win:HexInt64"@.len() != "win:Int64"@.len());
        assert("win:HexInt64"@.len() != "win:UInt64"@.len());
        assert("win:HexInt64"@[4] != "win:AnsiChar"@[4]);
        assert("win:HexInt64"@.len() != "win:UnicodeChar"@.len());
    }
    if s == "win:HexDump"@ {
        reveal_strlit("win:HexDump");
        reveal_strlit("win:Int8");
        reveal_strlit("win:UInt8");
        reveal_strlit("win:Int16");
        reveal_strlit("win:UInt16");
        reveal_strlit("win:Int32");
        reveal_strlit("win:UInt32");
        reveal_strlit("win:HexInt32");
        reveal_strlit("win:Int64");
        reveal_strlit("win:UInt64");
        reveal_strlit("win:HexInt64");
        reveal_strlit("win:Float");
        reveal_strlit("win:Double");
        reveal_strlit("win:Boolean");
        reveal_strlit("win:AnsiString");
        reveal_strlit("win:UnicodeString");
        reveal_strlit("win:Binary");
        reveal_strlit("win:AnsiChar");
        reveal_strlit("win:UnicodeChar");
        assert("win:HexDump"@.len() != "win:Int8"@.len());
        assert("win:HexDump"@.len() != "win:UInt8"@.len());
        assert("win:HexDump"@.len() != "win:Int16"@.len());
        assert("win:HexDump"@.len() != "win:UInt16"@.len());
        assert("win:HexDump"@.len() != "win:Int32"@.len());
        assert("win:HexDump"@.len() != "win:UInt32"@.len());
        assert("win:HexDump"@.len() != "win:HexInt32"@.len());
        assert("win:HexDump"@.len() != "win:Int64"@.len());
        assert("win:HexDump"@.len() != "win:UInt64"@.len());
        assert("win:HexDump"@.len() != "win:HexInt64"@.len());
        assert("win:HexDump"@.len() != "win:Float"@.len());
        assert("win:HexDump"@.len() != "win:Double"@.len());
        assert("win:HexDump"@[4] != "win:Boolean"@[4]);
        assert("win:HexDump"@.len() != "win:AnsiString"@.len());
        assert("win:HexDump"@.len() != "win:UnicodeString"@.len());
        assert("win:HexDump"@.len() != "win:Binary"@.len());
        assert("win:HexDump"@.len() != "win:AnsiChar"@.len());
        assert("win:HexDump"@.len() != "win:UnicodeChar"@.len());
    }
}

/// Whatever in-type a name is read as, the name is that variant's own name
/// in a manifest, or one of the aliases `win:HexInt32` (`UInt32`),
/// `win:HexInt64` (`UInt64`) and `win:HexDump` (`Binary`): no name is read
/// as another variant.
pub proof fn lemma_in_type_name_matches(s: Seq<char>)
    ensures
        in_type_of(s) matches Some(t) ==> s == in_type_manifest_name(t) || is_in_type_alias(s, t),
{
    reveal_strlit("win:");
    if s == "win:Int8"@ {
        reveal_strlit("Int8");
        reveal_strlit("win:Int8");
        assert(in_type_manifest_name(WinInType::Int8) =~= "win:Int8"@);
    } else if s == "win:UInt8"@ {
        reveal_strlit("UInt8");
        reveal_strlit("win:UInt8");
        assert(in_type_manifest_name(WinInType::UInt8) =~= "win:UInt8"@);
    } else if s == "win:Int16"@ {
        reveal_strlit("Int16");
        reveal_strlit("win:Int16");
        assert(in_type_manifest_name(WinInType::Int16) =~= "win:Int16"@);
    } else if s == "win:UInt16"@ {
        reveal_strlit("UInt16");
        reveal_strlit("win:UInt16");
        assert(in_type_manifest_name(WinInType::UInt16) =~= "win:UInt16"@);
    } else if s == "win:Int32"@ {
        reveal_strlit("Int32");
        reveal_strlit("win:Int32");
        assert(in_type_manifest_name(WinInType::Int32) =~= "win:Int32"@);
    } else if s == "win:UInt32"@ {
        reveal_strlit("UInt32");
        reveal_strlit("win:UInt32");
        assert(in_type_manifest_name(WinInType::UInt32) =~= "win:UInt32"@);
    } else if s == "win:HexInt32"@ {
    } else if s == "win:Int64"@ {
        reveal_strlit("Int64");
        reveal_strlit("win:Int64");
        assert(in_type_manifest_name(WinInType::Int64) =~= "win:Int64"@);
    } else if s == "win:UInt64"@ {
        reveal_strlit("UInt64");
        reveal_strlit("win:UInt64");
        assert(in_type_manifest_name(WinInType::UInt64) =~= "win:UInt64"@);
    } else if s == "win:HexInt64"@ {
    } else if s == "win:Float"@ {
        reveal_strlit("Float");
        reveal_strlit("win:Float");
        assert(in_type_manifest_name(WinInType::Float) =~= "win:Float"@);
    } else if s == "win:Double"@ {
        reveal_strlit("Double");
        reveal_strlit("win:Double");
        assert(in_type_manifest_name(WinInType::Double) =~= "win:Double"@);
    } else if s == "win:Boolean"@ {
        reveal_strlit("Boolean");
        reveal_strlit("win:Boolean");
        assert(in_type_manifest_name(WinInType::Boolean) =~= "win:Boolean"@);
    } else if s == "win:AnsiString"@ {
        reveal_strlit("AnsiString");
        reveal_strlit("win:AnsiString");
        assert(in_type_manifest_name(WinInType::AnsiString) =~= "win:AnsiString"@);
    } else if s == "win:UnicodeString"@ {
        reveal_strlit("UnicodeString");
        reveal_strlit("win:UnicodeString");
        assert(in_type_manifest_name(WinInType::UnicodeString) =~= "win:UnicodeString"@);
    } else if s == "win:Binary"@ {
        reveal_strlit("Binary");
        reveal_strlit("win:Binary");
        assert(in_type_manifest_name(WinInType::Binary) =~= "win:Binary"@);
    } else if s == "win:HexDump"@ {
    } else if s == "win:Pointer"@ {
        reveal_strlit("Pointer");
        reveal_strlit("win:Pointer");
        assert(in_type_manifest_name(WinInType::Pointer) =~= "win:Pointer"@);
    } else if s == "win:SizeT"@ {
        reveal_strlit("SizeT");
        reveal_strlit("win:SizeT");
        assert(in_type_manifest_name(WinInType::SizeT) =~= "win:SizeT"@);
    } else if s == "win:GUID"@ {
        reveal_strlit("Guid");
        reveal_strlit("win:GUID");
        assert(in_type_manifest_name(WinInType::Guid) =~= "win:GUID"@);
    } else if s == "win:SID"@ {
        reveal_strlit("Sid");
        reveal_strlit("win:SID");
        assert(in_type_manifest_name(WinInType::Sid) =~= "win:SID"@);
    } else if s == "win:FILETIME"@ {
        reveal_strlit("Filetime");
        reveal_strlit("win:FILETIME");
        assert(in_type_manifest_name(WinInType::Filetime) =~= "win:FILETIME"@);
    } else if s == "win:SYSTEMTIME"@ {
        reveal_strlit("Systemtime");
        reveal_strlit("win:SYSTEMTIME");
        assert(in_type_manifest_name(WinInType::Systemtime) =~= "win:SYSTEMTIME"@);
    }
}

impl WinInType {
    /// The name of this in-type's variant, as the generated code spells it
    /// (`WinInType::UInt32` is `UInt32`).
    pub fn variant_name(self) -> (r: String)
        ensures
            r@ == in_type_name_of(self),
    {
        match self {
            WinInType::Int8 => String::from_str("Int8"),
            WinInType::UInt8 => String::from_str("UInt8"),
            WinInType::Int16 => String::from_str("Int16"),
            WinInType::UInt16 => String::from_str("UInt16"),
            WinInType::Int32 => String::from_str("Int32"),
            WinInType::UInt32 => String::from_str("UInt32"),
            WinInType::Int64 => String::from_str("Int64"),
            WinInType::UInt64 => String::from_str("UInt64"),
            WinInType::Float => String::from_str("Float"),
            WinInType::Double => String::from_str("Double"),
            WinInType::Boolean => String::from_str("Boolean"),
            WinInType::AnsiString => String::from_str("AnsiString"),
            WinInType::UnicodeString => String::from_str("UnicodeString"),
            WinInType::Binary => String::from_str("Binary"),
            WinInType::Pointer => String::from_str("Pointer"),
            WinInType::SizeT => String::from_str("SizeT"),
            WinInType::Guid => String::from_str("Guid"),
            WinInType::Sid => String::from_str("Sid"),
            WinInType::Filetime => String::from_str("Filetime"),
            WinInType::Systemtime => String::from_str("Systemtime"),
        }
    }

    /// Reads an in-type as a manifest names it (`win:UInt32`, ...). The hex
    /// forms `win:HexInt32`, `win:HexInt64` and `win:HexDump` read as
    /// `UInt32`, `UInt64` and `Binary`; an unknown text is an error that
    /// holds it.
    pub fn from_str(s: &str) -> (r: Result<WinInType, ParseInTypeError>)
        requires
            !unsupported_in_type(s@),
        ensures
            match r {
                Ok(t) => in_type_of(s@) == Some(t),
                Err(e) => in_type_of(s@) is None && e.0@ == s@,
            },
    {
        match in_type_lookup(s) {
            Some(t) => Ok(t),
            None => Err(ParseInTypeError(String::from_str(s))),
        }
    }
}

/// What reading a part of a manifest comes to, as the contracts see it: a
/// value, an error, or a stop of the program at a character in-type.
pub enum Outcome<T> {
    Done(T),
    Failed(ErrorView),
    Unsupported,
}

/// Why reading a part of a manifest did not give a value: an error, or a
/// character in-type, at which the program would stop.
#[derive(Debug)]
pub enum Halt {
    Failed(ManifestError),
    Unsupported,
}

/// The outcome of a reading that may halt.
pub open spec fn halt_view<T, V>(r: Result<T, Halt>, f: spec_fn(T) -> V) -> Outcome<V> {
    match r {
        Ok(v) => Outcome::Done(f(v)),
        Err(Halt::Failed(e)) => Outcome::Failed(e@),
        Err(Halt::Unsupported) => Outcome::Unsupported,
    }
}

/// The outcome of a reading that cannot halt.
pub open spec fn plain_view<T, V>(r: Result<T, ManifestError>, f: spec_fn(T) -> V) -> Outcome<V> {
    match r {
        Ok(v) => Outcome::Done(f(v)),
        Err(e) => Outcome::Failed(e@),
    }
}

/// Description of data items
#[derive(Debug)]
#[non_exhaustive]
pub struct DataType {
    /// Name of the data item
    pub name: String,
    /// The `in_type` of the item
    pub in_type: WinInType,
    /// Optional name of the data item, which stores the lengh of this item
    ///
    /// Used for items with [WinInType::Binary].
    /// Items with [WinInType::Binary], which have a known size (an IPv6 address for example), might still be missing a length field.
    pub length: Option<String>,
}

/// A data item as the contracts see it.
pub struct DataTypeView {
    pub name: Seq<char>,
    pub in_type: WinInType,
    pub length: Option<Seq<char>>,
}

impl View for DataType {
    type V = DataTypeView;

    open spec fn view(&self) -> DataTypeView {
        DataTypeView {
            name: self.name@,
            in_type: self.in_type,
            length: match self.length {
                Some(l) => Some(l@),
                None => None,
            },
        }
    }
}

/// The data items of a sequence as the contracts see them.
pub open spec fn data_types_view(v: Seq<DataType>) -> Seq<DataTypeView> {
    v.map_values(|d: DataType| d@)
}

/// The error for an unknown in-type: it quotes the `Debug` form of the
/// `ParseInTypeError` holding the text.
pub open spec fn unknown_in_type_view(t: Seq<char>) -> ErrorView {
    error_view(
        ErrorKind::TypeParseError,
        Some("Encountered unknown in-type: ParseInTypeError("@ + debug_text(t) + ")"@),
    )
}

/// What a `<data>` element's attributes give: its `name`, its `inType` and
/// its optional `length`; a missing attribute is reported first for `name`,
/// then for `inType`. An unknown in-type is an error; a character in-type
/// stops the program. A binary item may go without a length (one of a known
/// size, such as an IPv6 address, has none).
pub open spec fn data_type_spec(attributes: Seq<(Seq<char>, Seq<char>)>) -> Outcome<DataTypeView> {
    match find_attribute_spec(attributes, "name"@) {
        Err(e) => Outcome::Failed(e),
        Ok(name) => match find_attribute_spec(attributes, "inType"@) {
            Err(e) => Outcome::Failed(e),
            Ok(t) => if unsupported_in_type(t) {
                Outcome::Unsupported
            } else {
                match in_type_of(t) {
                    None => Outcome::Failed(unknown_in_type_view(t)),
                    Some(in_type) => Outcome::Done(
                        DataTypeView { name, in_type, length: first_value(attributes, "length"@) },
                    ),
                }
            },
        },
    }
}

/// A data item of any in-type, named in a manifest by its own name or an
/// alias, reads with that in-type whether or not it has a `length`: a binary
/// item of known size needs none.
pub proof fn lemma_data_item_length_is_optional(
    attributes: Seq<(Seq<char>, Seq<char>)>,
    name: Seq<char>,
    in_type_text: Seq<char>,
    t: WinInType,
)
    requires
        first_value(attributes, "name"@) == Some(name),
        first_value(attributes, "inType"@) == Some(in_type_text),
        in_type_text == in_type_manifest_name(t) || is_in_type_alias(in_type_text, t),
    ensures
        first_value(attributes, "length"@) is None ==> data_type_spec(attributes) == Outcome::Done(
            DataTypeView { name, in_type: t, length: None },
        ),
        first_value(attributes, "length"@) matches Some(l) ==> data_type_spec(attributes)
            == Outcome::Done(DataTypeView { name, in_type: t, length: Some(l) }),
{
    if in_type_text == in_type_manifest_name(t) {
        lemma_in_type_read_from_its_name(t);
    } else {
        lemma_in_type_aliases_read(in_type_text, t);
    }
}

impl DataType {
    /// Builds a data item from the attributes of its element, or tells that
    /// its in-type is a character type.
    pub fn read(attr: &Vec<Attribute>) -> (r: Result<DataType, Halt>)
        ensures
            halt_view(r, |d: DataType| d@) == data_type_spec(attributes_view(attr@)),
    {
        let name = match find_attribute(attr, "name") {
            Ok(n) => n,
            Err(e) => return Err(Halt::Failed(e)),
        };
        let t = match find_attribute(attr, "inType") {
            Ok(t) => t,
            Err(e) => return Err(Halt::Failed(e)),
        };
        if is_unsupported_in_type(t.as_str()) {
            return Err(Halt::Unsupported);
        }
        let in_type = match WinInType::from_str(t.as_str()) {
            Ok(it) => it,
            Err(e) => {
                let mut d = String::from_str("Encountered unknown in-type: ParseInTypeError(");
                let quoted = debug_string(e.0.as_str());
                d.append(quoted.as_str());
                d.append(")");
                return Err(Halt::Failed(ManifestError::new(ErrorKind::TypeParseError, d)));
            },
        };
        let length = match find_attribute(attr, "length") {
            Ok(l) => Some(l),
            Err(_) => None,
        };
        Ok(DataType { name, in_type, length })
    }

    /// Builds a data item from the attributes of its element.
    pub fn from_attributes(attr: &Vec<Attribute>) -> (r: Result<DataType, ManifestError>)
        requires
            !(data_type_spec(attributes_view(attr@)) is Unsupported),
        ensures
            plain_view(r, |d: DataType| d@) == data_type_spec(attributes_view(attr@)),
    {
        match DataType::read(attr) {
            Ok(d) => Ok(d),
            Err(Halt::Failed(e)) => Err(e),
            Err(Halt::Unsupported) => {
                proof {
                    assert(false);
                }
                Err(ManifestError::new_with_kind(ErrorKind::UnexpectedStructure))
            },
        }
    }
}

/// A event payload template
///
/// Information about payload items, their data types and order.
///
/// [XML Schema Documentation](https://learn.microsoft.com/en-us/windows/win32/wes/eventmanifestschema-templateitemtype-complextype)
#[derive(Debug)]
#[non_exhaustive]
pub struct Template {
    /// Unique identifier of the template
    pub tid: String,
    /// Optional name of the Template
    pub name: Option<String>,
    /// Layout of the data this template describes
    pub data: Vec<DataType>,
}

/// A template as the contracts see it.
pub struct TemplateView {
    pub tid: Seq<char>,
    pub name: Option<Seq<char>>,
    pub data: Seq<DataTypeView>,
}

impl View for Template {
    type V = TemplateView;

    open spec fn view(&self) -> TemplateView {
        TemplateView {
            tid: self.tid@,
            name: match self.name {
                Some(n) => Some(n@),
                None => None,
            },
            data: data_types_view(self.data@),
        }
    }
}

/// The templates of a sequence as the contracts see them.
pub open spec fn templates_view(v: Seq<Template>) -> Seq<TemplateView> {
    v.map_values(|t: Template| t@)
}

/// What reading the rest of a `<template>` element gives, the data items read
/// so far being `acc`: each `<data>` element adds an item; closing tags other
/// than `</template>` are passed over; `</template>` ends the template with
/// its items. Any other element, any other event, or a bad item is an error.
pub open spec fn template_run(s: StreamView, acc: Seq<DataTypeView>) -> (
    Outcome<Seq<DataTypeView>>,
    StreamView,
)
    decreases s.events.len(),
{
    let (event, after) = step(s);
    match event {
        Err(e) => (Outcome::Failed(e), after),
        Ok(EventView::StartElement(name, attributes, _)) => if name != "data"@ {
            (Outcome::Failed(unexpected_tag_view("Expected <data>, found "@ + name)), after)
        } else {
            match data_type_spec(attributes) {
                Outcome::Done(d) => template_run(after, acc.push(d)),
                Outcome::Failed(e) => (Outcome::Failed(e), after),
                Outcome::Unsupported => (Outcome::Unsupported, after),
            }
        },
        Ok(EventView::EndElement(name)) => if name == "template"@ {
            (Outcome::Done(acc), after)
        } else {
            template_run(after, acc)
        },
        Ok(_) => (Outcome::Failed(unexpected_view(None)), after),
    }
}

/// Reading a template never lengthens the stream.
pub proof fn lemma_template_run_shrinks(s: StreamView, acc: Seq<DataTypeView>)
    ensures
        template_run(s, acc).1.events.len() <= s.events.len(),
        template_run(s, acc).1.end == s.end,
    decreases s.events.len(),
{
    let (event, after) = step(s);
    match event {
        Ok(EventView::StartElement(name, attributes, _)) => if name == "data"@ {
            if let Outcome::Done(d) = data_type_spec(attributes) {
                lemma_template_run_shrinks(after, acc.push(d));
            }
        },
        Ok(EventView::EndElement(name)) => if name != "template"@ {
            lemma_template_run_shrinks(after, acc);
        },
        _ => {},
    }
}

/// What reading the rest of a `<templates>` section gives, the templates
/// read so far being `acc`: each `<template>` element, with its `tid` and
/// optional `name`, adds a template read up to its closing tag; closing tags
/// other than `</templates>` are passed over; `</templates>` ends the
/// section. Any other element, any other event, a template without `tid`, or
/// a bad template is an error.
pub open spec fn templates_run(s: StreamView, acc: Seq<TemplateView>) -> (
    Outcome<()>,
    Seq<TemplateView>,
    StreamView,
)
    decreases s.events.len(),
{
    let (event, after) = step(s);
    match event {
        Err(e) => (Outcome::Failed(e), acc, after),
        Ok(EventView::StartElement(name, attributes, _)) => if name != "template"@ {
            (Outcome::Failed(unexpected_tag_view("Expected <template>, found "@ + name)), acc, after)
        } else {
            match find_attribute_spec(attributes, "tid"@) {
                Err(e) => (Outcome::Failed(e), acc, after),
                Ok(tid) => {
                    let t_name = first_value(attributes, "name"@);
                    let (read, rest) = template_run(after, seq![]);
                    proof {
                        lemma_template_run_shrinks(after, seq![]);
                    }
                    match read {
                        Outcome::Done(data) => templates_run(
                            rest,
                            acc.push(TemplateView { tid, name: t_name, data }),
                        ),
                        Outcome::Failed(e) => (Outcome::Failed(e), acc, rest),
                        Outcome::Unsupported => (Outcome::Unsupported, acc, rest),
                    }
                },
            }
        },
        Ok(EventView::EndElement(name)) => if name == "templates"@ {
            (Outcome::Done(()), acc, after)
        } else {
            templates_run(after, acc)
        },
        Ok(_) => (Outcome::Failed(unexpected_view(None)), acc, after),
    }
}

/// Reading a `<templates>` section never lengthens the stream.
pub proof fn lemma_templates_run_shrinks(s: StreamView, acc: Seq<TemplateView>)
    ensures
        templates_run(s, acc).2.events.len() <= s.events.len(),
        templates_run(s, acc).2.end == s.end,
    decreases s.events.len(),
{
    let (event, after) = step(s);
    match event {
        Ok(EventView::StartElement(name, attributes, _)) => if name == "template"@ {
            if let Ok(tid) = find_attribute_spec(attributes, "tid"@) {
                let t_name = first_value(attributes, "name"@);
                lemma_template_run_shrinks(after, seq![]);
                let (read, rest) = template_run(after, seq![]);
                if let Outcome::Done(data) = read {
                    lemma_templates_run_shrinks(rest, acc.push(TemplateView { tid, name: t_name, data }));
                }
            }
        },
        Ok(EventView::EndElement(name)) => if name != "templates"@ {
            lemma_templates_run_shrinks(after, acc);
        },
        _ => {},
    }
}

/// A template body of well-formed `<data>` elements closed by `</template>`
/// reads as exactly its items, in order, after those read before; the
/// stream is left right after the closing tag.
pub proof fn lemma_template_items(
    items: Seq<Seq<(Seq<char>, Seq<char>)>>,
    rest: Seq<EventView>,
    end: StreamEnd,
    ns: Seq<(Seq<char>, Seq<char>)>,
    acc: Seq<DataTypeView>,
)
    requires
        forall|i: int| 0 <= i < items.len() ==> #[trigger] data_type_spec(items[i]) is Done,
    ensures
        template_run(
            StreamView {
                events: element_events("data"@, items, ns) + seq![EventView::EndElement("template"@)] + rest,
                end,
            },
            acc,
        ) == (
            Outcome::Done(acc + items.map_values(|a: Seq<(Seq<char>, Seq<char>)>| data_type_spec(a)->Done_0)),
            StreamView { events: rest, end },
        ),
    decreases items.len(),
{
    reveal_strlit("data");
    reveal_strlit("template");
    let s = StreamView {
        events: element_events("data"@, items, ns) + seq![EventView::EndElement("template"@)] + rest,
        end,
    };
    let mapped = items.map_values(|a: Seq<(Seq<char>, Seq<char>)>| data_type_spec(a)->Done_0);
    if items.len() == 0 {
        assert(s.events =~= seq![EventView::EndElement("template"@)] + rest);
        assert(s.rest().events =~= rest);
        assert(s.rest() == StreamView { events: rest, end });
        assert(acc + mapped =~= acc);
    } else {
        let tail = items.drop_first();
        let later = StreamView {
            events: element_events("data"@, tail, ns) + seq![EventView::EndElement("template"@)] + rest,
            end,
        };
        assert(s.events[0] == EventView::StartElement("data"@, items[0], ns));
        assert(s.rest().events[0] == EventView::EndElement("data"@));
        assert(s.rest().rest().events =~= later.events);
        assert(data_type_spec(items[0]) is Done);
        let item = data_type_spec(items[0])->Done_0;
        assert forall|i: int| 0 <= i < tail.len() implies #[trigger] data_type_spec(tail[i]) is Done by {
            assert(tail[i] == items[i + 1]);
        }
        assert("data"@.len() == 4 && "template"@.len() == 8);
        assert(s.rest().rest() == later);
        assert(template_run(s, acc) == template_run(s.rest(), acc.push(item)));
        assert(template_run(s.rest(), acc.push(item)) == template_run(later, acc.push(item)));
        lemma_template_items(tail, rest, end, ns, acc.push(item));
        assert(acc.push(item) + tail.map_values(|a: Seq<(Seq<char>, Seq<char>)>| data_type_spec(a)->Done_0)
            =~= acc + mapped);
    }
}

/// The events of a run of `<template>` elements, each given by its
/// attributes and the attribute lists of its `<data>` elements.
pub open spec fn template_elements(
    templates: Seq<(Seq<(Seq<char>, Seq<char>)>, Seq<Seq<(Seq<char>, Seq<char>)>>)>,
    ns: Seq<(Seq<char>, Seq<char>)>,
) -> Seq<EventView>
    decreases templates.len(),
{
    if templates.len() == 0 {
        seq![]
    } else {
        seq![EventView::StartElement("template"@, templates[0].0, ns)] + element_events(
            "data"@,
            templates[0].1, ns
        ) + seq![EventView::EndElement("template"@)] + template_elements(templates.drop_first(), ns)
    }
}

/// A `<template>` element whose `tid` is present and whose data items are
/// all well-formed.
pub open spec fn is_good_template(t: (Seq<(Seq<char>, Seq<char>)>, Seq<Seq<(Seq<char>, Seq<char>)>>)) -> bool {
    &&& find_attribute_spec(t.0, "tid"@) is Ok
    &&& forall|j: int| 0 <= j < t.1.len() ==> #[trigger] data_type_spec(t.1[j]) is Done
}

/// The template that a well-formed `<template>` element reads as.
pub open spec fn template_of(t: (Seq<(Seq<char>, Seq<char>)>, Seq<Seq<(Seq<char>, Seq<char>)>>)) -> TemplateView {
    TemplateView {
        tid: find_attribute_spec(t.0, "tid"@)->Ok_0,
        name: first_value(t.0, "name"@),
        data: t.1.map_values(|a: Seq<(Seq<char>, Seq<char>)>| data_type_spec(a)->Done_0),
    }
}

/// A section of well-formed `<template>` elements closed by `</templates>`
/// reads as exactly its templates, in order, after those read before; the
/// stream is left right after the closing tag.
pub proof fn lemma_templates_section(
    templates: Seq<(Seq<(Seq<char>, Seq<char>)>, Seq<Seq<(Seq<char>, Seq<char>)>>)>,
    rest: Seq<EventView>,
    end: StreamEnd,
    ns: Seq<(Seq<char>, Seq<char>)>,
    acc: Seq<TemplateView>,
)
    requires
        forall|i: int| 0 <= i < templates.len() ==> #[trigger] is_good_template(templates[i]),
    ensures
        templates_run(
            StreamView {
                events: template_elements(templates, ns) + seq![EventView::EndElement("templates"@)] + rest,
                end,
            },
            acc,
        ) == (
            Outcome::<()>::Done(()),
            acc + templates.map_values(
                |t: (Seq<(Seq<char>, Seq<char>)>, Seq<Seq<(Seq<char>, Seq<char>)>>)| template_of(t),
            ),
            StreamView { events: rest, end },
        ),
    decreases templates.len(),
{
    reveal_strlit("template");
    reveal_strlit("templates");
    let s = StreamView {
        events: template_elements(templates, ns) + seq![EventView::EndElement("templates"@)] + rest,
        end,
    };
    let mapped = templates.map_values(
        |t: (Seq<(Seq<char>, Seq<char>)>, Seq<Seq<(Seq<char>, Seq<char>)>>)| template_of(t),
    );
    if templates.len() == 0 {
        assert(s.events =~= seq![EventView::EndElement("templates"@)] + rest);
        assert(s.rest().events =~= rest);
        assert(s.rest() == StreamView { events: rest, end });
        assert(acc + mapped =~= acc);
    } else {
        let first = templates[0];
        let tail = templates.drop_first();
        assert(is_good_template(first));
        let later_events = template_elements(tail, ns) + seq![EventView::EndElement("templates"@)] + rest;
        let later = StreamView { events: later_events, end };
        assert(s.events[0] == EventView::StartElement("template"@, first.0, ns));
        let body = StreamView {
            events: element_events("data"@, first.1, ns) + seq![EventView::EndElement("template"@)]
                + later_events,
            end,
        };
        assert(s.rest().events =~= body.events);
        assert(s.rest() == body);
        lemma_template_items(first.1, later_events, end, ns, seq![]);
        assert(seq![] + first.1.map_values(|a: Seq<(Seq<char>, Seq<char>)>| data_type_spec(a)->Done_0)
            =~= template_of(first).data);
        assert(templates_run(s, acc) == templates_run(later, acc.push(template_of(first))));
        assert forall|i: int| 0 <= i < tail.len() implies #[trigger] is_good_template(tail[i]) by {
            assert(tail[i] == templates[i + 1]);
        }
        lemma_templates_section(tail, rest, end, ns, acc.push(template_of(first)));
        assert(acc.push(template_of(first)) + tail.map_values(
            |t: (Seq<(Seq<char>, Seq<char>)>, Seq<Seq<(Seq<char>, Seq<char>)>>)| template_of(t),
        ) =~= acc + mapped);
    }
}

impl Template {
    /// Reads the data items of a template, whose opening tag has been read,
    /// up to and including its closing tag, or tells that an item has a
    /// character in-type.
    pub fn read(r: &mut EventStream, tid: String, t_name: Option<String>) -> (res: Result<Template, Halt>)
        ensures
            final(r)@ == template_run(old(r)@, seq![]).1,
            halt_view(res, |t: Template| t.data@.map_values(|d: DataType| d@)) == template_run(
                old(r)@,
                seq![],
            ).0,
            res matches Ok(t) ==> t.tid == tid && t.name == t_name,
    {
        let mut data: Vec<DataType> = Vec::new();
        assert(data_types_view(data@) =~= seq![]);
        loop
            invariant
                template_run(r@, data_types_view(data@)) == template_run(old(r)@, seq![]),
            decreases r@.events.len(),
        {
            let ghost before = data@;
            let event = match r.next() {
                Ok(e) => e,
                Err(e) => return Err(Halt::Failed(e)),
            };
            match event {
                XmlEvent::StartElement { name, attributes, .. } => {
                    if !text_eq(name.as_str(), "data") {
                        let mut d = String::from_str("Expected <data>, found ");
                        d.append(name.as_str());
                        return Err(Halt::Failed(ManifestError::new_unexpected_tag(d)));
                    }
                    let item = DataType::read(&attributes)?;
                    data.push(item);
                    assert(data_types_view(data@) =~= data_types_view(before).push(item@));
                },
                XmlEvent::EndElement { name } => {
                    if text_eq(name.as_str(), "template") {
                        let t = Template { tid, name: t_name, data };
                        assert(t.data@.map_values(|d: DataType| d@) =~= data_types_view(t.data@));
                        return Ok(t);
                    }
                },
                _ => return Err(Halt::Failed(ManifestError::new_unexpected(None))),
            }
        }
    }

    /// Reads the data items of a template, whose opening tag has been read,
    /// up to and including its closing tag.
    pub fn parse(r: &mut EventStream, tid: String, t_name: Option<String>) -> (res: Result<Template, ManifestError>)
        requires
            !(template_run(old(r)@, seq![]).0 is Unsupported),
        ensures
            final(r)@ == template_run(old(r)@, seq![]).1,
            plain_view(res, |t: Template| t.data@.map_values(|d: DataType| d@)) == template_run(
                old(r)@,
                seq![],
            ).0,
            res matches Ok(t) ==> t.tid == tid && t.name == t_name,
    {
        match Template::read(r, tid, t_name) {
            Ok(t) => Ok(t),
            Err(Halt::Failed(e)) => Err(e),
            Err(Halt::Unsupported) => {
                proof {
                    assert(false);
                }
                Err(ManifestError::new_with_kind(ErrorKind::UnexpectedStructure))
            },
        }
    }

    /// Reads the templates of a `<templates>` section, whose opening tag has
    /// been read, into `vec`, up to and including the closing tag, or tells
    /// that an item has a character in-type.
    pub fn read_templates(r: &mut EventStream, vec: &mut Vec<Template>) -> (res: Result<(), Halt>)
        ensures
            (halt_view(res, |u: ()| u), templates_view(final(vec)@), final(r)@) == templates_run(
                old(r)@,
                templates_view(old(vec)@),
            ),
    {
        loop
            invariant
                templates_run(r@, templates_view(vec@)) == templates_run(
                    old(r)@,
                    templates_view(old(vec)@),
                ),
            decreases r@.events.len(),
        {
            let ghost before = vec@;
            let ghost after_next = step(r@).1;
            let event = match r.next() {
                Ok(e) => e,
                Err(e) => return Err(Halt::Failed(e)),
            };
            match event {
                XmlEvent::StartElement { name, attributes, .. } => {
                    if !text_eq(name.as_str(), "template") {
                        let mut d = String::from_str("Expected <template>, found ");
                        d.append(name.as_str());
                        return Err(Halt::Failed(ManifestError::new_unexpected_tag(d)));
                    }
                    let tid = match find_attribute(&attributes, "tid") {
                        Ok(t) => t,
                        Err(e) => return Err(Halt::Failed(e)),
                    };
                    let t_name = match find_attribute(&attributes, "name") {
                        Ok(n) => Some(n),
                        Err(_) => None,
                    };
                    proof {
                        lemma_template_run_shrinks(after_next, seq![]);
                    }
                    let t = Template::read(r, tid, t_name)?;
                    vec.push(t);
                    assert(templates_view(vec@) =~= templates_view(before).push(t@));
                },
                XmlEvent::EndElement { name } => {
                    if text_eq(name.as_str(), "templates") {
                        return Ok(());
                    }
                },
                _ => return Err(Halt::Failed(ManifestError::new_unexpected(None))),
            }
        }
    }

    /// Reads the templates of a `<templates>` section, whose opening tag has
    /// been read, into `vec`, up to and including the closing tag.
    pub fn parse_templates(r: &mut EventStream, vec: &mut Vec<Template>) -> (res: Result<(), ManifestError>)
        requires
            !(templates_run(old(r)@, templates_view(old(vec)@)).0 is Unsupported),
        ensures
            (plain_view(res, |u: ()| u), templates_view(final(vec)@), final(r)@) == templates_run(
                old(r)@,
                templates_view(old(vec)@),
            ),
    {
        match Template::read_templates(r, vec) {
            Ok(()) => Ok(()),
            Err(Halt::Failed(e)) => Err(e),
            Err(Halt::Unsupported) => {
                proof {
                    assert(false);
                }
                Err(ManifestError::new_with_kind(ErrorKind::UnexpectedStructure))
            },
        }
    }
}

/// The characters that function names drop: space, `.`, `:`, `/`, `(` and `)`.
pub open spec fn is_name_mark(c: char) -> bool {
    c == ' ' || c == '.' || c == ':' || c == '/' || c == '(' || c == ')'
}

/// Whether `c` is an ASCII character.
pub open spec fn is_ascii_char(c: char) -> bool {
    (c as u32) < 128
}

/// Whether every character of `s` is ASCII.
pub open spec fn all_ascii(s: Seq<char>) -> bool {
    forall|k: int| 0 <= k < s.len() ==> #[trigger] is_ascii_char(s[k])
}

/// What the character at `k` becomes in a function name: an upper case
/// letter turns into its lower case, after an `_` unless it is the first
/// character or follows an `_`; the marks are dropped; anything else stays.
pub open spec fn name_piece(s: Seq<char>, k: int) -> Seq<char> {
    let c = s[k];
    if 'A' <= c <= 'Z' {
        if k > 0 && s[k - 1] != '_' {
            seq!['_', ascii_lower(c)]
        } else {
            seq![ascii_lower(c)]
        }
    } else if is_name_mark(c) {
        seq![]
    } else {
        seq![c]
    }
}

/// The function name made of the first `n` characters of `s`.
pub open spec fn function_name_prefix(s: Seq<char>, n: nat) -> Seq<char>
    decreases n,
{
    if n == 0 {
        seq![]
    } else {
        function_name_prefix(s, (n - 1) as nat) + name_piece(s, n - 1)
    }
}

/// The snake-case function name that `s` is turned into.
pub open spec fn function_name_of(s: Seq<char>) -> Seq<char> {
    function_name_prefix(s, s.len())
}

/// The texts on which the conversion runs to its end: every upper case
/// character is ASCII, and every ASCII upper case letter but the first
/// character follows an ASCII character.
pub open spec fn function_name_safe(s: Seq<char>) -> bool {
    &&& forall|k: int| 0 <= k < s.len() && !is_ascii_char(s[k]) ==> !char_uppercase(#[trigger] s[k])
    &&& forall|k: int| 0 < k < s.len() && 'A' <= #[trigger] s[k] <= 'Z' ==> is_ascii_char(s[k - 1])
}

/// The function name of the first `n` characters of `s` is that of the
/// text cut after them.
proof fn lemma_function_name_prefix_is_cut(s: Seq<char>, n: nat)
    requires
        n <= s.len(),
    ensures
        function_name_prefix(s, n) == function_name_of(s.take(n as int)),
{
    lemma_function_name_prefix_agrees(s, s.take(n as int), n);
}

proof fn lemma_function_name_prefix_agrees(s: Seq<char>, t: Seq<char>, m: nat)
    requires
        m <= s.len(),
        m <= t.len(),
        forall|i: int| 0 <= i < m ==> s[i] == t[i],
    ensures
        function_name_prefix(s, m) == function_name_prefix(t, m),
    decreases m,
{
    if m > 0 {
        lemma_function_name_prefix_agrees(s, t, (m - 1) as nat);
        assert(name_piece(s, m - 1) == name_piece(t, m - 1));
    }
}

/// The function name of a text starts with the function name of each of its
/// beginnings.
proof fn lemma_function_name_prefix_grows(s: Seq<char>, m: nat, n: nat)
    requires
        m <= n <= s.len(),
    ensures
        function_name_prefix(s, m).len() <= function_name_prefix(s, n).len(),
        function_name_prefix(s, n).take(function_name_prefix(s, m).len() as int) == function_name_prefix(s, m),
    decreases n,
{
    if m < n {
        lemma_function_name_prefix_grows(s, m, (n - 1) as nat);
        let a = function_name_prefix(s, m);
        let b = function_name_prefix(s, (n - 1) as nat);
        assert((b + name_piece(s, n - 1)).take(a.len() as int) =~= b.take(a.len() as int));
    } else {
        assert(function_name_prefix(s, n).take(function_name_prefix(s, m).len() as int) =~= function_name_prefix(s, n));
    }
}

/// How each character of a name shows in its function name, read from the
/// start: an ASCII capital that is not first and does not follow `_` gives
/// `_` and its lower case letter; a capital that is first or follows `_`
/// gives its lower case letter alone; space, `.`, `:`, `/`, `(` and `)` give
/// nothing; every other character gives itself.
pub proof fn lemma_function_name_by_character(s: Seq<char>, k: int)
    requires
        0 <= k < s.len(),
    ensures
        'A' <= s[k] <= 'Z' && k > 0 && s[k - 1] != '_' ==> function_name_of(s.take(k + 1))
            == function_name_of(s.take(k)) + seq!['_', (s[k] as int + 32) as char],
        'A' <= s[k] <= 'Z' && (k == 0 || s[k - 1] == '_') ==> function_name_of(s.take(k + 1))
            == function_name_of(s.take(k)).push((s[k] as int + 32) as char),
        s[k] == ' ' || s[k] == '.' || s[k] == ':' || s[k] == '/' || s[k] == '(' || s[k] == ')'
            ==> function_name_of(s.take(k + 1)) == function_name_of(s.take(k)),
        !('A' <= s[k] <= 'Z') && !(s[k] == ' ' || s[k] == '.' || s[k] == ':' || s[k] == '/' || s[k]
            == '(' || s[k] == ')') ==> function_name_of(s.take(k + 1)) == function_name_of(
            s.take(k),
        ).push(s[k]),
{
    lemma_function_name_prefix_is_cut(s, (k + 1) as nat);
    lemma_function_name_prefix_is_cut(s, k as nat);
    assert(function_name_prefix(s, (k + 1) as nat) == function_name_prefix(s, k as nat) + name_piece(s, k));
    let p = function_name_prefix(s, k as nat);
    assert(p + seq![s[k]] =~= p.push(s[k]));
    assert(p + seq![ascii_lower(s[k])] =~= p.push(ascii_lower(s[k])));
    assert(p + seq![] =~= p);
}

/// Every ASCII capital that is not first and does not follow `_` shows in
/// the whole function name as `_` followed by its lower case letter, right
/// after the function name of the characters before it.
pub proof fn lemma_function_name_marks_capitals(s: Seq<char>, k: int)
    requires
        0 < k < s.len(),
        'A' <= s[k] <= 'Z',
        s[k - 1] != '_',
    ensures
        ({
            let at = function_name_of(s.take(k)).len() as int;
            &&& at + 2 <= function_name_of(s).len()
            &&& function_name_of(s)[at] == '_'
            &&& function_name_of(s)[at + 1] == (s[k] as int + 32) as char
        }),
{
    lemma_function_name_by_character(s, k);
    lemma_function_name_prefix_is_cut(s, (k + 1) as nat);
    lemma_function_name_prefix_is_cut(s, k as nat);
    lemma_function_name_prefix_grows(s, (k + 1) as nat, s.len());
    let whole = function_name_of(s);
    let before = function_name_of(s.take(k));
    let upto = function_name_of(s.take(k + 1));
    assert(upto == before + seq!['_', (s[k] as int + 32) as char]);
    assert(whole.take(upto.len() as int) == upto);
    assert(whole[before.len() as int] == whole.take(upto.len() as int)[before.len() as int]);
    assert(whole[before.len() as int + 1] == whole.take(upto.len() as int)[before.len() as int + 1]);
}

/// Turns a name written in camel case into a snake-case function name, in
/// place: `somethingThatsNotConvention` becomes
/// `something_thats_not_convention`.
pub fn make_function_name(value: &mut String)
    requires
        function_name_safe(old(value)@),
    ensures
        final(value)@ == function_name_of(old(value)@),
{
    let ghost s = value@;
    let mut out = String::new();
    let src = value.as_str();
    let n = src.unicode_len();
    let mut i: usize = 0;
    while i < n
        invariant
            n == s.len(),
            src@ == s,
            i <= n,
            function_name_safe(s),
            out@ == function_name_prefix(s, i as nat),
        decreases n - i,
    {
        let c = src.get_char(i);
        let ghost prefix = out@;
        if is_uppercase(c) {
            assert('A' <= c <= 'Z') by {
                if !is_ascii_char(c) {
                    assert(!char_uppercase(s[i as int]));
                }
            }
            if i > 0 && src.get_char(i - 1) != '_' {
                push_char(&mut out, '_');
            }
            push_char(&mut out, to_ascii_lower(c));
        } else {
            assert(!('A' <= c <= 'Z'));
            if !(c == ' ' || c == '.' || c == ':' || c == '/' || c == '(' || c == ')') {
                push_char(&mut out, c);
            }
        }
        assert(out@ =~= prefix + name_piece(s, i as int));
        i = i + 1;
    }
    *value = out;
}

/// An ASCII text is one that the conversion accepts.
pub proof fn lemma_ascii_is_safe(s: Seq<char>)
    requires
        all_ascii(s),
    ensures
        function_name_safe(s),
{
    assert forall|k: int| 0 < k < s.len() && 'A' <= #[trigger] s[k] <= 'Z' implies is_ascii_char(
        s[k - 1],
    ) by {
        assert(is_ascii_char(s[k - 1]));
    }
}

/// Every character of a prefix of a function name comes from the text: it is
/// an `_`, an ASCII lower case letter made from an upper case one, or a
/// character of the text that is neither an upper case letter nor a mark.
proof fn lemma_function_name_chars(s: Seq<char>, n: nat)
    requires
        n <= s.len(),
    ensures
        forall|j: int| 0 <= j < function_name_prefix(s, n).len() ==> {
            let c = #[trigger] function_name_prefix(s, n)[j];
            ||| c == '_'
            ||| 'a' <= c <= 'z'
            ||| (exists|k: int| 0 <= k < n && s[k] == c) && !('A' <= c <= 'Z') && !is_name_mark(c)
        },
    decreases n,
{
    if n > 0 {
        lemma_function_name_chars(s, (n - 1) as nat);
        let p = function_name_prefix(s, (n - 1) as nat);
        let q = name_piece(s, n - 1);
        assert forall|j: int| 0 <= j < function_name_prefix(s, n).len() implies {
            let c = #[trigger] function_name_prefix(s, n)[j];
            ||| c == '_'
            ||| 'a' <= c <= 'z'
            ||| (exists|k: int| 0 <= k < n && s[k] == c) && !('A' <= c <= 'Z') && !is_name_mark(c)
        } by {
            let c = function_name_prefix(s, n)[j];
            if j < p.len() {
                assert(c == p[j]);
            } else {
                assert(c == q[j - p.len()]);
                if !('A' <= s[n - 1] <= 'Z') && !is_name_mark(s[n - 1]) {
                    assert(c == s[n - 1]);
                }
            }
        }
    }
}

/// A text without upper case letters or marks is its own function name.
proof fn lemma_plain_name_is_fixed(s: Seq<char>, n: nat)
    requires
        n <= s.len(),
        forall|k: int| 0 <= k < s.len() ==> !('A' <= #[trigger] s[k] <= 'Z') && !is_name_mark(s[k]),
    ensures
        function_name_prefix(s, n) =~= s.take(n as int),
    decreases n,
{
    if n > 0 {
        lemma_plain_name_is_fixed(s, (n - 1) as nat);
        assert(s.take(n as int) =~= s.take(n - 1) + seq![s[n - 1]]);
    }
}

/// A function name holds no ASCII upper case letter and none of the marks
/// that the conversion drops; every character that is not ASCII comes from
/// the text.
pub proof fn lemma_function_name_plain(s: Seq<char>)
    ensures
        forall|k: int|
            0 <= k < function_name_of(s).len() ==> !('A' <= #[trigger] function_name_of(s)[k] <= 'Z')
                && !is_name_mark(function_name_of(s)[k]),
        forall|k: int|
            0 <= k < function_name_of(s).len() && !is_ascii_char(#[trigger] function_name_of(s)[k])
                ==> exists|i: int| 0 <= i < s.len() && s[i] == function_name_of(s)[k],
{
    let t = function_name_of(s);
    lemma_function_name_chars(s, s.len());
    assert forall|k: int| 0 <= k < t.len() implies !('A' <= #[trigger] t[k] <= 'Z') && !is_name_mark(
        t[k],
    ) by {
        assert(t[k] == function_name_prefix(s, s.len())[k]);
    }
    assert forall|k: int| 0 <= k < t.len() && !is_ascii_char(#[trigger] t[k]) implies exists|i: int|
        0 <= i < s.len() && s[i] == t[k] by {
        assert(t[k] == function_name_prefix(s, s.len())[k]);
    }
}

/// Making a function name of a function name changes nothing: the result is
/// again a text the conversion accepts, and the conversion leaves it as it
/// is.
pub proof fn lemma_function_name_idempotent(s: Seq<char>)
    requires
        function_name_safe(s),
    ensures
        function_name_safe(function_name_of(s)),
        function_name_of(function_name_of(s)) == function_name_of(s),
{
    let t = function_name_of(s);
    lemma_function_name_plain(s);
    assert forall|k: int| 0 <= k < t.len() && !is_ascii_char(t[k]) implies !char_uppercase(
        #[trigger] t[k],
    ) by {
        let i = choose|i: int| 0 <= i < s.len() && s[i] == t[k];
        assert(!is_ascii_char(s[i]));
    }
    assert forall|k: int| 0 <= k < t.len() implies !('A' <= #[trigger] t[k] <= 'Z') && !is_name_mark(
        t[k],
    ) by {}
    lemma_plain_name_is_fixed(t, t.len());
    assert(t.take(t.len() as int) =~= t);
}

/// The name of the function generated for a payload template:
/// `parse_payload_` and the template id made a function name.
pub fn payload_function_name(id: &String) -> (r: String)
    requires
        all_ascii(id@),
    ensures
        r@ == "parse_payload_"@ + function_name_of(id@),
{
    proof {
        lemma_ascii_is_safe(id@);
    }
    let mut name = id.clone();
    make_function_name(&mut name);
    let mut r = String::from_str("parse_payload_");
    r.append(name.as_str());
    r
}

impl Template {
    /// The name of the function generated for this template; the template
    /// id must be ASCII.
    pub fn function_name(&self) -> (r: String)
        requires
            all_ascii(self.tid@),
        ensures
            r@ == "parse_payload_"@ + function_name_of(self.tid@),
    {
        payload_function_name(&self.tid)
    }
}

} // verus!
