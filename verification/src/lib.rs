//! Parser for Windows instrumentation (ETW provider) manifests.
//!
//! The manifest is read as a stream of XML events; the structures of a
//! provider (keywords, tasks, events and payload templates) are built from
//! that stream by the parsers of this crate, each with a contract over the
//! events it consumes.

pub mod text;
mod reader_types;
pub mod error;
pub mod xml_stream;
pub mod reading;
pub mod keyword;
pub mod task;
pub mod event;
pub mod template;
pub mod provider;
pub mod manifest;

pub use error::{ErrorKind, ManifestError};
pub use event::Event;
pub use keyword::Keyword;
pub use manifest::{parse, parse_stream, try_parse};
pub use provider::Provider;
pub use reading::{find_attribute, xml_match_end, xml_match_start};
pub use task::Task;
pub use template::{make_function_name, DataType, ParseInTypeError, Template, WinInType};
pub use xml_stream::{Attribute, EventStream, XmlEvent};
