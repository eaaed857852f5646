//! Types of the XML reader that the parsers carry.

use vstd::prelude::*;

verus! {

/// The XML reader's error type, carried opaquely as the source of an error.
#[verifier::external_type_specification]
#[verifier::external_body]
pub struct ExXmlReaderError(xml::reader::Error);

} // verus!
