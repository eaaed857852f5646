//! Reading attributes and matching opening and closing tags.

use vstd::prelude::*;
use vstd::string::*;
use crate::error::{
    ErrorKind, ErrorView, ManifestError, error_view, unexpected_tag_view, unexpected_view,
};
use crate::text::text_eq;
use crate::xml_stream::{Attribute, EventStream, EventView, StreamView, XmlEvent, attributes_view, namespace_view, step};

verus! {

/// The value of the first attribute named `name`, if there is one.
pub open spec fn first_value(attributes: Seq<(Seq<char>, Seq<char>)>, name: Seq<char>) -> Option<Seq<char>>
    decreases attributes.len(),
{
    if attributes.len() == 0 {
        None
    } else if attributes[0].0 == name {
        Some(attributes[0].1)
    } else {
        first_value(attributes.drop_first(), name)
    }
}

/// What looking up an attribute gives: the value of the first attribute of
/// that name, else a `MissingAttribute` error naming it.
pub open spec fn find_attribute_spec(attributes: Seq<(Seq<char>, Seq<char>)>, name: Seq<char>) -> Result<
    Seq<char>,
    ErrorView,
> {
    match first_value(attributes, name) {
        Some(v) => Ok(v),
        None => Err(error_view(ErrorKind::MissingAttribute, Some("Missing attribute "@ + name))),
    }
}

/// Looks up the value of the attribute `name`.
pub fn find_attribute(attributes: &Vec<Attribute>, name: &str) -> (r: Result<String, ManifestError>)
    ensures
        match r {
            Ok(v) => find_attribute_spec(attributes_view(attributes@), name@) == Ok::<
                Seq<char>,
                ErrorView,
            >(v@),
            Err(e) => find_attribute_spec(attributes_view(attributes@), name@) == Err::<
                Seq<char>,
                ErrorView,
            >(e@),
        },
{
    let ghost all = attributes_view(attributes@);
    let n = attributes.len();
    let mut i: usize = 0;
    assert(all.skip(0) =~= all);
    while i < n
        invariant
            n == attributes@.len(),
            all == attributes_view(attributes@),
            i <= n,
            first_value(all, name@) == first_value(all.skip(i as int), name@),
        decreases n - i,
    {
        let a = &attributes[i];
        assert(all.skip(i as int)[0] == all[i as int]);
        assert(all.skip(i as int).drop_first() =~= all.skip(i + 1));
        if text_eq(a.name.as_str(), name) {
            return Ok(a.value.clone());
        }
        i = i + 1;
    }
    assert(all.skip(n as int).len() == 0);
    let mut d = String::from_str("Missing attribute ");
    d.append(name);
    Err(ManifestError::new(ErrorKind::MissingAttribute, d))
}

/// What reading an opening tag named `tag` gives: its attributes and the
/// namespace mappings in scope; an `UnexpectedTag` error if another element
/// opens, an unexpected structure if the next event is no opening tag at
/// all, or the reader's error.
pub open spec fn match_start_run(s: StreamView, tag: Seq<char>) -> (
    Result<(Seq<(Seq<char>, Seq<char>)>, Seq<(Seq<char>, Seq<char>)>), ErrorView>,
    StreamView,
) {
    let (event, after) = step(s);
    match event {
        Err(e) => (Err(e), after),
        Ok(EventView::StartElement(name, attributes, namespace)) => if name != tag {
            (Err(unexpected_tag_view("Expected "@ + tag + ", found "@ + name)), after)
        } else {
            (Ok((attributes, namespace)), after)
        },
        Ok(_) => (Err(unexpected_view(None)), after),
    }
}

/// What reading a closing tag named `tag` gives: nothing; an `UnexpectedTag`
/// error naming the element if another element closes, an unexpected
/// structure if the next event is no closing tag, or the reader's error.
pub open spec fn match_end_run(s: StreamView, tag: Seq<char>) -> (Result<(), ErrorView>, StreamView) {
    let (event, after) = step(s);
    match event {
        Err(e) => (Err(e), after),
        Ok(EventView::EndElement(name)) => if name != tag {
            (Err(unexpected_tag_view(name)), after)
        } else {
            (Ok(()), after)
        },
        Ok(_) => (Err(unexpected_view(None)), after),
    }
}

/// The view of a result that carries attributes and namespace mappings.
pub open spec fn start_result_view(r: Result<(Vec<Attribute>, Vec<(String, String)>), ManifestError>) -> Result<
    (Seq<(Seq<char>, Seq<char>)>, Seq<(Seq<char>, Seq<char>)>),
    ErrorView,
> {
    match r {
        Ok((a, n)) => Ok((attributes_view(a@), namespace_view(n@))),
        Err(e) => Err(e@),
    }
}

/// Reads the opening tag of the element `tag` and hands back its attributes
/// and the namespace mappings in scope. An error of the XML reader carries
/// the reader's own error as its source; the other errors carry none.
pub fn xml_match_start(r: &mut EventStream, tag: &str) -> (res: Result<
    (Vec<Attribute>, Vec<(String, String)>),
    ManifestError,
>)
    ensures
        (start_result_view(res), final(r)@) == match_start_run(old(r)@, tag@),
        res matches Err(e) ==> e.source == if e.kind == ErrorKind::Xml {
            old(r).reader_failure()
        } else {
            None
        },
{
    let event = match r.next() {
        Ok(event) => event,
        Err(e) => return Err(e),
    };
    match event {
        XmlEvent::StartElement { name, attributes, namespace } => {
            if !text_eq(name.as_str(), tag) {
                let mut d = String::from_str("Expected ");
                d.append(tag);
                d.append(", found ");
                d.append(name.as_str());
                Err(ManifestError::new_unexpected_tag(d))
            } else {
                Ok((attributes, namespace))
            }
        },
        _ => Err(ManifestError::new_unexpected(None)),
    }
}

/// Reads the closing tag of the element `tag`. An error of the XML reader
/// carries the reader's own error as its source; the other errors carry none.
pub fn xml_match_end(r: &mut EventStream, tag: &str) -> (res: Result<(), ManifestError>)
    ensures
        (crate::xml_stream::unit_result_view(res), final(r)@) == match_end_run(old(r)@, tag@),
        res matches Err(e) ==> e.source == if e.kind == ErrorKind::Xml {
            old(r).reader_failure()
        } else {
            None
        },
{
    let event = match r.next() {
        Ok(event) => event,
        Err(e) => return Err(e),
    };
    match event {
        XmlEvent::EndElement { name } => {
            if !text_eq(name.as_str(), tag) {
                Err(ManifestError::new_unexpected_tag(name))
            } else {
                Ok(())
            }
        },
        _ => Err(ManifestError::new_unexpected(None)),
    }
}

} // verus!
