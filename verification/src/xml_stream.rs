//! The XML document as the parsers read it: a stream of events.
//!
//! The document is tokenized by the XML reader; the stream then hands out its
//! events one at a time. Once the events are used up the stream keeps
//! answering with the reader's final word: the reader's error if tokenizing
//! failed, else the end of the document. Every error of the reader that the
//! stream hands out carries the reader's own error as its source.

use vstd::prelude::*;
use vstd::string::*;
use crate::error::{ErrorKind, ErrorView, ManifestError, error_view, xml_error_view};
use xml::reader::Error as XmlReaderError;
use xml::reader::XmlEvent::{
    EndDocument as RawEnd, EndElement as RawClose, StartDocument as RawStart, StartElement as RawOpen,
};
use xml::{EventReader, ParserConfig};

verus! {

/// An attribute of an element: its local name and its value.
#[derive(Debug)]
pub struct Attribute {
    pub name: String,
    pub value: String,
}

/// An event of the XML reader, with what the manifest parsers read of it.
#[derive(Debug)]
pub enum XmlEvent {
    /// The start of the document.
    StartDocument,
    /// The end of the document.
    EndDocument,
    /// An opening tag: the element's local name, its attributes, and the
    /// namespace mappings in scope there as (prefix, URI) pairs in prefix
    /// order.
    StartElement { name: String, attributes: Vec<Attribute>, namespace: Vec<(String, String)> },
    /// A closing tag: the element's local name.
    EndElement { name: String },
    /// Any other event: text, CDATA, a processing instruction.
    Other,
}

/// An event as the contracts see it.
pub enum EventView {
    StartDocument,
    EndDocument,
    StartElement(Seq<char>, Seq<(Seq<char>, Seq<char>)>, Seq<(Seq<char>, Seq<char>)>),
    EndElement(Seq<char>),
    Other,
}

/// The namespace mappings of an element as (prefix, URI) pairs.
pub open spec fn namespace_view(namespace: Seq<(String, String)>) -> Seq<(Seq<char>, Seq<char>)> {
    namespace.map_values(|m: (String, String)| (m.0@, m.1@))
}

/// The attributes of an element as (local name, value) pairs.
pub open spec fn attributes_view(attributes: Seq<Attribute>) -> Seq<(Seq<char>, Seq<char>)> {
    attributes.map_values(|a: Attribute| (a.name@, a.value@))
}

impl View for XmlEvent {
    type V = EventView;

    open spec fn view(&self) -> EventView {
        match self {
            XmlEvent::StartDocument => EventView::StartDocument,
            XmlEvent::EndDocument => EventView::EndDocument,
            XmlEvent::StartElement { name, attributes, namespace } => EventView::StartElement(
                name@,
                attributes_view(attributes@),
                namespace_view(namespace@),
            ),
            XmlEvent::EndElement { name } => EventView::EndElement(name@),
            XmlEvent::Other => EventView::Other,
        }
    }
}

/// The events of a sequence as the contracts see them.
pub open spec fn events_view(events: Seq<XmlEvent>) -> Seq<EventView> {
    events.map_values(|e: XmlEvent| e@)
}

/// What follows the events of a stream.
pub enum StreamEnd {
    /// The reader failed: its error is handed out.
    Failed,
    /// The document ended; `true` when the reader's error for reading on
    /// past the end (which `skip` meets there) is at hand.
    Ended(bool),
}

/// A stream as the contracts see it: the events still to come and what
/// follows them.
pub struct StreamView {
    pub events: Seq<EventView>,
    pub end: StreamEnd,
}

impl StreamView {
    /// The stream without its first event.
    pub open spec fn rest(self) -> StreamView {
        StreamView { events: self.events.drop_first(), end: self.end }
    }
}

/// What one read of the stream gives, and the stream after it: the next
/// event; once there is none, the reader's error if it failed, else the end
/// of the document, again and again.
pub open spec fn step(s: StreamView) -> (Result<EventView, ErrorView>, StreamView) {
    if s.events.len() > 0 {
        (Ok(s.events[0]), s.rest())
    } else if s.end is Failed {
        (Err(xml_error_view()), s)
    } else {
        (Ok(EventView::EndDocument), s)
    }
}

/// The error for reading on past the end of the document: an XML error,
/// carrying the reader's own error when the stream has it.
pub open spec fn end_of_document_error(end: StreamEnd) -> ErrorView {
    ErrorView { sourced: end == StreamEnd::Ended(true), ..error_view(ErrorKind::Xml, None) }
}

/// What skipping the rest of an element gives, `depth` elements deep: the
/// events up to and including the closing tag that brings the depth to zero
/// are consumed. Reaching the end of the document first is an XML error.
pub open spec fn skip_run(s: StreamView, depth: nat) -> (Result<(), ErrorView>, StreamView)
    decreases s.events.len(),
{
    if s.events.len() == 0 {
        if s.end is Failed {
            (Err(xml_error_view()), s)
        } else {
            (Err(end_of_document_error(s.end)), s)
        }
    } else {
        match s.events[0] {
            EventView::StartElement(_, _, _) => skip_run(s.rest(), depth + 1),
            EventView::EndElement(_) => if depth <= 1 {
                (Ok(()), s.rest())
            } else {
                skip_run(s.rest(), (depth - 1) as nat)
            },
            EventView::EndDocument => (Err(end_of_document_error(s.end)), s.rest()),
            _ => skip_run(s.rest(), depth),
        }
    }
}

/// Skipping never lengthens the stream.
pub proof fn lemma_skip_run_shrinks(s: StreamView, depth: nat)
    ensures
        skip_run(s, depth).1.events.len() <= s.events.len(),
        skip_run(s, depth).1.end == s.end,
    decreases s.events.len(),
{
    if s.events.len() > 0 {
        match s.events[0] {
            EventView::StartElement(_, _, _) => lemma_skip_run_shrinks(s.rest(), depth + 1),
            EventView::EndElement(_) => if depth > 1 {
                lemma_skip_run_shrinks(s.rest(), (depth - 1) as nat)
            },
            EventView::EndDocument => {},
            _ => lemma_skip_run_shrinks(s.rest(), depth),
        }
    }
}

/// Once its events are used up, a stream keeps its state: every further
/// read gives the same answer (the reader's error, or the end of the
/// document) and leaves the stream as it is.
pub proof fn lemma_exhausted_stream_repeats(s: StreamView)
    requires
        s.events.len() == 0,
    ensures
        step(s).1 == s,
        step(step(s).1) == step(s),
{
}

/// How an event changes the element depth: an opening tag goes one level
/// down, a closing tag one level up.
pub open spec fn depth_change(e: EventView) -> int {
    match e {
        EventView::StartElement(_, _, _) => 1,
        EventView::EndElement(_) => -1,
        _ => 0,
    }
}

/// The change of element depth over a run of events.
pub open spec fn net_depth(x: Seq<EventView>) -> int
    decreases x.len(),
{
    if x.len() == 0 {
        0
    } else {
        depth_change(x[0]) + net_depth(x.drop_first())
    }
}

/// A run of events of whole elements: every element it opens it closes, it
/// closes none that it did not open, and it does not end the document.
pub open spec fn is_balanced(x: Seq<EventView>) -> bool {
    &&& net_depth(x) == 0
    &&& forall|k: int| 0 <= k <= x.len() ==> net_depth(#[trigger] x.take(k)) >= 0
    &&& forall|i: int| 0 <= i < x.len() ==> !(#[trigger] x[i] is EndDocument)
}

/// Skipping `depth` elements deep over a run that never closes the element
/// being skipped comes to skipping after the run, at the depth the run
/// leads to.
proof fn lemma_skip_over(x: Seq<EventView>, tail: Seq<EventView>, end: StreamEnd, depth: nat)
    requires
        depth >= 1,
        forall|k: int| 0 <= k <= x.len() ==> depth + net_depth(#[trigger] x.take(k)) >= 1,
        forall|i: int| 0 <= i < x.len() ==> !(#[trigger] x[i] is EndDocument),
    ensures
        skip_run(StreamView { events: x + tail, end }, depth) == skip_run(
            StreamView { events: tail, end },
            (depth + net_depth(x)) as nat,
        ),
    decreases x.len(),
{
    if x.len() > 0 {
        let s = StreamView { events: x + tail, end };
        let y = x.drop_first();
        assert(s.rest().events =~= y + tail);
        assert forall|k: int| 0 <= k <= y.len() implies net_depth(#[trigger] y.take(k)) == net_depth(
            x.take(k + 1),
        ) - depth_change(x[0]) by {
            assert(x.take(k + 1).drop_first() =~= y.take(k));
            assert(x.take(k + 1)[0] == x[0]);
        }
        let one = x.take(1);
        assert(one.drop_first() =~= Seq::<EventView>::empty());
        assert(net_depth(one.drop_first()) == 0);
        assert(one[0] == x[0]);
        assert(net_depth(one) == depth_change(x[0]));
        assert(!(x[0] is EndDocument));
        let d2: int = depth + depth_change(x[0]);
        assert forall|k: int| 0 <= k <= y.len() implies d2 + net_depth(#[trigger] y.take(k)) >= 1 by {
            assert(depth + net_depth(x.take(k + 1)) >= 1);
        }
        assert forall|i: int| 0 <= i < y.len() implies !(#[trigger] y[i] is EndDocument) by {
            assert(y[i] == x[i + 1]);
        }
        lemma_skip_over(y, tail, end, d2 as nat);
        assert((x + tail)[0] == x[0]);
    } else {
        assert(x + tail =~= tail);
    }
}

/// Skipping the rest of an element passes over whole child elements and
/// other events and stops right after the element's closing tag: what
/// follows it is left in the stream.
pub proof fn lemma_skip_passes_balanced(
    x: Seq<EventView>,
    name: Seq<char>,
    rest: Seq<EventView>,
    end: StreamEnd,
)
    requires
        is_balanced(x),
    ensures
        skip_run(StreamView { events: x + seq![EventView::EndElement(name)] + rest, end }, 1) == (
            Ok::<(), ErrorView>(()),
            StreamView { events: rest, end },
        ),
{
    let tail = seq![EventView::EndElement(name)] + rest;
    assert(x + seq![EventView::EndElement(name)] + rest =~= x + tail);
    lemma_skip_over(x, tail, end, 1);
    let t = StreamView { events: tail, end };
    assert(t.rest().events =~= rest);
}

/// The events of a run of empty elements named `tag`, one per attribute
/// list, each opened and closed at once (as `<tag ... />` is read).
pub open spec fn element_events(
    tag: Seq<char>,
    items: Seq<Seq<(Seq<char>, Seq<char>)>>,
    ns: Seq<(Seq<char>, Seq<char>)>,
) -> Seq<
    EventView,
>
    decreases items.len(),
{
    if items.len() == 0 {
        seq![]
    } else {
        seq![EventView::StartElement(tag, items[0], ns), EventView::EndElement(tag)] + element_events(
            tag,
            items.drop_first(), ns
        )
    }
}

/// The view of the result of a read.
pub open spec fn event_result_view(r: Result<XmlEvent, ManifestError>) -> Result<EventView, ErrorView> {
    match r {
        Ok(e) => Ok(e@),
        Err(e) => Err(e@),
    }
}

/// The view of a result that carries no value.
pub open spec fn unit_result_view(r: Result<(), ManifestError>) -> Result<(), ErrorView> {
    match r {
        Ok(_) => Ok(()),
        Err(e) => Err(e@),
    }
}

/// The events that the XML reader gives for a document, in order, up to the
/// end of the document or up to its first error, and whether it failed.
///
/// The reader is configured as the manifests are read: whitespace trimmed and
/// comments ignored.
pub uninterp spec fn xml_events_of(doc: Seq<u8>) -> (Seq<EventView>, bool);

/// Trusted: runs `xml::EventReader` (with `ParserConfig` trimming whitespace
/// and, as it does by default, ignoring comments) over the document, calling `next` until it returns
/// the end of the document or an error. The events before that are kept with
/// the local names of elements and attributes and the namespace mappings
/// in scope; the events are named `xml_events_of` of the document, and the
/// error, if any, is handed back. At the end of the document the reader's
/// `skip` is called once more and its error (reading past the end, which it
/// always gives there) is handed back too.
#[verifier::external_body]
fn read_xml_events(doc: &[u8]) -> (r: (Vec<XmlEvent>, Option<XmlReaderError>, Option<XmlReaderError>))
    ensures
        xml_events_of(doc@) == (events_view(r.0@), r.1 is Some),
        r.1 is None ==> r.2 is Some,
{
    let mut reader = EventReader::new_with_config(doc, ParserConfig::new().trim_whitespace(true));
    let mut events = Vec::new();
    loop {
        events.push(match reader.next() {
            Ok(RawEnd) => return (events, None, reader.skip().err()),
            Ok(RawStart { .. }) => XmlEvent::StartDocument,
            Ok(RawOpen { name, attributes, namespace }) => XmlEvent::StartElement {
                name: name.local_name, namespace: Vec::from_iter(namespace.0),
                attributes: attributes.into_iter().map(|a| Attribute { name: a.name.local_name, value: a.value }).collect(),
            },
            Ok(RawClose { name }) => XmlEvent::EndElement { name: name.local_name },
            Ok(_) => XmlEvent::Other,
            Err(e) => return (events, Some(e), None),
        });
    }
}

/// Trusted: `Clone` of the XML reader's error; nothing is claimed of the copy.
#[verifier::external_body]
fn clone_reader_error(e: &XmlReaderError) -> XmlReaderError {
    e.clone()
}

/// The events of an XML document, read one at a time.
pub struct EventStream {
    /// The events still to come, the next one last.
    pending: Vec<XmlEvent>,
    /// The reader's error after the events, if it failed.
    failure: Option<XmlReaderError>,
    /// The reader's error for reading past the end of the document, if the
    /// document ended and the error is at hand.
    end_error: Option<XmlReaderError>,
}

impl View for EventStream {
    type V = StreamView;

    closed spec fn view(&self) -> StreamView {
        StreamView {
            events: Seq::new(
                self.pending@.len(),
                |i: int| self.pending@[self.pending@.len() - 1 - i]@,
            ),
            end: if self.failure is Some {
                StreamEnd::Failed
            } else {
                StreamEnd::Ended(self.end_error is Some)
            },
        }
    }
}

impl EventStream {
    /// The reader's error that the stream hands out once its events are
    /// read, if the reader failed.
    pub closed spec fn reader_failure(&self) -> Option<XmlReaderError> {
        self.failure
    }

    /// The reader's error for reading past the end of the document, if the
    /// stream has it.
    pub closed spec fn end_reader_error(&self) -> Option<XmlReaderError> {
        self.end_error
    }

    /// A stream of the given events, followed by the given failure of the
    /// reader, if any.
    pub fn new(
        events: Vec<XmlEvent>,
        failure: Option<XmlReaderError>,
        end_error: Option<XmlReaderError>,
    ) -> (s: EventStream)
        ensures
            s@ == (StreamView {
                events: events_view(events@),
                end: if failure is Some {
                    StreamEnd::Failed
                } else {
                    StreamEnd::Ended(end_error is Some)
                },
            }),
            s.reader_failure() == failure,
            s.end_reader_error() == end_error,
    {
        let ghost given = events@;
        let n = events.len();
        let mut source = events;
        let mut pending: Vec<XmlEvent> = Vec::new();
        while source.len() > 0
            invariant
                pending.len() + source.len() == n,
                n == given.len(),
                source@ == given.take(source.len() as int),
                forall|j: int| 0 <= j < pending.len() ==> #[trigger] pending@[j] == given[n - 1 - j],
            decreases source.len(),
        {
            let e = source.pop().unwrap();
            assert(e == given[source.len() as int]);
            pending.push(e);
            assert(source@ =~= given.take(source.len() as int));
        }
        let s = EventStream { pending, failure, end_error };
        assert(s@.events =~= events_view(events@)) by {
            assert forall|i: int| 0 <= i < n implies s@.events[i] == events_view(given)[i] by {
                assert(pending@[n - 1 - i] == given[i]);
            }
        }
        s
    }

    /// The stream of the events of an XML document, as the XML reader gives
    /// them.
    pub fn from_document(doc: &[u8]) -> (s: EventStream)
        ensures
            (s@.events, s@.end is Failed) == xml_events_of(doc@),
            s@.end is Failed || s@.end == StreamEnd::Ended(true),
    {
        let (events, failure, end_error) = read_xml_events(doc);
        EventStream::new(events, failure, end_error)
    }

    /// Reads the next event. Once the events are read, a failed reader's
    /// error is handed out, the stream keeping a copy of it for the next
    /// read, as the reader itself does.
    pub fn next(&mut self) -> (r: Result<XmlEvent, ManifestError>)
        ensures
            (event_result_view(r), final(self)@) == step(old(self)@),
            match r {
                Err(e) => e.source == old(self).reader_failure(),
                Ok(_) => final(self).reader_failure() == old(self).reader_failure(),
            },
            final(self).end_reader_error() == old(self).end_reader_error(),
    {
        match self.pending.pop() {
            Some(e) => {
                assert(self@.events =~= old(self)@.events.drop_first());
                Ok(e)
            },
            None => match self.failure.take() {
                Some(x) => {
                    self.failure = Some(clone_reader_error(&x));
                    Err(ManifestError::from_xml(x))
                },
                None => Ok(XmlEvent::EndDocument),
            },
        }
    }

    /// Skips the rest of the current element: reads events until the closing
    /// tag at the current level. Meeting the end of the document first is an
    /// error of kind `Xml`, carrying the reader's error for reading past the
    /// end when the stream has it.
    pub fn skip(&mut self) -> (r: Result<(), ManifestError>)
        ensures
            (unit_result_view(r), final(self)@) == skip_run(old(self)@, 1),
            r matches Err(e) ==> (e.source is Some ==> e.source == if old(self).reader_failure() is Some {
                old(self).reader_failure()
            } else {
                old(self).end_reader_error()
            }),
    {
        let len = self.pending.len();
        let ghost n0 = self@.events.len();
        assert(n0 == len);
        let mut open: usize = 0;
        loop
            invariant
                skip_run(self@, (open + 1) as nat) == skip_run(old(self)@, 1),
                self.reader_failure() == old(self).reader_failure(),
                self.end_reader_error() == old(self).end_reader_error(),
                open + self@.events.len() <= n0,
                n0 <= usize::MAX,
            decreases self@.events.len(),
        {
            match self.next() {
                Err(e) => return Err(e),
                Ok(XmlEvent::StartElement { .. }) => {
                    open = open + 1;
                },
                Ok(XmlEvent::EndElement { .. }) => {
                    if open == 0 {
                        return Ok(());
                    }
                    open = open - 1;
                },
                Ok(XmlEvent::EndDocument) => {
                    if self.failure.is_some() {
                        return Err(ManifestError::new_with_kind(ErrorKind::Xml));
                    }
                    return Err(
                        match self.end_error.take() {
                            Some(x) => {
                                self.end_error = Some(clone_reader_error(&x));
                                ManifestError::from_xml(x)
                            },
                            None => ManifestError::new_with_kind(ErrorKind::Xml),
                        },
                    );
                },
                Ok(_) => {},
            }
        }
    }
}

} // verus!
