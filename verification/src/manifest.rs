//! Reading a whole instrumentation manifest.

use vstd::prelude::*;
use vstd::string::*;
use crate::error::{ErrorKind, ErrorView, ManifestError, unexpected_view};
use crate::event::{event_spec, lemma_events_section};
use crate::keyword::{keyword_spec, lemma_keywords_section};
use crate::provider::{PartsView, Provider, ProviderView, guid_of, no_parts, provider_body_run, provider_run};
use crate::reading::find_attribute_spec;
use crate::task::{lemma_tasks_section, task_spec};
use crate::template::{is_good_template, lemma_templates_section, template_elements, template_of};
use crate::reading::{match_end_run, match_start_run, xml_match_end, xml_match_start};
use crate::template::{Halt, Outcome, halt_view};
use crate::text::text_eq;
use crate::xml_stream::{
    EventStream, EventView, StreamEnd, StreamView, XmlEvent, element_events, lemma_skip_run_shrinks, skip_run,
    step,
    xml_events_of,
};

verus! {

/// What searching for the `<instrumentation>` element gives: elements with
/// other names are skipped whole; its opening tag ends the search; any other
/// event is an error.
pub open spec fn search_run(s: StreamView) -> (Result<(), ErrorView>, StreamView)
    decreases s.events.len(),
{
    let (event, after) = step(s);
    match event {
        Err(e) => (Err(e), after),
        Ok(EventView::StartElement(name, _, _)) => if name != "instrumentation"@ {
            let (r, rest) = skip_run(after, 1);
            proof {
                lemma_skip_run_shrinks(after, 1);
            }
            match r {
                Err(e) => (Err(e), rest),
                Ok(_) => search_run(rest),
            }
        } else {
            (Ok(()), after)
        },
        Ok(_) => (
            Err(
                unexpected_view(
                    Some("Encountered wrong element when searching for <instrumentation> start"@),
                ),
            ),
            after,
        ),
    }
}

/// What reading a manifest gives: the start of the document, the
/// `<instrumentationManifest>` element, inside it the `<instrumentation>`
/// element (elements before it skipped), inside that an `<events>` element
/// holding one provider, which is read; then `</events>` and the rest of
/// `<instrumentation>`.
pub open spec fn manifest_run(s: StreamView) -> (Outcome<ProviderView>, StreamView) {
    let (event, s1) = step(s);
    match event {
        Err(e) => (Outcome::Failed(e), s1),
        Ok(EventView::StartDocument) => {
            let (m, s2) = match_start_run(s1, "instrumentationManifest"@);
            match m {
                Err(e) => (Outcome::Failed(e), s2),
                Ok(_) => {
                    let (found, s3) = search_run(s2);
                    match found {
                        Err(e) => (Outcome::Failed(e), s3),
                        Ok(_) => {
                            let (m2, s4) = match_start_run(s3, "events"@);
                            match m2 {
                                Err(e) => (Outcome::Failed(e), s4),
                                Ok(_) => {
                                    let (p, s5) = provider_run(s4);
                                    match p {
                                        Outcome::Done(provider) => {
                                            let (closed, s6) = match_end_run(s5, "events"@);
                                            match closed {
                                                Err(e) => (Outcome::Failed(e), s6),
                                                Ok(_) => {
                                                    let (skipped, s7) = skip_run(s6, 1);
                                                    match skipped {
                                                        Err(e) => (Outcome::Failed(e), s7),
                                                        Ok(_) => (Outcome::Done(provider), s7),
                                                    }
                                                },
                                            }
                                        },
                                        Outcome::Failed(e) => (Outcome::Failed(e), s5),
                                        Outcome::Unsupported => (Outcome::Unsupported, s5),
                                    }
                                },
                            }
                        },
                    }
                },
            }
        },
        Ok(_) => (
            Outcome::Failed(unexpected_view(Some("Expected StartDocument tag, found other"@))),
            s1,
        ),
    }
}

/// The stream of events of a document.
pub open spec fn document_stream(doc: Seq<u8>) -> StreamView {
    StreamView {
        events: xml_events_of(doc).0,
        end: if xml_events_of(doc).1 {
            StreamEnd::Failed
        } else {
            StreamEnd::Ended(true)
        },
    }
}

/// What reading the manifest in a document comes to.
pub open spec fn document_outcome(doc: Seq<u8>) -> Outcome<ProviderView> {
    manifest_run(document_stream(doc)).0
}

/// The attribute lists of a run of elements.
pub type AttributeLists = Seq<Seq<(Seq<char>, Seq<char>)>>;

/// A template given by its attributes and the attribute lists of its items.
pub type TemplateShape = (Seq<(Seq<char>, Seq<char>)>, AttributeLists);

/// The events of a `<provider>` element with the given attributes, holding
/// a `<keywords>`, a `<tasks>`, an `<events>` and a `<templates>` section
/// in this order, each of empty elements (templates with their items).
pub open spec fn provider_events(
    attributes: Seq<(Seq<char>, Seq<char>)>,
    keywords: AttributeLists,
    tasks: AttributeLists,
    events: AttributeLists,
    templates: Seq<TemplateShape>,
    ns: Seq<(Seq<char>, Seq<char>)>,
) -> Seq<EventView> {
    seq![
        EventView::StartElement("provider"@, attributes, ns),
        EventView::StartElement("keywords"@, seq![], ns),
    ] + element_events("keyword"@, keywords, ns) + seq![
        EventView::EndElement("keywords"@),
        EventView::StartElement("tasks"@, seq![], ns),
    ] + element_events("task"@, tasks, ns) + seq![
        EventView::EndElement("tasks"@),
        EventView::StartElement("events"@, seq![], ns),
    ] + element_events("event"@, events, ns) + seq![
        EventView::EndElement("events"@),
        EventView::StartElement("templates"@, seq![], ns),
    ] + template_elements(templates, ns) + seq![
        EventView::EndElement("templates"@),
        EventView::EndElement("provider"@),
    ]
}

/// The events of a manifest document holding that provider:
/// `<instrumentationManifest><instrumentation><events>`, the provider, then
/// `</events></instrumentation>`.
pub open spec fn manifest_events(
    attributes: Seq<(Seq<char>, Seq<char>)>,
    keywords: AttributeLists,
    tasks: AttributeLists,
    events: AttributeLists,
    templates: Seq<TemplateShape>,
    ns: Seq<(Seq<char>, Seq<char>)>,
) -> Seq<EventView> {
    seq![
        EventView::StartDocument,
        EventView::StartElement("instrumentationManifest"@, seq![], ns),
        EventView::StartElement("instrumentation"@, seq![], ns),
        EventView::StartElement("events"@, seq![], ns),
    ] + provider_events(attributes, keywords, tasks, events, templates, ns) + seq![
        EventView::EndElement("events"@),
        EventView::EndElement("instrumentation"@),
    ]
}

/// The provider that such a document describes.
pub open spec fn described_provider(
    attributes: Seq<(Seq<char>, Seq<char>)>,
    keywords: AttributeLists,
    tasks: AttributeLists,
    events: AttributeLists,
    templates: Seq<TemplateShape>,
) -> ProviderView {
    ProviderView {
        name: find_attribute_spec(attributes, "name"@)->Ok_0,
        guid: guid_of(find_attribute_spec(attributes, "guid"@)->Ok_0)->0,
        symbol: find_attribute_spec(attributes, "symbol"@)->Ok_0,
        parts: PartsView {
            keywords: keywords.map_values(|a: Seq<(Seq<char>, Seq<char>)>| keyword_spec(a)->Ok_0),
            tasks: tasks.map_values(|a: Seq<(Seq<char>, Seq<char>)>| task_spec(a)->Ok_0),
            events: events.map_values(|a: Seq<(Seq<char>, Seq<char>)>| event_spec(a)->Ok_0),
            templates: templates.map_values(|t: TemplateShape| template_of(t)),
        },
    }
}

/// Everything in the document is well-formed: the provider has its name,
/// GUID (one that `uuid` reads) and symbol, and every keyword, task, event
/// and template is well-formed.
pub open spec fn is_good_manifest(
    attributes: Seq<(Seq<char>, Seq<char>)>,
    keywords: AttributeLists,
    tasks: AttributeLists,
    events: AttributeLists,
    templates: Seq<TemplateShape>,
) -> bool {
    &&& find_attribute_spec(attributes, "name"@) is Ok
    &&& find_attribute_spec(attributes, "guid"@) is Ok
    &&& find_attribute_spec(attributes, "symbol"@) is Ok
    &&& guid_of(find_attribute_spec(attributes, "guid"@)->Ok_0) is Some
    &&& forall|i: int| 0 <= i < keywords.len() ==> #[trigger] keyword_spec(keywords[i]) is Ok
    &&& forall|i: int| 0 <= i < tasks.len() ==> #[trigger] task_spec(tasks[i]) is Ok
    &&& forall|i: int| 0 <= i < events.len() ==> #[trigger] event_spec(events[i]) is Ok
    &&& forall|i: int| 0 <= i < templates.len() ==> #[trigger] is_good_template(templates[i])
}

/// The sections of a provider read as exactly their items, and the provider
/// ends at `</provider>`.
#[verifier::rlimit(50)]
proof fn lemma_provider_body(
    keywords: AttributeLists,
    tasks: AttributeLists,
    events: AttributeLists,
    templates: Seq<TemplateShape>,
    tail: Seq<EventView>,
    end: StreamEnd,
    ns: Seq<(Seq<char>, Seq<char>)>,
)
    requires
        forall|i: int| 0 <= i < keywords.len() ==> #[trigger] keyword_spec(keywords[i]) is Ok,
        forall|i: int| 0 <= i < tasks.len() ==> #[trigger] task_spec(tasks[i]) is Ok,
        forall|i: int| 0 <= i < events.len() ==> #[trigger] event_spec(events[i]) is Ok,
        forall|i: int| 0 <= i < templates.len() ==> #[trigger] is_good_template(templates[i]),
    ensures
        ({
            let body = provider_events(seq![], keywords, tasks, events, templates, ns).drop_first();
            provider_body_run(StreamView { events: body + tail, end }, no_parts()) == (
                Outcome::<()>::Done(()),
                described_provider(seq![], keywords, tasks, events, templates).parts,
                StreamView { events: tail, end },
            )
        }),
{
    reveal_strlit("keywords");
    reveal_strlit("tasks");
    reveal_strlit("events");
    reveal_strlit("templates");
    reveal_strlit("provider");
    assert("keywords"@.len() == 8 && "tasks"@.len() == 5 && "events"@.len() == 6
        && "templates"@.len() == 9 && "provider"@.len() == 8);
    let parts = described_provider(seq![], keywords, tasks, events, templates).parts;
    let after_templates = seq![EventView::EndElement("provider"@)] + tail;
    let x4 = seq![EventView::StartElement("templates"@, seq![], ns)] + template_elements(templates, ns) + seq![
        EventView::EndElement("templates"@),
    ] + after_templates;
    let x3 = seq![EventView::StartElement("events"@, seq![], ns)] + element_events("event"@, events, ns) + seq![
        EventView::EndElement("events"@),
    ] + x4;
    let x2 = seq![EventView::StartElement("tasks"@, seq![], ns)] + element_events("task"@, tasks, ns) + seq![
        EventView::EndElement("tasks"@),
    ] + x3;
    let x1 = seq![EventView::StartElement("keywords"@, seq![], ns)] + element_events("keyword"@, keywords, ns)
        + seq![EventView::EndElement("keywords"@)] + x2;
    let body = provider_events(seq![], keywords, tasks, events, templates, ns).drop_first();
    assert(body + tail =~= x1);

    let s1 = StreamView { events: x1, end };
    let k_rest = element_events("keyword"@, keywords, ns) + seq![EventView::EndElement("keywords"@)] + x2;
    assert(s1.rest().events =~= k_rest);
    lemma_keywords_section(keywords, x2, end, ns, seq![]);
    let p1 = PartsView { keywords: parts.keywords, ..no_parts() };
    assert(seq![] + parts.keywords =~= parts.keywords);
    let s2 = StreamView { events: x2, end };
    assert(provider_body_run(s1, no_parts()) == provider_body_run(s2, p1));

    let t_rest = element_events("task"@, tasks, ns) + seq![EventView::EndElement("tasks"@)] + x3;
    assert(s2.rest().events =~= t_rest);
    lemma_tasks_section(tasks, x3, end, ns, seq![]);
    let p2 = PartsView { tasks: parts.tasks, ..p1 };
    assert(seq![] + parts.tasks =~= parts.tasks);
    let s3 = StreamView { events: x3, end };
    assert(provider_body_run(s2, p1) == provider_body_run(s3, p2));

    let e_rest = element_events("event"@, events, ns) + seq![EventView::EndElement("events"@)] + x4;
    assert(s3.rest().events =~= e_rest);
    lemma_events_section(events, x4, end, ns, seq![]);
    let p3 = PartsView { events: parts.events, ..p2 };
    assert(seq![] + parts.events =~= parts.events);
    let s4 = StreamView { events: x4, end };
    assert(provider_body_run(s3, p2) == provider_body_run(s4, p3));

    let tp_rest = template_elements(templates, ns) + seq![EventView::EndElement("templates"@)]
        + after_templates;
    assert(s4.rest().events =~= tp_rest);
    lemma_templates_section(templates, after_templates, end, ns, seq![]);
    assert(seq![] + parts.templates =~= parts.templates);
    let s5 = StreamView { events: after_templates, end };
    assert(p3 == PartsView { templates: seq![], ..parts });
    assert(provider_body_run(s4, p3) == provider_body_run(s5, parts));

    assert(s5.rest().events =~= tail);
    assert(s5.rest() == StreamView { events: tail, end });
}

/// A well-formed manifest document of the usual shape reads as exactly the
/// provider it describes: its name, GUID and symbol, and all its keywords,
/// tasks, events and templates in order. Reading stops after
/// `</instrumentation>`.
pub proof fn lemma_manifest_reads_its_provider(
    attributes: Seq<(Seq<char>, Seq<char>)>,
    keywords: AttributeLists,
    tasks: AttributeLists,
    events: AttributeLists,
    templates: Seq<TemplateShape>,
    rest: Seq<EventView>,
    end: StreamEnd,
    ns: Seq<(Seq<char>, Seq<char>)>,
)
    requires
        is_good_manifest(attributes, keywords, tasks, events, templates),
    ensures
        manifest_run(
            StreamView {
                events: manifest_events(attributes, keywords, tasks, events, templates, ns) + rest,
                end,
            },
        ) == (
            Outcome::Done(described_provider(attributes, keywords, tasks, events, templates)),
            StreamView { events: rest, end },
        ),
{
    reveal_strlit("instrumentationManifest");
    reveal_strlit("instrumentation");
    reveal_strlit("events");
    reveal_strlit("provider");
    assert("instrumentationManifest"@.len() == 23 && "instrumentation"@.len() == 15);
    let tail = seq![EventView::EndElement("events"@), EventView::EndElement("instrumentation"@)] + rest;
    let pe = provider_events(attributes, keywords, tasks, events, templates, ns);
    let body = provider_events(seq![], keywords, tasks, events, templates, ns).drop_first();
    assert(pe.drop_first() =~= body);
    let all = manifest_events(attributes, keywords, tasks, events, templates, ns) + rest;
    let s0 = StreamView { events: all, end };
    assert(s0.events[0] == EventView::StartDocument);
    let s1 = s0.rest();
    assert(s1.events[0] == EventView::StartElement("instrumentationManifest"@, seq![], ns));
    let s2 = s1.rest();
    assert(s2.events[0] == EventView::StartElement("instrumentation"@, seq![], ns));
    let s3 = s2.rest();
    assert(s3.events[0] == EventView::StartElement("events"@, seq![], ns));
    let s4 = s3.rest();
    assert(s4.events =~= pe + tail);
    assert(s4.events[0] == EventView::StartElement("provider"@, attributes, ns));
    let s5 = s4.rest();
    assert(s5.events =~= body + tail);
    lemma_provider_body(keywords, tasks, events, templates, tail, end, ns);
    let d = described_provider(attributes, keywords, tasks, events, templates);
    assert(d.parts == described_provider(seq![], keywords, tasks, events, templates).parts);
    assert(provider_run(s4) == (Outcome::Done(d), StreamView { events: tail, end }));
    let s6 = StreamView { events: tail, end };
    assert(s6.events[0] == EventView::EndElement("events"@));
    let s7 = s6.rest();
    assert(s7.events[0] == EventView::EndElement("instrumentation"@));
    assert(s7.rest().events =~= rest);
    assert(skip_run(s7, 1) == (Ok::<(), ErrorView>(()), StreamView { events: rest, end }));
}

/// Searches for the opening tag of `<instrumentation>`, skipping the
/// elements before it.
fn find_instrumentation(r: &mut EventStream) -> (res: Result<(), ManifestError>)
    ensures
        (crate::xml_stream::unit_result_view(res), final(r)@) == search_run(old(r)@),
{
    loop
        invariant
            search_run(r@) == search_run(old(r)@),
        decreases r@.events.len(),
    {
        let ghost after_next = step(r@).1;
        match r.next()? {
            XmlEvent::StartElement { name, .. } => {
                if !text_eq(name.as_str(), "instrumentation") {
                    proof {
                        lemma_skip_run_shrinks(after_next, 1);
                    }
                    r.skip()?;
                } else {
                    return Ok(());
                }
            },
            _ => {
                return Err(
                    ManifestError::new_unexpected(
                        Some(
                            String::from_str(
                                "Encountered wrong element when searching for <instrumentation> start",
                            ),
                        ),
                    ),
                )
            },
        }
    }
}

/// Reads a manifest from its events, or tells that a template item has a
/// character in-type.
pub fn read_manifest(r: &mut EventStream) -> (res: Result<Provider, Halt>)
    ensures
        (halt_view(res, |p: Provider| p@), final(r)@) == manifest_run(old(r)@),
{
    match r.next() {
        Err(e) => return Err(Halt::Failed(e)),
        Ok(XmlEvent::StartDocument) => {},
        Ok(_) => {
            return Err(
                Halt::Failed(
                    ManifestError::new_unexpected(
                        Some(String::from_str("Expected StartDocument tag, found other")),
                    ),
                ),
            )
        },
    }
    if let Err(e) = xml_match_start(r, "instrumentationManifest") {
        return Err(Halt::Failed(e));
    }
    if let Err(e) = find_instrumentation(r) {
        return Err(Halt::Failed(e));
    }
    if let Err(e) = xml_match_start(r, "events") {
        return Err(Halt::Failed(e));
    }
    let provider = Provider::read(r)?;
    if let Err(e) = xml_match_end(r, "events") {
        return Err(Halt::Failed(e));
    }
    if let Err(e) = r.skip() {
        return Err(Halt::Failed(e));
    }
    Ok(provider)
}

/// Reads a manifest from its events: the provider it describes.
pub fn parse_stream(r: &mut EventStream) -> (res: Result<Provider, ManifestError>)
    requires
        !(manifest_run(old(r)@).0 is Unsupported),
    ensures
        match res {
            Ok(p) => manifest_run(old(r)@).0 == Outcome::<ProviderView>::Done(p@),
            Err(e) => manifest_run(old(r)@).0 == Outcome::<ProviderView>::Failed(e@),
        },
        final(r)@ == manifest_run(old(r)@).1,
{
    match read_manifest(r) {
        Ok(p) => Ok(p),
        Err(Halt::Failed(e)) => Err(e),
        Err(Halt::Unsupported) => {
            proof {
                assert(false);
            }
            Err(ManifestError::new_with_kind(ErrorKind::UnexpectedStructure))
        },
    }
}

/// Parses an instrumentation manifest: the provider it describes.
pub fn parse(doc: &[u8]) -> (res: Result<Provider, ManifestError>)
    requires
        !(document_outcome(doc@) is Unsupported),
    ensures
        match res {
            Ok(p) => document_outcome(doc@) == Outcome::<ProviderView>::Done(p@),
            Err(e) => document_outcome(doc@) == Outcome::<ProviderView>::Failed(e@),
        },
{
    let mut r = EventStream::from_document(doc);
    parse_stream(&mut r)
}

/// Parses an instrumentation manifest, unless one of its template items has
/// a character in-type (`win:AnsiChar`, `win:UnicodeChar`), which the reader
/// does not implement: then there is no result.
pub fn try_parse(doc: &[u8]) -> (res: Option<Result<Provider, ManifestError>>)
    ensures
        match res {
            None => document_outcome(doc@) is Unsupported,
            Some(Ok(p)) => document_outcome(doc@) == Outcome::<ProviderView>::Done(p@),
            Some(Err(e)) => document_outcome(doc@) == Outcome::<ProviderView>::Failed(e@),
        },
{
    let mut r = EventStream::from_document(doc);
    match read_manifest(&mut r) {
        Ok(p) => Some(Ok(p)),
        Err(Halt::Failed(e)) => Some(Err(e)),
        Err(Halt::Unsupported) => None,
    }
}

} // verus!
