//! Events of a provider.

use vstd::prelude::*;
use vstd::string::*;
use crate::error::{ErrorKind, ErrorView, ManifestError, error_view, unexpected_tag_view, unexpected_view};
use crate::reading::{find_attribute, find_attribute_spec, first_value};
use crate::template::{all_ascii, function_name_of, payload_function_name};
use crate::text::{
    decimal_string, decimal_text, lemma_decimal_text_reads_back, parse_unsigned, text_eq, unsigned_value,
};
use crate::xml_stream::{
    StreamEnd,
    element_events,
    Attribute, EventStream, EventView, StreamView, XmlEvent, attributes_view, step, unit_result_view,
};

verus! {

/// A event defined by a provider
#[derive(Debug)]
pub struct Event {
    /// Numerical identifier of the event
    pub value: u16,
    pub symbol: String,
    /// Version of the event
    pub version: u8,
    /// Task name corresponding to this event
    pub task: String,
    /// Optional opcode
    pub opcode: Option<String>,
    /// Trace level of the event (e.g. `win:Informational`)
    pub level: String,
    /// List of keywords (usually one)
    pub keywords: Option<String>,
    /// Template name
    pub template: Option<String>,
}

/// An event as the contracts see it.
pub struct EventDefView {
    pub value: u16,
    pub symbol: Seq<char>,
    pub version: u8,
    pub task: Seq<char>,
    pub opcode: Option<Seq<char>>,
    pub level: Seq<char>,
    pub keywords: Option<Seq<char>>,
    pub template: Option<Seq<char>>,
}

/// An optional text as the contracts see it.
pub open spec fn opt_text(t: Option<String>) -> Option<Seq<char>> {
    match t {
        Some(s) => Some(s@),
        None => None,
    }
}

impl View for Event {
    type V = EventDefView;

    open spec fn view(&self) -> EventDefView {
        EventDefView {
            value: self.value,
            symbol: self.symbol@,
            version: self.version,
            task: self.task@,
            opcode: opt_text(self.opcode),
            level: self.level@,
            keywords: opt_text(self.keywords),
            template: opt_text(self.template),
        }
    }
}

/// The events of a sequence as the contracts see them.
pub open spec fn events_defs_view(v: Seq<Event>) -> Seq<EventDefView> {
    v.map_values(|e: Event| e@)
}

/// What an `<event>` element's attributes give. The attributes are read in
/// this order, the first missing required one being reported: `value` (a
/// decimal `u16`), `symbol`, `version` (a decimal `u8`), `task`, then
/// `level`; `opcode`, `keywords` and `template` are optional. An unreadable
/// value or version is a `TypeParseError` quoting the text of the value, or,
/// for the version, the number read as the value.
#[verifier::opaque]
pub open spec fn event_spec(attributes: Seq<(Seq<char>, Seq<char>)>) -> Result<EventDefView, ErrorView> {
    match find_attribute_spec(attributes, "value"@) {
        Err(e) => Err(e),
        Ok(value_text) => match unsigned_value(value_text, 10, u16::MAX as int) {
            None => Err(
                error_view(
                    ErrorKind::TypeParseError,
                    Some("found `"@ + value_text + "` expeced u16"@),
                ),
            ),
            Some(value) => match find_attribute_spec(attributes, "symbol"@) {
                Err(e) => Err(e),
                Ok(symbol) => match find_attribute_spec(attributes, "version"@) {
                    Err(e) => Err(e),
                    Ok(version_text) => match unsigned_value(version_text, 10, u8::MAX as int) {
                        None => Err(
                            error_view(
                                ErrorKind::TypeParseError,
                                Some("found `"@ + decimal_text(value as nat) + "` expected u8"@),
                            ),
                        ),
                        Some(version) => match find_attribute_spec(attributes, "task"@) {
                            Err(e) => Err(e),
                            Ok(task) => match find_attribute_spec(attributes, "level"@) {
                                Err(e) => Err(e),
                                Ok(level) => Ok(
                                    EventDefView {
                                        value: value as u16,
                                        symbol,
                                        version: version as u8,
                                        task,
                                        opcode: first_value(attributes, "opcode"@),
                                        level,
                                        keywords: first_value(attributes, "keywords"@),
                                        template: first_value(attributes, "template"@),
                                    },
                                ),
                            },
                        },
                    },
                },
            },
        },
    }
}

/// An event's value and version are read in decimal, over their whole
/// ranges: an event whose `value` is the decimal text of any `u16` and whose
/// `version` is the decimal text of any `u8`, with its `symbol`, `task` and
/// `level`, reads with exactly these.
pub proof fn lemma_event_numbers_are_decimal(
    attributes: Seq<(Seq<char>, Seq<char>)>,
    value: u16,
    version: u8,
    symbol: Seq<char>,
    task: Seq<char>,
    level: Seq<char>,
)
    requires
        first_value(attributes, "value"@) == Some(decimal_text(value as nat)),
        first_value(attributes, "symbol"@) == Some(symbol),
        first_value(attributes, "version"@) == Some(decimal_text(version as nat)),
        first_value(attributes, "task"@) == Some(task),
        first_value(attributes, "level"@) == Some(level),
    ensures
        event_spec(attributes) matches Ok(e) && e.value == value && e.version == version
            && e.symbol == symbol && e.task == task && e.level == level,
{
    reveal(event_spec);
    lemma_decimal_text_reads_back(value as nat, u16::MAX as int);
    lemma_decimal_text_reads_back(version as nat, u8::MAX as int);
}

/// What reading the rest of an `<events>` section gives, the events read so
/// far being `acc`: each `<event>` element adds an event; closing tags other
/// than `</events>` are passed over; `</events>` ends the section. Any other
/// element, any other event, or a bad event is an error.
pub open spec fn events_run(s: StreamView, acc: Seq<EventDefView>) -> (
    Result<(), ErrorView>,
    Seq<EventDefView>,
    StreamView,
)
    decreases s.events.len(),
{
    let (event, after) = step(s);
    match event {
        Err(e) => (Err(e), acc, after),
        Ok(EventView::StartElement(name, attributes, _)) => if name != "event"@ {
            (Err(unexpected_tag_view("Expected <event>, found "@ + name)), acc, after)
        } else {
            match event_spec(attributes) {
                Ok(e) => events_run(after, acc.push(e)),
                Err(e) => (Err(e), acc, after),
            }
        },
        Ok(EventView::EndElement(name)) => if name == "events"@ {
            (Ok(()), acc, after)
        } else {
            events_run(after, acc)
        },
        Ok(_) => (Err(unexpected_view(Some("Unexpected element in <event>"@))), acc, after),
    }
}

/// Reading an `<events>` section never lengthens the stream.
pub proof fn lemma_events_run_shrinks(s: StreamView, acc: Seq<EventDefView>)
    ensures
        events_run(s, acc).2.events.len() <= s.events.len(),
        events_run(s, acc).2.end == s.end,
    decreases s.events.len(),
{
    let (event, after) = step(s);
    match event {
        Ok(EventView::StartElement(name, attributes, _)) => if name == "event"@ {
            if let Ok(e) = event_spec(attributes) {
                lemma_events_run_shrinks(after, acc.push(e));
            }
        },
        Ok(EventView::EndElement(name)) => if name != "events"@ {
            lemma_events_run_shrinks(after, acc);
        },
        _ => {},
    }
}

/// A section of well-formed `<event>` elements closed by
/// `</events>` reads as exactly its items, in order, after those read
/// before; the stream is left right after the closing tag.
pub proof fn lemma_events_section(
    items: Seq<Seq<(Seq<char>, Seq<char>)>>,
    rest: Seq<EventView>,
    end: StreamEnd,
    ns: Seq<(Seq<char>, Seq<char>)>,
    acc: Seq<EventDefView>,
)
    requires
        forall|i: int| 0 <= i < items.len() ==> #[trigger] event_spec(items[i]) is Ok,
    ensures
        events_run(
            StreamView {
                events: element_events("event"@, items, ns) + seq![EventView::EndElement("events"@)] + rest,
                end,
            },
            acc,
        ) == (
            Ok::<(), ErrorView>(()),
            acc + items.map_values(|a: Seq<(Seq<char>, Seq<char>)>| event_spec(a)->Ok_0),
            StreamView { events: rest, end },
        ),
    decreases items.len(),
{
    reveal_strlit("event");
    reveal_strlit("events");
    let s = StreamView {
        events: element_events("event"@, items, ns) + seq![EventView::EndElement("events"@)] + rest,
        end,
    };
    let mapped = items.map_values(|a: Seq<(Seq<char>, Seq<char>)>| event_spec(a)->Ok_0);
    if items.len() == 0 {
        assert(s.events =~= seq![EventView::EndElement("events"@)] + rest);
        assert(s.rest().events =~= rest);
        assert(s.rest() == StreamView { events: rest, end });
        assert(acc + mapped =~= acc);
        assert(events_run(s, acc) == (Ok::<(), ErrorView>(()), acc, s.rest()));
    } else {
        let tail = items.drop_first();
        let later = StreamView {
            events: element_events("event"@, tail, ns) + seq![EventView::EndElement("events"@)] + rest,
            end,
        };
        assert(s.events[0] == EventView::StartElement("event"@, items[0], ns));
        assert(s.rest().events[0] == EventView::EndElement("event"@));
        assert(s.rest().rest().events =~= later.events);
        assert(event_spec(items[0]) is Ok);
        let item = event_spec(items[0])->Ok_0;
        assert forall|i: int| 0 <= i < tail.len() implies #[trigger] event_spec(tail[i]) is Ok by {
            assert(tail[i] == items[i + 1]);
        }
        assert("event"@.len() == 5 && "events"@.len() == 6) by {
            broadcast use vstd::string::group_string_axioms;
        }
        assert(s.rest().rest() == later);
        assert(events_run(s, acc) == events_run(s.rest(), acc.push(item)));
        assert(events_run(s.rest(), acc.push(item)) == events_run(later, acc.push(item)));
        lemma_events_section(tail, rest, end, ns, acc.push(item));
        assert(acc.push(item) + tail.map_values(|a: Seq<(Seq<char>, Seq<char>)>| event_spec(a)->Ok_0)
            =~= acc + mapped);
    }
}

/// An optional attribute: its value if present.
fn optional_attribute(attr: &Vec<Attribute>, name: &str) -> (r: Option<String>)
    ensures
        opt_text(r) == first_value(attributes_view(attr@), name@),
{
    match find_attribute(attr, name) {
        Ok(v) => Some(v),
        Err(_) => None,
    }
}

impl Event {
    /// Builds an event from the attributes of its element.
    pub fn from_attributes(attr: &Vec<Attribute>) -> (r: Result<Event, ManifestError>)
        ensures
            match r {
                Ok(e) => event_spec(attributes_view(attr@)) == Ok::<EventDefView, ErrorView>(e@),
                Err(e) => event_spec(attributes_view(attr@)) == Err::<EventDefView, ErrorView>(e@),
            },
    {
        reveal(event_spec);
        let value_str = find_attribute(attr, "value")?;
        let value: u16 = match parse_unsigned(value_str.as_str(), 10, 65535) {
            Some(v) => v as u16,
            None => {
                let mut d = String::from_str("found `");
                d.append(value_str.as_str());
                d.append("` expeced u16");
                return Err(ManifestError::new(ErrorKind::TypeParseError, d));
            },
        };
        let symbol = find_attribute(attr, "symbol")?;
        let version_str = find_attribute(attr, "version")?;
        let version: u8 = match parse_unsigned(version_str.as_str(), 10, 255) {
            Some(v) => v as u8,
            None => {
                let mut d = String::from_str("found `");
                let number = decimal_string(value as u64);
                d.append(number.as_str());
                d.append("` expected u8");
                return Err(ManifestError::new(ErrorKind::TypeParseError, d));
            },
        };
        let task = find_attribute(attr, "task")?;
        let opcode = optional_attribute(attr, "opcode");
        let level = find_attribute(attr, "level")?;
        let keywords = optional_attribute(attr, "keywords");
        let template = optional_attribute(attr, "template");
        Ok(Event { value, symbol, version, task, opcode, level, keywords, template })
    }

    /// The name of the function generated for this event's payload
    /// template, if it has one; the template id must be ASCII.
    pub fn template_function_name(&self) -> (r: Option<String>)
        requires
            self.template matches Some(t) ==> all_ascii(t@),
        ensures
            match self.template {
                None => r is None,
                Some(t) => r matches Some(n) && n@ == "parse_payload_"@ + function_name_of(t@),
            },
    {
        match &self.template {
            Some(t) => Some(payload_function_name(t)),
            None => None,
        }
    }

    /// Reads the events of an `<events>` section, whose opening tag has been
    /// read, into `vec`, up to and including the closing tag.
    pub fn parse_events(r: &mut EventStream, vec: &mut Vec<Event>) -> (res: Result<(), ManifestError>)
        ensures
            (unit_result_view(res), events_defs_view(final(vec)@), final(r)@) == events_run(
                old(r)@,
                events_defs_view(old(vec)@),
            ),
    {
        loop
            invariant
                events_run(r@, events_defs_view(vec@)) == events_run(
                    old(r)@,
                    events_defs_view(old(vec)@),
                ),
            decreases r@.events.len(),
        {
            let ghost before = vec@;
            match r.next()? {
                XmlEvent::StartElement { name, attributes, .. } => {
                    if !text_eq(name.as_str(), "event") {
                        let mut d = String::from_str("Expected <event>, found ");
                        d.append(name.as_str());
                        return Err(ManifestError::new_unexpected_tag(d));
                    }
                    let e = Event::from_attributes(&attributes)?;
                    vec.push(e);
                    assert(events_defs_view(vec@) =~= events_defs_view(before).push(e@));
                },
                XmlEvent::EndElement { name } => {
                    if text_eq(name.as_str(), "events") {
                        return Ok(());
                    }
                },
                _ => {
                    return Err(
                        ManifestError::new_unexpected(Some(String::from_str("Unexpected element in <event>"))),
                    )
                },
            }
        }
    }
}

} // verus!
