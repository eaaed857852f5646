//! The provider that a manifest describes.

use vstd::prelude::*;
use vstd::string::*;
use crate::error::{ErrorKind, ManifestError, error_view, unexpected_tag_view, unexpected_view};
use crate::event::{Event, EventDefView, events_defs_view, events_run, lemma_events_run_shrinks};
use crate::keyword::{Keyword, KeywordView, keywords_run, keywords_view, lemma_keywords_run_shrinks};
use crate::reading::{find_attribute, find_attribute_spec, match_start_run, xml_match_start};
use crate::task::{Task, TaskView, lemma_tasks_run_shrinks, tasks_run, tasks_view};
use crate::template::{
    Halt, Outcome, Template, TemplateView, halt_view, lemma_templates_run_shrinks, templates_run,
    templates_view,
};
use crate::text::{all_digits, ascii_lower, ascii_upper, digits_value, push_char, text_eq};
use crate::template::all_ascii;
use crate::xml_stream::{
    EventStream, EventView, StreamView, XmlEvent, lemma_skip_run_shrinks, skip_run, step,
    };

verus! {

/// The 32 hexadecimal digits of a GUID written in the hyphenated form.
pub open spec fn hyphenated_digits(s: Seq<char>) -> Seq<char> {
    s.subrange(0, 8) + s.subrange(9, 13) + s.subrange(14, 18) + s.subrange(19, 23) + s.subrange(
        24,
        36,
    )
}

/// A GUID in the hyphenated form `xxxxxxxx-xxxx-xxxx-xxxx-xxxxxxxxxxxx` of
/// hexadecimal digits.
pub open spec fn is_hyphenated_guid(s: Seq<char>) -> bool {
    &&& s.len() == 36
    &&& s[8] == '-' && s[13] == '-' && s[18] == '-' && s[23] == '-'
    &&& all_digits(hyphenated_digits(s), 16)
}

/// The number that the 32 hexadecimal digits of a hyphenated GUID write,
/// most significant first.
pub open spec fn hyphenated_value(s: Seq<char>) -> u128 {
    digits_value(hyphenated_digits(s), 16) as u128
}

/// The prefix `urn:uuid:`, letters in either case.
pub open spec fn is_urn_prefix(p: Seq<char>) -> bool {
    &&& p.len() == 9
    &&& ascii_lower(p[0]) == 'u' && ascii_lower(p[1]) == 'r' && ascii_lower(p[2]) == 'n'
    &&& p[3] == ':'
    &&& ascii_lower(p[4]) == 'u' && ascii_lower(p[5]) == 'u' && ascii_lower(p[6]) == 'i'
    &&& ascii_lower(p[7]) == 'd'
    &&& p[8] == ':'
}

/// The GUID that a text gives, as a 128-bit number, in the four forms that
/// `uuid::Uuid::parse_str` reads, hexadecimal digits in either case:
/// 32 digits; the hyphenated form `xxxxxxxx-xxxx-xxxx-xxxx-xxxxxxxxxxxx`;
/// the hyphenated form between `{` and `}`; and `urn:uuid:` followed by the
/// hyphenated form. Any other text gives no GUID.
pub open spec fn guid_of(s: Seq<char>) -> Option<u128> {
    if s.len() == 32 {
        if all_digits(s, 16) {
            Some(digits_value(s, 16) as u128)
        } else {
            None
        }
    } else if s.len() == 36 {
        if is_hyphenated_guid(s) {
            Some(hyphenated_value(s))
        } else {
            None
        }
    } else if s.len() == 38 && s[0] == '{' && s[37] == '}' {
        if is_hyphenated_guid(s.subrange(1, 37)) {
            Some(hyphenated_value(s.subrange(1, 37)))
        } else {
            None
        }
    } else if s.len() == 45 && is_urn_prefix(s.take(9)) && is_hyphenated_guid(s.skip(9)) {
        Some(hyphenated_value(s.skip(9)))
    } else {
        None
    }
}

/// Trusted: `uuid::Uuid::parse_str`, the parsed GUID taken as a `u128` by
/// `Uuid::as_u128` (the 16 bytes, most significant first). It reads the four
/// forms of `guid_of` and nothing else; a text that is not ASCII is never one
/// of them.
#[verifier::external_body]
fn parse_guid(s: &str) -> (r: Option<u128>)
    ensures
        r == guid_of(s@),
{
    uuid::Uuid::parse_str(s).ok().map(|u| u.as_u128())
}

/// A instrumentation provider parsed from a instrumentation manifest
#[derive(Debug)]
#[non_exhaustive]
pub struct Provider {
    /// The name of the provider
    pub name: String,
    /// The GUID of the provider, as a 128-bit number
    pub guid: u128,
    /// The symbol(-name) of the provider
    pub symbol: String,
    /// Keywords defined for this provider
    pub keywords: Vec<Keyword>,
    /// Tasks defined for this provider
    pub tasks: Vec<Task>,
    /// Events
    pub events: Vec<Event>,
    /// Templates for event payloads
    pub templates: Vec<Template>,
}

/// The sections of a provider as the contracts see them.
pub struct PartsView {
    pub keywords: Seq<KeywordView>,
    pub tasks: Seq<TaskView>,
    pub events: Seq<EventDefView>,
    pub templates: Seq<TemplateView>,
}

/// A provider as the contracts see it.
pub struct ProviderView {
    pub name: Seq<char>,
    pub guid: u128,
    pub symbol: Seq<char>,
    pub parts: PartsView,
}

impl View for Provider {
    type V = ProviderView;

    open spec fn view(&self) -> ProviderView {
        ProviderView {
            name: self.name@,
            guid: self.guid,
            symbol: self.symbol@,
            parts: parts_view(self.keywords@, self.tasks@, self.events@, self.templates@),
        }
    }
}

/// The sections read so far, as the contracts see them.
pub open spec fn parts_view(
    keywords: Seq<Keyword>,
    tasks: Seq<Task>,
    events: Seq<Event>,
    templates: Seq<Template>,
) -> PartsView {
    PartsView {
        keywords: keywords_view(keywords),
        tasks: tasks_view(tasks),
        events: events_defs_view(events),
        templates: templates_view(templates),
    }
}

/// No sections read yet.
pub open spec fn no_parts() -> PartsView {
    PartsView { keywords: seq![], tasks: seq![], events: seq![], templates: seq![] }
}

/// The sections of a provider that are skipped whole.
pub open spec fn is_skipped_section(name: Seq<char>) -> bool {
    name == "maps"@ || name == "channels"@ || name == "levels"@ || name == "opcodes"@ || name
        == "filters"@
}

/// What reading the rest of a `<provider>` element gives, the sections read
/// so far being `acc`: `<keywords>`, `<tasks>`, `<events>` and `<templates>`
/// sections add to their lists (a section may come more than once); `<maps>`,
/// `<channels>`, `<levels>`, `<opcodes>` and `<filters>` are skipped whole;
/// `</provider>` ends the provider. Any other element, another closing tag,
/// any other event, or an error in a section is an error.
pub open spec fn provider_body_run(s: StreamView, acc: PartsView) -> (Outcome<()>, PartsView, StreamView)
    decreases s.events.len(),
{
    let (event, after) = step(s);
    match event {
        Err(e) => (Outcome::Failed(e), acc, after),
        Ok(EventView::StartElement(name, _, _)) => if name == "keywords"@ {
            let (r, list, rest) = keywords_run(after, acc.keywords);
            let acc2 = PartsView { keywords: list, ..acc };
            proof {
                lemma_keywords_run_shrinks(after, acc.keywords);
            }
            match r {
                Ok(_) => provider_body_run(rest, acc2),
                Err(e) => (Outcome::Failed(e), acc2, rest),
            }
        } else if name == "tasks"@ {
            let (r, list, rest) = tasks_run(after, acc.tasks);
            let acc2 = PartsView { tasks: list, ..acc };
            proof {
                lemma_tasks_run_shrinks(after, acc.tasks);
            }
            match r {
                Ok(_) => provider_body_run(rest, acc2),
                Err(e) => (Outcome::Failed(e), acc2, rest),
            }
        } else if name == "events"@ {
            let (r, list, rest) = events_run(after, acc.events);
            let acc2 = PartsView { events: list, ..acc };
            proof {
                lemma_events_run_shrinks(after, acc.events);
            }
            match r {
                Ok(_) => provider_body_run(rest, acc2),
                Err(e) => (Outcome::Failed(e), acc2, rest),
            }
        } else if name == "templates"@ {
            let (r, list, rest) = templates_run(after, acc.templates);
            let acc2 = PartsView { templates: list, ..acc };
            proof {
                lemma_templates_run_shrinks(after, acc.templates);
            }
            match r {
                Outcome::Done(_) => provider_body_run(rest, acc2),
                Outcome::Failed(e) => (Outcome::Failed(e), acc2, rest),
                Outcome::Unsupported => (Outcome::Unsupported, acc2, rest),
            }
        } else if is_skipped_section(name) {
            let (r, rest) = skip_run(after, 1);
            proof {
                lemma_skip_run_shrinks(after, 1);
            }
            match r {
                Ok(_) => provider_body_run(rest, acc),
                Err(e) => (Outcome::Failed(e), acc, rest),
            }
        } else {
            (Outcome::Failed(unexpected_tag_view(name)), acc, after)
        },
        Ok(EventView::EndElement(name)) => if name == "provider"@ {
            (Outcome::Done(()), acc, after)
        } else {
            (
                Outcome::Failed(
                    error_view(
                        ErrorKind::UnexpectedStructure,
                        Some("Unexpeced end tag in <provider> ("@ + name + ")"@),
                    ),
                ),
                acc,
                after,
            )
        },
        Ok(_) => (Outcome::Failed(unexpected_view(None)), acc, after),
    }
}

/// What reading a `<provider>` element gives: its opening tag with the
/// attributes `name`, `guid` and `symbol` (a missing one reported in this
/// order), the GUID read as `guid_of` says, then its sections up to `</provider>`.
pub open spec fn provider_run(s: StreamView) -> (Outcome<ProviderView>, StreamView) {
    let (m, s1) = match_start_run(s, "provider"@);
    match m {
        Err(e) => (Outcome::Failed(e), s1),
        Ok((attributes, _)) => match find_attribute_spec(attributes, "name"@) {
            Err(e) => (Outcome::Failed(e), s1),
            Ok(name) => match find_attribute_spec(attributes, "guid"@) {
                Err(e) => (Outcome::Failed(e), s1),
                Ok(guid_text) => match find_attribute_spec(attributes, "symbol"@) {
                    Err(e) => (Outcome::Failed(e), s1),
                    Ok(symbol) => match guid_of(guid_text) {
                        None => (
                            Outcome::Failed(
                                error_view(
                                    ErrorKind::TypeParseError,
                                    Some("failed to parse GUID from `"@ + guid_text + "`"@),
                                ),
                            ),
                            s1,
                        ),
                        Some(guid) => {
                            let (r, parts, s2) = provider_body_run(s1, no_parts());
                            match r {
                                Outcome::Done(_) => (
                                    Outcome::Done(ProviderView { name, guid, symbol, parts }),
                                    s2,
                                ),
                                Outcome::Failed(e) => (Outcome::Failed(e), s2),
                                Outcome::Unsupported => (Outcome::Unsupported, s2),
                            }
                        },
                    },
                },
            },
        },
    }
}

/// The text in upper case, as `str::to_uppercase` gives it (by the Unicode
/// property `Uppercase`).
pub uninterp spec fn uppercase_of(s: Seq<char>) -> Seq<char>;

/// Trusted: `str::to_uppercase`. The result is named `uppercase_of`; an ASCII
/// text has each letter `a` to `z` turned into `A` to `Z` and nothing else
/// changed.
#[verifier::external_body]
fn to_uppercase(s: &str) -> (r: String)
    ensures
        r@ == uppercase_of(s@),
        all_ascii(s@) ==> r@ == s@.map_values(|c: char| ascii_upper(c)),
{
    s.to_uppercase()
}

/// What a character of the upper case provider name becomes in the name of
/// its GUID constant: `-` turns into `_`, a space is dropped.
pub open spec fn constant_piece(c: char) -> Seq<char> {
    if c == '-' {
        seq!['_']
    } else if c == ' ' {
        seq![]
    } else {
        seq![c]
    }
}

/// The first `n` characters of a text turned into a constant name.
pub open spec fn constant_prefix(s: Seq<char>, n: nat) -> Seq<char>
    decreases n,
{
    if n == 0 {
        seq![]
    } else {
        constant_prefix(s, (n - 1) as nat) + constant_piece(s[n - 1])
    }
}

/// The name of the GUID constant of a provider called `name`: the name in
/// upper case, `-` turned into `_`, spaces dropped, then `_GUID`.
pub open spec fn guid_constant_name_of(name: Seq<char>) -> Seq<char> {
    let u = uppercase_of(name);
    constant_prefix(u, u.len()) + "_GUID"@
}

/// A name that is one of the skipped sections.
fn is_one_of_skipped(name: &str) -> (b: bool)
    ensures
        b == is_skipped_section(name@),
{
    text_eq(name, "maps") || text_eq(name, "channels") || text_eq(name, "levels") || text_eq(
        name,
        "opcodes",
    ) || text_eq(name, "filters")
}

impl Provider {
    /// Reads a `<provider>` element, or tells that a template item has a
    /// character in-type.
    pub fn read(r: &mut EventStream) -> (res: Result<Provider, Halt>)
        ensures
            (halt_view(res, |p: Provider| p@), final(r)@) == provider_run(old(r)@),
    {
        let attributes = match xml_match_start(r, "provider") {
            Ok((a, _)) => a,
            Err(e) => return Err(Halt::Failed(e)),
        };
        let ghost s1 = r@;
        let name = match find_attribute(&attributes, "name") {
            Ok(v) => v,
            Err(e) => return Err(Halt::Failed(e)),
        };
        let guid_str = match find_attribute(&attributes, "guid") {
            Ok(v) => v,
            Err(e) => return Err(Halt::Failed(e)),
        };
        let symbol = match find_attribute(&attributes, "symbol") {
            Ok(v) => v,
            Err(e) => return Err(Halt::Failed(e)),
        };
        let guid = match parse_guid(guid_str.as_str()) {
            Some(g) => g,
            None => {
                let mut d = String::from_str("failed to parse GUID from `");
                d.append(guid_str.as_str());
                d.append("`");
                return Err(Halt::Failed(ManifestError::new(ErrorKind::TypeParseError, d)));
            },
        };
        let mut keywords: Vec<Keyword> = Vec::new();
        let mut tasks: Vec<Task> = Vec::new();
        let mut events: Vec<Event> = Vec::new();
        let mut templates: Vec<Template> = Vec::new();
        assert(parts_view(keywords@, tasks@, events@, templates@) =~= no_parts()) by {
            assert(keywords_view(keywords@) =~= seq![]);
            assert(tasks_view(tasks@) =~= seq![]);
            assert(events_defs_view(events@) =~= seq![]);
            assert(templates_view(templates@) =~= seq![]);
        }
        loop
            invariant
                provider_body_run(r@, parts_view(keywords@, tasks@, events@, templates@))
                    == provider_body_run(s1, no_parts()),
                provider_run(old(r)@) == ({
                    let (o, parts, s2) = provider_body_run(s1, no_parts());
                    match o {
                        Outcome::Done(_) => (
                            Outcome::Done(
                                ProviderView { name: name@, guid, symbol: symbol@, parts },
                            ),
                            s2,
                        ),
                        Outcome::Failed(e) => (Outcome::Failed(e), s2),
                        Outcome::Unsupported => (Outcome::Unsupported, s2),
                    }
                }),
            decreases r@.events.len(),
        {
            let ghost after_next = step(r@).1;
            let ghost parts = parts_view(keywords@, tasks@, events@, templates@);
            let event = match r.next() {
                Ok(e) => e,
                Err(e) => return Err(Halt::Failed(e)),
            };
            match event {
                XmlEvent::StartElement { name: section, .. } => {
                    if text_eq(section.as_str(), "keywords") {
                        proof {
                            lemma_keywords_run_shrinks(after_next, parts.keywords);
                        }
                        match Keyword::parse_keywords(r, &mut keywords) {
                            Ok(()) => {},
                            Err(e) => return Err(Halt::Failed(e)),
                        }
                    } else if text_eq(section.as_str(), "tasks") {
                        proof {
                            lemma_tasks_run_shrinks(after_next, parts.tasks);
                        }
                        match Task::parse_tasks(r, &mut tasks) {
                            Ok(()) => {},
                            Err(e) => return Err(Halt::Failed(e)),
                        }
                    } else if text_eq(section.as_str(), "events") {
                        proof {
                            lemma_events_run_shrinks(after_next, parts.events);
                        }
                        match Event::parse_events(r, &mut events) {
                            Ok(()) => {},
                            Err(e) => return Err(Halt::Failed(e)),
                        }
                    } else if text_eq(section.as_str(), "templates") {
                        proof {
                            lemma_templates_run_shrinks(after_next, parts.templates);
                        }
                        Template::read_templates(r, &mut templates)?;
                    } else if is_one_of_skipped(section.as_str()) {
                        proof {
                            lemma_skip_run_shrinks(after_next, 1);
                        }
                        match r.skip() {
                            Ok(()) => {},
                            Err(e) => return Err(Halt::Failed(e)),
                        }
                    } else {
                        return Err(Halt::Failed(ManifestError::new_unexpected_tag(section)));
                    }
                },
                XmlEvent::EndElement { name: closing } => {
                    if text_eq(closing.as_str(), "provider") {
                        return Ok(Provider { name, guid, symbol, keywords, tasks, events, templates });
                    }
                    let mut d = String::from_str("Unexpeced end tag in <provider> (");
                    d.append(closing.as_str());
                    d.append(")");
                    return Err(Halt::Failed(ManifestError::new(ErrorKind::UnexpectedStructure, d)));
                },
                _ => return Err(Halt::Failed(ManifestError::new_unexpected(None))),
            }
        }
    }

    /// The name of the constant that holds this provider's GUID.
    pub fn guid_constant_name(&self) -> (r: String)
        ensures
            r@ == guid_constant_name_of(self.name@),
            all_ascii(self.name@) ==> r@ == constant_prefix(
                self.name@.map_values(|c: char| ascii_upper(c)),
                self.name@.len(),
            ) + "_GUID"@,
    {
        let upper = to_uppercase(self.name.as_str());
        let u = upper.as_str();
        let n = u.unicode_len();
        let mut out = String::new();
        let mut i: usize = 0;
        while i < n
            invariant
                n == u@.len(),
                i <= n,
                out@ == constant_prefix(u@, i as nat),
            decreases n - i,
        {
            let c = u.get_char(i);
            let ghost before = out@;
            if c == '-' {
                push_char(&mut out, '_');
            } else if c != ' ' {
                push_char(&mut out, c);
            }
            assert(out@ =~= before + constant_piece(c));
            i = i + 1;
        }
        out.append("_GUID");
        out
    }

    /// Reads a `<provider>` element.
    pub fn parse(r: &mut EventStream) -> (res: Result<Provider, ManifestError>)
        requires
            !(provider_run(old(r)@).0 is Unsupported),
        ensures
            match res {
                Ok(p) => provider_run(old(r)@).0 == Outcome::<ProviderView>::Done(p@),
                Err(e) => provider_run(old(r)@).0 == Outcome::<ProviderView>::Failed(e@),
            },
            final(r)@ == provider_run(old(r)@).1,
    {
        match Provider::read(r) {
            Ok(p) => Ok(p),
            Err(Halt::Failed(e)) => Err(e),
            Err(Halt::Unsupported) => {
                proof {
                    assert(false);
                }
                Err(ManifestError::new_with_kind(ErrorKind::UnexpectedStructure))
            },
        }
    }
}

} // verus!
