//! Keywords of a provider.

use vstd::prelude::*;
use vstd::string::*;
use crate::error::{ErrorKind, ErrorView, ManifestError, error_view, unexpected_tag_view, unexpected_view};
use crate::reading::{find_attribute, find_attribute_spec, first_value};
use crate::text::{lemma_written_number_reads_back, parse_unsigned, radix_text, text_eq, unsigned_value};
use crate::xml_stream::{
    StreamEnd,
    element_events,
    Attribute, EventStream, EventView, StreamView, XmlEvent, attributes_view, step, unit_result_view,
};

verus! {

/// A keyword defined by a provider
#[derive(Debug)]
pub struct Keyword {
    /// Name of the keyword
    pub name: String,
    /// Bit mask of the keyword
    pub mask: u64,
}

/// A keyword as the contracts see it.
pub struct KeywordView {
    pub name: Seq<char>,
    pub mask: u64,
}

impl View for Keyword {
    type V = KeywordView;

    open spec fn view(&self) -> KeywordView {
        KeywordView { name: self.name@, mask: self.mask }
    }
}

/// The keywords of a sequence as the contracts see them.
pub open spec fn keywords_view(v: Seq<Keyword>) -> Seq<KeywordView> {
    v.map_values(|k: Keyword| k@)
}

/// The value of a mask written as `0x` followed by hexadecimal digits (an
/// optional `+` between them), no greater than `u64::MAX`.
pub open spec fn mask_value(m: Seq<char>) -> Option<u64> {
    if m.len() >= 2 && m[0] == '0' && m[1] == 'x' {
        match unsigned_value(m.skip(2), 16, u64::MAX as int) {
            Some(v) => Some(v as u64),
            None => None,
        }
    } else {
        None
    }
}

/// Every 64-bit mask reads back: `0x` followed by the hexadecimal digits
/// of `v` is the mask `v`, for every `u64` (the high bits included).
pub proof fn lemma_mask_reads_every_u64(v: u64)
    ensures
        mask_value("0x"@ + radix_text(v as nat, 16)) == Some(v),
{
    reveal_strlit("0x");
    let m = "0x"@ + radix_text(v as nat, 16);
    assert(m.skip(2) =~= radix_text(v as nat, 16));
    lemma_written_number_reads_back(v as nat, 16, u64::MAX as int);
}

/// What a `<keyword>` element's attributes give: its `name` and its `mask`,
/// read as a hexadecimal mask; a missing attribute is reported first for
/// `name`, then for `mask`, and an unreadable mask is a `TypeParseError`
/// without description.
pub open spec fn keyword_spec(attributes: Seq<(Seq<char>, Seq<char>)>) -> Result<KeywordView, ErrorView> {
    match find_attribute_spec(attributes, "name"@) {
        Err(e) => Err(e),
        Ok(name) => match find_attribute_spec(attributes, "mask"@) {
            Err(e) => Err(e),
            Ok(m) => match mask_value(m) {
                Some(mask) => Ok(KeywordView { name, mask }),
                None => Err(error_view(ErrorKind::TypeParseError, None)),
            },
        },
    }
}

/// A keyword named `name` whose `mask` is `0x` followed by the hexadecimal
/// digits of `v` has the mask `v`, for every `u64`.
pub proof fn lemma_keyword_mask(attributes: Seq<(Seq<char>, Seq<char>)>, name: Seq<char>, v: u64)
    requires
        first_value(attributes, "name"@) == Some(name),
        first_value(attributes, "mask"@) == Some("0x"@ + radix_text(v as nat, 16)),
    ensures
        keyword_spec(attributes) == Ok::<KeywordView, ErrorView>(KeywordView { name, mask: v }),
{
    lemma_mask_reads_every_u64(v);
}

/// What reading the rest of a `<keywords>` section gives, the keywords read
/// so far being `acc`: each `<keyword>` element adds a keyword; closing tags
/// other than `</keywords>` are passed over; `</keywords>` ends the section.
/// Any other element, any other event, or a bad keyword is an error.
pub open spec fn keywords_run(s: StreamView, acc: Seq<KeywordView>) -> (
    Result<(), ErrorView>,
    Seq<KeywordView>,
    StreamView,
)
    decreases s.events.len(),
{
    let (event, after) = step(s);
    match event {
        Err(e) => (Err(e), acc, after),
        Ok(EventView::StartElement(name, attributes, _)) => if name != "keyword"@ {
            (Err(unexpected_tag_view("Expected <keyword>, found "@ + name)), acc, after)
        } else {
            match keyword_spec(attributes) {
                Ok(k) => keywords_run(after, acc.push(k)),
                Err(e) => (Err(e), acc, after),
            }
        },
        Ok(EventView::EndElement(name)) => if name == "keywords"@ {
            (Ok(()), acc, after)
        } else {
            keywords_run(after, acc)
        },
        Ok(_) => (Err(unexpected_view(None)), acc, after),
    }
}

/// Reading a `<keywords>` section never lengthens the stream.
pub proof fn lemma_keywords_run_shrinks(s: StreamView, acc: Seq<KeywordView>)
    ensures
        keywords_run(s, acc).2.events.len() <= s.events.len(),
        keywords_run(s, acc).2.end == s.end,
    decreases s.events.len(),
{
    let (event, after) = step(s);
    match event {
        Ok(EventView::StartElement(name, attributes, _)) => if name == "keyword"@ {
            if let Ok(k) = keyword_spec(attributes) {
                lemma_keywords_run_shrinks(after, acc.push(k));
            }
        },
        Ok(EventView::EndElement(name)) => if name != "keywords"@ {
            lemma_keywords_run_shrinks(after, acc);
        },
        _ => {},
    }
}

/// A section of well-formed `<keyword>` elements closed by
/// `</keywords>` reads as exactly its items, in order, after those read
/// before; the stream is left right after the closing tag.
pub proof fn lemma_keywords_section(
    items: Seq<Seq<(Seq<char>, Seq<char>)>>,
    rest: Seq<EventView>,
    end: StreamEnd,
    ns: Seq<(Seq<char>, Seq<char>)>,
    acc: Seq<KeywordView>,
)
    requires
        forall|i: int| 0 <= i < items.len() ==> #[trigger] keyword_spec(items[i]) is Ok,
    ensures
        keywords_run(
            StreamView {
                events: element_events("keyword"@, items, ns) + seq![EventView::EndElement("keywords"@)] + rest,
                end,
            },
            acc,
        ) == (
            Ok::<(), ErrorView>(()),
            acc + items.map_values(|a: Seq<(Seq<char>, Seq<char>)>| keyword_spec(a)->Ok_0),
            StreamView { events: rest, end },
        ),
    decreases items.len(),
{
    reveal_strlit("keyword");
    reveal_strlit("keywords");
    let s = StreamView {
        events: element_events("keyword"@, items, ns) + seq![EventView::EndElement("keywords"@)] + rest,
        end,
    };
    let mapped = items.map_values(|a: Seq<(Seq<char>, Seq<char>)>| keyword_spec(a)->Ok_0);
    if items.len() == 0 {
        assert(s.events =~= seq![EventView::EndElement("keywords"@)] + rest);
        assert(s.rest().events =~= rest);
        assert(s.rest() == StreamView { events: rest, end });
        assert(acc + mapped =~= acc);
        assert(keywords_run(s, acc) == (Ok::<(), ErrorView>(()), acc, s.rest()));
    } else {
        let tail = items.drop_first();
        let later = StreamView {
            events: element_events("keyword"@, tail, ns) + seq![EventView::EndElement("keywords"@)] + rest,
            end,
        };
        assert(s.events[0] == EventView::StartElement("keyword"@, items[0], ns));
        assert(s.rest().events[0] == EventView::EndElement("keyword"@));
        assert(s.rest().rest().events =~= later.events);
        assert(keyword_spec(items[0]) is Ok);
        let item = keyword_spec(items[0])->Ok_0;
        assert forall|i: int| 0 <= i < tail.len() implies #[trigger] keyword_spec(tail[i]) is Ok by {
            assert(tail[i] == items[i + 1]);
        }
        assert("keyword"@.len() == 7 && "keywords"@.len() == 8) by {
            broadcast use vstd::string::group_string_axioms;
        }
        assert(s.rest().rest() == later);
        assert(keywords_run(s, acc) == keywords_run(s.rest(), acc.push(item)));
        assert(keywords_run(s.rest(), acc.push(item)) == keywords_run(later, acc.push(item)));
        lemma_keywords_section(tail, rest, end, ns, acc.push(item));
        assert(acc.push(item) + tail.map_values(|a: Seq<(Seq<char>, Seq<char>)>| keyword_spec(a)->Ok_0)
            =~= acc + mapped);
    }
}

impl Keyword {
    /// Builds a keyword from the attributes of its element.
    pub fn from_attributes(attr: &Vec<Attribute>) -> (r: Result<Keyword, ManifestError>)
        ensures
            match r {
                Ok(k) => keyword_spec(attributes_view(attr@)) == Ok::<KeywordView, ErrorView>(k@),
                Err(e) => keyword_spec(attributes_view(attr@)) == Err::<KeywordView, ErrorView>(e@),
            },
    {
        let name = find_attribute(attr, "name")?;
        let mask_str = find_attribute(attr, "mask")?;
        let n = mask_str.as_str().unicode_len();
        if n < 2 || mask_str.as_str().get_char(0) != '0' || mask_str.as_str().get_char(1) != 'x' {
            return Err(ManifestError::new_with_kind(ErrorKind::TypeParseError));
        }
        let hex = mask_str.as_str().substring_char(2, n);
        assert(hex@ =~= mask_str@.skip(2));
        match parse_unsigned(hex, 16, u64::MAX) {
            Some(mask) => Ok(Keyword { name, mask }),
            None => Err(ManifestError::new_with_kind(ErrorKind::TypeParseError)),
        }
    }

    /// Reads the keywords of a `<keywords>` section, whose opening tag has
    /// been read, into `vec`, up to and including the closing tag.
    pub fn parse_keywords(r: &mut EventStream, vec: &mut Vec<Keyword>) -> (res: Result<(), ManifestError>)
        ensures
            (unit_result_view(res), keywords_view(final(vec)@), final(r)@) == keywords_run(
                old(r)@,
                keywords_view(old(vec)@),
            ),
    {
        loop
            invariant
                keywords_run(r@, keywords_view(vec@)) == keywords_run(
                    old(r)@,
                    keywords_view(old(vec)@),
                ),
            decreases r@.events.len(),
        {
            let ghost before = vec@;
            match r.next()? {
                XmlEvent::StartElement { name, attributes, .. } => {
                    if !text_eq(name.as_str(), "keyword") {
                        let mut d = String::from_str("Expected <keyword>, found ");
                        d.append(name.as_str());
                        return Err(ManifestError::new_unexpected_tag(d));
                    }
                    let k = Keyword::from_attributes(&attributes)?;
                    vec.push(k);
                    assert(keywords_view(vec@) =~= keywords_view(before).push(k@));
                },
                XmlEvent::EndElement { name } => {
                    if text_eq(name.as_str(), "keywords") {
                        return Ok(());
                    }
                },
                _ => return Err(ManifestError::new_unexpected(None)),
            }
        }
    }
}

} // verus!
