use win_etw_manifest::text::{decimal_string, parse_unsigned, text_eq};
use win_etw_manifest::{
    find_attribute, xml_match_end, xml_match_start, Attribute, ErrorKind, EventStream, ParseInTypeError, WinInType, XmlEvent,
};

#[test]
fn in_types_and_their_aliases() {
    assert_eq!(WinInType::from_str("win:Int8").unwrap(), WinInType::Int8);
    assert_eq!(WinInType::from_str("win:HexInt32").unwrap(), WinInType::UInt32);
    assert_eq!(WinInType::from_str("win:HexInt64").unwrap(), WinInType::UInt64);
    assert_eq!(WinInType::from_str("win:HexDump").unwrap(), WinInType::Binary);
    assert_eq!(WinInType::from_str("win:GUID").unwrap(), WinInType::Guid);
    assert_eq!(WinInType::from_str("win:SYSTEMTIME").unwrap(), WinInType::Systemtime);
    let err = WinInType::from_str("win:int8").unwrap_err();
    assert_eq!(err.0, "win:int8");
    assert_eq!(err.to_string(), "can't parse `win:int8` to a WinInType");
    let e = ParseInTypeError("x".to_string());
    assert_eq!(e.to_string(), "can't parse `x` to a WinInType");
}

#[test]
fn unsigned_numbers() {
    assert_eq!(parse_unsigned("+12", 10, 100), Some(12));
    assert_eq!(parse_unsigned("007", 10, 100), Some(7));
    assert_eq!(parse_unsigned("", 10, 100), None);
    assert_eq!(parse_unsigned("+", 10, 100), None);
    assert_eq!(parse_unsigned("-1", 10, 100), None);
    assert_eq!(parse_unsigned("101", 10, 100), None);
    assert_eq!(parse_unsigned("65535", 10, 65535), Some(65535));
    assert_eq!(parse_unsigned("65536", 10, 65535), None);
    assert_eq!(parse_unsigned("fF", 16, u64::MAX), Some(255));
    assert_eq!(parse_unsigned("ffffffffffffffff", 16, u64::MAX), Some(u64::MAX));
    assert_eq!(parse_unsigned("10000000000000000", 16, u64::MAX), None);
    assert_eq!(parse_unsigned("1g", 16, u64::MAX), None);
    assert_eq!(parse_unsigned("18446744073709551615", 10, u64::MAX), Some(u64::MAX));
}

#[test]
fn decimal_text_of_numbers() {
    assert_eq!(decimal_string(0), "0");
    assert_eq!(decimal_string(7), "7");
    assert_eq!(decimal_string(1234), "1234");
    assert_eq!(decimal_string(u64::MAX), "18446744073709551615");
}

#[test]
fn text_equality() {
    assert!(text_eq("abc", "abc"));
    assert!(!text_eq("abc", "abd"));
    assert!(!text_eq("abc", "ab"));
    assert!(text_eq("", ""));
}

#[test]
fn first_attribute_of_a_name_wins() {
    let attributes = vec![
        Attribute { name: "a".to_string(), value: "1".to_string() },
        Attribute { name: "a".to_string(), value: "2".to_string() },
    ];
    assert_eq!(find_attribute(&attributes, "a").unwrap(), "1");
    let err = find_attribute(&attributes, "b").unwrap_err();
    assert_eq!(err.kind(), ErrorKind::MissingAttribute);
    assert_eq!(err.description().map(|d| d.as_str()), Some("Missing attribute b"));
}

fn start(name: &str) -> XmlEvent {
    XmlEvent::StartElement { name: name.to_string(), attributes: Vec::new(), namespace: Vec::new() }
}

fn end(name: &str) -> XmlEvent {
    XmlEvent::EndElement { name: name.to_string() }
}

#[test]
fn stream_repeats_its_end() {
    let mut stream = EventStream::new(vec![start("a")], None, None);
    assert!(matches!(stream.next(), Ok(XmlEvent::StartElement { .. })));
    assert!(matches!(stream.next(), Ok(XmlEvent::EndDocument)));
    assert!(matches!(stream.next(), Ok(XmlEvent::EndDocument)));
}

#[test]
fn skip_passes_a_balanced_run() {
    let mut stream = EventStream::new(
        vec![start("b"), XmlEvent::Other, end("b"), start("c"), end("c"), end("a"), start("d")],
        None,
        None,
    );
    stream.skip().unwrap();
    match stream.next() {
        Ok(XmlEvent::StartElement { name, .. }) => assert_eq!(name, "d"),
        _ => panic!("expected the element after the skipped one"),
    }
}

#[test]
fn skip_to_the_end_of_the_document_fails() {
    let mut stream = EventStream::new(vec![start("b"), end("b")], None, None);
    let err = stream.skip().unwrap_err();
    assert_eq!(err.kind(), ErrorKind::Xml);
    assert!(err.source().is_none());
}

#[test]
fn skip_past_the_end_of_a_read_document_keeps_the_reader_error() {
    let mut stream = EventStream::from_document(b"<a></a>");
    assert!(matches!(stream.next(), Ok(XmlEvent::StartDocument)));
    let err = stream.skip().unwrap_err();
    assert_eq!(err.kind(), ErrorKind::Xml);
    assert!(err.source().is_some());
}

#[test]
fn missing_attribute_has_no_source() {
    let err = find_attribute(&Vec::new(), "name").unwrap_err();
    assert_eq!(err.kind(), ErrorKind::MissingAttribute);
    assert!(err.source().is_none());
}

#[test]
fn opening_tag_gives_attributes_and_namespace() {
    let mut stream = EventStream::from_document(b"<a xmlns=\"urn:x\" k=\"v\"></a>");
    stream.next().unwrap();
    let (attributes, namespace) = xml_match_start(&mut stream, "a").unwrap();
    assert_eq!(attributes.len(), 1);
    assert_eq!(attributes[0].name, "k");
    assert_eq!(attributes[0].value, "v");
    assert!(namespace.iter().any(|(prefix, uri)| prefix.is_empty() && uri == "urn:x"));
    xml_match_end(&mut stream, "a").unwrap();
}

#[test]
fn tag_readers_report_their_errors() {
    let mut stream = EventStream::from_document(b"<a><b/></a>");
    stream.next().unwrap();
    let err = xml_match_start(&mut stream, "x").unwrap_err();
    assert_eq!(err.kind(), ErrorKind::UnexpectedTag);
    assert_eq!(err.description().map(|d| d.as_str()), Some("Expected x, found a"));
    assert!(err.source().is_none());
    let err = xml_match_end(&mut stream, "b").unwrap_err();
    assert_eq!(err.kind(), ErrorKind::UnexpectedStructure);
    assert!(err.source().is_none());
    let err = xml_match_end(&mut stream, "c").unwrap_err();
    assert_eq!(err.kind(), ErrorKind::UnexpectedTag);
    assert_eq!(err.description().map(|d| d.as_str()), Some("b"));

    let mut broken = EventStream::from_document(b"<a><b></a>");
    broken.next().unwrap();
    xml_match_start(&mut broken, "a").unwrap();
    xml_match_start(&mut broken, "b").unwrap();
    let err = xml_match_end(&mut broken, "b").unwrap_err();
    assert_eq!(err.kind(), ErrorKind::Xml);
    assert!(err.source().is_some());
}

#[test]
fn in_type_variant_names() {
    assert_eq!(WinInType::Int8.variant_name(), "Int8");
    assert_eq!(WinInType::Guid.variant_name(), "Guid");
    assert_eq!(WinInType::Systemtime.variant_name(), "Systemtime");
    assert_eq!(WinInType::from_str("win:HexInt64").unwrap().variant_name(), "UInt64");
}

#[test]
fn stream_from_document_reports_reader_failure_after_events() {
    let mut stream = EventStream::from_document(b"<a><b></a>");
    assert!(matches!(stream.next(), Ok(XmlEvent::StartDocument)));
    assert!(matches!(stream.next(), Ok(XmlEvent::StartElement { .. })));
    assert!(matches!(stream.next(), Ok(XmlEvent::StartElement { .. })));
    assert_eq!(stream.next().unwrap_err().kind(), ErrorKind::Xml);
    assert_eq!(stream.next().unwrap_err().kind(), ErrorKind::Xml);
}

fn first_reader_error(doc: &[u8]) -> xml::reader::Error {
    let config = xml::ParserConfig::new().trim_whitespace(true).ignore_comments(true);
    let mut reader = xml::EventReader::new_with_config(doc, config);
    loop {
        match reader.next() {
            Ok(xml::reader::XmlEvent::EndDocument) => panic!("the document was expected to fail"),
            Ok(_) => {},
            Err(e) => return e,
        }
    }
}

#[test]
fn reader_failure_is_handed_out_as_the_source() {
    let doc: &[u8] = b"<a><b></a>";
    let expected = first_reader_error(doc);
    let mut stream = EventStream::from_document(doc);
    stream.next().unwrap();
    xml_match_start(&mut stream, "a").unwrap();
    xml_match_start(&mut stream, "b").unwrap();
    let err = xml_match_end(&mut stream, "b").unwrap_err();
    assert_eq!(err.kind(), ErrorKind::Xml);
    assert_eq!(err.source(), Some(&expected));
    let again = xml_match_start(&mut stream, "c").unwrap_err();
    assert_eq!(again.source(), Some(&expected));
}
