use win_etw_manifest::{parse, try_parse, ErrorKind, WinInType};

const MANIFEST: &str = r#"<?xml version="1.0" encoding="UTF-8"?>
<instrumentationManifest xmlns="http://schemas.microsoft.com/win/2004/08/events">
  <metadata>
    <channels><channel name="Application" value="9"/></channels>
  </metadata>
  <instrumentation>
    <events>
      <provider name="Microsoft-Windows-Kernel-Process" guid="{22fb2cd6-0e7b-422b-a0c7-2fad1fd0e716}" symbol="Microsoft_Windows_Kernel_Process" resourceFileName="x" messageFileName="y">
        <keywords>
          <keyword name="WINEVENT_KEYWORD_PROCESS" mask="0x10" />
          <keyword name="WINEVENT_KEYWORD_THREAD" mask="0x20" />
        </keywords>
        <tasks>
          <task name="ProcessStart" value="1" />
          <task name="ProcessStop" value="2" />
        </tasks>
        <maps>
          <valueMap name="Map1"><map value="1" message="one"/></valueMap>
        </maps>
        <events>
          <event value="1" symbol="ProcessStart" version="0" task="ProcessStart" opcode="win:Start" level="win:Informational" keywords="WINEVENT_KEYWORD_PROCESS" template="ProcessStartArgs" />
          <event value="2" symbol="ProcessStop" version="1" task="ProcessStop" level="win:Informational" />
        </events>
        <templates>
          <template tid="ProcessStartArgs" name="Start">
            <data name="ProcessID" inType="win:UInt32" />
            <data name="Payload" inType="win:Binary" length="Size" />
            <data name="Flags" inType="win:HexInt32" />
          </template>
        </templates>
      </provider>
    </events>
  </instrumentation>
  <localization/>
</instrumentationManifest>
"#;

#[test]
fn parses_a_whole_manifest() {
    let provider = parse(MANIFEST.as_bytes()).unwrap();
    assert_eq!(provider.name, "Microsoft-Windows-Kernel-Process");
    assert_eq!(provider.symbol, "Microsoft_Windows_Kernel_Process");
    assert_eq!(provider.guid, 0x22fb2cd6_0e7b_422b_a0c7_2fad1fd0e716);
    assert_eq!(provider.keywords.len(), 2);
    assert_eq!(provider.keywords[1].mask, 0x20);
    assert_eq!(provider.tasks.len(), 2);
    assert_eq!(provider.tasks[1].value, 2);
    assert_eq!(provider.events.len(), 2);
    assert_eq!(provider.events[1].opcode, None);
    assert_eq!(provider.events[1].template, None);
    assert_eq!(provider.events[1].version, 1);
    assert_eq!(provider.templates.len(), 1);
    let template = &provider.templates[0];
    assert_eq!(template.name.as_deref(), Some("Start"));
    assert_eq!(template.data.len(), 3);
    assert_eq!(template.data[1].in_type, WinInType::Binary);
    assert_eq!(template.data[1].length.as_deref(), Some("Size"));
    assert_eq!(template.data[2].in_type, WinInType::UInt32);
}

#[test]
fn guid_constant_name_of_provider() {
    let provider = parse(MANIFEST.as_bytes()).unwrap();
    assert_eq!(provider.guid_constant_name(), "MICROSOFT_WINDOWS_KERNEL_PROCESS_GUID");
}

#[test]
fn hyphenated_guid_without_braces() {
    let doc = MANIFEST.replace("{22fb2cd6-0e7b-422b-a0c7-2fad1fd0e716}", "00000000-0000-0000-0000-0000000000AB");
    assert_eq!(parse(doc.as_bytes()).unwrap().guid, 0xab);
}

#[test]
fn bad_guid_is_a_type_error() {
    let doc = MANIFEST.replace("{22fb2cd6-0e7b-422b-a0c7-2fad1fd0e716}", "not-a-guid");
    let err = parse(doc.as_bytes()).unwrap_err();
    assert_eq!(err.kind(), ErrorKind::TypeParseError);
    assert_eq!(err.description().map(|d| d.as_str()), Some("failed to parse GUID from `not-a-guid`"));
    assert_eq!(err.to_string(), "TypeParseError: failed to parse GUID from `not-a-guid`");
}

#[test]
fn missing_provider_attribute() {
    let doc = MANIFEST.replace(" symbol=\"Microsoft_Windows_Kernel_Process\"", "");
    let err = parse(doc.as_bytes()).unwrap_err();
    assert_eq!(err.kind(), ErrorKind::MissingAttribute);
    assert_eq!(err.to_string(), "Missing attribute: Some(\"Missing attribute symbol\")");
}

#[test]
fn unknown_provider_section() {
    let doc = MANIFEST.replace("<maps>", "<stuff>").replace("</maps>", "</stuff>");
    let err = parse(doc.as_bytes()).unwrap_err();
    assert_eq!(err.kind(), ErrorKind::UnexpectedTag);
    assert_eq!(err.to_string(), "Unexpected tag: Found Some(\"stuff\")");
}

#[test]
fn skipped_sections_are_passed_over() {
    let doc = MANIFEST.replace(
        "<maps>",
        "<channels><channel name=\"c\"/></channels><levels/><opcodes><opcode name=\"o\"/></opcodes><filters/><maps>",
    );
    let provider = parse(doc.as_bytes()).unwrap();
    assert_eq!(provider.events.len(), 2);
}

#[test]
fn not_xml_is_an_xml_error() {
    let err = parse(b"this is not xml").unwrap_err();
    assert_eq!(err.kind(), ErrorKind::Xml);
    assert!(err.source().is_some());
    assert_eq!(err.to_string(), "Xml");
}

#[test]
fn truncated_document_is_an_xml_error() {
    let cut = &MANIFEST[..MANIFEST.find("<tasks>").unwrap()];
    let err = parse(cut.as_bytes()).unwrap_err();
    assert_eq!(err.kind(), ErrorKind::Xml);
}

#[test]
fn wrong_root_element() {
    let err = parse(b"<manifest></manifest>").unwrap_err();
    assert_eq!(err.kind(), ErrorKind::UnexpectedTag);
    assert_eq!(
        err.description().map(|d| d.as_str()),
        Some("Expected instrumentationManifest, found manifest")
    );
}

#[test]
fn no_instrumentation_element() {
    let err = parse(b"<instrumentationManifest><other/></instrumentationManifest>").unwrap_err();
    assert_eq!(err.kind(), ErrorKind::UnexpectedStructure);
    assert_eq!(
        err.to_string(),
        "UnexpectedStructure: Encountered wrong element when searching for <instrumentation> start"
    );
}

#[test]
fn unexpected_end_tag_in_provider() {
    let doc = MANIFEST.replace("</templates>\n      </provider>", "</templates>\n      <x/></provider>");
    assert_eq!(parse(doc.as_bytes()).unwrap_err().kind(), ErrorKind::UnexpectedTag);
    let doc = r#"<instrumentationManifest><instrumentation><events><provider name="p" guid="00000000-0000-0000-0000-000000000001" symbol="s"><a></a></provider></events></instrumentation></instrumentationManifest>"#;
    assert_eq!(parse(doc.as_bytes()).unwrap_err().kind(), ErrorKind::UnexpectedTag);
}

#[test]
fn bad_event_value_and_version() {
    let doc = MANIFEST.replace("<event value=\"2\"", "<event value=\"x2\"");
    let err = parse(doc.as_bytes()).unwrap_err();
    assert_eq!(err.kind(), ErrorKind::TypeParseError);
    assert_eq!(err.description().map(|d| d.as_str()), Some("found `x2` expeced u16"));

    let doc = MANIFEST.replace("version=\"1\"", "version=\"300\"");
    let err = parse(doc.as_bytes()).unwrap_err();
    assert_eq!(err.description().map(|d| d.as_str()), Some("found `2` expected u8"));
}

#[test]
fn bad_keyword_mask() {
    let doc = MANIFEST.replace("mask=\"0x20\"", "mask=\"20\"");
    let err = parse(doc.as_bytes()).unwrap_err();
    assert_eq!(err.kind(), ErrorKind::TypeParseError);
    assert!(err.description().is_none());
    assert_eq!(err.to_string(), "TypeParseError");

    let doc = MANIFEST.replace("mask=\"0x20\"", "mask=\"0xZ\"");
    assert_eq!(parse(doc.as_bytes()).unwrap_err().kind(), ErrorKind::TypeParseError);
}

#[test]
fn unknown_in_type() {
    let doc = MANIFEST.replace("win:HexInt32", "win:Nope");
    let err = parse(doc.as_bytes()).unwrap_err();
    assert_eq!(err.kind(), ErrorKind::TypeParseError);
    assert_eq!(
        err.description().map(|d| d.as_str()),
        Some("Encountered unknown in-type: ParseInTypeError(\"win:Nope\")")
    );
}

#[test]
fn binary_item_of_known_size_needs_no_length() {
    let doc = MANIFEST.replace(" length=\"Size\"", "");
    let provider = parse(doc.as_bytes()).unwrap();
    let item = &provider.templates[0].data[1];
    assert_eq!(item.name, "Payload");
    assert_eq!(item.in_type, WinInType::Binary);
    assert_eq!(item.length, None);
}

#[test]
fn character_in_types_give_no_result() {
    let doc = MANIFEST.replace("win:HexInt32", "win:AnsiChar");
    assert!(try_parse(doc.as_bytes()).is_none());
    let doc = MANIFEST.replace("win:HexInt32", "win:UnicodeChar");
    assert!(try_parse(doc.as_bytes()).is_none());
    assert!(try_parse(MANIFEST.as_bytes()).unwrap().is_ok());
}

#[test]
fn error_before_character_in_type_is_reported() {
    let doc = MANIFEST
        .replace("win:HexInt32", "win:AnsiChar")
        .replace(" symbol=\"Microsoft_Windows_Kernel_Process\"", "");
    let result = try_parse(doc.as_bytes()).unwrap();
    assert_eq!(result.unwrap_err().kind(), ErrorKind::MissingAttribute);
}

fn guid_in(text: &str) -> Result<u128, ErrorKind> {
    let doc = MANIFEST.replace("{22fb2cd6-0e7b-422b-a0c7-2fad1fd0e716}", text);
    parse(doc.as_bytes()).map(|p| p.guid).map_err(|e| e.kind())
}

#[test]
fn guid_in_each_written_form() {
    let value = 0x22fb2cd6_0e7b_422b_a0c7_2fad1fd0e716;
    assert_eq!(guid_in("{22fb2cd6-0e7b-422b-a0c7-2fad1fd0e716}"), Ok(value));
    assert_eq!(guid_in("{22FB2CD6-0E7B-422B-A0C7-2FAD1FD0E716}"), Ok(value));
    assert_eq!(guid_in("22fb2cd6-0e7b-422b-a0c7-2fad1fd0e716"), Ok(value));
    assert_eq!(guid_in("22fb2cd60e7b422ba0c72fad1fd0e716"), Ok(value));
    assert_eq!(guid_in("urn:uuid:22fb2cd6-0e7b-422b-a0c7-2fad1fd0e716"), Ok(value));
    assert_eq!(guid_in("URN:UUID:22fb2cd6-0e7b-422b-a0c7-2fad1fd0e716"), Ok(value));
}

#[test]
fn guid_in_no_known_form_is_refused() {
    assert_eq!(guid_in("{22fb2cd6-0e7b-422b-a0c7-2fad1fd0e716"), Err(ErrorKind::TypeParseError));
    assert_eq!(guid_in("(22fb2cd6-0e7b-422b-a0c7-2fad1fd0e716)"), Err(ErrorKind::TypeParseError));
    assert_eq!(guid_in("22fb2cd6-0e7b-422b-a0c72fad1fd0e716-"), Err(ErrorKind::TypeParseError));
    assert_eq!(guid_in("22fb2cd60e7b422ba0c72fad1fd0e71g"), Err(ErrorKind::TypeParseError));
    assert_eq!(guid_in("urn:uuid:22fb2cd60e7b422ba0c72fad1fd0e716"), Err(ErrorKind::TypeParseError));
    assert_eq!(guid_in(""), Err(ErrorKind::TypeParseError));
}

#[test]
fn guid_constant_name_upper_cases_and_replaces_separators() {
    let doc = MANIFEST.replace("name=\"Microsoft-Windows-Kernel-Process\"", "name=\"my Provider-2\"");
    let provider = parse(doc.as_bytes()).unwrap();
    assert_eq!(provider.guid_constant_name(), "MYPROVIDER_2_GUID");
}
