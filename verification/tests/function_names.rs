use win_etw_manifest::template::payload_function_name;
use win_etw_manifest::{make_function_name, xml_match_start, Event, EventStream, Template};

#[test]
fn test_make_function_name() {
    let mut name = "somethingThatsNotConvention".to_string();
    make_function_name(&mut name);
    assert_eq!(name, "something_thats_not_convention");

    let mut name = "StartsWithCapital".to_string();
    make_function_name(&mut name);
    assert_eq!(name, "starts_with_capital");

    let mut name = "already_has_Underscores".to_string();
    make_function_name(&mut name);
    assert_eq!(name, "already_has_underscores");

    let mut name = "has.Dot".to_string();
    make_function_name(&mut name);
    assert_eq!(name, "has_dot");

    let mut name = "has Space".to_string();
    make_function_name(&mut name);
    assert_eq!(name, "has_space");
}

#[test]
fn function_name_drops_marks_and_keeps_other_characters() {
    let mut name = "a:b/c(d)e".to_string();
    make_function_name(&mut name);
    assert_eq!(name, "abcde");

    let mut name = "x1_Y2".to_string();
    make_function_name(&mut name);
    assert_eq!(name, "x1_y2");

    let mut name = "ABC".to_string();
    make_function_name(&mut name);
    assert_eq!(name, "a_b_c");

    let mut name = "café_Bar".to_string();
    make_function_name(&mut name);
    assert_eq!(name, "café_bar");

    let mut name = String::new();
    make_function_name(&mut name);
    assert_eq!(name, "");
}

#[test]
fn function_name_is_idempotent() {
    for input in ["ProcessStartArgs_V1", "has.Dot", "already_has_Underscores", "A B C"] {
        let mut once = input.to_string();
        make_function_name(&mut once);
        let mut twice = once.clone();
        make_function_name(&mut twice);
        assert_eq!(once, twice);
    }
}

#[test]
fn payload_function_names() {
    assert_eq!(
        payload_function_name(&"ProcessStartArgs_V1".to_string()),
        "parse_payload_process_start_args_v1"
    );
    let mut stream = EventStream::from_document(
        b"<templates><template tid=\"ThreadStartArgs\"></template></templates>",
    );
    stream.next().unwrap();
    xml_match_start(&mut stream, "templates").unwrap();
    let mut templates = Vec::new();
    Template::parse_templates(&mut stream, &mut templates).unwrap();
    assert_eq!(templates[0].function_name(), "parse_payload_thread_start_args");

    let event = Event {
        value: 1,
        symbol: "ProcessStart".to_string(),
        version: 0,
        task: "ProcessStart".to_string(),
        opcode: None,
        level: "win:Informational".to_string(),
        keywords: None,
        template: Some("ProcessStopArgs".to_string()),
    };
    assert_eq!(event.template_function_name(), Some("parse_payload_process_stop_args".to_string()));
    let event = Event { template: None, ..event };
    assert_eq!(event.template_function_name(), None);
}
