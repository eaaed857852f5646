use win_etw_manifest::{xml_match_start, Event, EventStream, Keyword, Task, Template};

fn stream_at(xml: &str, section: &str) -> EventStream {
    let mut reader = EventStream::from_document(xml.as_bytes());
    reader.next().unwrap();
    xml_match_start(&mut reader, section).unwrap();
    reader
}

const EVENTS_XML: &str = r#"
        <events>
          <event value="1" symbol="ProcessStart" version="0" task="ProcessStart" opcode="win:Start" level="win:Informational" keywords="WINEVENT_KEYWORD_PROCESS" template="ProcessStartArgs" />
          <event value="1" symbol="ProcessStart_V1" version="1" task="ProcessStart" opcode="win:Start" level="win:Informational" keywords="WINEVENT_KEYWORD_PROCESS" template="ProcessStartArgs_V1" />
          <event value="1" symbol="ProcessStart_V2" version="2" task="ProcessStart" opcode="win:Start" level="win:Informational" keywords="WINEVENT_KEYWORD_PROCESS" template="ProcessStartArgs_V2" />
          <event value="1" symbol="ProcessStart_V3" version="3" task="ProcessStart" opcode="win:Start" level="win:Informational" keywords="WINEVENT_KEYWORD_PROCESS" template="ProcessRundownArgs_V1" />
          <event value="2" symbol="ProcessStop" version="0" task="ProcessStop" opcode="win:Stop" level="win:Informational" keywords="WINEVENT_KEYWORD_PROCESS" template="ProcessStopArgs" />
          <event value="2" symbol="ProcessStop_V1" version="1" task="ProcessStop" opcode="win:Stop" level="win:Informational" keywords="WINEVENT_KEYWORD_PROCESS" template="ProcessStopArgs_V1" />
          <event value="2" symbol="ProcessStop_V2" version="2" task="ProcessStop" opcode="win:Stop" level="win:Informational" keywords="WINEVENT_KEYWORD_PROCESS" template="ProcessStopArgs_V2" />
          <event value="3" symbol="ThreadStart" version="0" task="ThreadStart" opcode="win:Start" level="win:Informational" keywords="WINEVENT_KEYWORD_THREAD" template="ThreadStartArgs" />
          <event value="3" symbol="ThreadStart_V1" version="1" task="ThreadStart" opcode="win:Start" level="win:Informational" keywords="WINEVENT_KEYWORD_THREAD" template="ThreadStartArgs_V1" />
          <event value="4" symbol="ThreadStop" version="0" task="ThreadStop" opcode="win:Stop" level="win:Informational" keywords="WINEVENT_KEYWORD_THREAD" template="ThreadStartArgs" />
        </events>
        "#;

#[test]
fn test_parse_events() {
    let mut reader = stream_at(EVENTS_XML, "events");
    let mut tasks = Vec::new();
    Event::parse_events(&mut reader, &mut tasks).unwrap();
    assert_eq!(tasks.len(), 10, "Check if all events were parsed");
}

#[test]
fn event_test_parse_events() {
    let mut reader = stream_at(EVENTS_XML, "events");
    let mut events = Vec::new();
    Event::parse_events(&mut reader, &mut events).unwrap();
    assert_eq!(events.len(), 10, "Check if all events were parsed");
    let last = &events[9];
    assert_eq!(last.value, 4);
    assert_eq!(last.symbol, "ThreadStop");
    assert_eq!(last.version, 0);
    assert_eq!(last.task, "ThreadStop");
    assert_eq!(last.opcode.as_deref(), Some("win:Stop"));
    assert_eq!(last.level, "win:Informational");
    assert_eq!(last.keywords.as_deref(), Some("WINEVENT_KEYWORD_THREAD"));
    assert_eq!(last.template.as_deref(), Some("ThreadStartArgs"));
    assert_eq!(events[3].version, 3);
}

#[test]
fn test_parse_keywords() {
    const XML: &str = r#"
        <keywords>
          <keyword name="WINEVENT_KEYWORD_PROCESS" message="$(string.keyword_WINEVENT_KEYWORD_PROCESS)" mask="0x10" />
          <keyword name="WINEVENT_KEYWORD_THREAD" message="$(string.keyword_WINEVENT_KEYWORD_THREAD)" mask="0x20" />
          <keyword name="WINEVENT_KEYWORD_IMAGE" message="$(string.keyword_WINEVENT_KEYWORD_IMAGE)" mask="0x40" />
          <keyword name="WINEVENT_KEYWORD_CPU_PRIORITY" message="$(string.keyword_WINEVENT_KEYWORD_CPU_PRIORITY)" mask="0x80" />
          <keyword name="WINEVENT_KEYWORD_OTHER_PRIORITY" message="$(string.keyword_WINEVENT_KEYWORD_OTHER_PRIORITY)" mask="0x100" />
          <keyword name="WINEVENT_KEYWORD_PROCESS_FREEZE" message="$(string.keyword_WINEVENT_KEYWORD_PROCESS_FREEZE)" mask="0x200" />
          <keyword name="WINEVENT_KEYWORD_JOB" message="$(string.keyword_WINEVENT_KEYWORD_JOB)" mask="0x400" />
          <keyword name="WINEVENT_KEYWORD_ENABLE_PROCESS_TRACING_CALLBACKS" message="$(string.keyword_WINEVENT_KEYWORD_ENABLE_PROCESS_TRACING_CALLBACKS)" mask="0x800" />
          <keyword name="WINEVENT_KEYWORD_JOB_IO" message="$(string.keyword_WINEVENT_KEYWORD_JOB_IO)" mask="0x1000" />
          <keyword name="WINEVENT_KEYWORD_WORK_ON_BEHALF" message="$(string.keyword_WINEVENT_KEYWORD_WORK_ON_BEHALF)" mask="0x2000" />
          <keyword name="WINEVENT_KEYWORD_JOB_SILO" message="$(string.keyword_WINEVENT_KEYWORD_JOB_SILO)" mask="0x4000" />
        </keywords>
        "#;
    let mut reader = stream_at(XML, "keywords");
    let mut keywords = Vec::new();
    Keyword::parse_keywords(&mut reader, &mut keywords).unwrap();
    assert_eq!(keywords.len(), 11);
    assert_eq!(keywords[0].mask, 0x10);
    assert_eq!(keywords[10].name, "WINEVENT_KEYWORD_JOB_SILO");
    assert_eq!(keywords[10].mask, 0x4000);
}

const TEMPLATES_XML: &str = r#"
        <templates>
          <template tid="ProcessStartArgs">
            <data name="ProcessID" inType="win:UInt32" />
            <data name="CreateTime" inType="win:FILETIME" />
            <data name="ParentProcessID" inType="win:UInt32" />
            <data name="SessionID" inType="win:UInt32" />
            <data name="ImageName" inType="win:UnicodeString" />
          </template>
          <template tid="ProcessStopArgs">
            <data name="ProcessID" inType="win:UInt32" />
            <data name="CreateTime" inType="win:FILETIME" />
            <data name="ExitTime" inType="win:FILETIME" />
            <data name="ExitCode" inType="win:UInt32" />
            <data name="TokenElevationType" inType="win:UInt32" />
            <data name="HandleCount" inType="win:UInt32" />
            <data name="CommitCharge" inType="win:UInt64" />
            <data name="CommitPeak" inType="win:UInt64" />
            <data name="ImageName" inType="win:AnsiString" />
          </template>
          <template tid="ThreadStartArgs">
            <data name="ProcessID" inType="win:UInt32" />
            <data name="ThreadID" inType="win:UInt32" />
            <data name="StackBase" inType="win:Pointer" />
            <data name="StackLimit" inType="win:Pointer" />
            <data name="UserStackBase" inType="win:Pointer" />
            <data name="UserStackLimit" inType="win:Pointer" />
            <data name="StartAddr" inType="win:Pointer" />
            <data name="Win32StartAddr" inType="win:Pointer" />
            <data name="TebBase" inType="win:Pointer" />
          </template>
        </templates>
        "#;

#[test]
fn test_parse_templates() {
    let mut reader = stream_at(TEMPLATES_XML, "templates");
    let mut templates = Vec::new();
    Template::parse_templates(&mut reader, &mut templates).unwrap();
    assert_eq!(templates.len(), 3, "Check if all templates were parsed");
}

#[test]
fn template_test_parse_templates() {
    let mut reader = stream_at(TEMPLATES_XML, "templates");
    let mut templates = Vec::new();
    Template::parse_templates(&mut reader, &mut templates).unwrap();
    assert_eq!(templates.len(), 3, "Check if all templates were parsed");
    assert_eq!(templates[0].tid, "ProcessStartArgs");
    assert_eq!(templates[0].name, None);
    assert_eq!(templates[0].data.len(), 5);
    assert_eq!(templates[1].data.len(), 9);
    assert_eq!(templates[2].data.len(), 9);
    assert_eq!(templates[1].data[8].name, "ImageName");
}

#[test]
fn test_parse_tasks() {
    const XML: &str = r#"
        <tasks>
          <task name="task_0" message="$(string.task_task_0)" value="0" />
          <task name="ProcessStart" message="$(string.task_ProcessStart)" value="1" />
          <task name="ProcessStop" message="$(string.task_ProcessStop)" value="2" />
          <task name="ThreadStart" message="$(string.task_ThreadStart)" value="3" />
          <task name="ThreadStop" message="$(string.task_ThreadStop)" value="4" />
          <task name="ImageLoad" message="$(string.task_ImageLoad)" value="5" />
          <task name="ImageUnload" message="$(string.task_ImageUnload)" value="6" />
          <task name="CpuBasePriorityChange" message="$(string.task_CpuBasePriorityChange)" value="7" />
          <task name="CpuPriorityChange" message="$(string.task_CpuPriorityChange)" value="8" />
          <task name="PagePriorityChange" message="$(string.task_PagePriorityChange)" value="9" />
          <task name="IoPriorityChange" message="$(string.task_IoPriorityChange)" value="10" />
          <task name="ProcessFreeze" message="$(string.task_ProcessFreeze)" value="11" />
          <task name="JobStart" message="$(string.task_JobStart)" value="13" />
          <task name="JobTerminate" message="$(string.task_JobTerminate)" value="14" />
          <task name="ProcessRundown" message="$(string.task_ProcessRundown)" value="15" />
          <task name="PsDiskIoAttribution" message="$(string.task_PsDiskIoAttribution)" value="16" />
          <task name="PsIoRateControl" message="$(string.task_PsIoRateControl)" value="17" />
          <task name="ThreadWorkOnBehalfUpdate" message="$(string.task_ThreadWorkOnBehalfUpdate)" value="18" />
          <task name="JobServerSiloStart" message="$(string.task_JobServerSiloStart)" value="19" />
        </tasks>
        "#;
    let mut reader = stream_at(XML, "tasks");
    let mut tasks = Vec::new();
    Task::parse_tasks(&mut reader, &mut tasks).unwrap();
    assert_eq!(tasks.len(), 19, "Check if all tasks were parsed");
    let image_unload_task = tasks.iter().find(|&t| t.name == "ImageUnload").unwrap();
    assert_eq!(image_unload_task.value, 6);
}

#[test]
fn tasks_skip_opcodes_inside() {
    let xml = r#"<tasks><task name="A" value="1"><opcodes><opcode name="x" value="10"/></opcodes></task><task name="B" value="2"/></tasks>"#;
    let mut reader = stream_at(xml, "tasks");
    let mut tasks = Vec::new();
    Task::parse_tasks(&mut reader, &mut tasks).unwrap();
    assert_eq!(tasks.len(), 2);
    assert_eq!(tasks[1].name, "B");
    assert_eq!(tasks[1].value, 2);
}
