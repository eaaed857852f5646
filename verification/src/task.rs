//! Tasks of a provider.

use vstd::prelude::*;
use vstd::string::*;
use crate::error::{ErrorKind, ErrorView, ManifestError, error_view, unexpected_tag_view, unexpected_view};
use crate::reading::{find_attribute, find_attribute_spec, first_value};
use crate::text::{
    decimal_text, digits_value, lemma_decimal_digits_read, lemma_decimal_text_reads_back, parse_unsigned,
    text_eq, unsigned_value,
};
use crate::xml_stream::{
    StreamEnd,
    element_events,
    Attribute, EventStream, EventView, StreamView, XmlEvent, attributes_view, lemma_skip_run_shrinks,
    skip_run, step, unit_result_view,
};

verus! {

/// A task defined by a provider
#[derive(Debug)]
pub struct Task {
    /// Name of the Task
    pub name: String,
    /// Numerical identifier of the task
    pub value: u64,
}

/// A task as the contracts see it.
pub struct TaskView {
    pub name: Seq<char>,
    pub value: u64,
}

impl View for Task {
    type V = TaskView;

    open spec fn view(&self) -> TaskView {
        TaskView { name: self.name@, value: self.value }
    }
}

/// The tasks of a sequence as the contracts see them.
pub open spec fn tasks_view(v: Seq<Task>) -> Seq<TaskView> {
    v.map_values(|t: Task| t@)
}

/// What a `<task>` element's attributes give: its `name` and its decimal
/// `value`; a missing attribute is reported first for `name`, then for
/// `value`, and an unreadable value is a `TypeParseError` without
/// description.
pub open spec fn task_spec(attributes: Seq<(Seq<char>, Seq<char>)>) -> Result<TaskView, ErrorView> {
    match find_attribute_spec(attributes, "name"@) {
        Err(e) => Err(e),
        Ok(name) => match find_attribute_spec(attributes, "value"@) {
            Err(e) => Err(e),
            Ok(v) => match unsigned_value(v, 10, u64::MAX as int) {
                Some(value) => Ok(TaskView { name, value: value as u64 }),
                None => Err(error_view(ErrorKind::TypeParseError, None)),
            },
        },
    }
}

/// A task's value is read in decimal: a task named `name` whose `value` is
/// the decimal text of `v` has the value `v`, for every `u64`.
pub proof fn lemma_task_value_is_decimal(attributes: Seq<(Seq<char>, Seq<char>)>, name: Seq<char>, v: u64)
    requires
        first_value(attributes, "name"@) == Some(name),
        first_value(attributes, "value"@) == Some(decimal_text(v as nat)),
    ensures
        task_spec(attributes) == Ok::<TaskView, ErrorView>(TaskView { name, value: v }),
{
    lemma_decimal_text_reads_back(v as nat, u64::MAX as int);
}

/// Any run of the digits `0` to `9` (leading zeros too) whose number fits in
/// a `u64` reads as that number, each digit counting ten times the next.
pub proof fn lemma_task_decimal_digits(
    attributes: Seq<(Seq<char>, Seq<char>)>,
    name: Seq<char>,
    d: Seq<char>,
)
    requires
        first_value(attributes, "name"@) == Some(name),
        first_value(attributes, "value"@) == Some(d),
        d.len() > 0,
        forall|i: int| 0 <= i < d.len() ==> '0' <= #[trigger] d[i] <= '9',
        digits_value(d, 10) <= u64::MAX,
    ensures
        task_spec(attributes) == Ok::<TaskView, ErrorView>(
            TaskView { name, value: digits_value(d, 10) as u64 },
        ),
{
    lemma_decimal_digits_read(d, u64::MAX as int);
}

/// What reading the rest of a `<tasks>` section gives, the tasks read so far
/// being `acc`: each `<task>` element adds a task; an `<opcodes>` element is
/// skipped whole; closing tags other than `</tasks>` are passed over;
/// `</tasks>` ends the section. Any other element, any other event, or a bad
/// task is an error.
pub open spec fn tasks_run(s: StreamView, acc: Seq<TaskView>) -> (
    Result<(), ErrorView>,
    Seq<TaskView>,
    StreamView,
)
    decreases s.events.len(),
{
    let (event, after) = step(s);
    match event {
        Err(e) => (Err(e), acc, after),
        Ok(EventView::StartElement(name, attributes, _)) => if name == "opcodes"@ {
            let (skipped, rest) = skip_run(after, 1);
            proof {
                lemma_skip_run_shrinks(after, 1);
            }
            match skipped {
                Err(e) => (Err(e), acc, rest),
                Ok(_) => tasks_run(rest, acc),
            }
        } else if name != "task"@ {
            (Err(unexpected_tag_view("Expected <task>, found "@ + name)), acc, after)
        } else {
            match task_spec(attributes) {
                Ok(t) => tasks_run(after, acc.push(t)),
                Err(e) => (Err(e), acc, after),
            }
        },
        Ok(EventView::EndElement(name)) => if name == "tasks"@ {
            (Ok(()), acc, after)
        } else {
            tasks_run(after, acc)
        },
        Ok(_) => (Err(unexpected_view(Some("Unexpeced element in <tasks>"@))), acc, after),
    }
}

/// Reading a `<tasks>` section never lengthens the stream.
pub proof fn lemma_tasks_run_shrinks(s: StreamView, acc: Seq<TaskView>)
    ensures
        tasks_run(s, acc).2.events.len() <= s.events.len(),
        tasks_run(s, acc).2.end == s.end,
    decreases s.events.len(),
{
    let (event, after) = step(s);
    match event {
        Ok(EventView::StartElement(name, attributes, _)) => if name == "opcodes"@ {
            lemma_skip_run_shrinks(after, 1);
            let (skipped, rest) = skip_run(after, 1);
            if skipped is Ok {
                lemma_tasks_run_shrinks(rest, acc);
            }
        } else if name == "task"@ {
            if let Ok(t) = task_spec(attributes) {
                lemma_tasks_run_shrinks(after, acc.push(t));
            }
        },
        Ok(EventView::EndElement(name)) => if name != "tasks"@ {
            lemma_tasks_run_shrinks(after, acc);
        },
        _ => {},
    }
}

/// A section of well-formed `<task>` elements closed by
/// `</tasks>` reads as exactly its items, in order, after those read
/// before; the stream is left right after the closing tag.
pub proof fn lemma_tasks_section(
    items: Seq<Seq<(Seq<char>, Seq<char>)>>,
    rest: Seq<EventView>,
    end: StreamEnd,
    ns: Seq<(Seq<char>, Seq<char>)>,
    acc: Seq<TaskView>,
)
    requires
        forall|i: int| 0 <= i < items.len() ==> #[trigger] task_spec(items[i]) is Ok,
    ensures
        tasks_run(
            StreamView {
                events: element_events("task"@, items, ns) + seq![EventView::EndElement("tasks"@)] + rest,
                end,
            },
            acc,
        ) == (
            Ok::<(), ErrorView>(()),
            acc + items.map_values(|a: Seq<(Seq<char>, Seq<char>)>| task_spec(a)->Ok_0),
            StreamView { events: rest, end },
        ),
    decreases items.len(),
{
    reveal_strlit("task");
    reveal_strlit("tasks");
    reveal_strlit("opcodes");
    let s = StreamView {
        events: element_events("task"@, items, ns) + seq![EventView::EndElement("tasks"@)] + rest,
        end,
    };
    let mapped = items.map_values(|a: Seq<(Seq<char>, Seq<char>)>| task_spec(a)->Ok_0);
    if items.len() == 0 {
        assert(s.events =~= seq![EventView::EndElement("tasks"@)] + rest);
        assert(s.rest().events =~= rest);
        assert(s.rest() == StreamView { events: rest, end });
        assert(acc + mapped =~= acc);
        assert(tasks_run(s, acc) == (Ok::<(), ErrorView>(()), acc, s.rest()));
    } else {
        let tail = items.drop_first();
        let later = StreamView {
            events: element_events("task"@, tail, ns) + seq![EventView::EndElement("tasks"@)] + rest,
            end,
        };
        assert(s.events[0] == EventView::StartElement("task"@, items[0], ns));
        assert(s.rest().events[0] == EventView::EndElement("task"@));
        assert(s.rest().rest().events =~= later.events);
        assert(task_spec(items[0]) is Ok);
        let item = task_spec(items[0])->Ok_0;
        assert forall|i: int| 0 <= i < tail.len() implies #[trigger] task_spec(tail[i]) is Ok by {
            assert(tail[i] == items[i + 1]);
        }
        assert("task"@.len() == 4 && "tasks"@.len() == 5) by {
            broadcast use vstd::string::group_string_axioms;
        }
        assert(s.rest().rest() == later);
        assert(tasks_run(s, acc) == tasks_run(s.rest(), acc.push(item)));
        assert(tasks_run(s.rest(), acc.push(item)) == tasks_run(later, acc.push(item)));
        lemma_tasks_section(tail, rest, end, ns, acc.push(item));
        assert(acc.push(item) + tail.map_values(|a: Seq<(Seq<char>, Seq<char>)>| task_spec(a)->Ok_0)
            =~= acc + mapped);
    }
}

impl Task {
    /// Builds a task from the attributes of its element.
    pub fn from_attributes(attr: &Vec<Attribute>) -> (r: Result<Task, ManifestError>)
        ensures
            match r {
                Ok(t) => task_spec(attributes_view(attr@)) == Ok::<TaskView, ErrorView>(t@),
                Err(e) => task_spec(attributes_view(attr@)) == Err::<TaskView, ErrorView>(e@),
            },
    {
        let name = find_attribute(attr, "name")?;
        let value_str = find_attribute(attr, "value")?;
        match parse_unsigned(value_str.as_str(), 10, u64::MAX) {
            Some(value) => Ok(Task { name, value }),
            None => Err(ManifestError::new_with_kind(ErrorKind::TypeParseError)),
        }
    }

    /// Reads the tasks of a `<tasks>` section, whose opening tag has been
    /// read, into `vec`, up to and including the closing tag.
    pub fn parse_tasks(r: &mut EventStream, vec: &mut Vec<Task>) -> (res: Result<(), ManifestError>)
        ensures
            (unit_result_view(res), tasks_view(final(vec)@), final(r)@) == tasks_run(
                old(r)@,
                tasks_view(old(vec)@),
            ),
    {
        loop
            invariant
                tasks_run(r@, tasks_view(vec@)) == tasks_run(old(r)@, tasks_view(old(vec)@)),
            decreases r@.events.len(),
        {
            let ghost before = vec@;
            let ghost after_next = step(r@).1;
            match r.next()? {
                XmlEvent::StartElement { name, attributes, .. } => {
                    if text_eq(name.as_str(), "opcodes") {
                        proof {
                            lemma_skip_run_shrinks(after_next, 1);
                        }
                        r.skip()?;
                        continue ;
                    }
                    if !text_eq(name.as_str(), "task") {
                        let mut d = String::from_str("Expected <task>, found ");
                        d.append(name.as_str());
                        return Err(ManifestError::new_unexpected_tag(d));
                    }
                    let t = Task::from_attributes(&attributes)?;
                    vec.push(t);
                    assert(tasks_view(vec@) =~= tasks_view(before).push(t@));
                },
                XmlEvent::EndElement { name } => {
                    if text_eq(name.as_str(), "tasks") {
                        return Ok(());
                    }
                },
                _ => {
                    return Err(
                        ManifestError::new_unexpected(Some(String::from_str("Unexpeced element in <tasks>"))),
                    )
                },
            }
        }
    }
}

} // verus!
