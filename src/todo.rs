//! To-do items and the decoder that reads them from a calendar-query report.

use vstd::prelude::*;
use crate::calendar::{opt_text, Field};
use crate::text::{clean, clean_text};
use crate::xml_items::{is_named, names, read_xml_events, xml_events_of, XmlItem, CALDAV_NS, DAV_NS};
use ical::parser::ical::component::IcalCalendar;

verus! {

#[verifier::external_type_specification]
#[verifier::external_body]
pub struct ExIcalCalendar(IcalCalendar);

/// The first calendar document that an iCalendar reader reads from `text`,
/// where that read succeeds.
pub uninterp spec fn ical_parse_of(text: Seq<char>) -> Option<IcalCalendar>;

/// Relies on ical's `IcalParser`: its first item read from `text`, kept where
/// it is a parsed calendar and dropped where it is an error.
#[verifier::external_body]
fn parse_ical(text: &str) -> (r: Option<IcalCalendar>)
    ensures
        r == ical_parse_of(text@),
{
    ical::IcalParser::new(text.as_bytes()).next().and_then(|item| item.ok())
}

/// A to-do item as a mathematical value.
pub ghost struct TodoModel {
    pub href: Seq<char>,
    pub calendar: IcalCalendar,
}

/// A to-do resource of the server: where it lives and its calendar document.
#[derive(Debug)]
pub struct Todo {
    href: String,
    calendar: IcalCalendar,
}

impl View for Todo {
    type V = TodoModel;

    closed spec fn view(&self) -> TodoModel {
        TodoModel { href: self.href@, calendar: self.calendar }
    }
}

/// The models of a sequence of to-do items.
pub open spec fn todo_models(v: Seq<Todo>) -> Seq<TodoModel> {
    v.map_values(|t: Todo| t@)
}

impl Todo {
    /// The to-do item's href.
    pub fn get_href(&self) -> (r: String)
        ensures
            r@ == self@.href,
    {
        self.href.clone()
    }

    /// The calendar document of the to-do item.
    pub fn get_calendar(&self) -> (r: &IcalCalendar)
        ensures
            *r == self@.calendar,
    {
        &self.calendar
    }
}

/// The state of a to-do decoding, as a mathematical value.
pub ghost struct TodoScan {
    pub href: Option<Seq<char>>,
    pub calendar: Option<IcalCalendar>,
    pub field: Field,
    pub found: Seq<TodoModel>,
    pub done: bool,
}

/// The state before any event, and after each response.
pub open spec fn todo_scan_start(found: Seq<TodoModel>) -> TodoScan {
    TodoScan { href: None, calendar: None, field: Field::NoField, found, done: false }
}

/// The to-do item that a finished response yields: one only where the href
/// was read and a calendar document was parsed.
pub open spec fn finalize_todo(s: TodoScan) -> Option<TodoModel> {
    if s.href is Some && s.calendar is Some {
        Some(TodoModel { href: s.href->0, calendar: s.calendar->0 })
    } else {
        None
    }
}

/// What one event does to a to-do decoding. The first calendar document that
/// parses in a response is kept; later ones are not read.
pub open spec fn todo_step(s: TodoScan, ev: XmlItem) -> TodoScan {
    if s.done {
        s
    } else {
        match ev {
            XmlItem::Start { namespace, local_name, .. } => {
                if names(namespace, local_name, DAV_NS, "href") {
                    TodoScan { field: Field::Href, ..s }
                } else if names(namespace, local_name, CALDAV_NS, "calendar-data") {
                    TodoScan { field: Field::CalendarData, ..s }
                } else {
                    s
                }
            },
            XmlItem::End { namespace, local_name } => {
                if names(namespace, local_name, DAV_NS, "response") {
                    match finalize_todo(s) {
                        Some(t) => todo_scan_start(s.found.push(t)),
                        None => todo_scan_start(s.found),
                    }
                } else {
                    s
                }
            },
            XmlItem::Text(t) => {
                match s.field {
                    Field::Href => TodoScan { href: Some(clean(t@)), field: Field::NoField, ..s },
                    Field::CalendarData => if s.calendar is None {
                        TodoScan { calendar: ical_parse_of(clean(t@)), field: Field::NoField, ..s }
                    } else {
                        TodoScan { field: Field::NoField, ..s }
                    },
                    _ => TodoScan { field: Field::NoField, ..s },
                }
            },
            XmlItem::Malformed => TodoScan { done: true, ..s },
            XmlItem::Other => s,
        }
    }
}

/// The state of a to-do decoding that was in state `s` and then read `evs`.
pub open spec fn todo_scan_from(s: TodoScan, evs: Seq<XmlItem>) -> TodoScan
    decreases evs.len(),
{
    if evs.len() == 0 {
        s
    } else {
        todo_step(todo_scan_from(s, evs.drop_last()), evs.last())
    }
}

/// The state of a to-do decoding after `evs`.
pub open spec fn todo_scan(evs: Seq<XmlItem>) -> TodoScan {
    todo_scan_from(todo_scan_start(Seq::empty()), evs)
}

/// The to-do items that `evs` describe, in document order.
pub open spec fn todos_of(evs: Seq<XmlItem>) -> Seq<TodoModel> {
    todo_scan(evs).found
}

/// A streaming decoder of to-do items: it is fed XML events one at a time.
pub struct TodoDecoder {
    href: Option<String>,
    calendar: Option<IcalCalendar>,
    field: Field,
    found: Vec<Todo>,
    done: bool,
}

impl View for TodoDecoder {
    type V = TodoScan;

    closed spec fn view(&self) -> TodoScan {
        TodoScan {
            href: opt_text(self.href),
            calendar: self.calendar,
            field: self.field,
            found: todo_models(self.found@),
            done: self.done,
        }
    }
}

impl TodoDecoder {
    /// A decoder that has read nothing.
    pub fn new() -> (r: TodoDecoder)
        ensures
            r@ == todo_scan_start(Seq::empty()),
    {
        let r = TodoDecoder { href: None, calendar: None, field: Field::NoField, found: Vec::new(), done: false };
        assert(todo_models(r.found@) =~= Seq::empty());
        r
    }

    /// Whether a malformed event has ended the decoding.
    pub fn is_done(&self) -> (r: bool)
        ensures
            r == self@.done,
    {
        self.done
    }

    /// Reads the payload of a `calendar-data` element: it is kept where it
    /// parses and no calendar document of this response has parsed before.
    pub fn set_calendar_payload(&mut self, parsed: Option<IcalCalendar>)
        ensures
            final(self)@ == (TodoScan {
                calendar: if old(self)@.calendar is None { parsed } else { old(self)@.calendar },
                ..old(self)@
            }),
    {
        if self.calendar.is_none() {
            self.calendar = parsed;
        }
    }

    /// Ends the current response: its to-do item, if complete, is kept, and
    /// the per-response state starts afresh.
    fn end_response(&mut self)
        requires
            !old(self).done,
        ensures
            final(self)@ == match finalize_todo(old(self)@) {
                Some(t) => todo_scan_start(old(self)@.found.push(t)),
                None => todo_scan_start(old(self)@.found),
            },
    {
        let href = self.href.take();
        let calendar = self.calendar.take();
        match (href, calendar) {
            (Some(h), Some(c)) => {
                let t = Todo { href: h, calendar: c };
                let ghost before = self.found@;
                self.found.push(t);
                assert(todo_models(self.found@) =~= todo_models(before).push(t@));
            },
            _ => {},
        }
        self.field = Field::NoField;
    }

    /// Reads one event.
    pub fn feed(&mut self, ev: &XmlItem)
        ensures
            final(self)@ == todo_step(old(self)@, *ev),
    {
        if self.done {
            return;
        }
        match ev {
            XmlItem::Start { namespace, local_name, .. } => {
                if is_named(namespace, local_name, DAV_NS, "href") {
                    self.field = Field::Href;
                } else if is_named(namespace, local_name, CALDAV_NS, "calendar-data") {
                    self.field = Field::CalendarData;
                }
            },
            XmlItem::End { namespace, local_name } => {
                if is_named(namespace, local_name, DAV_NS, "response") {
                    self.end_response();
                }
            },
            XmlItem::Text(t) => {
                match self.field {
                    Field::Href => {
                        self.href = Some(clean_text(t.as_str()));
                    },
                    Field::CalendarData => {
                        if self.calendar.is_none() {
                            let payload = clean_text(t.as_str());
                            let parsed = parse_ical(payload.as_str());
                            self.set_calendar_payload(parsed);
                        }
                    },
                    _ => {},
                }
                self.field = Field::NoField;
            },
            XmlItem::Malformed => {
                self.done = true;
            },
            XmlItem::Other => {},
        }
    }

    /// The to-do items read so far, in document order.
    pub fn finish(self) -> (r: Vec<Todo>)
        ensures
            todo_models(r@) == self@.found,
    {
        self.found
    }
}

/// The to-do items that a sequence of XML events describes, in document order.
/// Reading stops at the first malformed event; what was decoded before it is kept.
pub fn decode_todo_events(events: &Vec<XmlItem>) -> (r: Vec<Todo>)
    ensures
        todo_models(r@) == todos_of(events@),
{
    let mut d = TodoDecoder::new();
    let mut i: usize = 0;
    while i < events.len()
        invariant
            i <= events@.len(),
            d@ == todo_scan(events@.subrange(0, i as int)),
        decreases events@.len() - i,
    {
        assert(events@.subrange(0, i + 1).drop_last() =~= events@.subrange(0, i as int));
        d.feed(&events[i]);
        i = i + 1;
    }
    assert(events@.subrange(0, i as int) =~= events@);
    d.finish()
}

/// The to-do items that a calendar-query report lists, in document order.
/// The document is decoded whatever HTTP status it came with.
pub fn parse_todo_list(xml: &str) -> (r: Vec<Todo>)
    ensures
        todo_models(r@) == todos_of(xml_events_of(xml@)),
{
    let events = read_xml_events(xml);
    decode_todo_events(&events)
}

/// A non-empty list of to-do items, or `None` where there is none.
pub fn nonempty_todos(todos: Vec<Todo>) -> (r: Option<Vec<Todo>>)
    ensures
        r is None <==> todos@.len() == 0,
        r is Some ==> r->0 == todos,
{
    if todos.len() == 0 {
        None
    } else {
        Some(todos)
    }
}

} // verus!
