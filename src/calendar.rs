//! Calendars and the decoder that reads them from a calendar-home listing.

use vstd::prelude::*;
use crate::text::{clean, clean_text, same_text};
use crate::xml_items::{is_named, names, read_xml_events, xml_events_of, XmlItem, CALDAV_NS, DAV_NS};

verus! {

/// The kinds of calendar component a calendar can hold.
#[derive(Debug, Clone, Copy, PartialEq, Eq, Structural)]
pub enum CalendarComponents {
    Event,
    Todo,
}

/// The component kind a protocol token names, if any (case-sensitive).
pub open spec fn resolve(token: Seq<char>) -> Option<CalendarComponents> {
    if token == "VTODO"@ {
        Some(CalendarComponents::Todo)
    } else if token == "VEVENT"@ {
        Some(CalendarComponents::Event)
    } else {
        None
    }
}

impl CalendarComponents {
    /// The component kind `input` names: "VEVENT" or "VTODO"; anything else names none.
    pub fn from_token(input: &str) -> (r: Option<CalendarComponents>)
        ensures
            r == resolve(input@),
    {
        if same_text(input, "VTODO") {
            Some(CalendarComponents::Todo)
        } else if same_text(input, "VEVENT") {
            Some(CalendarComponents::Event)
        } else {
            None
        }
    }
}

impl core::str::FromStr for CalendarComponents {
    type Err = ();

    fn from_str(input: &str) -> (r: Result<CalendarComponents, ()>)
        ensures
            r == (match resolve(input@) {
                Some(c) => Ok::<CalendarComponents, ()>(c),
                None => Err::<CalendarComponents, ()>(()),
            }),
    {
        match CalendarComponents::from_token(input) {
            Some(c) => Ok(c),
            None => Err(()),
        }
    }
}

/// A calendar as a mathematical value.
pub ghost struct CalendarModel {
    pub href: Seq<char>,
    pub displayname: Seq<char>,
    pub supported_components: Seq<CalendarComponents>,
}

/// A calendar of the server: where it lives, its name, and the component
/// kinds it supports, in document order.
#[derive(Debug, Clone, Default)]
pub struct Calendar {
    href: String,
    displayname: String,
    supported_components: Vec<CalendarComponents>,
}

impl View for Calendar {
    type V = CalendarModel;

    closed spec fn view(&self) -> CalendarModel {
        CalendarModel {
            href: self.href@,
            displayname: self.displayname@,
            supported_components: self.supported_components@,
        }
    }
}

/// The models of a sequence of calendars.
pub open spec fn calendar_models(v: Seq<Calendar>) -> Seq<CalendarModel> {
    v.map_values(|c: Calendar| c@)
}

impl Calendar {
    /// The calendar's href.
    pub fn get_url(&self) -> (r: String)
        ensures
            r@ == self@.href,
    {
        self.href.clone()
    }

    /// The calendar's display name.
    pub fn get_displayname(&self) -> (r: String)
        ensures
            r@ == self@.displayname,
    {
        self.displayname.clone()
    }

    /// The supported component kinds, in document order.
    pub fn get_supported_components(&self) -> (r: Vec<CalendarComponents>)
        ensures
            r@ == self@.supported_components,
    {
        let mut r: Vec<CalendarComponents> = Vec::new();
        let mut i: usize = 0;
        while i < self.supported_components.len()
            invariant
                i <= self.supported_components@.len(),
                r@ == self.supported_components@.subrange(0, i as int),
            decreases self.supported_components@.len() - i,
        {
            r.push(self.supported_components[i]);
            assert(r@ =~= self.supported_components@.subrange(0, i + 1));
            i = i + 1;
        }
        assert(r@ =~= self.supported_components@);
        r
    }

    /// Whether the calendar supports `component`.
    pub fn has_component(&self, component: CalendarComponents) -> (r: bool)
        ensures
            r == self@.supported_components.contains(component),
    {
        let mut i: usize = 0;
        while i < self.supported_components.len()
            invariant
                i <= self.supported_components@.len(),
                forall|k: int| 0 <= k < i ==> self.supported_components@[k] != component,
            decreases self.supported_components@.len() - i,
        {
            if self.supported_components[i] == component {
                assert(self.supported_components@[i as int] == component);
                return true;
            }
            i = i + 1;
        }
        false
    }

    /// The calendar as "displayname (href)".
    pub fn to_display_string(&self) -> (r: String)
        ensures
            r@ == self@.displayname + " ("@ + self@.href + ")"@,
    {
        let r = self.displayname.clone().concat(" (");
        let r = r.concat(self.href.as_str());
        r.concat(")")
    }
}

/// The field that the next text run is read into.
#[derive(Debug, Clone, Copy, PartialEq, Eq, Structural)]
pub enum Field {
    NoField,
    Href,
    DisplayName,
    CalendarData,
}

/// The state of a calendar decoding, as a mathematical value.
pub ghost struct CalendarScan {
    pub href: Option<Seq<char>>,
    pub displayname: Option<Seq<char>>,
    pub components: Seq<CalendarComponents>,
    pub field: Field,
    pub in_component_set: bool,
    pub found: Seq<CalendarModel>,
    pub done: bool,
}

/// An optional string as an optional sequence of characters.
pub open spec fn opt_text(o: Option<String>) -> Option<Seq<char>> {
    match o {
        Some(s) => Some(s@),
        None => None,
    }
}

/// The component kinds that the `name` attributes among `attrs` resolve to,
/// in order; unresolved values are skipped.
pub open spec fn named_components(attrs: Seq<(String, String)>) -> Seq<CalendarComponents>
    decreases attrs.len(),
{
    if attrs.len() == 0 {
        Seq::empty()
    } else {
        let rest = named_components(attrs.drop_last());
        let a = attrs.last();
        if a.0@ == "name"@ && resolve(a.1@) is Some {
            rest.push(resolve(a.1@)->0)
        } else {
            rest
        }
    }
}

/// The state before any event, and after each response.
pub open spec fn calendar_scan_start(found: Seq<CalendarModel>) -> CalendarScan {
    CalendarScan {
        href: None,
        displayname: None,
        components: Seq::empty(),
        field: Field::NoField,
        in_component_set: false,
        found,
        done: false,
    }
}

/// The calendar that a finished response yields: one only where both the
/// href and the display name were read.
pub open spec fn finalize_calendar(s: CalendarScan) -> Option<CalendarModel> {
    if s.href is Some && s.displayname is Some {
        Some(CalendarModel {
            href: s.href->0,
            displayname: s.displayname->0,
            supported_components: s.components,
        })
    } else {
        None
    }
}

/// What one event does to a calendar decoding.
pub open spec fn calendar_step(s: CalendarScan, ev: XmlItem) -> CalendarScan {
    if s.done {
        s
    } else {
        match ev {
            XmlItem::Start { namespace, local_name, attributes } => {
                let field = if names(namespace, local_name, DAV_NS, "href") {
                    Field::Href
                } else if names(namespace, local_name, DAV_NS, "displayname") {
                    Field::DisplayName
                } else {
                    s.field
                };
                let in_set = s.in_component_set || names(
                    namespace,
                    local_name,
                    CALDAV_NS,
                    "supported-calendar-component-set",
                );
                let components = if in_set && names(namespace, local_name, CALDAV_NS, "comp") {
                    s.components + named_components(attributes@)
                } else {
                    s.components
                };
                CalendarScan { field, in_component_set: in_set, components, ..s }
            },
            XmlItem::End { namespace, local_name } => {
                if names(namespace, local_name, CALDAV_NS, "supported-calendar-component-set") {
                    CalendarScan { in_component_set: false, ..s }
                } else if names(namespace, local_name, DAV_NS, "response") {
                    match finalize_calendar(s) {
                        Some(c) => calendar_scan_start(s.found.push(c)),
                        None => calendar_scan_start(s.found),
                    }
                } else {
                    s
                }
            },
            XmlItem::Text(t) => {
                let v = clean(t@);
                match s.field {
                    Field::Href => CalendarScan { href: Some(v), field: Field::NoField, ..s },
                    Field::DisplayName => CalendarScan {
                        displayname: Some(v),
                        field: Field::NoField,
                        ..s
                    },
                    _ => CalendarScan { field: Field::NoField, ..s },
                }
            },
            XmlItem::Malformed => CalendarScan { done: true, ..s },
            XmlItem::Other => s,
        }
    }
}

/// The state of a calendar decoding that was in state `s` and then read `evs`.
pub open spec fn calendar_scan_from(s: CalendarScan, evs: Seq<XmlItem>) -> CalendarScan
    decreases evs.len(),
{
    if evs.len() == 0 {
        s
    } else {
        calendar_step(calendar_scan_from(s, evs.drop_last()), evs.last())
    }
}

/// The state of a calendar decoding after `evs`.
pub open spec fn calendar_scan(evs: Seq<XmlItem>) -> CalendarScan {
    calendar_scan_from(calendar_scan_start(Seq::empty()), evs)
}

/// The calendars that `evs` describe, in document order.
pub open spec fn calendars_of(evs: Seq<XmlItem>) -> Seq<CalendarModel> {
    calendar_scan(evs).found
}

/// A streaming decoder of calendars: it is fed XML events one at a time.
pub struct CalendarDecoder {
    href: Option<String>,
    displayname: Option<String>,
    components: Vec<CalendarComponents>,
    field: Field,
    in_component_set: bool,
    found: Vec<Calendar>,
    done: bool,
}

impl View for CalendarDecoder {
    type V = CalendarScan;

    closed spec fn view(&self) -> CalendarScan {
        CalendarScan {
            href: opt_text(self.href),
            displayname: opt_text(self.displayname),
            components: self.components@,
            field: self.field,
            in_component_set: self.in_component_set,
            found: calendar_models(self.found@),
            done: self.done,
        }
    }
}

impl CalendarDecoder {
    /// A decoder that has read nothing.
    pub fn new() -> (r: CalendarDecoder)
        ensures
            r@ == calendar_scan_start(Seq::empty()),
    {
        let r = CalendarDecoder {
            href: None,
            displayname: None,
            components: Vec::new(),
            field: Field::NoField,
            in_component_set: false,
            found: Vec::new(),
            done: false,
        };
        assert(calendar_models(r.found@) =~= Seq::empty());
        r
    }

    /// Whether a malformed event has ended the decoding.
    pub fn is_done(&self) -> (r: bool)
        ensures
            r == self@.done,
    {
        self.done
    }

    /// Appends the component kinds that the `name` attributes resolve to.
    fn add_components(&mut self, attributes: &Vec<(String, String)>)
        ensures
            final(self)@ == (CalendarScan {
                components: old(self)@.components + named_components(attributes@),
                ..old(self)@
            }),
    {
        let ghost start = self.components@;
        let mut k: usize = 0;
        assert(attributes@.subrange(0, 0) =~= Seq::<(String, String)>::empty());
        assert(start + Seq::<CalendarComponents>::empty() =~= start);
        while k < attributes.len()
            invariant
                k <= attributes@.len(),
                self.components@ == start + named_components(attributes@.subrange(0, k as int)),
                self.href == old(self).href,
                self.displayname == old(self).displayname,
                self.field == old(self).field,
                self.in_component_set == old(self).in_component_set,
                self.found == old(self).found,
                self.done == old(self).done,
            decreases attributes@.len() - k,
        {
            let a = &attributes[k];
            proof {
                assert(attributes@.subrange(0, k + 1).drop_last() =~= attributes@.subrange(0, k as int));
            }
            if same_text(a.0.as_str(), "name") {
                match CalendarComponents::from_token(a.1.as_str()) {
                    Some(c) => {
                        self.components.push(c);
                        assert(self.components@ =~= start + named_components(
                            attributes@.subrange(0, k + 1),
                        ));
                    },
                    None => {},
                }
            }
            k = k + 1;
        }
        assert(attributes@.subrange(0, k as int) =~= attributes@);
    }

    /// Ends the current response: its calendar, if complete, is kept, and the
    /// per-response state starts afresh.
    fn end_response(&mut self)
        requires
            !old(self).done,
        ensures
            final(self)@ == match finalize_calendar(old(self)@) {
                Some(c) => calendar_scan_start(old(self)@.found.push(c)),
                None => calendar_scan_start(old(self)@.found),
            },
    {
        let href = self.href.take();
        let displayname = self.displayname.take();
        let mut components: Vec<CalendarComponents> = Vec::new();
        core::mem::swap(&mut components, &mut self.components);
        match (href, displayname) {
            (Some(h), Some(d)) => {
                let c = Calendar { href: h, displayname: d, supported_components: components };
                let ghost before = self.found@;
                self.found.push(c);
                assert(calendar_models(self.found@) =~= calendar_models(before).push(c@));
            },
            _ => {},
        }
        self.field = Field::NoField;
        self.in_component_set = false;
        assert(self.components@ =~= Seq::<CalendarComponents>::empty());
    }

    /// Reads one event.
    pub fn feed(&mut self, ev: &XmlItem)
        ensures
            final(self)@ == calendar_step(old(self)@, *ev),
    {
        if self.done {
            return;
        }
        match ev {
            XmlItem::Start { namespace, local_name, attributes } => {
                if is_named(namespace, local_name, DAV_NS, "href") {
                    self.field = Field::Href;
                } else if is_named(namespace, local_name, DAV_NS, "displayname") {
                    self.field = Field::DisplayName;
                }
                if is_named(namespace, local_name, CALDAV_NS, "supported-calendar-component-set") {
                    self.in_component_set = true;
                }
                if self.in_component_set && is_named(namespace, local_name, CALDAV_NS, "comp") {
                    self.add_components(attributes);
                }
            },
            XmlItem::End { namespace, local_name } => {
                if is_named(namespace, local_name, CALDAV_NS, "supported-calendar-component-set") {
                    self.in_component_set = false;
                } else if is_named(namespace, local_name, DAV_NS, "response") {
                    self.end_response();
                }
            },
            XmlItem::Text(t) => {
                match self.field {
                    Field::Href => {
                        self.href = Some(clean_text(t.as_str()));
                    },
                    Field::DisplayName => {
                        self.displayname = Some(clean_text(t.as_str()));
                    },
                    _ => {},
                }
                self.field = Field::NoField;
            },
            XmlItem::Malformed => {
                self.done = true;
            },
            XmlItem::Other => {},
        }
    }

    /// The calendars read so far, in document order.
    pub fn finish(self) -> (r: Vec<Calendar>)
        ensures
            calendar_models(r@) == self@.found,
    {
        self.found
    }
}

/// The calendars that a sequence of XML events describes, in document order.
/// Reading stops at the first malformed event; what was decoded before it is kept.
pub fn decode_calendar_events(events: &Vec<XmlItem>) -> (r: Vec<Calendar>)
    ensures
        calendar_models(r@) == calendars_of(events@),
{
    let mut d = CalendarDecoder::new();
    let mut i: usize = 0;
    while i < events.len()
        invariant
            i <= events@.len(),
            d@ == calendar_scan(events@.subrange(0, i as int)),
        decreases events@.len() - i,
    {
        assert(events@.subrange(0, i + 1).drop_last() =~= events@.subrange(0, i as int));
        d.feed(&events[i]);
        i = i + 1;
    }
    assert(events@.subrange(0, i as int) =~= events@);
    d.finish()
}

/// The calendars that a multistatus document lists, in document order.
/// The document is decoded whatever HTTP status it came with: that status is
/// the transport's concern.
pub fn parse_calendar_list(xml: &str) -> (r: Vec<Calendar>)
    ensures
        calendar_models(r@) == calendars_of(xml_events_of(xml@)),
{
    let events = read_xml_events(xml);
    decode_calendar_events(&events)
}

} // verus!
