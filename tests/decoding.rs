use nxcli::calendar::{decode_calendar_events, parse_calendar_list, Calendar, CalendarComponents, CalendarDecoder};
use nxcli::todo::{nonempty_todos, parse_todo_list, TodoDecoder};
use nxcli::xml_items::XmlItem;

fn multistatus(body: &str) -> String {
    format!(
        "<?xml version=\"1.0\"?>\n<d:multistatus xmlns:d=\"DAV:\" xmlns:cal=\"urn:ietf:params:xml:ns:caldav\">{}</d:multistatus>",
        body
    )
}

fn calendar_response(href: &str, name: Option<&str>, comps: &[&str]) -> String {
    let mut s = format!("<d:response><d:href>{}</d:href><d:propstat><d:prop>", href);
    if let Some(n) = name {
        s.push_str(&format!("<d:displayname>{}</d:displayname>", n));
    }
    s.push_str("<cal:supported-calendar-component-set>");
    for c in comps {
        s.push_str(&format!("<cal:comp name=\"{}\"/>", c));
    }
    s.push_str("</cal:supported-calendar-component-set></d:prop></d:propstat></d:response>");
    s
}

const TODO_PAYLOAD: &str = "BEGIN:VCALENDAR\nVERSION:2.0\nPRODID:-//example//EN\nBEGIN:VTODO\nUID:task-1\nSUMMARY:Buy milk\nEND:VTODO\nEND:VCALENDAR\n";

fn todo_response(href: &str, payloads: &[&str]) -> String {
    let mut s = format!("<d:response><d:href>{}</d:href><d:propstat><d:prop>", href);
    for p in payloads {
        s.push_str(&format!("<cal:calendar-data>{}</cal:calendar-data>", p));
    }
    s.push_str("</d:prop></d:propstat></d:response>");
    s
}

fn hrefs(cals: &[Calendar]) -> Vec<String> {
    cals.iter().map(|c| c.get_url()).collect()
}

#[test]
fn every_complete_response_yields_a_calendar_in_order() {
    let doc = multistatus(&format!(
        "{}{}{}",
        calendar_response("/cal/a/", Some("A"), &["VEVENT"]),
        calendar_response("/cal/b/", Some("B"), &[]),
        calendar_response("/cal/c/", Some("C"), &["VTODO"])
    ));
    let cals = parse_calendar_list(&doc);
    assert_eq!(hrefs(&cals), vec!["/cal/a/", "/cal/b/", "/cal/c/"]);
    assert_eq!(cals[0].get_displayname(), "A");
    assert_eq!(cals[1].get_supported_components(), vec![]);
    assert_eq!(cals[2].get_supported_components(), vec![CalendarComponents::Todo]);
}

#[test]
fn response_without_displayname_is_dropped() {
    let doc = multistatus(&format!(
        "{}{}{}",
        calendar_response("/cal/1/", Some("One"), &[]),
        calendar_response("/cal/2/", None, &["VEVENT"]),
        calendar_response("/cal/3/", Some("Three"), &[])
    ));
    let cals = parse_calendar_list(&doc);
    assert_eq!(hrefs(&cals), vec!["/cal/1/", "/cal/3/"]);
    assert_eq!(cals[1].get_displayname(), "Three");
}

#[test]
fn unknown_component_tokens_are_skipped() {
    let doc = multistatus(&calendar_response("/cal/x/", Some("X"), &["VEVENT", "VJOURNAL", "VTODO"]));
    let cals = parse_calendar_list(&doc);
    assert_eq!(cals.len(), 1);
    assert_eq!(
        cals[0].get_supported_components(),
        vec![CalendarComponents::Event, CalendarComponents::Todo]
    );
    assert!(cals[0].has_component(CalendarComponents::Todo));
    assert!(cals[0].has_component(CalendarComponents::Event));
}

#[test]
fn comp_outside_component_set_is_ignored() {
    let doc = multistatus(
        "<d:response><d:href>/cal/y/</d:href><d:displayname>Y</d:displayname><cal:comp name=\"VTODO\"/></d:response>",
    );
    let cals = parse_calendar_list(&doc);
    assert_eq!(cals.len(), 1);
    assert!(!cals[0].has_component(CalendarComponents::Todo));
}

#[test]
fn displayname_is_trimmed_and_stripped_of_zero_width_spaces() {
    let doc = multistatus(&calendar_response("/cal/w/", Some("  Wo\u{200B}rk \n"), &[]));
    let cals = parse_calendar_list(&doc);
    assert_eq!(cals[0].get_displayname(), "Work");
    let doc = multistatus(&calendar_response("/cal/w/", Some("Wo\u{200B}rk"), &[]));
    assert_eq!(parse_calendar_list(&doc)[0].get_displayname(), "Work");
}

#[test]
fn structural_error_keeps_what_was_decoded() {
    let doc = multistatus(&format!(
        "{}{}<d:response><d:href>/cal/3/</d:href></d:oops>{}",
        calendar_response("/cal/1/", Some("One"), &[]),
        calendar_response("/cal/2/", Some("Two"), &[]),
        calendar_response("/cal/4/", Some("Four"), &[])
    ));
    let cals = parse_calendar_list(&doc);
    assert_eq!(hrefs(&cals), vec!["/cal/1/", "/cal/2/"]);
}

#[test]
fn last_href_in_a_response_wins() {
    let doc = multistatus(
        "<d:response><d:href>/first/</d:href><d:href>/second/</d:href><d:displayname>N</d:displayname></d:response>",
    );
    let cals = parse_calendar_list(&doc);
    assert_eq!(hrefs(&cals), vec!["/second/"]);
}

#[test]
fn empty_multistatus_yields_nothing() {
    assert!(parse_calendar_list(&multistatus("")).is_empty());
    assert!(parse_calendar_list("").is_empty());
}

#[test]
fn element_without_namespace_does_not_match() {
    let events = vec![
        XmlItem::Start { namespace: None, local_name: "href".to_string(), attributes: vec![] },
        XmlItem::Text("/cal/n/".to_string()),
        XmlItem::Start { namespace: Some("DAV:".to_string()), local_name: "displayname".to_string(), attributes: vec![] },
        XmlItem::Text("N".to_string()),
        XmlItem::End { namespace: Some("DAV:".to_string()), local_name: "response".to_string() },
    ];
    assert!(decode_calendar_events(&events).is_empty());
}

#[test]
fn streaming_decoder_matches_batch_decoding() {
    let events = vec![
        XmlItem::Start { namespace: Some("DAV:".to_string()), local_name: "href".to_string(), attributes: vec![] },
        XmlItem::Text(" /cal/s/ ".to_string()),
        XmlItem::Start { namespace: Some("DAV:".to_string()), local_name: "displayname".to_string(), attributes: vec![] },
        XmlItem::Text("S".to_string()),
        XmlItem::Start {
            namespace: Some("urn:ietf:params:xml:ns:caldav".to_string()),
            local_name: "supported-calendar-component-set".to_string(),
            attributes: vec![],
        },
        XmlItem::Start {
            namespace: Some("urn:ietf:params:xml:ns:caldav".to_string()),
            local_name: "comp".to_string(),
            attributes: vec![("name".to_string(), "VEVENT".to_string()), ("name".to_string(), "VEVENT".to_string())],
        },
        XmlItem::End { namespace: Some("DAV:".to_string()), local_name: "response".to_string() },
        XmlItem::Malformed,
        XmlItem::End { namespace: Some("DAV:".to_string()), local_name: "response".to_string() },
    ];
    let mut d = CalendarDecoder::new();
    for e in &events {
        d.feed(e);
    }
    assert!(d.is_done());
    let cals = d.finish();
    assert_eq!(cals.len(), 1);
    assert_eq!(cals[0].get_url(), "/cal/s/");
    assert_eq!(cals[0].get_supported_components(), vec![CalendarComponents::Event, CalendarComponents::Event]);
    assert_eq!(decode_calendar_events(&events).len(), 1);
}

#[test]
fn todo_payload_parses_into_one_todo_component() {
    let doc = multistatus(&todo_response("/cal/t/1.ics", &[TODO_PAYLOAD]));
    let todos = parse_todo_list(&doc);
    assert_eq!(todos.len(), 1);
    assert_eq!(todos[0].get_href(), "/cal/t/1.ics");
    assert_eq!(todos[0].get_calendar().todos.len(), 1);
    assert_eq!(todos[0].get_calendar().events.len(), 0);
}

#[test]
fn malformed_payload_yields_no_todo() {
    let doc = multistatus(&format!(
        "{}{}",
        todo_response("/cal/t/bad.ics", &["this is not a calendar"]),
        todo_response("/cal/t/good.ics", &[TODO_PAYLOAD])
    ));
    let todos = parse_todo_list(&doc);
    assert_eq!(todos.len(), 1);
    assert_eq!(todos[0].get_href(), "/cal/t/good.ics");
}

#[test]
fn later_payload_after_a_malformed_one_is_used() {
    let doc = multistatus(&todo_response("/cal/t/2.ics", &["garbage", TODO_PAYLOAD]));
    let todos = parse_todo_list(&doc);
    assert_eq!(todos.len(), 1);
    assert_eq!(todos[0].get_calendar().todos.len(), 1);
}

#[test]
fn todo_without_href_is_dropped() {
    let doc = multistatus(&format!(
        "<d:response><d:propstat><d:prop><cal:calendar-data>{}</cal:calendar-data></d:prop></d:propstat></d:response>",
        TODO_PAYLOAD
    ));
    assert!(parse_todo_list(&doc).is_empty());
}

#[test]
fn todo_decoding_stops_at_structural_error() {
    let doc = multistatus(&format!(
        "{}{}<d:response></d:wrong>{}",
        todo_response("/a.ics", &[TODO_PAYLOAD]),
        todo_response("/b.ics", &[TODO_PAYLOAD]),
        todo_response("/c.ics", &[TODO_PAYLOAD])
    ));
    let todos = parse_todo_list(&doc);
    assert_eq!(todos.len(), 2);
    assert_eq!(todos[1].get_href(), "/b.ics");
    let mut d = TodoDecoder::new();
    d.feed(&XmlItem::Malformed);
    assert!(d.is_done());
    assert!(d.finish().is_empty());
}

#[test]
fn empty_todo_list_is_none() {
    assert!(nonempty_todos(vec![]).is_none());
    let doc = multistatus(&todo_response("/a.ics", &[TODO_PAYLOAD]));
    assert_eq!(nonempty_todos(parse_todo_list(&doc)).map(|v| v.len()), Some(1));
}
