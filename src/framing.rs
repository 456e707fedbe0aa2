//! How a document decodes response by response, and what a malformed event
//! does to the rest of it.

use vstd::prelude::*;
use crate::calendar::{
    Field, CalendarComponents, named_components,
    calendar_scan, calendar_scan_from, calendar_scan_start, calendar_step, calendars_of,
    finalize_calendar, CalendarModel, CalendarScan,
};
use crate::text::clean;
use crate::todo::{
    finalize_todo, ical_parse_of, todo_scan, todo_scan_from, todo_scan_start, todo_step, todos_of,
    TodoModel, TodoScan,
};
use crate::xml_items::{names, XmlItem, CALDAV_NS, DAV_NS};

verus! {

/// Whether `ev` closes a `response` element.
pub open spec fn is_response_end(ev: XmlItem) -> bool {
    match ev {
        XmlItem::End { namespace, local_name } => names(namespace, local_name, DAV_NS, "response"),
        _ => false,
    }
}

/// Whether `b` is one `response` element: it ends with the close of the
/// response, holds no other such close, and the reader reported no error in it.
pub open spec fn is_response_block(b: Seq<XmlItem>) -> bool {
    &&& b.len() > 0
    &&& is_response_end(b.last())
    &&& forall|i: int| 0 <= i < b.len() ==> !(#[trigger] b[i] is Malformed)
    &&& forall|i: int| 0 <= i < b.len() - 1 ==> !is_response_end(#[trigger] b[i])
}

/// The events of `blocks`, one block after the other.
pub open spec fn concat_all(blocks: Seq<Seq<XmlItem>>) -> Seq<XmlItem>
    decreases blocks.len(),
{
    if blocks.len() == 0 {
        Seq::empty()
    } else {
        concat_all(blocks.drop_last()) + blocks.last()
    }
}

/// The calendar that one response element carries, if it is complete.
pub open spec fn response_calendar(b: Seq<XmlItem>) -> Option<CalendarModel> {
    finalize_calendar(calendar_scan(b.drop_last()))
}

/// The calendars of the complete responses among `blocks`, in order.
pub open spec fn kept_calendars(blocks: Seq<Seq<XmlItem>>) -> Seq<CalendarModel>
    decreases blocks.len(),
{
    if blocks.len() == 0 {
        Seq::empty()
    } else {
        match response_calendar(blocks.last()) {
            Some(c) => kept_calendars(blocks.drop_last()).push(c),
            None => kept_calendars(blocks.drop_last()),
        }
    }
}

/// Reading `a` and then `b` is reading `a + b`.
pub proof fn lemma_calendar_scan_concat(s: CalendarScan, a: Seq<XmlItem>, b: Seq<XmlItem>)
    ensures
        calendar_scan_from(s, a + b) == calendar_scan_from(calendar_scan_from(s, a), b),
    decreases b.len(),
{
    if b.len() == 0 {
        assert(a + b =~= a);
    } else {
        assert((a + b).drop_last() =~= a + b.drop_last());
        lemma_calendar_scan_concat(s, a, b.drop_last());
    }
}

/// Inside a response, the calendars found before it take no part.
proof fn lemma_calendar_scan_inside(f: Seq<CalendarModel>, p: Seq<XmlItem>)
    requires
        forall|i: int| 0 <= i < p.len() ==> !(#[trigger] p[i] is Malformed),
        forall|i: int| 0 <= i < p.len() ==> !is_response_end(#[trigger] p[i]),
    ensures
        calendar_scan_from(calendar_scan_start(f), p) == (CalendarScan {
            found: f,
            ..calendar_scan(p)
        }),
        !calendar_scan(p).done,
    decreases p.len(),
{
    if p.len() > 0 {
        let q = p.drop_last();
        assert forall|i: int| 0 <= i < q.len() implies !(#[trigger] q[i] is Malformed) by {
            assert(q[i] == p[i]);
        }
        assert forall|i: int| 0 <= i < q.len() implies !is_response_end(#[trigger] q[i]) by {
            assert(q[i] == p[i]);
        }
        lemma_calendar_scan_inside(f, q);
        assert(!(p[p.len() - 1] is Malformed));
        assert(!is_response_end(p[p.len() - 1]));
    }
}

/// One response element, read from the state that follows a response, adds
/// its calendar where it is complete and leaves the state that follows a response.
proof fn lemma_calendar_response(f: Seq<CalendarModel>, b: Seq<XmlItem>)
    requires
        is_response_block(b),
    ensures
        calendar_scan_from(calendar_scan_start(f), b) == match response_calendar(b) {
            Some(c) => calendar_scan_start(f.push(c)),
            None => calendar_scan_start(f),
        },
{
    let p = b.drop_last();
    assert forall|i: int| 0 <= i < p.len() implies !(#[trigger] p[i] is Malformed) by {
        assert(p[i] == b[i]);
    }
    assert forall|i: int| 0 <= i < p.len() implies !is_response_end(#[trigger] p[i]) by {
        assert(p[i] == b[i]);
    }
    lemma_calendar_scan_inside(f, p);
    let sp = calendar_scan_from(calendar_scan_start(f), p);
    assert(calendar_scan_from(calendar_scan_start(f), b) == calendar_step(sp, b.last()));
    match b.last() {
        XmlItem::End { namespace, local_name } => {
            reveal_strlit("response");
            reveal_strlit("supported-calendar-component-set");
            assert(local_name@.len() != "supported-calendar-component-set"@.len());
            assert(finalize_calendar(sp) == response_calendar(b));
        },
        _ => {},
    }
}

/// A document made of response elements yields, in document order, the
/// calendar of each response that has both an href and a display name, and
/// nothing for the others.
pub proof fn lemma_calendars_by_response(blocks: Seq<Seq<XmlItem>>)
    requires
        forall|i: int| 0 <= i < blocks.len() ==> is_response_block(#[trigger] blocks[i]),
    ensures
        calendars_of(concat_all(blocks)) == kept_calendars(blocks),
        calendar_scan(concat_all(blocks)) == calendar_scan_start(kept_calendars(blocks)),
    decreases blocks.len(),
{
    if blocks.len() > 0 {
        let init = blocks.drop_last();
        assert forall|i: int| 0 <= i < init.len() implies is_response_block(#[trigger] init[i]) by {
            assert(init[i] == blocks[i]);
        }
        lemma_calendars_by_response(init);
        lemma_calendar_scan_concat(calendar_scan_start(Seq::empty()), concat_all(init), blocks.last());
        lemma_calendar_response(kept_calendars(init), blocks.last());
    }
}

/// A document of N response elements, each with an href and a display name,
/// yields exactly N calendars, the i-th from the i-th response.
pub proof fn lemma_every_complete_response_kept(blocks: Seq<Seq<XmlItem>>)
    requires
        forall|i: int| 0 <= i < blocks.len() ==> is_response_block(#[trigger] blocks[i]),
        forall|i: int| 0 <= i < blocks.len() ==> (#[trigger] response_calendar(blocks[i])) is Some,
    ensures
        calendars_of(concat_all(blocks)).len() == blocks.len(),
        forall|i: int| 0 <= i < blocks.len() ==> calendars_of(concat_all(blocks))[i] == response_calendar(blocks[i])->0,
    decreases blocks.len(),
{
    lemma_calendars_by_response(blocks);
    lemma_kept_calendars_all(blocks);
}

proof fn lemma_kept_calendars_all(blocks: Seq<Seq<XmlItem>>)
    requires
        forall|i: int| 0 <= i < blocks.len() ==> (#[trigger] response_calendar(blocks[i])) is Some,
    ensures
        kept_calendars(blocks).len() == blocks.len(),
        forall|i: int| 0 <= i < blocks.len() ==> kept_calendars(blocks)[i] == response_calendar(blocks[i])->0,
    decreases blocks.len(),
{
    if blocks.len() > 0 {
        let init = blocks.drop_last();
        assert forall|i: int| 0 <= i < init.len() implies (#[trigger] response_calendar(init[i])) is Some by {
            assert(init[i] == blocks[i]);
        }
        lemma_kept_calendars_all(init);
        assert(response_calendar(blocks[blocks.len() - 1]) is Some);
        assert forall|i: int| 0 <= i < blocks.len() implies kept_calendars(blocks)[i] == response_calendar(blocks[i])->0 by {
            if i < init.len() {
                assert(init[i] == blocks[i]);
            }
        }
    }
}

/// A finished calendar decoding reads nothing more.
proof fn lemma_calendar_done_stays(s: CalendarScan, b: Seq<XmlItem>)
    requires
        s.done,
    ensures
        calendar_scan_from(s, b) == s,
    decreases b.len(),
{
    if b.len() > 0 {
        lemma_calendar_done_stays(s, b.drop_last());
    }
}

/// Once the reader reports an error, nothing after it is decoded: the
/// calendars are those that closed before the error.
pub proof fn lemma_calendars_stop_at_error(a: Seq<XmlItem>, b: Seq<XmlItem>)
    ensures
        calendars_of(a.push(XmlItem::Malformed) + b) == calendars_of(a),
{
    let s = calendar_scan_start(Seq::empty());
    lemma_calendar_scan_concat(s, a.push(XmlItem::Malformed), b);
    assert(a.push(XmlItem::Malformed).drop_last() =~= a);
    lemma_calendar_done_stays(calendar_scan_from(s, a.push(XmlItem::Malformed)), b);
}

/// Reading `a` and then `b` is reading `a + b`.
pub proof fn lemma_todo_scan_concat(s: TodoScan, a: Seq<XmlItem>, b: Seq<XmlItem>)
    ensures
        todo_scan_from(s, a + b) == todo_scan_from(todo_scan_from(s, a), b),
    decreases b.len(),
{
    if b.len() == 0 {
        assert(a + b =~= a);
    } else {
        assert((a + b).drop_last() =~= a + b.drop_last());
        lemma_todo_scan_concat(s, a, b.drop_last());
    }
}

/// The to-do item that one response element carries, if it is complete.
pub open spec fn response_todo(b: Seq<XmlItem>) -> Option<TodoModel> {
    finalize_todo(todo_scan(b.drop_last()))
}

/// The to-do items of the complete responses among `blocks`, in order.
pub open spec fn kept_todos(blocks: Seq<Seq<XmlItem>>) -> Seq<TodoModel>
    decreases blocks.len(),
{
    if blocks.len() == 0 {
        Seq::empty()
    } else {
        match response_todo(blocks.last()) {
            Some(t) => kept_todos(blocks.drop_last()).push(t),
            None => kept_todos(blocks.drop_last()),
        }
    }
}

/// Inside a response, the to-do items found before it take no part.
proof fn lemma_todo_scan_inside(f: Seq<TodoModel>, p: Seq<XmlItem>)
    requires
        forall|i: int| 0 <= i < p.len() ==> !(#[trigger] p[i] is Malformed),
        forall|i: int| 0 <= i < p.len() ==> !is_response_end(#[trigger] p[i]),
    ensures
        todo_scan_from(todo_scan_start(f), p) == (TodoScan { found: f, ..todo_scan(p) }),
        !todo_scan(p).done,
    decreases p.len(),
{
    if p.len() > 0 {
        let q = p.drop_last();
        assert forall|i: int| 0 <= i < q.len() implies !(#[trigger] q[i] is Malformed) by {
            assert(q[i] == p[i]);
        }
        assert forall|i: int| 0 <= i < q.len() implies !is_response_end(#[trigger] q[i]) by {
            assert(q[i] == p[i]);
        }
        lemma_todo_scan_inside(f, q);
        assert(!(p[p.len() - 1] is Malformed));
        assert(!is_response_end(p[p.len() - 1]));
    }
}

/// One response element, read from the state that follows a response, adds
/// its to-do item where it is complete and leaves the state that follows a response.
proof fn lemma_todo_response(f: Seq<TodoModel>, b: Seq<XmlItem>)
    requires
        is_response_block(b),
    ensures
        todo_scan_from(todo_scan_start(f), b) == match response_todo(b) {
            Some(t) => todo_scan_start(f.push(t)),
            None => todo_scan_start(f),
        },
{
    let p = b.drop_last();
    assert forall|i: int| 0 <= i < p.len() implies !(#[trigger] p[i] is Malformed) by {
        assert(p[i] == b[i]);
    }
    assert forall|i: int| 0 <= i < p.len() implies !is_response_end(#[trigger] p[i]) by {
        assert(p[i] == b[i]);
    }
    lemma_todo_scan_inside(f, p);
    let sp = todo_scan_from(todo_scan_start(f), p);
    assert(todo_scan_from(todo_scan_start(f), b) == todo_step(sp, b.last()));
    assert(finalize_todo(sp) == response_todo(b));
}

/// A document made of response elements yields, in document order, the
/// to-do item of each response that has an href and a parsed calendar
/// document, and nothing for the others.
pub proof fn lemma_todos_by_response(blocks: Seq<Seq<XmlItem>>)
    requires
        forall|i: int| 0 <= i < blocks.len() ==> is_response_block(#[trigger] blocks[i]),
    ensures
        todos_of(concat_all(blocks)) == kept_todos(blocks),
        todo_scan(concat_all(blocks)) == todo_scan_start(kept_todos(blocks)),
    decreases blocks.len(),
{
    if blocks.len() > 0 {
        let init = blocks.drop_last();
        assert forall|i: int| 0 <= i < init.len() implies is_response_block(#[trigger] init[i]) by {
            assert(init[i] == blocks[i]);
        }
        lemma_todos_by_response(init);
        lemma_todo_scan_concat(todo_scan_start(Seq::empty()), concat_all(init), blocks.last());
        lemma_todo_response(kept_todos(init), blocks.last());
    }
}

/// A finished to-do decoding reads nothing more.
proof fn lemma_todo_done_stays(s: TodoScan, b: Seq<XmlItem>)
    requires
        s.done,
    ensures
        todo_scan_from(s, b) == s,
    decreases b.len(),
{
    if b.len() > 0 {
        lemma_todo_done_stays(s, b.drop_last());
    }
}

/// Once the reader reports an error, nothing after it is decoded: the
/// to-do items are those that closed before the error.
pub proof fn lemma_todos_stop_at_error(a: Seq<XmlItem>, b: Seq<XmlItem>)
    ensures
        todos_of(a.push(XmlItem::Malformed) + b) == todos_of(a),
{
    let s = todo_scan_start(Seq::empty());
    lemma_todo_scan_concat(s, a.push(XmlItem::Malformed), b);
    assert(a.push(XmlItem::Malformed).drop_last() =~= a);
    lemma_todo_done_stays(todo_scan_from(s, a.push(XmlItem::Malformed)), b);
}

/// Whether no text run that the to-do decoding of `p` reads as calendar data
/// parses as a calendar document once cleaned. Text runs read as an href, or
/// not read at all, may hold anything.
pub open spec fn no_payload_parses(p: Seq<XmlItem>) -> bool {
    forall|i: int|
        0 <= i < p.len() && #[trigger] p[i] is Text && todo_scan(p.subrange(0, i)).field
            == Field::CalendarData ==> ical_parse_of(clean(p[i]->Text_0@)) is None
}

/// Within a response, a calendar document is held only where some calendar
/// payload parsed.
proof fn lemma_no_calendar_without_parse(p: Seq<XmlItem>)
    requires
        no_payload_parses(p),
        forall|i: int| 0 <= i < p.len() ==> !(#[trigger] p[i] is Malformed),
        forall|i: int| 0 <= i < p.len() ==> !is_response_end(#[trigger] p[i]),
    ensures
        !todo_scan(p).done,
        todo_scan(p).calendar is None,
    decreases p.len(),
{
    if p.len() > 0 {
        let q = p.drop_last();
        assert forall|i: int| 0 <= i < q.len() implies !is_response_end(#[trigger] q[i]) by {
            assert(q[i] == p[i]);
        }
        assert forall|i: int| 0 <= i < q.len() implies !(#[trigger] q[i] is Malformed) by {
            assert(q[i] == p[i]);
        }
        assert forall|i: int|
            0 <= i < q.len() && #[trigger] q[i] is Text && todo_scan(q.subrange(0, i)).field
                == Field::CalendarData implies ical_parse_of(clean(q[i]->Text_0@)) is None by {
            assert(q[i] == p[i]);
            assert(q.subrange(0, i) =~= p.subrange(0, i));
        }
        lemma_no_calendar_without_parse(q);
        let last = p[p.len() - 1];
        assert(!is_response_end(last));
        assert(!(last is Malformed));
        assert(p.subrange(0, p.len() - 1) =~= q);
        assert(p[q.len() as int] == last);
    }
}

/// A response element in which no calendar payload parses yields no to-do
/// item, whatever its href: the items found before it are all that the
/// decoding holds after it.
pub proof fn lemma_unparsed_response_dropped(f: Seq<TodoModel>, b: Seq<XmlItem>)
    requires
        is_response_block(b),
        no_payload_parses(b.drop_last()),
    ensures
        response_todo(b) is None,
        todo_scan_from(todo_scan_start(f), b) == todo_scan_start(f),
{
    let p = b.drop_last();
    assert forall|i: int| 0 <= i < p.len() implies !is_response_end(#[trigger] p[i]) by {
        assert(p[i] == b[i]);
    }
    assert forall|i: int| 0 <= i < p.len() implies !(#[trigger] p[i] is Malformed) by {
        assert(p[i] == b[i]);
    }
    lemma_no_calendar_without_parse(p);
    lemma_todo_response(f, b);
}

/// Whether the calendar decoding of `p` reads some text run of `p` as the field `fld`.
pub open spec fn reads_field(p: Seq<XmlItem>, fld: Field) -> bool {
    exists|i: int|
        0 <= i < p.len() && #[trigger] p[i] is Text && calendar_scan(p.subrange(0, i)).field == fld
}

/// Within a response, the href and the display name, once read, stay read;
/// and neither is held before a text run was read into it.
proof fn lemma_fields_read(p: Seq<XmlItem>)
    requires
        forall|i: int| 0 <= i < p.len() ==> !(#[trigger] p[i] is Malformed),
        forall|i: int| 0 <= i < p.len() ==> !is_response_end(#[trigger] p[i]),
    ensures
        !calendar_scan(p).done,
        calendar_scan(p).href is Some <==> reads_field(p, Field::Href),
        calendar_scan(p).displayname is Some <==> reads_field(p, Field::DisplayName),
    decreases p.len(),
{
    if p.len() > 0 {
        let q = p.drop_last();
        let n = q.len() as int;
        assert forall|i: int| 0 <= i < q.len() implies !is_response_end(#[trigger] q[i]) by {
            assert(q[i] == p[i]);
        }
        assert forall|i: int| 0 <= i < q.len() implies !(#[trigger] q[i] is Malformed) by {
            assert(q[i] == p[i]);
        }
        lemma_fields_read(q);
        assert(!is_response_end(p[n]));
        assert(!(p[n] is Malformed));
        assert(p.subrange(0, n) =~= q);
        assert forall|fld: Field| reads_field(p, fld) <==> (reads_field(q, fld) || (p[n] is Text
            && calendar_scan(q).field == fld)) by {
            if reads_field(q, fld) {
                let i = choose|i: int|
                    0 <= i < q.len() && #[trigger] q[i] is Text && calendar_scan(q.subrange(0, i)).field
                        == fld;
                assert(q.subrange(0, i) =~= p.subrange(0, i));
                assert(p[i] == q[i]);
            }
            if reads_field(p, fld) {
                let i = choose|i: int|
                    0 <= i < p.len() && #[trigger] p[i] is Text && calendar_scan(p.subrange(0, i)).field
                        == fld;
                if i < n {
                    assert(q.subrange(0, i) =~= p.subrange(0, i));
                    assert(p[i] == q[i]);
                }
            }
        }
    }
}

/// A response element whose href and display name are both read yields a calendar.
pub proof fn lemma_complete_response(b: Seq<XmlItem>)
    requires
        is_response_block(b),
        reads_field(b.drop_last(), Field::Href),
        reads_field(b.drop_last(), Field::DisplayName),
    ensures
        response_calendar(b) is Some,
{
    let p = b.drop_last();
    assert forall|i: int| 0 <= i < p.len() implies !is_response_end(#[trigger] p[i]) by {
        assert(p[i] == b[i]);
    }
    assert forall|i: int| 0 <= i < p.len() implies !(#[trigger] p[i] is Malformed) by {
        assert(p[i] == b[i]);
    }
    lemma_fields_read(p);
}

/// A response element whose display name is never read yields no calendar.
pub proof fn lemma_response_without_displayname(b: Seq<XmlItem>)
    requires
        is_response_block(b),
        !reads_field(b.drop_last(), Field::DisplayName),
    ensures
        response_calendar(b) is None,
{
    let p = b.drop_last();
    assert forall|i: int| 0 <= i < p.len() implies !is_response_end(#[trigger] p[i]) by {
        assert(p[i] == b[i]);
    }
    assert forall|i: int| 0 <= i < p.len() implies !(#[trigger] p[i] is Malformed) by {
        assert(p[i] == b[i]);
    }
    lemma_fields_read(p);
}

/// A document of N response elements, in each of which an href and a display
/// name are read, yields exactly N calendars, the i-th from the i-th response.
pub proof fn lemma_every_response_with_both_fields_kept(blocks: Seq<Seq<XmlItem>>)
    requires
        forall|i: int| 0 <= i < blocks.len() ==> is_response_block(#[trigger] blocks[i]),
        forall|i: int| 0 <= i < blocks.len() ==> reads_field(#[trigger] blocks[i].drop_last(), Field::Href),
        forall|i: int| 0 <= i < blocks.len() ==> reads_field(#[trigger] blocks[i].drop_last(), Field::DisplayName),
    ensures
        calendars_of(concat_all(blocks)).len() == blocks.len(),
        forall|i: int| 0 <= i < blocks.len() ==> calendars_of(concat_all(blocks))[i] == response_calendar(blocks[i])->0,
{
    assert forall|i: int| 0 <= i < blocks.len() implies (#[trigger] response_calendar(blocks[i])) is Some by {
        lemma_complete_response(blocks[i]);
    }
    lemma_every_complete_response_kept(blocks);
}

proof fn lemma_kept_calendars_remove(blocks: Seq<Seq<XmlItem>>, k: int)
    requires
        0 <= k < blocks.len(),
        response_calendar(blocks[k]) is None,
    ensures
        kept_calendars(blocks) == kept_calendars(blocks.remove(k)),
    decreases blocks.len(),
{
    let init = blocks.drop_last();
    if k == blocks.len() - 1 {
        assert(blocks.remove(k) =~= init);
    } else {
        assert(init[k] == blocks[k]);
        lemma_kept_calendars_remove(init, k);
        let r = blocks.remove(k);
        assert(r.drop_last() =~= init.remove(k));
        assert(r.last() == blocks.last());
    }
}

/// Removing from a document a response element that yields no calendar (one
/// whose display name is never read, say) changes nothing in what the
/// document yields.
pub proof fn lemma_incomplete_response_removable(blocks: Seq<Seq<XmlItem>>, k: int)
    requires
        forall|i: int| 0 <= i < blocks.len() ==> is_response_block(#[trigger] blocks[i]),
        0 <= k < blocks.len(),
        response_calendar(blocks[k]) is None,
    ensures
        calendars_of(concat_all(blocks)) == calendars_of(concat_all(blocks.remove(k))),
{
    let r = blocks.remove(k);
    assert forall|i: int| 0 <= i < r.len() implies is_response_block(#[trigger] r[i]) by {
        if i < k {
            assert(r[i] == blocks[i]);
        } else {
            assert(r[i] == blocks[i + 1]);
        }
    }
    lemma_calendars_by_response(blocks);
    lemma_calendars_by_response(r);
    lemma_kept_calendars_remove(blocks, k);
}

/// Where the reader reports an error after some complete response elements,
/// the calendars are those of these responses, and nothing after the error
/// is decoded.
pub proof fn lemma_calendars_before_error(blocks: Seq<Seq<XmlItem>>, rest: Seq<XmlItem>)
    requires
        forall|i: int| 0 <= i < blocks.len() ==> is_response_block(#[trigger] blocks[i]),
    ensures
        calendars_of(concat_all(blocks).push(XmlItem::Malformed) + rest) == kept_calendars(blocks),
{
    lemma_calendars_stop_at_error(concat_all(blocks), rest);
    lemma_calendars_by_response(blocks);
}

/// Where the reader reports an error after some complete response elements,
/// the to-do items are those of these responses, and nothing after the error
/// is decoded.
pub proof fn lemma_todos_before_error(blocks: Seq<Seq<XmlItem>>, rest: Seq<XmlItem>)
    requires
        forall|i: int| 0 <= i < blocks.len() ==> is_response_block(#[trigger] blocks[i]),
    ensures
        todos_of(concat_all(blocks).push(XmlItem::Malformed) + rest) == kept_todos(blocks),
{
    lemma_todos_stop_at_error(concat_all(blocks), rest);
    lemma_todos_by_response(blocks);
}

/// The component kinds that the `comp` elements of `p` opened inside the
/// component-set region contribute, in document order: the resolved values of
/// their `name` attributes, duplicates kept, unknown values skipped.
pub open spec fn region_components(p: Seq<XmlItem>) -> Seq<CalendarComponents>
    decreases p.len(),
{
    if p.len() == 0 {
        Seq::empty()
    } else {
        let q = p.drop_last();
        match p.last() {
            XmlItem::Start { namespace, local_name, attributes } => {
                if calendar_scan(q).in_component_set && names(namespace, local_name, CALDAV_NS, "comp") {
                    region_components(q) + named_components(attributes@)
                } else {
                    region_components(q)
                }
            },
            _ => region_components(q),
        }
    }
}

proof fn lemma_components_read(p: Seq<XmlItem>)
    requires
        forall|i: int| 0 <= i < p.len() ==> !(#[trigger] p[i] is Malformed),
        forall|i: int| 0 <= i < p.len() ==> !is_response_end(#[trigger] p[i]),
    ensures
        !calendar_scan(p).done,
        calendar_scan(p).components == region_components(p),
    decreases p.len(),
{
    if p.len() > 0 {
        let q = p.drop_last();
        assert forall|i: int| 0 <= i < q.len() implies !is_response_end(#[trigger] q[i]) by {
            assert(q[i] == p[i]);
        }
        assert forall|i: int| 0 <= i < q.len() implies !(#[trigger] q[i] is Malformed) by {
            assert(q[i] == p[i]);
        }
        lemma_components_read(q);
        assert(!is_response_end(p[p.len() - 1]));
        assert(!(p[p.len() - 1] is Malformed));
        match p.last() {
            XmlItem::Start { namespace, local_name, attributes } => {
                reveal_strlit("comp");
                reveal_strlit("supported-calendar-component-set");
                if names(namespace, local_name, CALDAV_NS, "comp") {
                    assert(local_name@.len() != "supported-calendar-component-set"@.len());
                }
            },
            _ => {},
        }
    }
}

/// The calendar of a complete response element lists, in document order, the
/// component kinds that the `name` attributes of its `comp` elements inside
/// the component-set region resolve to.
pub proof fn lemma_response_components(b: Seq<XmlItem>)
    requires
        is_response_block(b),
        response_calendar(b) is Some,
    ensures
        response_calendar(b)->0.supported_components == region_components(b.drop_last()),
{
    let p = b.drop_last();
    assert forall|i: int| 0 <= i < p.len() implies !is_response_end(#[trigger] p[i]) by {
        assert(p[i] == b[i]);
    }
    assert forall|i: int| 0 <= i < p.len() implies !(#[trigger] p[i] is Malformed) by {
        assert(p[i] == b[i]);
    }
    lemma_components_read(p);
}

} // verus!
