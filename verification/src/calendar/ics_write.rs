//! Items to RFC 5545 text: one VCALENDAR, TEXT values escaped, content
//! lines folded at 75 bytes, instants written in UTC with a trailing `Z`
//! (all-day events as bare dates).
use vstd::prelude::*;
use crate::calendar::ics::{
    EventV, ItemV, TodoV, item_view, items_view, person_view, refs_view, reminder_view,
};
use crate::calendar::ics_text::{escape_text, escaped, fit, fold_line, folded};
use crate::calendar::item::{
    CalendarAlarm, CalendarEvent, CalendarItem, CalendarTodo, EventClass, EventStatus, Person, Reminder, TodoStatus,
    event_class_str, event_class_text, event_status_str, event_status_text, todo_status_str,
    todo_status_text,
};
use crate::text::{all_ascii, append_string, chars_of, dec, fmt_u64, has_char, has_sub, is_empty_str, lemma_sub_within, occurs_at, owned};

verus! {

// ----- chrono ----------------------------------------------------------

/// The text `DateTime::<Utc>::from_timestamp(t, 0)` formats to with
/// `%Y%m%dT%H%M%SZ`, or `None` where chrono has no such instant.
pub uninterp spec fn utc_stamp_text(t: i64) -> Option<Seq<char>>;

/// The text `DateTime::<Utc>::from_timestamp(t, 0)` formats to with
/// `%Y%m%d`, or `None` where chrono has no such instant.
pub uninterp spec fn utc_date_text(t: i64) -> Option<Seq<char>>;

/// Calls `chrono::DateTime::<Utc>::from_timestamp(t, 0)` and formats the
/// instant with `%Y%m%dT%H%M%SZ`. Claims that the result is the named text
/// of `t`; the calendar arithmetic chrono does is not stated.
#[verifier::external_body]
fn format_utc_stamp(t: i64) -> (r: Option<String>)
    ensures
        r matches Some(s) ==> utc_stamp_text(t) == Some(s@),
        r is None ==> utc_stamp_text(t) is None,
{
    match chrono::DateTime::<chrono::Utc>::from_timestamp(t, 0) {
        Some(dt) => Some(dt.format("%Y%m%dT%H%M%SZ").to_string()),
        None => None,
    }
}

/// Calls `chrono::DateTime::<Utc>::from_timestamp(t, 0)` and formats the
/// date with `%Y%m%d`. Claims that the result is the named text of `t`;
/// the calendar arithmetic chrono does is not stated.
#[verifier::external_body]
fn format_utc_date(t: i64) -> (r: Option<String>)
    ensures
        r matches Some(s) ==> utc_date_text(t) == Some(s@),
        r is None ==> utc_date_text(t) is None,
{
    match chrono::DateTime::<chrono::Utc>::from_timestamp(t, 0) {
        Some(dt) => Some(dt.format("%Y%m%d").to_string()),
        None => None,
    }
}

// ----- the text --------------------------------------------------------

/// The stamp of an instant (meaningful where `utc_stamp_text` has one).
pub open spec fn stamp(t: i64) -> Seq<char> {
    utc_stamp_text(t)->Some_0
}

/// The date of an instant (meaningful where `utc_date_text` has one).
pub open spec fn date(t: i64) -> Seq<char> {
    utc_date_text(t)->Some_0
}

/// A TEXT property: the value escaped, the line folded, CRLF after.
pub open spec fn text_line(name: Seq<char>, value: Seq<char>) -> Seq<char> {
    folded(name + ":"@ + escaped(value)) + "\r\n"@
}

/// A property whose value is written as it is: folded, CRLF after.
pub open spec fn raw_line(name: Seq<char>, value: Seq<char>) -> Seq<char> {
    folded(name + ":"@ + value) + "\r\n"@
}

/// A `CN` that holds `,`, `;` or `:` has to be quoted.
pub open spec fn needs_quote(n: Seq<char>) -> bool {
    n.contains(',') || n.contains(';') || n.contains(':')
}

/// The text without its double quotes.
pub open spec fn without_dquotes(s: Seq<char>) -> Seq<char>
    decreases s.len(),
{
    if s.len() == 0 {
        s
    } else if s.last() == '"' {
        without_dquotes(s.drop_last())
    } else {
        without_dquotes(s.drop_last()).push(s.last())
    }
}

/// The `CN` parameter's value for a name.
pub open spec fn cn_value(n: Seq<char>) -> Seq<char> {
    if needs_quote(n) {
        "\""@ + without_dquotes(n) + "\""@
    } else {
        n
    }
}

/// An ORGANIZER or ATTENDEE line for a person (address, name): the name,
/// when there is one, as `CN`, the address as a `mailto:` URI.
pub open spec fn address_line(prop: Seq<char>, p: (Seq<char>, Seq<char>)) -> Seq<char> {
    let header = if p.1.len() == 0 {
        prop
    } else {
        prop + ";CN="@ + cn_value(p.1)
    };
    folded(header + ":"@ + "mailto:"@ + p.0) + "\r\n"@
}

/// The ATTENDEE lines, in order.
pub open spec fn attendee_lines(ps: Seq<(Seq<char>, Seq<char>)>) -> Seq<char>
    decreases ps.len(),
{
    if ps.len() == 0 {
        Seq::empty()
    } else {
        attendee_lines(ps.drop_last()) + address_line("ATTENDEE"@, ps.last())
    }
}

/// A VALARM that displays `desc` (or `fallback` when it is empty) at
/// `trigger`.
pub open spec fn valarm_text(trigger: i64, desc: Seq<char>, fallback: Seq<char>) -> Seq<char> {
    "BEGIN:VALARM\r\n"@ + "ACTION:DISPLAY\r\n"@ + text_line(
        "DESCRIPTION"@,
        if desc.len() == 0 {
            fallback
        } else {
            desc
        },
    ) + raw_line("TRIGGER;VALUE=DATE-TIME"@, stamp(trigger)) + "END:VALARM\r\n"@
}

/// The VALARMs of an item's reminders, in order.
pub open spec fn reminders_text(rs: Seq<(i64, Seq<char>)>) -> Seq<char>
    decreases rs.len(),
{
    if rs.len() == 0 {
        Seq::empty()
    } else {
        reminders_text(rs.drop_last()) + valarm_text(rs.last().0, rs.last().1, "Reminder"@)
    }
}

/// Every reminder's instant can be written.
pub open spec fn reminders_ok(rs: Seq<(i64, Seq<char>)>) -> bool {
    forall|i: int| 0 <= i < rs.len() ==> (#[trigger] utc_stamp_text(rs[i].0)) is Some
}

/// The start and end lines of an event: dates for an all-day event,
/// stamps otherwise.
pub open spec fn event_times(e: EventV) -> Seq<char> {
    if e.all_day {
        raw_line("DTSTART;VALUE=DATE"@, date(e.start)) + raw_line("DTEND;VALUE=DATE"@, date(e.end))
    } else {
        raw_line("DTSTART"@, stamp(e.start)) + raw_line("DTEND"@, stamp(e.end))
    }
}

/// An optional TEXT line, left out when the value is empty.
pub open spec fn optional_line(name: Seq<char>, value: Seq<char>) -> Seq<char> {
    if value.len() == 0 {
        Seq::empty()
    } else {
        text_line(name, value)
    }
}

/// The lines of an event after its times, up to its reminders.
pub open spec fn event_details(e: EventV) -> Seq<char> {
    text_line("SUMMARY"@, e.summary) + optional_line("DESCRIPTION"@, e.description)
        + optional_line("LOCATION"@, e.location) + raw_line("STATUS"@, event_status_text(e.status))
        + raw_line("CLASS"@, event_class_text(e.class)) + (match e.organizer {
        Some(p) => address_line("ORGANIZER"@, p),
        None => Seq::empty(),
    }) + attendee_lines(e.attendees)
}

/// A VEVENT stamped at `now`.
pub open spec fn event_text(e: EventV, now: i64) -> Seq<char> {
    "BEGIN:VEVENT\r\n"@ + text_line("UID"@, e.uid) + raw_line("DTSTAMP"@, stamp(now))
        + event_times(e) + event_details(e) + reminders_text(e.reminders) + "END:VEVENT\r\n"@
}

/// Every instant of an event, and `now`, can be written.
pub open spec fn event_ok(e: EventV, now: i64) -> bool {
    &&& utc_stamp_text(now) is Some
    &&& if e.all_day {
        utc_date_text(e.start) is Some && utc_date_text(e.end) is Some
    } else {
        utc_stamp_text(e.start) is Some && utc_stamp_text(e.end) is Some
    }
    &&& reminders_ok(e.reminders)
}

/// The DUE line of a task, when it has a due time.
pub open spec fn due_line(due: Option<i64>) -> Seq<char> {
    match due {
        Some(d) => raw_line("DUE"@, stamp(d)),
        None => Seq::empty(),
    }
}

/// The PRIORITY line of a task, left out at priority 0.
pub open spec fn priority_line(p: u8) -> Seq<char> {
    if p > 0 {
        raw_line("PRIORITY"@, dec(p as nat))
    } else {
        Seq::empty()
    }
}

/// The lines of a task after its stamp, up to its reminders.
pub open spec fn todo_details(t: TodoV) -> Seq<char> {
    text_line("SUMMARY"@, t.summary) + optional_line("DESCRIPTION"@, t.description) + due_line(
        t.due,
    ) + raw_line("STATUS"@, todo_status_text(t.status)) + priority_line(t.priority)
}

/// A VTODO stamped at `now`.
pub open spec fn todo_text(t: TodoV, now: i64) -> Seq<char> {
    "BEGIN:VTODO\r\n"@ + text_line("UID"@, t.uid) + raw_line("DTSTAMP"@, stamp(now))
        + todo_details(t) + reminders_text(t.reminders) + "END:VTODO\r\n"@
}

/// Every instant of a task, and `now`, can be written.
pub open spec fn todo_ok(t: TodoV, now: i64) -> bool {
    &&& utc_stamp_text(now) is Some
    &&& t.due matches Some(d) ==> utc_stamp_text(d) is Some
    &&& reminders_ok(t.reminders)
}

/// One item's component.
pub open spec fn item_text(i: ItemV, now: i64) -> Seq<char> {
    match i {
        ItemV::Event(e) => event_text(e, now),
        ItemV::Todo(t) => todo_text(t, now),
        ItemV::Alarm(trigger, desc) => valarm_text(trigger, desc, "Alarm"@),
    }
}

/// Every instant of an item can be written.
pub open spec fn item_ok(i: ItemV, now: i64) -> bool {
    match i {
        ItemV::Event(e) => event_ok(e, now),
        ItemV::Todo(t) => todo_ok(t, now),
        ItemV::Alarm(trigger, _) => utc_stamp_text(trigger) is Some,
    }
}

/// The components of the items, in order.
pub open spec fn items_text(items: Seq<ItemV>, now: i64) -> Seq<char>
    decreases items.len(),
{
    if items.len() == 0 {
        Seq::empty()
    } else {
        items_text(items.drop_last(), now) + item_text(items.last(), now)
    }
}

/// Every item can be written.
pub open spec fn items_ok(items: Seq<ItemV>, now: i64) -> bool {
    forall|i: int| 0 <= i < items.len() ==> #[trigger] item_ok(items[i], now)
}

/// The whole document: the VCALENDAR header lines, the items, the end line.
pub open spec fn ics_document(items: Seq<ItemV>, now: i64) -> Seq<char> {
    "BEGIN:VCALENDAR\r\n"@ + "VERSION:2.0\r\n"@ + "PRODID:-//PlausiDen//mail-calendar 0.1//EN\r\n"@
        + "CALSCALE:GREGORIAN\r\n"@ + items_text(items, now) + "END:VCALENDAR\r\n"@
}

/// What writing `items` at `now` gives: the document where every instant
/// can be written, nothing otherwise.
pub open spec fn written_at(items: Seq<ItemV>, now: i64, r: Option<Seq<char>>) -> bool {
    match r {
        Some(s) => items_ok(items, now) && s == ics_document(items, now),
        None => !items_ok(items, now),
    }
}

/// The text of an optional string.
pub open spec fn opt_view(r: Option<String>) -> Option<Seq<char>> {
    match r {
        Some(s) => Some(s@),
        None => None,
    }
}

// ----- writing ---------------------------------------------------------

/// Writes a TEXT property line.
fn write_line(out: &mut String, name: &str, value: &str)
    ensures
        final(out)@ == old(out)@ + text_line(name@, value@),
{
    let mut line = owned(name);
    line.append(":");
    append_string(&mut line, &escape_text(value));
    let f = fold_line(line.as_str());
    append_string(out, &f);
    out.append("\r\n");
}

/// Writes a property line whose value needs no escaping.
fn write_line_raw(out: &mut String, name: &str, value: &str)
    ensures
        final(out)@ == old(out)@ + raw_line(name@, value@),
{
    let mut line = owned(name);
    line.append(":");
    line.append(value);
    let f = fold_line(line.as_str());
    append_string(out, &f);
    out.append("\r\n");
}

/// Writes a property line holding an instant's stamp; `false` where the
/// instant has none.
fn write_stamp_line(out: &mut String, name: &str, t: i64) -> (ok: bool)
    ensures
        ok == (utc_stamp_text(t) is Some),
        ok ==> final(out)@ == old(out)@ + raw_line(name@, stamp(t)),
{
    match format_utc_stamp(t) {
        Some(s) => {
            write_line_raw(out, name, s.as_str());
            true
        },
        None => false,
    }
}

/// Writes a property line holding an instant's date; `false` where the
/// instant has none.
fn write_date_line(out: &mut String, name: &str, t: i64) -> (ok: bool)
    ensures
        ok == (utc_date_text(t) is Some),
        ok ==> final(out)@ == old(out)@ + raw_line(name@, date(t)),
{
    match format_utc_date(t) {
        Some(s) => {
            write_line_raw(out, name, s.as_str());
            true
        },
        None => false,
    }
}

/// The characters without their double quotes.
fn strip_dquotes(v: &Vec<char>) -> (r: String)
    ensures
        r@ == without_dquotes(v@),
{
    let mut out = String::new();
    let mut i: usize = 0;
    assert(v@.take(0) =~= Seq::<char>::empty());
    while i < v.len()
        invariant
            i <= v@.len(),
            out@ == without_dquotes(v@.take(i as int)),
        decreases v.len() - i,
    {
        assert(v@.take(i + 1).drop_last() =~= v@.take(i as int));
        if v[i] != '"' {
            crate::text::push_char(&mut out, v[i]);
        }
        i = i + 1;
    }
    assert(v@.take(v@.len() as int) =~= v@);
    out
}

/// Writes an ORGANIZER or ATTENDEE line.
fn write_cal_address(out: &mut String, prop_name: &str, p: &Person)
    ensures
        final(out)@ == old(out)@ + address_line(prop_name@, person_view(*p)),
{
    let mut header = owned(prop_name);
    if !is_empty_str(p.name.as_str()) {
        let v = chars_of(p.name.as_str());
        let needs = has_char(&v, ',') || has_char(&v, ';') || has_char(&v, ':');
        header.append(";CN=");
        if needs {
            let ghost before = header@;
            header.append("\"");
            append_string(&mut header, &strip_dquotes(&v));
            header.append("\"");
            assert(header@ =~= before + cn_value(p.name@));
        } else {
            append_string(&mut header, &p.name);
        }
    }
    let ghost h = header@;
    header.append(":");
    header.append("mailto:");
    append_string(&mut header, &p.email);
    assert(header@ =~= h + ":"@ + "mailto:"@ + p.email@);
    let f = fold_line(header.as_str());
    append_string(out, &f);
    out.append("\r\n");
}

/// Writes a VALARM; `false` where its instant has no stamp.
fn write_valarm(out: &mut String, trigger: i64, desc: &str, fallback: &str) -> (ok: bool)
    ensures
        ok == (utc_stamp_text(trigger) is Some),
        ok ==> final(out)@ == old(out)@ + valarm_text(trigger, desc@, fallback@),
{
    let ghost start = out@;
    out.append("BEGIN:VALARM\r\n");
    out.append("ACTION:DISPLAY\r\n");
    let d = if is_empty_str(desc) {
        fallback
    } else {
        desc
    };
    write_line(out, "DESCRIPTION", d);
    let ok = write_stamp_line(out, "TRIGGER;VALUE=DATE-TIME", trigger);
    if !ok {
        return false;
    }
    out.append("END:VALARM\r\n");
    assert(out@ =~= start + valarm_text(trigger, desc@, fallback@));
    true
}

/// Writes the VALARMs of an item's reminders; `false` where one has no
/// stamp.
fn write_reminders(out: &mut String, rs: &Vec<Reminder>) -> (ok: bool)
    ensures
        ok == reminders_ok(rs@.map_values(|r: Reminder| reminder_view(r))),
        ok ==> final(out)@ == old(out)@ + reminders_text(
            rs@.map_values(|r: Reminder| reminder_view(r)),
        ),
{
    let ghost start = out@;
    let ghost vs = rs@.map_values(|r: Reminder| reminder_view(r));
    let mut i: usize = 0;
    assert(vs.take(0) =~= Seq::<(i64, Seq<char>)>::empty());
    while i < rs.len()
        invariant
            i <= rs@.len(),
            vs == rs@.map_values(|r: Reminder| reminder_view(r)),
            forall|k: int| 0 <= k < i ==> (#[trigger] utc_stamp_text(vs[k].0)) is Some,
            out@ == start + reminders_text(vs.take(i as int)),
        decreases rs.len() - i,
    {
        let r = &rs[i];
        assert(vs[i as int] == reminder_view(*r));
        assert(vs.take(i + 1).drop_last() =~= vs.take(i as int));
        let ghost before = out@;
        let ok = write_valarm(out, r.trigger, r.description.as_str(), "Reminder");
        if !ok {
            assert(utc_stamp_text(vs[i as int].0) is None);
            return false;
        }
        assert(out@ =~= start + reminders_text(vs.take(i + 1)));
        i = i + 1;
    }
    assert(vs.take(i as int) =~= vs);
    true
}

/// Writes the ATTENDEE lines.
fn write_attendees(out: &mut String, ps: &Vec<Person>)
    ensures
        final(out)@ == old(out)@ + attendee_lines(ps@.map_values(|p: Person| person_view(p))),
{
    let ghost start = out@;
    let ghost vs = ps@.map_values(|p: Person| person_view(p));
    let mut i: usize = 0;
    assert(vs.take(0) =~= Seq::<(Seq<char>, Seq<char>)>::empty());
    while i < ps.len()
        invariant
            i <= ps@.len(),
            vs == ps@.map_values(|p: Person| person_view(p)),
            out@ == start + attendee_lines(vs.take(i as int)),
        decreases ps.len() - i,
    {
        let p = &ps[i];
        assert(vs[i as int] == person_view(*p));
        assert(vs.take(i + 1).drop_last() =~= vs.take(i as int));
        write_cal_address(out, "ATTENDEE", p);
        assert(out@ =~= start + attendee_lines(vs.take(i + 1)));
        i = i + 1;
    }
    assert(vs.take(i as int) =~= vs);
}

/// Writes a TEXT line unless the value is empty.
fn write_optional_line(out: &mut String, name: &str, value: &str)
    ensures
        final(out)@ == old(out)@ + optional_line(name@, value@),
{
    if !is_empty_str(value) {
        write_line(out, name, value);
    } else {
        assert(old(out)@ + optional_line(name@, value@) =~= old(out)@);
    }
}

/// Writes an event's start and end lines; `false` where an instant has
/// none.
fn write_event_times(out: &mut String, e: &CalendarEvent) -> (ok: bool)
    ensures
        ok == (if e.all_day {
            utc_date_text(e.start) is Some && utc_date_text(e.end) is Some
        } else {
            utc_stamp_text(e.start) is Some && utc_stamp_text(e.end) is Some
        }),
        ok ==> final(out)@ == old(out)@ + event_times(crate::calendar::ics::event_view(*e)),
{
    let ghost start = out@;
    if e.all_day {
        if !write_date_line(out, "DTSTART;VALUE=DATE", e.start) {
            return false;
        }
        if !write_date_line(out, "DTEND;VALUE=DATE", e.end) {
            return false;
        }
    } else {
        if !write_stamp_line(out, "DTSTART", e.start) {
            return false;
        }
        if !write_stamp_line(out, "DTEND", e.end) {
            return false;
        }
    }
    assert(out@ =~= start + event_times(crate::calendar::ics::event_view(*e)));
    true
}

/// Writes an event's lines after its times, up to its reminders.
fn write_event_details(out: &mut String, e: &CalendarEvent)
    ensures
        final(out)@ == old(out)@ + event_details(crate::calendar::ics::event_view(*e)),
{
    let ghost start = out@;
    let ghost ev = crate::calendar::ics::event_view(*e);
    write_line(out, "SUMMARY", e.summary.as_str());
    write_optional_line(out, "DESCRIPTION", e.description.as_str());
    write_optional_line(out, "LOCATION", e.location.as_str());
    write_line_raw(out, "STATUS", event_status_str(e.status));
    write_line_raw(out, "CLASS", event_class_str(e.class));
    let ghost mid = out@;
    match &e.organizer {
        Some(org) => {
            write_cal_address(out, "ORGANIZER", org);
        },
        None => {},
    }
    let ghost org_text = match ev.organizer {
        Some(p) => address_line("ORGANIZER"@, p),
        None => Seq::<char>::empty(),
    };
    assert(out@ =~= mid + org_text);
    write_attendees(out, &e.attendees);
    assert(out@ =~= start + event_details(ev));
}

/// Writes a VEVENT; `false` where one of its instants has no text.
fn write_event(e: &CalendarEvent, now: i64, out: &mut String) -> (ok: bool)
    ensures
        ok == event_ok(crate::calendar::ics::event_view(*e), now),
        ok ==> final(out)@ == old(out)@ + event_text(crate::calendar::ics::event_view(*e), now),
{
    let ghost start = out@;
    let ghost ev = crate::calendar::ics::event_view(*e);
    out.append("BEGIN:VEVENT\r\n");
    write_line(out, "UID", e.uid.as_str());
    if !write_stamp_line(out, "DTSTAMP", now) {
        return false;
    }
    if !write_event_times(out, e) {
        return false;
    }
    write_event_details(out, e);
    if !write_reminders(out, &e.reminders) {
        return false;
    }
    out.append("END:VEVENT\r\n");
    assert(out@ =~= start + event_text(ev, now));
    true
}

/// Writes a task's lines after its stamp, up to its reminders; `false`
/// where its due time has no stamp.
fn write_todo_details(out: &mut String, t: &CalendarTodo) -> (ok: bool)
    ensures
        ok == (t.due matches Some(d) ==> utc_stamp_text(d) is Some),
        ok ==> final(out)@ == old(out)@ + todo_details(crate::calendar::ics::todo_view(*t)),
{
    let ghost start = out@;
    write_line(out, "SUMMARY", t.summary.as_str());
    write_optional_line(out, "DESCRIPTION", t.description.as_str());
    let ghost before_due = out@;
    match t.due {
        Some(d) => {
            if !write_stamp_line(out, "DUE", d) {
                return false;
            }
        },
        None => {},
    }
    assert(out@ =~= before_due + due_line(t.due));
    write_line_raw(out, "STATUS", todo_status_str(t.status));
    let ghost before_priority = out@;
    if t.priority > 0 {
        write_line_raw(out, "PRIORITY", fmt_u64(t.priority as u64).as_str());
    }
    assert(out@ =~= before_priority + priority_line(t.priority));
    assert(out@ =~= start + todo_details(crate::calendar::ics::todo_view(*t)));
    true
}

/// Writes a VTODO; `false` where one of its instants has no text.
fn write_todo(t: &CalendarTodo, now: i64, out: &mut String) -> (ok: bool)
    ensures
        ok == todo_ok(crate::calendar::ics::todo_view(*t), now),
        ok ==> final(out)@ == old(out)@ + todo_text(crate::calendar::ics::todo_view(*t), now),
{
    let ghost start = out@;
    let ghost tv = crate::calendar::ics::todo_view(*t);
    out.append("BEGIN:VTODO\r\n");
    write_line(out, "UID", t.uid.as_str());
    if !write_stamp_line(out, "DTSTAMP", now) {
        return false;
    }
    if !write_todo_details(out, t) {
        return false;
    }
    if !write_reminders(out, &t.reminders) {
        return false;
    }
    out.append("END:VTODO\r\n");
    assert(out@ =~= start + todo_text(tv, now));
    true
}

/// Writes a standalone VALARM; `false` where its instant has no stamp.
fn write_standalone_alarm(a: &CalendarAlarm, out: &mut String) -> (ok: bool)
    ensures
        ok == (utc_stamp_text(a.trigger) is Some),
        ok ==> final(out)@ == old(out)@ + valarm_text(a.trigger, a.description@, "Alarm"@),
{
    write_valarm(out, a.trigger, a.description.as_str(), "Alarm")
}

/// Writes the items (behind references) as one VCALENDAR document,
/// stamped at `now`; `None` where some instant has no text.
pub(crate) fn write_refs_at(items: &Vec<&CalendarItem>, now: i64) -> (r: Option<String>)
    ensures
        written_at(refs_view(items@), now, opt_view(r)),
{
    let ghost vs = refs_view(items@);
    let mut out = String::new();
    out.append("BEGIN:VCALENDAR\r\n");
    out.append("VERSION:2.0\r\n");
    out.append("PRODID:-//PlausiDen//mail-calendar 0.1//EN\r\n");
    out.append("CALSCALE:GREGORIAN\r\n");
    let ghost head = out@;
    assert(head =~= "BEGIN:VCALENDAR\r\n"@ + "VERSION:2.0\r\n"@
        + "PRODID:-//PlausiDen//mail-calendar 0.1//EN\r\n"@ + "CALSCALE:GREGORIAN\r\n"@);
    let mut i: usize = 0;
    assert(vs.take(0) =~= Seq::<ItemV>::empty());
    while i < items.len()
        invariant
            i <= items@.len(),
            vs == refs_view(items@),
            forall|k: int| 0 <= k < i ==> #[trigger] item_ok(vs[k], now),
            out@ == head + items_text(vs.take(i as int), now),
        decreases items.len() - i,
    {
        let item: &CalendarItem = items[i];
        assert(vs[i as int] == item_view(*item));
        assert(vs.take(i + 1).drop_last() =~= vs.take(i as int));
        let ok = match item {
            CalendarItem::Event(e) => write_event(e, now, &mut out),
            CalendarItem::Todo(t) => write_todo(t, now, &mut out),
            CalendarItem::Alarm(a) => write_standalone_alarm(a, &mut out),
        };
        if !ok {
            assert(!item_ok(vs[i as int], now));
            return None;
        }
        assert(out@ =~= head + items_text(vs.take(i + 1), now));
        i = i + 1;
    }
    assert(vs.take(i as int) =~= vs);
    out.append("END:VCALENDAR\r\n");
    assert(out@ =~= ics_document(vs, now));
    Some(out)
}

/// Writes the items as one VCALENDAR document, stamped at `now` (seconds
/// since the epoch); `None` where some instant has no text.
pub fn write_ics_at(items: &[CalendarItem], now: i64) -> (r: Option<String>)
    ensures
        written_at(items_view(items@), now, opt_view(r)),
{
    let mut refs: Vec<&CalendarItem> = Vec::new();
    let mut i: usize = 0;
    while i < items.len()
        invariant
            i <= items@.len(),
            refs_view(refs@) == items_view(items@).take(i as int),
        decreases items.len() - i,
    {
        let ghost before = refs@;
        refs.push(&items[i]);
        assert(refs_view(refs@) =~= refs_view(before).push(item_view(items@[i as int])));
        assert(items_view(items@).take(i + 1) =~= items_view(items@).take(i as int).push(
            item_view(items@[i as int]),
        ));
        i = i + 1;
    }
    assert(items_view(items@).take(items@.len() as int) =~= items_view(items@));
    write_refs_at(&refs, now)
}


// ----- the RFC 5545 status and class names, as written -----------------

proof fn lemma_fit_ascii(s: Seq<char>, budget: nat)
    requires
        all_ascii(s),
        s.len() <= budget,
    ensures
        fit(s, budget) == s.len(),
    decreases s.len(),
{
    if s.len() > 0 {
        assert((s[0] as u32) < 128);
        assert(all_ascii(s.drop_first())) by {
            assert forall|i: int| 0 <= i < s.drop_first().len() implies (#[trigger] s.drop_first()[i] as u32) < 128 by {
                assert(s.drop_first()[i] == s[i + 1]);
            }
        }
        lemma_fit_ascii(s.drop_first(), (budget - 1) as nat);
    }
}

/// A short ASCII property line is written whole, on one line.
proof fn lemma_short_line(l: Seq<char>)
    requires
        all_ascii(l),
        l.len() <= 75,
    ensures
        folded(l) == l,
{
    lemma_fit_ascii(l, 75);
}

proof fn lemma_sub_middle(a: Seq<char>, b: Seq<char>, c: Seq<char>)
    ensures
        has_sub(a + b + c, b),
{
    assert((a + b + c).subrange(a.len() as int, (a.len() + b.len()) as int) =~= b);
    assert(occurs_at(a + b + c, b, a.len() as int));
}

proof fn lemma_details_lines(e: EventV)
    ensures
        has_sub(event_details(e), raw_line("STATUS"@, event_status_text(e.status))),
        has_sub(event_details(e), raw_line("CLASS"@, event_class_text(e.class))),
{
    let pre = text_line("SUMMARY"@, e.summary) + optional_line("DESCRIPTION"@, e.description)
        + optional_line("LOCATION"@, e.location);
    let org = match e.organizer {
        Some(p) => address_line("ORGANIZER"@, p),
        None => Seq::empty(),
    };
    let post = org + attendee_lines(e.attendees);
    let sline = raw_line("STATUS"@, event_status_text(e.status));
    let cline = raw_line("CLASS"@, event_class_text(e.class));
    assert(event_details(e) =~= pre + sline + (cline + post));
    lemma_sub_middle(pre, sline, cline + post);
    assert(event_details(e) =~= (pre + sline) + cline + post);
    lemma_sub_middle(pre + sline, cline, post);
}

proof fn lemma_event_lines_present(e: EventV, now: i64)
    ensures
        has_sub(event_text(e, now), raw_line("STATUS"@, event_status_text(e.status))),
        has_sub(event_text(e, now), raw_line("CLASS"@, event_class_text(e.class))),
{
    lemma_details_lines(e);
    let pre = "BEGIN:VEVENT\r\n"@ + text_line("UID"@, e.uid) + raw_line("DTSTAMP"@, stamp(now)) + event_times(e);
    let post = reminders_text(e.reminders) + "END:VEVENT\r\n"@;
    assert(event_text(e, now) =~= pre + event_details(e) + post);
    lemma_sub_within(pre, event_details(e), post, raw_line("STATUS"@, event_status_text(e.status)));
    lemma_sub_within(pre, event_details(e), post, raw_line("CLASS"@, event_class_text(e.class)));
}

/// `name:value` written as one line, when it is short ASCII text.
proof fn lemma_named_line(name: Seq<char>, value: Seq<char>, line: Seq<char>)
    requires
        line == name + ":"@ + value + "\r\n"@,
        all_ascii(name + ":"@ + value),
        (name + ":"@ + value).len() <= 75,
    ensures
        raw_line(name, value) == line,
{
    lemma_short_line(name + ":"@ + value);
}

/// The writer names a VEVENT's status and class by their RFC 5545 names:
/// the event's text holds the line `STATUS:TENTATIVE` for a tentative
/// event, `STATUS:CANCELLED` for a cancelled one and `STATUS:CONFIRMED`
/// for a confirmed one, and likewise `CLASS:PUBLIC`, `CLASS:PRIVATE`,
/// `CLASS:CONFIDENTIAL`.
pub proof fn law_event_status_written(e: EventV, now: i64)
    ensures
        e.status == EventStatus::Tentative ==> has_sub(event_text(e, now), "STATUS:TENTATIVE\r\n"@),
        e.status == EventStatus::Cancelled ==> has_sub(event_text(e, now), "STATUS:CANCELLED\r\n"@),
        e.status == EventStatus::Confirmed ==> has_sub(event_text(e, now), "STATUS:CONFIRMED\r\n"@),
        e.class == EventClass::Public ==> has_sub(event_text(e, now), "CLASS:PUBLIC\r\n"@),
        e.class == EventClass::Private ==> has_sub(event_text(e, now), "CLASS:PRIVATE\r\n"@),
        e.class == EventClass::Confidential ==> has_sub(event_text(e, now), "CLASS:CONFIDENTIAL\r\n"@),
{
    lemma_event_lines_present(e, now);
    reveal_strlit("STATUS");
    reveal_strlit("CLASS");
    reveal_strlit(":");
    reveal_strlit("\r\n");
    match e.status {
        EventStatus::Tentative => {
            reveal_strlit("TENTATIVE");
            reveal_strlit("STATUS:TENTATIVE\r\n");
            assert("STATUS:TENTATIVE\r\n"@ =~= "STATUS"@ + ":"@ + "TENTATIVE"@ + "\r\n"@);
            assert(all_ascii("STATUS"@ + ":"@ + "TENTATIVE"@));
            lemma_named_line("STATUS"@, "TENTATIVE"@, "STATUS:TENTATIVE\r\n"@);
        },
        EventStatus::Cancelled => {
            reveal_strlit("CANCELLED");
            reveal_strlit("STATUS:CANCELLED\r\n");
            assert("STATUS:CANCELLED\r\n"@ =~= "STATUS"@ + ":"@ + "CANCELLED"@ + "\r\n"@);
            assert(all_ascii("STATUS"@ + ":"@ + "CANCELLED"@));
            lemma_named_line("STATUS"@, "CANCELLED"@, "STATUS:CANCELLED\r\n"@);
        },
        EventStatus::Confirmed => {
            reveal_strlit("CONFIRMED");
            reveal_strlit("STATUS:CONFIRMED\r\n");
            assert("STATUS:CONFIRMED\r\n"@ =~= "STATUS"@ + ":"@ + "CONFIRMED"@ + "\r\n"@);
            assert(all_ascii("STATUS"@ + ":"@ + "CONFIRMED"@));
            lemma_named_line("STATUS"@, "CONFIRMED"@, "STATUS:CONFIRMED\r\n"@);
        },
    }
    match e.class {
        EventClass::Public => {
            reveal_strlit("PUBLIC");
            reveal_strlit("CLASS:PUBLIC\r\n");
            assert("CLASS:PUBLIC\r\n"@ =~= "CLASS"@ + ":"@ + "PUBLIC"@ + "\r\n"@);
            assert(all_ascii("CLASS"@ + ":"@ + "PUBLIC"@));
            lemma_named_line("CLASS"@, "PUBLIC"@, "CLASS:PUBLIC\r\n"@);
        },
        EventClass::Private => {
            reveal_strlit("PRIVATE");
            reveal_strlit("CLASS:PRIVATE\r\n");
            assert("CLASS:PRIVATE\r\n"@ =~= "CLASS"@ + ":"@ + "PRIVATE"@ + "\r\n"@);
            assert(all_ascii("CLASS"@ + ":"@ + "PRIVATE"@));
            lemma_named_line("CLASS"@, "PRIVATE"@, "CLASS:PRIVATE\r\n"@);
        },
        EventClass::Confidential => {
            reveal_strlit("CONFIDENTIAL");
            reveal_strlit("CLASS:CONFIDENTIAL\r\n");
            assert("CLASS:CONFIDENTIAL\r\n"@ =~= "CLASS"@ + ":"@ + "CONFIDENTIAL"@ + "\r\n"@);
            assert(all_ascii("CLASS"@ + ":"@ + "CONFIDENTIAL"@));
            lemma_named_line("CLASS"@, "CONFIDENTIAL"@, "CLASS:CONFIDENTIAL\r\n"@);
        },
    }
}


proof fn lemma_todo_status_present(t: TodoV, now: i64)
    ensures
        has_sub(todo_text(t, now), raw_line("STATUS"@, todo_status_text(t.status))),
{
    let pre = text_line("SUMMARY"@, t.summary) + optional_line("DESCRIPTION"@, t.description) + due_line(t.due);
    let sline = raw_line("STATUS"@, todo_status_text(t.status));
    assert(todo_details(t) =~= pre + sline + priority_line(t.priority));
    lemma_sub_middle(pre, sline, priority_line(t.priority));
    let head = "BEGIN:VTODO\r\n"@ + text_line("UID"@, t.uid) + raw_line("DTSTAMP"@, stamp(now));
    let tail = reminders_text(t.reminders) + "END:VTODO\r\n"@;
    assert(todo_text(t, now) =~= head + todo_details(t) + tail);
    lemma_sub_within(head, todo_details(t), tail, sline);
}

/// The writer names a VTODO's status by its RFC 5545 name: the task's text
/// holds `STATUS:NEEDS-ACTION`, `STATUS:IN-PROCESS`, `STATUS:COMPLETED` or
/// `STATUS:CANCELLED` as the status is.
pub proof fn law_todo_status_written(t: TodoV, now: i64)
    ensures
        t.status == TodoStatus::NeedsAction ==> has_sub(todo_text(t, now), "STATUS:NEEDS-ACTION\r\n"@),
        t.status == TodoStatus::InProcess ==> has_sub(todo_text(t, now), "STATUS:IN-PROCESS\r\n"@),
        t.status == TodoStatus::Completed ==> has_sub(todo_text(t, now), "STATUS:COMPLETED\r\n"@),
        t.status == TodoStatus::Cancelled ==> has_sub(todo_text(t, now), "STATUS:CANCELLED\r\n"@),
{
    lemma_todo_status_present(t, now);
    reveal_strlit("STATUS");
    reveal_strlit(":");
    reveal_strlit("\r\n");
    match t.status {
        TodoStatus::NeedsAction => {
            reveal_strlit("NEEDS-ACTION");
            reveal_strlit("STATUS:NEEDS-ACTION\r\n");
            assert("STATUS:NEEDS-ACTION\r\n"@ =~= "STATUS"@ + ":"@ + "NEEDS-ACTION"@ + "\r\n"@);
            assert(all_ascii("STATUS"@ + ":"@ + "NEEDS-ACTION"@));
            lemma_named_line("STATUS"@, "NEEDS-ACTION"@, "STATUS:NEEDS-ACTION\r\n"@);
        },
        TodoStatus::InProcess => {
            reveal_strlit("IN-PROCESS");
            reveal_strlit("STATUS:IN-PROCESS\r\n");
            assert("STATUS:IN-PROCESS\r\n"@ =~= "STATUS"@ + ":"@ + "IN-PROCESS"@ + "\r\n"@);
            assert(all_ascii("STATUS"@ + ":"@ + "IN-PROCESS"@));
            lemma_named_line("STATUS"@, "IN-PROCESS"@, "STATUS:IN-PROCESS\r\n"@);
        },
        TodoStatus::Completed => {
            reveal_strlit("COMPLETED");
            reveal_strlit("STATUS:COMPLETED\r\n");
            assert("STATUS:COMPLETED\r\n"@ =~= "STATUS"@ + ":"@ + "COMPLETED"@ + "\r\n"@);
            assert(all_ascii("STATUS"@ + ":"@ + "COMPLETED"@));
            lemma_named_line("STATUS"@, "COMPLETED"@, "STATUS:COMPLETED\r\n"@);
        },
        TodoStatus::Cancelled => {
            reveal_strlit("CANCELLED");
            reveal_strlit("STATUS:CANCELLED\r\n");
            assert("STATUS:CANCELLED\r\n"@ =~= "STATUS"@ + ":"@ + "CANCELLED"@ + "\r\n"@);
            assert(all_ascii("STATUS"@ + ":"@ + "CANCELLED"@));
            lemma_named_line("STATUS"@, "CANCELLED"@, "STATUS:CANCELLED\r\n"@);
        },
    }
}

} // verus!
