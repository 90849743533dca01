//! Reading back what the writer wrote: the logical lines of a written
//! calendar, and the lemmas that carry the reader over them.
use vstd::prelude::*;
use crate::calendar::component::{
    CompV, is_multi_valued, parse_body, parse_comp, with_property, lemma_parse_comp_advances,
};
use crate::calendar::ics::{
    EventV, ItemV, TodoV, lookup, datetime_of, person_of, strip_all_prefix, u8_of, digits_value,
    all_digits, unsigned_digits, attendees_of, reminder_of, reminders_of, alarm_of, text_of,
    text_or_empty, is_relative, event_of, todo_of, items_of, ics_of, event_status_of,
    event_class_of, todo_status_of, upper_of, is_digit, parsed_naive_date, parsed_naive_datetime};
use crate::calendar::ics_text::{
    content_lines, escape_char, escaped, fit, fold_lines, folded, law_content_lines_of_folded,
    plain_content_line, property_of, utf8_len, PropV, colon_from, param_of, simple_name,
    lemma_plain_property, lemma_colon_after_name, trim_quotes, param_lookup, unescaped,
    law_unescape_inverts_escape,
};
use crate::seqs::filter_map;
use crate::calendar::ics_write::{
    address_line, attendee_lines, cn_value, date, event_details, needs_quote, without_dquotes, event_text, event_times,
    ics_document, item_text, items_text, optional_line, raw_line, reminders_text, stamp,
    text_line, todo_details, todo_text, valarm_text, due_line, priority_line, utc_date_text,
    utc_stamp_text,
};
use crate::calendar::item::{
    EventClass, EventStatus, TodoStatus, event_class_text, event_status_text, todo_status_text,
};
use crate::text::{all_ascii, ascii_upper_seq, dec, digit_char, first_index, upper_text, has_prefix, is_ws, split_all, trim, trim_end, trim_start};

verus! {

// ----- folding short lines -----------------------------------------------

proof fn lemma_fit_all(s: Seq<char>, budget: nat)
    requires
        4 * s.len() <= budget,
    ensures
        fit(s, budget) == s.len(),
    decreases s.len(),
{
    if s.len() > 0 {
        assert(utf8_len(s[0]) <= 4);
        lemma_fit_all(s.drop_first(), (budget - utf8_len(s[0])) as nat);
    }
}

proof fn lemma_fit_ascii(s: Seq<char>, budget: nat)
    requires
        s.len() <= budget,
        forall|i: int| 0 <= i < s.len() ==> (#[trigger] s[i] as u32) < 0x80,
    ensures
        fit(s, budget) == s.len(),
    decreases s.len(),
{
    if s.len() > 0 {
        assert(utf8_len(s[0]) == 1);
        assert forall|i: int| 0 <= i < s.drop_first().len() implies (#[trigger] s.drop_first()[i] as u32) < 0x80 by {
            assert(s.drop_first()[i] == s[i + 1]);
        }
        lemma_fit_ascii(s.drop_first(), (budget - 1) as nat);
    }
}

/// A line of at most 18 characters (72 bytes at most) is not folded.
pub proof fn lemma_short_line_unfolded(s: Seq<char>)
    requires
        s.len() <= 18,
    ensures
        folded(s) == s,
{
    lemma_fit_all(s, 75);
}

/// The lines of two runs, one after the other.
pub proof fn lemma_fold_lines_concat(a: Seq<Seq<char>>, b: Seq<Seq<char>>)
    ensures
        fold_lines(a + b) == fold_lines(a) + fold_lines(b),
    decreases a.len(),
{
    if a.len() == 0 {
        assert(a + b =~= b);
        assert(fold_lines(a) + fold_lines(b) =~= fold_lines(b));
    } else {
        lemma_fold_lines_concat(a.drop_first(), b);
        assert((a + b).drop_first() =~= a.drop_first() + b);
        assert((a + b)[0] == a[0]);
        let h = folded(a[0]) + "\r\n"@;
        assert(fold_lines(a + b) == h + fold_lines(a.drop_first() + b));
        assert(h + (fold_lines(a.drop_first()) + fold_lines(b)) =~= (h + fold_lines(a.drop_first()))
            + fold_lines(b));
    }
}

/// One line.
pub proof fn lemma_fold_lines_one(l: Seq<char>)
    ensures
        fold_lines(seq![l]) == folded(l) + "\r\n"@,
{
    assert(seq![l].drop_first() =~= Seq::<Seq<char>>::empty());
    assert(seq![l][0] == l);
    assert(fold_lines(Seq::<Seq<char>>::empty()) == Seq::<char>::empty());
    assert(fold_lines(seq![l]) == folded(l) + "\r\n"@ + fold_lines(Seq::<Seq<char>>::empty()));
    assert(folded(l) + "\r\n"@ + Seq::<char>::empty() =~= folded(l) + "\r\n"@);
}

proof fn lemma_prodid_unfolded()
    ensures
        folded("PRODID:-//PlausiDen//mail-calendar 0.1//EN"@) == "PRODID:-//PlausiDen//mail-calendar 0.1//EN"@,
{
    reveal_strlit("PRODID:-//PlausiDen//mail-calendar 0.1//EN");
    let s = "PRODID:-//PlausiDen//mail-calendar 0.1//EN"@;
    assert(s.len() == 42);
    assert(forall|i: int| 0 <= i < s.len() ==> (#[trigger] s[i] as u32) < 0x80);
    lemma_fit_ascii(s, 75);
}

// ----- the logical lines of a written calendar ------------------------------

/// A TEXT property line before folding.
pub open spec fn text_prop(name: Seq<char>, v: Seq<char>) -> Seq<char> {
    name + ":"@ + escaped(v)
}

/// A property line whose value is written as it is, before folding.
pub open spec fn raw_prop(name: Seq<char>, v: Seq<char>) -> Seq<char> {
    name + ":"@ + v
}

/// The header of a CAL-ADDRESS line: the property and, for a named
/// person, the `CN` parameter.
pub open spec fn address_header(prop: Seq<char>, p: (Seq<char>, Seq<char>)) -> Seq<char> {
    if p.1.len() == 0 {
        prop
    } else {
        prop + ";CN="@ + cn_value(p.1)
    }
}

/// A CAL-ADDRESS line before folding.
pub open spec fn address_prop(prop: Seq<char>, p: (Seq<char>, Seq<char>)) -> Seq<char> {
    address_header(prop, p) + ":"@ + "mailto:"@ + p.0
}

/// The lines of a VALARM.
pub open spec fn valarm_lines(trigger: i64, desc: Seq<char>, fallback: Seq<char>) -> Seq<Seq<char>> {
    seq![
        "BEGIN:VALARM"@,
        "ACTION:DISPLAY"@,
        text_prop(
            "DESCRIPTION"@,
            if desc.len() == 0 {
                fallback
            } else {
                desc
            },
        ),
        raw_prop("TRIGGER;VALUE=DATE-TIME"@, stamp(trigger)),
        "END:VALARM"@,
    ]
}

/// The lines of an item's reminders.
pub open spec fn reminders_lines(rs: Seq<(i64, Seq<char>)>) -> Seq<Seq<char>>
    decreases rs.len(),
{
    if rs.len() == 0 {
        seq![]
    } else {
        reminders_lines(rs.drop_last()) + valarm_lines(rs.last().0, rs.last().1, "Reminder"@)
    }
}

/// The ATTENDEE lines.
pub open spec fn attendees_lines(ps: Seq<(Seq<char>, Seq<char>)>) -> Seq<Seq<char>>
    decreases ps.len(),
{
    if ps.len() == 0 {
        seq![]
    } else {
        attendees_lines(ps.drop_last()).push(address_prop("ATTENDEE"@, ps.last()))
    }
}

/// An optional TEXT line.
pub open spec fn optional_lines(name: Seq<char>, v: Seq<char>) -> Seq<Seq<char>> {
    if v.len() == 0 {
        seq![]
    } else {
        seq![text_prop(name, v)]
    }
}

/// The start and end lines of an event.
pub open spec fn times_lines(e: EventV) -> Seq<Seq<char>> {
    if e.all_day {
        seq![raw_prop("DTSTART;VALUE=DATE"@, date(e.start)), raw_prop("DTEND;VALUE=DATE"@, date(e.end))]
    } else {
        seq![raw_prop("DTSTART"@, stamp(e.start)), raw_prop("DTEND"@, stamp(e.end))]
    }
}

/// The lines of an event after its times, up to its reminders.
pub open spec fn event_detail_lines(e: EventV) -> Seq<Seq<char>> {
    seq![text_prop("SUMMARY"@, e.summary)] + optional_lines("DESCRIPTION"@, e.description)
        + optional_lines("LOCATION"@, e.location) + seq![
        raw_prop("STATUS"@, event_status_text(e.status)),
        raw_prop("CLASS"@, event_class_text(e.class)),
    ] + (match e.organizer {
        Some(p) => seq![address_prop("ORGANIZER"@, p)],
        None => seq![],
    }) + attendees_lines(e.attendees)
}

/// The lines of a VEVENT stamped at `now`.
pub open spec fn event_lines(e: EventV, now: i64) -> Seq<Seq<char>> {
    seq!["BEGIN:VEVENT"@, text_prop("UID"@, e.uid), raw_prop("DTSTAMP"@, stamp(now))] + times_lines(e)
        + event_detail_lines(e) + reminders_lines(e.reminders) + seq!["END:VEVENT"@]
}

/// The lines of a task after its stamp, up to its reminders.
pub open spec fn todo_detail_lines(t: TodoV) -> Seq<Seq<char>> {
    seq![text_prop("SUMMARY"@, t.summary)] + optional_lines("DESCRIPTION"@, t.description) + (match t.due {
        Some(d) => seq![raw_prop("DUE"@, stamp(d))],
        None => seq![],
    }) + seq![raw_prop("STATUS"@, todo_status_text(t.status))] + (if t.priority > 0 {
        seq![raw_prop("PRIORITY"@, dec(t.priority as nat))]
    } else {
        seq![]
    })
}

/// The lines of a VTODO stamped at `now`.
pub open spec fn todo_lines(t: TodoV, now: i64) -> Seq<Seq<char>> {
    seq!["BEGIN:VTODO"@, text_prop("UID"@, t.uid), raw_prop("DTSTAMP"@, stamp(now))] + todo_detail_lines(t)
        + reminders_lines(t.reminders) + seq!["END:VTODO"@]
}

/// The lines of one item.
pub open spec fn item_lines(i: ItemV, now: i64) -> Seq<Seq<char>> {
    match i {
        ItemV::Event(e) => event_lines(e, now),
        ItemV::Todo(t) => todo_lines(t, now),
        ItemV::Alarm(trigger, desc) => valarm_lines(trigger, desc, "Alarm"@),
    }
}

/// The lines of the items, in order.
pub open spec fn items_lines(items: Seq<ItemV>, now: i64) -> Seq<Seq<char>>
    decreases items.len(),
{
    if items.len() == 0 {
        seq![]
    } else {
        items_lines(items.drop_last(), now) + item_lines(items.last(), now)
    }
}

/// The logical lines of the whole document.
pub open spec fn doc_lines(items: Seq<ItemV>, now: i64) -> Seq<Seq<char>> {
    seq![
        "BEGIN:VCALENDAR"@,
        "VERSION:2.0"@,
        "PRODID:-//PlausiDen//mail-calendar 0.1//EN"@,
        "CALSCALE:GREGORIAN"@,
    ] + items_lines(items, now) + seq!["END:VCALENDAR"@]
}

// ----- the written text is those lines, folded ----------------------------

/// A short literal line ended by CRLF is its own folding.
proof fn lemma_literal_line(l: Seq<char>, with_crlf: Seq<char>)
    requires
        l.len() <= 18,
        with_crlf == l + "\r\n"@,
    ensures
        fold_lines(seq![l]) == with_crlf,
{
    lemma_short_line_unfolded(l);
    lemma_fold_lines_one(l);
}

proof fn lemma_text_line(name: Seq<char>, v: Seq<char>)
    ensures
        fold_lines(seq![text_prop(name, v)]) == text_line(name, v),
{
    lemma_fold_lines_one(text_prop(name, v));
}

proof fn lemma_raw_line(name: Seq<char>, v: Seq<char>)
    ensures
        fold_lines(seq![raw_prop(name, v)]) == raw_line(name, v),
{
    lemma_fold_lines_one(raw_prop(name, v));
}

proof fn lemma_address_line(prop: Seq<char>, p: (Seq<char>, Seq<char>))
    ensures
        fold_lines(seq![address_prop(prop, p)]) == address_line(prop, p),
{
    lemma_fold_lines_one(address_prop(prop, p));
}

proof fn lemma_valarm_text(trigger: i64, desc: Seq<char>, fallback: Seq<char>)
    ensures
        fold_lines(valarm_lines(trigger, desc, fallback)) == valarm_text(trigger, desc, fallback),
{
    reveal_strlit("BEGIN:VALARM");
    reveal_strlit("BEGIN:VALARM\r\n");
    reveal_strlit("ACTION:DISPLAY");
    reveal_strlit("ACTION:DISPLAY\r\n");
    reveal_strlit("END:VALARM");
    reveal_strlit("END:VALARM\r\n");
    reveal_strlit("\r\n");
    let d = if desc.len() == 0 {
        fallback
    } else {
        desc
    };
    let l = valarm_lines(trigger, desc, fallback);
    assert(l =~= seq!["BEGIN:VALARM"@] + seq!["ACTION:DISPLAY"@] + seq![text_prop("DESCRIPTION"@, d)]
        + seq![raw_prop("TRIGGER;VALUE=DATE-TIME"@, stamp(trigger))] + seq!["END:VALARM"@]);
    lemma_fold_lines_concat(seq!["BEGIN:VALARM"@] + seq!["ACTION:DISPLAY"@] + seq![text_prop("DESCRIPTION"@, d)]
        + seq![raw_prop("TRIGGER;VALUE=DATE-TIME"@, stamp(trigger))], seq!["END:VALARM"@]);
    lemma_fold_lines_concat(seq!["BEGIN:VALARM"@] + seq!["ACTION:DISPLAY"@] + seq![text_prop("DESCRIPTION"@, d)],
        seq![raw_prop("TRIGGER;VALUE=DATE-TIME"@, stamp(trigger))]);
    lemma_fold_lines_concat(seq!["BEGIN:VALARM"@] + seq!["ACTION:DISPLAY"@], seq![text_prop("DESCRIPTION"@, d)]);
    lemma_fold_lines_concat(seq!["BEGIN:VALARM"@], seq!["ACTION:DISPLAY"@]);
    assert("BEGIN:VALARM\r\n"@ =~= "BEGIN:VALARM"@ + "\r\n"@);
    assert("ACTION:DISPLAY\r\n"@ =~= "ACTION:DISPLAY"@ + "\r\n"@);
    assert("END:VALARM\r\n"@ =~= "END:VALARM"@ + "\r\n"@);
    lemma_literal_line("BEGIN:VALARM"@, "BEGIN:VALARM\r\n"@);
    lemma_literal_line("ACTION:DISPLAY"@, "ACTION:DISPLAY\r\n"@);
    lemma_literal_line("END:VALARM"@, "END:VALARM\r\n"@);
    lemma_text_line("DESCRIPTION"@, d);
    lemma_raw_line("TRIGGER;VALUE=DATE-TIME"@, stamp(trigger));
}

proof fn lemma_reminders_text(rs: Seq<(i64, Seq<char>)>)
    ensures
        fold_lines(reminders_lines(rs)) == reminders_text(rs),
    decreases rs.len(),
{
    if rs.len() == 0 {
        assert(fold_lines(Seq::<Seq<char>>::empty()) == Seq::<char>::empty());
    } else {
        lemma_reminders_text(rs.drop_last());
        lemma_fold_lines_concat(reminders_lines(rs.drop_last()), valarm_lines(rs.last().0, rs.last().1, "Reminder"@));
        lemma_valarm_text(rs.last().0, rs.last().1, "Reminder"@);
    }
}

proof fn lemma_attendees_text(ps: Seq<(Seq<char>, Seq<char>)>)
    ensures
        fold_lines(attendees_lines(ps)) == attendee_lines(ps),
    decreases ps.len(),
{
    if ps.len() == 0 {
        assert(fold_lines(Seq::<Seq<char>>::empty()) == Seq::<char>::empty());
    } else {
        lemma_attendees_text(ps.drop_last());
        let a = attendees_lines(ps.drop_last());
        let l = address_prop("ATTENDEE"@, ps.last());
        assert(a.push(l) =~= a + seq![l]);
        lemma_fold_lines_concat(a, seq![l]);
        lemma_address_line("ATTENDEE"@, ps.last());
    }
}

proof fn lemma_two_lines(a: Seq<char>, b: Seq<char>)
    ensures
        fold_lines(seq![a, b]) == fold_lines(seq![a]) + fold_lines(seq![b]),
{
    assert(seq![a, b] =~= seq![a] + seq![b]);
    lemma_fold_lines_concat(seq![a], seq![b]);
}

proof fn lemma_times_text(e: EventV)
    ensures
        fold_lines(times_lines(e)) == event_times(e),
{
    if e.all_day {
        lemma_two_lines(raw_prop("DTSTART;VALUE=DATE"@, date(e.start)), raw_prop("DTEND;VALUE=DATE"@, date(e.end)));
        lemma_raw_line("DTSTART;VALUE=DATE"@, date(e.start));
        lemma_raw_line("DTEND;VALUE=DATE"@, date(e.end));
    } else {
        lemma_two_lines(raw_prop("DTSTART"@, stamp(e.start)), raw_prop("DTEND"@, stamp(e.end)));
        lemma_raw_line("DTSTART"@, stamp(e.start));
        lemma_raw_line("DTEND"@, stamp(e.end));
    }
}

proof fn lemma_optional_text(name: Seq<char>, v: Seq<char>)
    ensures
        fold_lines(optional_lines(name, v)) == optional_line(name, v),
{
    if v.len() == 0 {
        assert(fold_lines(Seq::<Seq<char>>::empty()) == Seq::<char>::empty());
    } else {
        lemma_text_line(name, v);
    }
}

proof fn lemma_event_details_text(e: EventV)
    ensures
        fold_lines(event_detail_lines(e)) == event_details(e),
{
    let a = seq![text_prop("SUMMARY"@, e.summary)];
    let b = optional_lines("DESCRIPTION"@, e.description);
    let c = optional_lines("LOCATION"@, e.location);
    let d = seq![raw_prop("STATUS"@, event_status_text(e.status)), raw_prop("CLASS"@, event_class_text(e.class))];
    let o: Seq<Seq<char>> = match e.organizer {
        Some(p) => seq![address_prop("ORGANIZER"@, p)],
        None => seq![],
    };
    let at = attendees_lines(e.attendees);
    lemma_fold_lines_concat(a, b);
    lemma_fold_lines_concat(a + b, c);
    lemma_fold_lines_concat(a + b + c, d);
    lemma_fold_lines_concat(a + b + c + d, o);
    lemma_fold_lines_concat(a + b + c + d + o, at);
    lemma_text_line("SUMMARY"@, e.summary);
    lemma_optional_text("DESCRIPTION"@, e.description);
    lemma_optional_text("LOCATION"@, e.location);
    lemma_two_lines(raw_prop("STATUS"@, event_status_text(e.status)), raw_prop("CLASS"@, event_class_text(e.class)));
    lemma_raw_line("STATUS"@, event_status_text(e.status));
    lemma_raw_line("CLASS"@, event_class_text(e.class));
    match e.organizer {
        Some(p) => lemma_address_line("ORGANIZER"@, p),
        None => assert(fold_lines(Seq::<Seq<char>>::empty()) == Seq::<char>::empty()),
    }
    lemma_attendees_text(e.attendees);
}

proof fn lemma_event_text(e: EventV, now: i64)
    ensures
        fold_lines(event_lines(e, now)) == event_text(e, now),
{
    reveal_strlit("BEGIN:VEVENT");
    reveal_strlit("BEGIN:VEVENT\r\n");
    reveal_strlit("END:VEVENT");
    reveal_strlit("END:VEVENT\r\n");
    reveal_strlit("\r\n");
    assert("BEGIN:VEVENT\r\n"@ =~= "BEGIN:VEVENT"@ + "\r\n"@);
    assert("END:VEVENT\r\n"@ =~= "END:VEVENT"@ + "\r\n"@);
    let h = seq!["BEGIN:VEVENT"@, text_prop("UID"@, e.uid), raw_prop("DTSTAMP"@, stamp(now))];
    let t = times_lines(e);
    let d = event_detail_lines(e);
    let r = reminders_lines(e.reminders);
    let z = seq!["END:VEVENT"@];
    lemma_fold_lines_concat(h, t);
    lemma_fold_lines_concat(h + t, d);
    lemma_fold_lines_concat(h + t + d, r);
    lemma_fold_lines_concat(h + t + d + r, z);
    assert(h =~= seq!["BEGIN:VEVENT"@] + seq![text_prop("UID"@, e.uid)] + seq![raw_prop("DTSTAMP"@, stamp(now))]);
    lemma_fold_lines_concat(seq!["BEGIN:VEVENT"@], seq![text_prop("UID"@, e.uid)]);
    lemma_fold_lines_concat(seq!["BEGIN:VEVENT"@] + seq![text_prop("UID"@, e.uid)], seq![raw_prop("DTSTAMP"@, stamp(now))]);
    lemma_literal_line("BEGIN:VEVENT"@, "BEGIN:VEVENT\r\n"@);
    lemma_literal_line("END:VEVENT"@, "END:VEVENT\r\n"@);
    lemma_text_line("UID"@, e.uid);
    lemma_raw_line("DTSTAMP"@, stamp(now));
    lemma_times_text(e);
    lemma_event_details_text(e);
    lemma_reminders_text(e.reminders);
}

proof fn lemma_todo_details_text(t: TodoV)
    ensures
        fold_lines(todo_detail_lines(t)) == todo_details(t),
{
    let a = seq![text_prop("SUMMARY"@, t.summary)];
    let b = optional_lines("DESCRIPTION"@, t.description);
    let c: Seq<Seq<char>> = match t.due {
        Some(d) => seq![raw_prop("DUE"@, stamp(d))],
        None => seq![],
    };
    let d = seq![raw_prop("STATUS"@, todo_status_text(t.status))];
    let p: Seq<Seq<char>> = if t.priority > 0 {
        seq![raw_prop("PRIORITY"@, dec(t.priority as nat))]
    } else {
        seq![]
    };
    lemma_fold_lines_concat(a, b);
    lemma_fold_lines_concat(a + b, c);
    lemma_fold_lines_concat(a + b + c, d);
    lemma_fold_lines_concat(a + b + c + d, p);
    lemma_text_line("SUMMARY"@, t.summary);
    lemma_optional_text("DESCRIPTION"@, t.description);
    match t.due {
        Some(x) => lemma_raw_line("DUE"@, stamp(x)),
        None => assert(fold_lines(Seq::<Seq<char>>::empty()) == Seq::<char>::empty()),
    }
    lemma_raw_line("STATUS"@, todo_status_text(t.status));
    if t.priority > 0 {
        lemma_raw_line("PRIORITY"@, dec(t.priority as nat));
    } else {
        assert(fold_lines(Seq::<Seq<char>>::empty()) == Seq::<char>::empty());
    }
}

proof fn lemma_todo_text(t: TodoV, now: i64)
    ensures
        fold_lines(todo_lines(t, now)) == todo_text(t, now),
{
    reveal_strlit("BEGIN:VTODO");
    reveal_strlit("BEGIN:VTODO\r\n");
    reveal_strlit("END:VTODO");
    reveal_strlit("END:VTODO\r\n");
    reveal_strlit("\r\n");
    assert("BEGIN:VTODO\r\n"@ =~= "BEGIN:VTODO"@ + "\r\n"@);
    assert("END:VTODO\r\n"@ =~= "END:VTODO"@ + "\r\n"@);
    let h = seq!["BEGIN:VTODO"@, text_prop("UID"@, t.uid), raw_prop("DTSTAMP"@, stamp(now))];
    let d = todo_detail_lines(t);
    let r = reminders_lines(t.reminders);
    let z = seq!["END:VTODO"@];
    lemma_fold_lines_concat(h, d);
    lemma_fold_lines_concat(h + d, r);
    lemma_fold_lines_concat(h + d + r, z);
    assert(h =~= seq!["BEGIN:VTODO"@] + seq![text_prop("UID"@, t.uid)] + seq![raw_prop("DTSTAMP"@, stamp(now))]);
    lemma_fold_lines_concat(seq!["BEGIN:VTODO"@], seq![text_prop("UID"@, t.uid)]);
    lemma_fold_lines_concat(seq!["BEGIN:VTODO"@] + seq![text_prop("UID"@, t.uid)], seq![raw_prop("DTSTAMP"@, stamp(now))]);
    lemma_literal_line("BEGIN:VTODO"@, "BEGIN:VTODO\r\n"@);
    lemma_literal_line("END:VTODO"@, "END:VTODO\r\n"@);
    lemma_text_line("UID"@, t.uid);
    lemma_raw_line("DTSTAMP"@, stamp(now));
    lemma_todo_details_text(t);
    lemma_reminders_text(t.reminders);
}

proof fn lemma_items_text(items: Seq<ItemV>, now: i64)
    ensures
        fold_lines(items_lines(items, now)) == items_text(items, now),
    decreases items.len(),
{
    if items.len() == 0 {
        assert(fold_lines(Seq::<Seq<char>>::empty()) == Seq::<char>::empty());
    } else {
        lemma_items_text(items.drop_last(), now);
        lemma_fold_lines_concat(items_lines(items.drop_last(), now), item_lines(items.last(), now));
        match items.last() {
            ItemV::Event(e) => lemma_event_text(e, now),
            ItemV::Todo(t) => lemma_todo_text(t, now),
            ItemV::Alarm(trigger, desc) => lemma_valarm_text(trigger, desc, "Alarm"@),
        }
    }
}

/// The written document is its logical lines, each folded and ended by
/// CRLF.
pub proof fn lemma_document_lines(items: Seq<ItemV>, now: i64)
    ensures
        fold_lines(doc_lines(items, now)) == ics_document(items, now),
{
    reveal_strlit("BEGIN:VCALENDAR");
    reveal_strlit("BEGIN:VCALENDAR\r\n");
    reveal_strlit("VERSION:2.0");
    reveal_strlit("VERSION:2.0\r\n");
    reveal_strlit("PRODID:-//PlausiDen//mail-calendar 0.1//EN");
    reveal_strlit("PRODID:-//PlausiDen//mail-calendar 0.1//EN\r\n");
    reveal_strlit("CALSCALE:GREGORIAN");
    reveal_strlit("CALSCALE:GREGORIAN\r\n");
    reveal_strlit("END:VCALENDAR");
    reveal_strlit("END:VCALENDAR\r\n");
    reveal_strlit("\r\n");
    let b = "BEGIN:VCALENDAR"@;
    let v = "VERSION:2.0"@;
    let p = "PRODID:-//PlausiDen//mail-calendar 0.1//EN"@;
    let c = "CALSCALE:GREGORIAN"@;
    let e = "END:VCALENDAR"@;
    assert("BEGIN:VCALENDAR\r\n"@ =~= b + "\r\n"@);
    assert("VERSION:2.0\r\n"@ =~= v + "\r\n"@);
    assert("PRODID:-//PlausiDen//mail-calendar 0.1//EN\r\n"@ =~= p + "\r\n"@);
    assert("CALSCALE:GREGORIAN\r\n"@ =~= c + "\r\n"@);
    assert("END:VCALENDAR\r\n"@ =~= e + "\r\n"@);
    let head = seq![b, v, p, c];
    assert(head =~= seq![b] + seq![v] + seq![p] + seq![c]);
    lemma_fold_lines_concat(seq![b], seq![v]);
    lemma_fold_lines_concat(seq![b] + seq![v], seq![p]);
    lemma_fold_lines_concat(seq![b] + seq![v] + seq![p], seq![c]);
    lemma_literal_line(b, "BEGIN:VCALENDAR\r\n"@);
    lemma_literal_line(v, "VERSION:2.0\r\n"@);
    lemma_prodid_unfolded();
    lemma_fold_lines_one(p);
    lemma_literal_line(c, "CALSCALE:GREGORIAN\r\n"@);
    lemma_literal_line(e, "END:VCALENDAR\r\n"@);
    lemma_fold_lines_concat(head, items_lines(items, now));
    lemma_fold_lines_concat(head + items_lines(items, now), seq![e]);
    lemma_items_text(items, now);
}

// ----- which lines read back ------------------------------------------------

/// No line feed in `s`.
pub open spec fn no_lf(s: Seq<char>) -> bool {
    forall|i: int| 0 <= i < s.len() ==> s[i] != '\n'
}

/// No carriage return in `s`.
pub open spec fn no_cr(s: Seq<char>) -> bool {
    forall|i: int| 0 <= i < s.len() ==> s[i] != '\r'
}

/// `s` is empty or does not end with whitespace.
pub open spec fn no_trailing_ws(s: Seq<char>) -> bool {
    s.len() == 0 || !is_ws(s.last())
}

/// A TEXT value that survives writing and reading: no carriage return
/// (the writer drops it), no trailing whitespace (the reader trims it).
pub open spec fn text_survives(v: Seq<char>) -> bool {
    no_cr(v) && no_trailing_ws(v)
}

/// A value written as it is that survives: no line feed, no trailing
/// whitespace.
pub open spec fn raw_survives(v: Seq<char>) -> bool {
    no_lf(v) && no_trailing_ws(v)
}

proof fn lemma_escaped_back(v: Seq<char>)
    requires
        v.len() > 0,
    ensures
        escaped(v) == escaped(v.drop_last()) + escape_char(v.last()),
    decreases v.len(),
{
    if v.len() == 1 {
        assert(v.drop_last() =~= Seq::<char>::empty());
        assert(escaped(v.drop_first()) == Seq::<char>::empty());
        assert(escaped(v) =~= escape_char(v[0]) + Seq::<char>::empty());
        assert(escaped(v.drop_last()) + escape_char(v.last()) =~= escape_char(v[0]));
    } else {
        lemma_escaped_back(v.drop_first());
        assert(v.drop_first().drop_last() =~= v.drop_last().drop_first());
        assert(v.drop_last()[0] == v[0]);
        assert(escape_char(v[0]) + (escaped(v.drop_last().drop_first()) + escape_char(v.last()))
            =~= (escape_char(v[0]) + escaped(v.drop_last().drop_first())) + escape_char(v.last()));
    }
}

proof fn lemma_escaped_no_lf(v: Seq<char>)
    ensures
        no_lf(escaped(v)),
    decreases v.len(),
{
    if v.len() > 0 {
        lemma_escaped_no_lf(v.drop_first());
        let a = escape_char(v[0]);
        let b = escaped(v.drop_first());
        assert forall|i: int| 0 <= i < (a + b).len() implies (a + b)[i] != '\n' by {
            if i >= a.len() {
                assert((a + b)[i] == b[i - a.len()]);
            }
        }
    }
}

proof fn lemma_escaped_end(v: Seq<char>)
    requires
        text_survives(v),
    ensures
        no_lf(escaped(v)),
        no_trailing_ws(escaped(v)),
        v.len() > 0 ==> escaped(v).len() > 0,
{
    lemma_escaped_no_lf(v);
    if v.len() > 0 {
        lemma_escaped_back(v);
        let c = v.last();
        assert(c != '\r');
        assert(escape_char(c).len() > 0);
        assert(escaped(v).last() == escape_char(c).last());
    }
}

/// `p + v` is a plain content line when `p` starts it well and ends with
/// a character that is not whitespace, and `v` adds no line feed or
/// trailing whitespace.
proof fn lemma_plain_join(p: Seq<char>, v: Seq<char>)
    requires
        p.len() > 0,
        no_lf(p),
        p[0] != ' ' && p[0] != '\t',
        !is_ws(p.last()),
        no_lf(v),
        no_trailing_ws(v),
    ensures
        plain_content_line(p + v),
{
    let l = p + v;
    assert forall|i: int| 0 <= i < l.len() implies l[i] != '\n' by {
        if i < p.len() {
            assert(l[i] == p[i]);
        } else {
            assert(l[i] == v[i - p.len()]);
        }
    }
    if v.len() > 0 {
        assert(l.last() == v.last());
    } else {
        assert(l =~= p);
    }
}

/// A property name (or literal line) that starts a content line well.
pub open spec fn good_start(n: Seq<char>) -> bool {
    n.len() > 0 && no_lf(n) && n[0] != ' ' && n[0] != '\t'
}

/// Every line of `ls` reads back.
pub open spec fn all_plain(ls: Seq<Seq<char>>) -> bool {
    forall|i: int| 0 <= i < ls.len() ==> plain_content_line(#[trigger] ls[i])
}

proof fn lemma_all_plain_concat(a: Seq<Seq<char>>, b: Seq<Seq<char>>)
    requires
        all_plain(a),
        all_plain(b),
    ensures
        all_plain(a + b),
{
    assert forall|i: int| 0 <= i < (a + b).len() implies plain_content_line(#[trigger] (a + b)[i]) by {
        if i < a.len() {
            assert((a + b)[i] == a[i]);
        } else {
            assert((a + b)[i] == b[i - a.len()]);
        }
    }
}

proof fn lemma_colon_prefix(n: Seq<char>)
    requires
        good_start(n),
    ensures
        good_start(n + ":"@),
        !is_ws((n + ":"@).last()),
{
    reveal_strlit(":");
    let p = n + ":"@;
    assert(p[0] == n[0]);
    assert(p.last() == ':');
    assert forall|i: int| 0 <= i < p.len() implies p[i] != '\n' by {
        if i < n.len() {
            assert(p[i] == n[i]);
        }
    }
}

proof fn lemma_text_prop_plain(n: Seq<char>, v: Seq<char>)
    requires
        good_start(n),
        text_survives(v),
    ensures
        plain_content_line(text_prop(n, v)),
{
    lemma_colon_prefix(n);
    lemma_escaped_end(v);
    lemma_plain_join(n + ":"@, escaped(v));
}

proof fn lemma_raw_prop_plain(n: Seq<char>, v: Seq<char>)
    requires
        good_start(n),
        raw_survives(v),
    ensures
        plain_content_line(raw_prop(n, v)),
{
    lemma_colon_prefix(n);
    lemma_plain_join(n + ":"@, v);
}

proof fn lemma_without_dquotes_no_lf(s: Seq<char>)
    requires
        no_lf(s),
    ensures
        no_lf(without_dquotes(s)),
    decreases s.len(),
{
    if s.len() > 0 {
        assert forall|i: int| 0 <= i < s.drop_last().len() implies s.drop_last()[i] != '\n' by {
            assert(s.drop_last()[i] == s[i]);
        }
        lemma_without_dquotes_no_lf(s.drop_last());
    }
}

/// A person whose line reads back: the address has no line feed or
/// trailing whitespace, the name no line feed.
pub open spec fn person_lines_ok(p: (Seq<char>, Seq<char>)) -> bool {
    raw_survives(p.0) && no_lf(p.1)
}

proof fn lemma_address_prop_plain(prop: Seq<char>, p: (Seq<char>, Seq<char>))
    requires
        good_start(prop),
        person_lines_ok(p),
    ensures
        plain_content_line(address_prop(prop, p)),
{
    reveal_strlit(";CN=");
    reveal_strlit("\"");
    reveal_strlit("mailto:");
    reveal_strlit(":");
    let h = address_header(prop, p);
    assert(good_start(h)) by {
        if p.1.len() > 0 {
            let c = cn_value(p.1);
            if needs_quote(p.1) {
                lemma_without_dquotes_no_lf(p.1);
                let w = without_dquotes(p.1);
                assert forall|i: int| 0 <= i < c.len() implies c[i] != '\n' by {
                    assert(c == "\""@ + w + "\""@);
                    if 1 <= i < 1 + w.len() {
                        assert(c[i] == w[i - 1]);
                    }
                }
            }
            assert forall|i: int| 0 <= i < h.len() implies h[i] != '\n' by {
                assert(h == prop + ";CN="@ + c);
                if i < prop.len() {
                    assert(h[i] == prop[i]);
                } else if i >= prop.len() + 4 {
                    assert(h[i] == c[i - prop.len() - 4]);
                }
            }
            assert(h[0] == prop[0]);
        }
    }
    lemma_colon_prefix(h);
    let q = h + ":"@ + "mailto:"@;
    assert(q[0] == h[0]);
    assert(q.last() == ':');
    assert forall|i: int| 0 <= i < q.len() implies q[i] != '\n' by {
        if i < (h + ":"@).len() {
            assert(q[i] == (h + ":"@)[i]);
        }
    }
    lemma_plain_join(q, p.0);
}

// ----- what the round trip needs of the items -------------------------------

/// chrono writes `t` as a stamp (`YYYYMMDDTHHMMSSZ`) that it reads back as
/// `t`.
pub open spec fn stamp_reads_back(t: i64) -> bool {
    &&& utc_stamp_text(t) is Some
    &&& {
        let s = utc_stamp_text(t)->Some_0;
        &&& s.len() >= 2
        &&& raw_survives(s)
        &&& is_digit(s[0])
        &&& s.last() == 'Z'
        &&& parsed_naive_datetime(s.drop_last()) == Some(t)
    }
}

/// chrono writes `t` as a stamp with no line feed or trailing
/// whitespace (what a DTSTAMP line needs; it is not read back).
pub open spec fn stamp_plain(t: i64) -> bool {
    utc_stamp_text(t) is Some && raw_survives(utc_stamp_text(t)->Some_0)
}

/// chrono writes `t` as a date (`YYYYMMDD`) that it reads back as `t` (a
/// UTC midnight), and not as a date-time.
pub open spec fn date_reads_back(t: i64) -> bool {
    &&& utc_date_text(t) is Some
    &&& {
        let d = utc_date_text(t)->Some_0;
        &&& d.len() > 0
        &&& raw_survives(d)
        &&& is_digit(d[0])
        &&& d.last() != 'Z'
        &&& parsed_naive_datetime(d) is None
        &&& parsed_naive_date(d) == Some(t)
    }
}

/// A UID the reader takes back as written: escaping leaves it alone.
pub open spec fn uid_survives(u: Seq<char>) -> bool {
    &&& raw_survives(u)
    &&& forall|i: int|
        0 <= i < u.len() ==> u[i] != '\\' && u[i] != ',' && u[i] != ';' && u[i] != '\r'
}

/// A display name the `CN` parameter carries back: no line feed, double
/// quote or semicolon, no surrounding whitespace.
pub open spec fn name_survives(n: Seq<char>) -> bool {
    &&& no_lf(n)
    &&& forall|i: int| 0 <= i < n.len() ==> n[i] != '"' && n[i] != ';'
    &&& trim(n) == n
}

/// A person that reads back: the address survives and does not itself
/// start with `mailto:`, the name survives.
pub open spec fn person_survives(p: (Seq<char>, Seq<char>)) -> bool {
    raw_survives(p.0) && !has_prefix(p.0, "mailto:"@) && name_survives(p.1)
}

/// A reminder that reads back: its instant does, and its description is
/// a non-empty text (an empty one is written as `Reminder`).
pub open spec fn reminder_survives(r: (i64, Seq<char>)) -> bool {
    stamp_reads_back(r.0) && text_survives(r.1) && r.1.len() > 0
}

/// Every reminder reads back.
pub open spec fn reminders_survive(rs: Seq<(i64, Seq<char>)>) -> bool {
    forall|i: int| 0 <= i < rs.len() ==> reminder_survives(#[trigger] rs[i])
}

/// An event that reads back as written.
pub open spec fn event_survives(e: EventV) -> bool {
    &&& uid_survives(e.uid)
    &&& text_survives(e.summary)
    &&& text_survives(e.description)
    &&& text_survives(e.location)
    &&& if e.all_day {
        date_reads_back(e.start) && date_reads_back(e.end)
    } else {
        stamp_reads_back(e.start) && stamp_reads_back(e.end)
    }
    &&& e.organizer matches Some(p) ==> person_survives(p)
    &&& forall|i: int| 0 <= i < e.attendees.len() ==> person_survives(#[trigger] e.attendees[i])
    &&& reminders_survive(e.reminders)
}

/// A task that reads back as written: reminders need a due time to be
/// anchored to.
pub open spec fn todo_survives(t: TodoV) -> bool {
    &&& uid_survives(t.uid)
    &&& text_survives(t.summary)
    &&& text_survives(t.description)
    &&& t.due matches Some(d) ==> stamp_reads_back(d)
    &&& t.due is None ==> t.reminders.len() == 0
    &&& reminders_survive(t.reminders)
}

/// An item that reads back as written.
pub open spec fn item_survives(i: ItemV) -> bool {
    match i {
        ItemV::Event(e) => event_survives(e),
        ItemV::Todo(t) => todo_survives(t),
        ItemV::Alarm(trigger, desc) => stamp_reads_back(trigger) && text_survives(desc) && desc.len() > 0,
    }
}

/// Items that read back as written, stamped at `now`.
pub open spec fn items_survive(items: Seq<ItemV>, now: i64) -> bool {
    &&& stamp_plain(now)
    &&& forall|i: int| 0 <= i < items.len() ==> item_survives(#[trigger] items[i])
}

// ----- every written line reads back -----------------------------------------------

proof fn lemma_valarm_plain(trigger: i64, desc: Seq<char>, fallback: Seq<char>)
    requires
        stamp_reads_back(trigger),
        text_survives(desc),
        text_survives(fallback),
    ensures
        all_plain(valarm_lines(trigger, desc, fallback)),
{
    reveal_strlit("BEGIN:VALARM");
    reveal_strlit("ACTION:DISPLAY");
    reveal_strlit("END:VALARM");
    reveal_strlit("DESCRIPTION");
    reveal_strlit("TRIGGER;VALUE=DATE-TIME");
    let d = if desc.len() == 0 {
        fallback
    } else {
        desc
    };
    assert(good_start("DESCRIPTION"@));
    assert(good_start("TRIGGER;VALUE=DATE-TIME"@));
    lemma_text_prop_plain("DESCRIPTION"@, d);
    lemma_raw_prop_plain("TRIGGER;VALUE=DATE-TIME"@, stamp(trigger));
    let l = valarm_lines(trigger, desc, fallback);
    assert(plain_content_line("BEGIN:VALARM"@));
    assert(plain_content_line("ACTION:DISPLAY"@));
    assert(plain_content_line("END:VALARM"@));
    assert forall|i: int| 0 <= i < l.len() implies plain_content_line(#[trigger] l[i]) by {
        if i == 2 {
            assert(l[i] == text_prop("DESCRIPTION"@, d));
        }
    }
}

proof fn lemma_reminders_plain(rs: Seq<(i64, Seq<char>)>)
    requires
        reminders_survive(rs),
    ensures
        all_plain(reminders_lines(rs)),
    decreases rs.len(),
{
    reveal_strlit("Reminder");
    if rs.len() > 0 {
        assert forall|i: int| 0 <= i < rs.drop_last().len() implies reminder_survives(#[trigger] rs.drop_last()[i]) by {
            assert(rs.drop_last()[i] == rs[i]);
        }
        lemma_reminders_plain(rs.drop_last());
        assert(reminder_survives(rs[rs.len() - 1]));
        assert(text_survives("Reminder"@));
        lemma_valarm_plain(rs.last().0, rs.last().1, "Reminder"@);
        lemma_all_plain_concat(reminders_lines(rs.drop_last()), valarm_lines(rs.last().0, rs.last().1, "Reminder"@));
    } else {
        assert(reminders_lines(rs) =~= Seq::<Seq<char>>::empty());
    }
}


proof fn lemma_attendees_plain(ps: Seq<(Seq<char>, Seq<char>)>)
    requires
        forall|i: int| 0 <= i < ps.len() ==> person_survives(#[trigger] ps[i]),
    ensures
        all_plain(attendees_lines(ps)),
    decreases ps.len(),
{
    reveal_strlit("ATTENDEE");
    if ps.len() > 0 {
        assert forall|i: int| 0 <= i < ps.drop_last().len() implies person_survives(#[trigger] ps.drop_last()[i]) by {
            assert(ps.drop_last()[i] == ps[i]);
        }
        lemma_attendees_plain(ps.drop_last());
        assert(person_survives(ps[ps.len() - 1]));
        assert(good_start("ATTENDEE"@));
        lemma_address_prop_plain("ATTENDEE"@, ps.last());
        let a = attendees_lines(ps.drop_last());
        let l = address_prop("ATTENDEE"@, ps.last());
        assert(a.push(l) =~= a + seq![l]);
        lemma_all_plain_concat(a, seq![l]);
    } else {
        assert(attendees_lines(ps) =~= Seq::<Seq<char>>::empty());
    }
}

proof fn lemma_status_words_survive(es: EventStatus, ec: EventClass, ts: TodoStatus)
    ensures
        raw_survives(event_status_text(es)),
        raw_survives(event_class_text(ec)),
        raw_survives(todo_status_text(ts)),
{
    reveal_strlit("CONFIRMED");
    reveal_strlit("TENTATIVE");
    reveal_strlit("CANCELLED");
    reveal_strlit("PUBLIC");
    reveal_strlit("PRIVATE");
    reveal_strlit("CONFIDENTIAL");
    reveal_strlit("NEEDS-ACTION");
    reveal_strlit("IN-PROCESS");
    reveal_strlit("COMPLETED");
}

proof fn lemma_stamp_survives(t: i64)
    requires
        stamp_reads_back(t),
    ensures
        raw_survives(stamp(t)),
{
}

proof fn lemma_optional_plain(n: Seq<char>, v: Seq<char>)
    requires
        good_start(n),
        text_survives(v),
    ensures
        all_plain(optional_lines(n, v)),
{
    if v.len() > 0 {
        lemma_text_prop_plain(n, v);
    }
}

proof fn lemma_dec_survives(n: nat)
    ensures
        raw_survives(dec(n)),
        dec(n).len() > 0,
        forall|i: int| 0 <= i < dec(n).len() ==> is_digit(#[trigger] dec(n)[i]),
    decreases n,
{
    if n >= 10 {
        lemma_dec_survives(n / 10);
        let d = dec(n / 10);
        let c = digit_char(n % 10);
        assert(dec(n) == d.push(c));
        assert forall|i: int| 0 <= i < dec(n).len() implies is_digit(#[trigger] dec(n)[i]) by {
            if i < d.len() {
                assert(dec(n)[i] == d[i]);
            }
        }
    }
}

proof fn lemma_event_plain(e: EventV, now: i64)
    requires
        event_survives(e),
        stamp_plain(now),
    ensures
        all_plain(event_lines(e, now)),
{
    reveal_strlit("BEGIN:VEVENT");
    reveal_strlit("END:VEVENT");
    reveal_strlit("UID");
    reveal_strlit("DTSTAMP");
    reveal_strlit("DTSTART");
    reveal_strlit("DTEND");
    reveal_strlit("DTSTART;VALUE=DATE");
    reveal_strlit("DTEND;VALUE=DATE");
    reveal_strlit("SUMMARY");
    reveal_strlit("DESCRIPTION");
    reveal_strlit("LOCATION");
    reveal_strlit("STATUS");
    reveal_strlit("CLASS");
    reveal_strlit("ORGANIZER");
    assert(good_start("UID"@));
    assert(good_start("DTSTAMP"@));
    assert(good_start("DTSTART"@));
    assert(good_start("DTEND"@));
    assert(good_start("DTSTART;VALUE=DATE"@));
    assert(good_start("DTEND;VALUE=DATE"@));
    assert(good_start("SUMMARY"@));
    assert(good_start("DESCRIPTION"@));
    assert(good_start("LOCATION"@));
    assert(good_start("STATUS"@));
    assert(good_start("CLASS"@));
    assert(good_start("ORGANIZER"@));
    lemma_text_prop_plain("UID"@, e.uid);
    lemma_raw_prop_plain("DTSTAMP"@, stamp(now));
    let h = seq!["BEGIN:VEVENT"@, text_prop("UID"@, e.uid), raw_prop("DTSTAMP"@, stamp(now))];
    assert(plain_content_line("BEGIN:VEVENT"@));
    assert(all_plain(h));
    if e.all_day {
        lemma_raw_prop_plain("DTSTART;VALUE=DATE"@, date(e.start));
        lemma_raw_prop_plain("DTEND;VALUE=DATE"@, date(e.end));
    } else {
        lemma_stamp_survives(e.start);
        lemma_stamp_survives(e.end);
        lemma_raw_prop_plain("DTSTART"@, stamp(e.start));
        lemma_raw_prop_plain("DTEND"@, stamp(e.end));
    }
    let t = times_lines(e);
    assert(all_plain(t));
    lemma_text_prop_plain("SUMMARY"@, e.summary);
    lemma_optional_plain("DESCRIPTION"@, e.description);
    lemma_optional_plain("LOCATION"@, e.location);
    lemma_status_words_survive(e.status, e.class, TodoStatus::NeedsAction);
    lemma_raw_prop_plain("STATUS"@, event_status_text(e.status));
    lemma_raw_prop_plain("CLASS"@, event_class_text(e.class));
    let a = seq![text_prop("SUMMARY"@, e.summary)];
    let b = optional_lines("DESCRIPTION"@, e.description);
    let c = optional_lines("LOCATION"@, e.location);
    let d = seq![raw_prop("STATUS"@, event_status_text(e.status)), raw_prop("CLASS"@, event_class_text(e.class))];
    let o: Seq<Seq<char>> = match e.organizer {
        Some(p) => seq![address_prop("ORGANIZER"@, p)],
        None => seq![],
    };
    match e.organizer {
        Some(p) => lemma_address_prop_plain("ORGANIZER"@, p),
        None => {},
    }
    assert(all_plain(a));
    assert(all_plain(d));
    assert(all_plain(o));
    lemma_attendees_plain(e.attendees);
    lemma_all_plain_concat(a, b);
    lemma_all_plain_concat(a + b, c);
    lemma_all_plain_concat(a + b + c, d);
    lemma_all_plain_concat(a + b + c + d, o);
    lemma_all_plain_concat(a + b + c + d + o, attendees_lines(e.attendees));
    lemma_reminders_plain(e.reminders);
    let z = seq!["END:VEVENT"@];
    assert(plain_content_line("END:VEVENT"@));
    assert(all_plain(z));
    lemma_all_plain_concat(h, t);
    lemma_all_plain_concat(h + t, event_detail_lines(e));
    lemma_all_plain_concat(h + t + event_detail_lines(e), reminders_lines(e.reminders));
    lemma_all_plain_concat(h + t + event_detail_lines(e) + reminders_lines(e.reminders), z);
}

proof fn lemma_todo_plain(t: TodoV, now: i64)
    requires
        todo_survives(t),
        stamp_plain(now),
    ensures
        all_plain(todo_lines(t, now)),
{
    reveal_strlit("BEGIN:VTODO");
    reveal_strlit("END:VTODO");
    reveal_strlit("UID");
    reveal_strlit("DTSTAMP");
    reveal_strlit("SUMMARY");
    reveal_strlit("DESCRIPTION");
    reveal_strlit("DUE");
    reveal_strlit("STATUS");
    reveal_strlit("PRIORITY");
    assert(good_start("UID"@));
    assert(good_start("DTSTAMP"@));
    assert(good_start("SUMMARY"@));
    assert(good_start("DESCRIPTION"@));
    assert(good_start("DUE"@));
    assert(good_start("STATUS"@));
    assert(good_start("PRIORITY"@));
    lemma_text_prop_plain("UID"@, t.uid);
    lemma_raw_prop_plain("DTSTAMP"@, stamp(now));
    let h = seq!["BEGIN:VTODO"@, text_prop("UID"@, t.uid), raw_prop("DTSTAMP"@, stamp(now))];
    assert(plain_content_line("BEGIN:VTODO"@));
    assert(all_plain(h));
    lemma_text_prop_plain("SUMMARY"@, t.summary);
    lemma_optional_plain("DESCRIPTION"@, t.description);
    let a = seq![text_prop("SUMMARY"@, t.summary)];
    let b = optional_lines("DESCRIPTION"@, t.description);
    let c: Seq<Seq<char>> = match t.due {
        Some(d) => seq![raw_prop("DUE"@, stamp(d))],
        None => seq![],
    };
    match t.due {
        Some(d) => {
            lemma_stamp_survives(d);
            lemma_raw_prop_plain("DUE"@, stamp(d));
        },
        None => {},
    }
    lemma_status_words_survive(EventStatus::Confirmed, EventClass::Public, t.status);
    lemma_raw_prop_plain("STATUS"@, todo_status_text(t.status));
    let d = seq![raw_prop("STATUS"@, todo_status_text(t.status))];
    let p: Seq<Seq<char>> = if t.priority > 0 {
        seq![raw_prop("PRIORITY"@, dec(t.priority as nat))]
    } else {
        seq![]
    };
    if t.priority > 0 {
        lemma_dec_survives(t.priority as nat);
        lemma_raw_prop_plain("PRIORITY"@, dec(t.priority as nat));
    }
    assert(all_plain(a));
    assert(all_plain(c));
    assert(all_plain(d));
    assert(all_plain(p));
    lemma_all_plain_concat(a, b);
    lemma_all_plain_concat(a + b, c);
    lemma_all_plain_concat(a + b + c, d);
    lemma_all_plain_concat(a + b + c + d, p);
    lemma_reminders_plain(t.reminders);
    let z = seq!["END:VTODO"@];
    assert(plain_content_line("END:VTODO"@));
    assert(all_plain(z));
    lemma_all_plain_concat(h, todo_detail_lines(t));
    lemma_all_plain_concat(h + todo_detail_lines(t), reminders_lines(t.reminders));
    lemma_all_plain_concat(h + todo_detail_lines(t) + reminders_lines(t.reminders), z);
}

proof fn lemma_items_plain(items: Seq<ItemV>, now: i64)
    requires
        items_survive(items, now),
    ensures
        all_plain(items_lines(items, now)),
    decreases items.len(),
{
    reveal_strlit("Alarm");
    if items.len() > 0 {
        let init = items.drop_last();
        assert forall|i: int| 0 <= i < init.len() implies item_survives(#[trigger] init[i]) by {
            assert(init[i] == items[i]);
        }
        lemma_items_plain(init, now);
        assert(item_survives(items[items.len() - 1]));
        match items.last() {
            ItemV::Event(e) => lemma_event_plain(e, now),
            ItemV::Todo(t) => lemma_todo_plain(t, now),
            ItemV::Alarm(trigger, desc) => {
                assert(text_survives("Alarm"@));
                lemma_valarm_plain(trigger, desc, "Alarm"@);
            },
        }
        lemma_all_plain_concat(items_lines(init, now), item_lines(items.last(), now));
    } else {
        assert(items_lines(items, now) =~= Seq::<Seq<char>>::empty());
    }
}

/// The content lines of a written calendar are its logical lines.
pub proof fn lemma_written_content_lines(items: Seq<ItemV>, now: i64)
    requires
        items_survive(items, now),
    ensures
        content_lines(ics_document(items, now)) == doc_lines(items, now),
{
    reveal_strlit("BEGIN:VCALENDAR");
    reveal_strlit("VERSION:2.0");
    reveal_strlit("PRODID:-//PlausiDen//mail-calendar 0.1//EN");
    reveal_strlit("CALSCALE:GREGORIAN");
    reveal_strlit("END:VCALENDAR");
    let head = seq![
        "BEGIN:VCALENDAR"@,
        "VERSION:2.0"@,
        "PRODID:-//PlausiDen//mail-calendar 0.1//EN"@,
        "CALSCALE:GREGORIAN"@,
    ];
    assert(plain_content_line("BEGIN:VCALENDAR"@));
    assert(plain_content_line("VERSION:2.0"@));
    assert(plain_content_line("PRODID:-//PlausiDen//mail-calendar 0.1//EN"@));
    assert(plain_content_line("CALSCALE:GREGORIAN"@));
    assert(plain_content_line("END:VCALENDAR"@));
    assert(all_plain(head));
    assert(all_plain(seq!["END:VCALENDAR"@]));
    lemma_items_plain(items, now);
    lemma_all_plain_concat(head, items_lines(items, now));
    lemma_all_plain_concat(head + items_lines(items, now), seq!["END:VCALENDAR"@]);
    lemma_document_lines(items, now);
    law_content_lines_of_folded(doc_lines(items, now));
}

// ----- the components the lines parse into -------------------------------------

/// A component with a name and nothing in it yet.
pub open spec fn empty_comp(name: Seq<char>) -> CompV {
    CompV { name, props: seq![], multi: seq![], nested: seq![] }
}

/// A component with one more line read as a property (a line that is not
/// one is skipped).
pub open spec fn with_line(c: CompV, l: Seq<char>) -> CompV {
    match property_of(l) {
        Some((k, p)) => with_property(c, k, p),
        None => c,
    }
}

/// A component with the property lines `ls` read, in order.
pub open spec fn add_props(c: CompV, ls: Seq<Seq<char>>) -> CompV
    decreases ls.len(),
{
    if ls.len() == 0 {
        c
    } else {
        add_props(with_line(c, ls[0]), ls.drop_first())
    }
}

/// `b` stands in `lines` from position `i` on.
pub open spec fn block_at(lines: Seq<Seq<char>>, i: int, b: Seq<Seq<char>>) -> bool {
    0 <= i && i + b.len() <= lines.len() && lines.subrange(i, i + b.len()) == b
}

/// A property line as the component reader sees it: not a `BEGIN:` line
/// and never an `END:` line.
pub open spec fn prop_line(l: Seq<char>) -> bool {
    l.len() > 0 && l[0] != 'B' && l[0] != 'E' && !is_ws(l[0]) && !is_ws(l.last())
}

/// Every line of `ls` is a property line.
pub open spec fn all_prop_lines(ls: Seq<Seq<char>>) -> bool {
    forall|i: int| 0 <= i < ls.len() ==> prop_line(#[trigger] ls[i])
}


proof fn lemma_add_props_name(c: CompV, ls: Seq<Seq<char>>)
    ensures
        add_props(c, ls).name == c.name,
        add_props(c, ls).nested == c.nested,
    decreases ls.len(),
{
    if ls.len() > 0 {
        lemma_add_props_name(with_line(c, ls[0]), ls.drop_first());
    }
}

proof fn lemma_add_props_concat(c: CompV, a: Seq<Seq<char>>, b: Seq<Seq<char>>)
    ensures
        add_props(c, a + b) == add_props(add_props(c, a), b),
    decreases a.len(),
{
    if a.len() == 0 {
        assert(a + b =~= b);
    } else {
        assert((a + b)[0] == a[0]);
        assert((a + b).drop_first() =~= a.drop_first() + b);
        lemma_add_props_concat(with_line(c, a[0]), a.drop_first(), b);
    }
}

proof fn lemma_trim_plain(l: Seq<char>)
    requires
        l.len() > 0,
        !is_ws(l[0]),
        !is_ws(l.last()),
    ensures
        trim(l) == l,
{
    assert(trim_start(l) == l);
}

/// Property lines are read one by one into the component.
proof fn lemma_prop_block(lines: Seq<Seq<char>>, i: int, c: CompV, b: Seq<Seq<char>>)
    requires
        block_at(lines, i, b),
        all_prop_lines(b),
    ensures
        parse_body(lines, i, c) == parse_body(lines, i + b.len(), add_props(c, b)),
    decreases b.len(),
{
    reveal_strlit("BEGIN:");
    reveal_strlit("END:");
    if b.len() > 0 {
        let l = b[0];
        assert(lines[i] == b[0]) by {
            assert(lines.subrange(i, i + b.len())[0] == lines[i]);
        }
        assert(prop_line(b[0]));
        lemma_trim_plain(l);
        assert(!has_prefix(l, "BEGIN:"@)) by {
            if has_prefix(l, "BEGIN:"@) {
                assert(l[0] == "BEGIN:"@[0]);
            }
        }
        assert(trim(l) != "END:"@ + c.name) by {
            if trim(l) == "END:"@ + c.name {
                assert(l[0] == ("END:"@ + c.name)[0]);
            }
        }
        let rest = b.drop_first();
        assert(block_at(lines, i + 1, rest)) by {
            assert(lines.subrange(i + 1, i + 1 + rest.len()) =~= rest);
        }
        assert forall|k: int| 0 <= k < rest.len() implies prop_line(#[trigger] rest[k]) by {
            assert(rest[k] == b[k + 1]);
        }
        lemma_prop_block(lines, i + 1, with_line(c, l), rest);
    }
}

proof fn lemma_trim_end_is_prefix(s: Seq<char>)
    ensures
        trim_end(s).len() <= s.len(),
        forall|k: int| 0 <= k < trim_end(s).len() ==> trim_end(s)[k] == s[k],
    decreases s.len(),
{
    if s.len() > 0 && is_ws(s.last()) {
        lemma_trim_end_is_prefix(s.drop_last());
        assert forall|k: int| 0 <= k < trim_end(s).len() implies trim_end(s)[k] == s[k] by {
            assert(s.drop_last()[k] == s[k]);
        }
    }
}

/// The line `END:` and the component's name ends it.
proof fn lemma_end_line(lines: Seq<Seq<char>>, i: int, c: CompV)
    requires
        0 <= i < lines.len(),
        lines[i] == "END:"@ + c.name,
        c.name.len() > 0,
        !is_ws(c.name.last()),
    ensures
        parse_body(lines, i, c) == Ok::<(CompV, int), crate::calendar::component::ErrV>((c, i + 1)),
{
    reveal_strlit("END:");
    let l = "END:"@ + c.name;
    assert(l[0] == 'E');
    assert(l.last() == c.name.last());
    lemma_trim_plain(l);
}

/// A component that starts at `lines[i]` is read whole into its parent.
proof fn lemma_nested_block(lines: Seq<Seq<char>>, i: int, c: CompV, n: CompV, next: int)
    requires
        0 <= i < lines.len(),
        has_prefix(lines[i], "BEGIN:"@),
        !is_ws(lines[i][0]),
        lines[i][0] == 'B',
        parse_comp(lines, i) == Ok::<(CompV, int), crate::calendar::component::ErrV>((n, next)),
    ensures
        parse_body(lines, i, c) == parse_body(lines, next, CompV { nested: c.nested.push(n), ..c }),
{
    reveal_strlit("END:");
    lemma_parse_comp_advances(lines, i);
    assert(trim(lines[i]) != "END:"@ + c.name) by {
        if trim(lines[i]) == "END:"@ + c.name {
            assert(trim(lines[i]).len() > 0);
            assert(trim_start(lines[i]) == lines[i]);
            lemma_trim_end_is_prefix(lines[i]);
            assert(trim(lines[i])[0] == lines[i][0]);
            assert(("END:"@ + c.name)[0] == 'E');
        }
    }
}

proof fn lemma_block_split(lines: Seq<Seq<char>>, i: int, a: Seq<Seq<char>>, b: Seq<Seq<char>>)
    requires
        block_at(lines, i, a + b),
    ensures
        block_at(lines, i, a),
        block_at(lines, i + a.len(), b),
{
    assert(lines.subrange(i, i + a.len()) =~= (a + b).subrange(0, a.len() as int));
    assert((a + b).subrange(0, a.len() as int) =~= a);
    assert(lines.subrange(i + a.len(), i + a.len() + b.len()) =~= (a + b).subrange(a.len() as int, (a + b).len() as int));
    assert((a + b).subrange(a.len() as int, (a + b).len() as int) =~= b);
}

proof fn lemma_block_line(lines: Seq<Seq<char>>, i: int, b: Seq<Seq<char>>, k: int)
    requires
        block_at(lines, i, b),
        0 <= k < b.len(),
    ensures
        lines[i + k] == b[k],
{
    assert(lines.subrange(i, i + b.len())[k] == lines[i + k]);
}

/// A plain line that starts with a property name is a property line.
proof fn lemma_plain_prop_line(l: Seq<char>)
    requires
        plain_content_line(l),
        l[0] != 'B' && l[0] != 'E' && !is_ws(l[0]),
    ensures
        prop_line(l),
{
    if is_ws(l.last()) {
        lemma_trim_end_is_prefix(l.drop_last());
        assert(trim_end(l) == trim_end(l.drop_last()));
    }
}


/// The property lines of a VALARM.
pub open spec fn valarm_prop_lines(trigger: i64, desc: Seq<char>, fallback: Seq<char>) -> Seq<Seq<char>> {
    seq![
        "ACTION:DISPLAY"@,
        text_prop(
            "DESCRIPTION"@,
            if desc.len() == 0 {
                fallback
            } else {
                desc
            },
        ),
        raw_prop("TRIGGER;VALUE=DATE-TIME"@, stamp(trigger)),
    ]
}

/// The component a written VALARM reads as.
pub open spec fn valarm_comp(trigger: i64, desc: Seq<char>, fallback: Seq<char>) -> CompV {
    add_props(empty_comp("VALARM"@), valarm_prop_lines(trigger, desc, fallback))
}

/// The name after `BEGIN:` of a literal line.
proof fn lemma_begin_name(l: Seq<char>, name: Seq<char>)
    requires
        l == "BEGIN:"@ + name,
        name.len() > 0,
        !is_ws(name[0]),
        !is_ws(name.last()),
    ensures
        has_prefix(l, "BEGIN:"@),
        trim(l.skip(6)) == name,
        l[0] == 'B',
        !is_ws(l[0]),
{
    reveal_strlit("BEGIN:");
    assert(l.skip(6) =~= name);
    assert(l.take(6) =~= "BEGIN:"@);
    lemma_trim_plain(name);
}

proof fn lemma_parse_valarm(lines: Seq<Seq<char>>, i: int, trigger: i64, desc: Seq<char>, fallback: Seq<char>)
    requires
        block_at(lines, i, valarm_lines(trigger, desc, fallback)),
        stamp_reads_back(trigger),
        text_survives(desc),
        text_survives(fallback),
    ensures
        parse_comp(lines, i) == Ok::<(CompV, int), crate::calendar::component::ErrV>(
            (valarm_comp(trigger, desc, fallback), i + 5),
        ),
{
    reveal_strlit("BEGIN:VALARM");
    reveal_strlit("VALARM");
    reveal_strlit("END:VALARM");
    reveal_strlit("BEGIN:");
    reveal_strlit("END:");
    reveal_strlit("ACTION:DISPLAY");
    reveal_strlit("DESCRIPTION");
    reveal_strlit("TRIGGER;VALUE=DATE-TIME");
    let v = valarm_lines(trigger, desc, fallback);
    lemma_block_line(lines, i, v, 0);
    lemma_block_line(lines, i, v, 4);
    assert("BEGIN:VALARM"@ =~= "BEGIN:"@ + "VALARM"@);
    lemma_begin_name("BEGIN:VALARM"@, "VALARM"@);
    let b = valarm_prop_lines(trigger, desc, fallback);
    assert(v =~= seq!["BEGIN:VALARM"@] + b + seq!["END:VALARM"@]);
    lemma_block_split(lines, i, seq!["BEGIN:VALARM"@] + b, seq!["END:VALARM"@]);
    lemma_block_split(lines, i, seq!["BEGIN:VALARM"@], b);
    lemma_valarm_plain(trigger, desc, fallback);
    assert(all_prop_lines(b)) by {
        assert(plain_content_line(v[1]));
        assert(plain_content_line(v[2]));
        assert(plain_content_line(v[3]));
        lemma_plain_prop_line(v[1]);
        lemma_plain_prop_line(v[2]);
        lemma_plain_prop_line(v[3]);
        assert forall|k: int| 0 <= k < b.len() implies prop_line(#[trigger] b[k]) by {
            assert(b[k] == v[k + 1]);
        }
    }
    let c0 = empty_comp("VALARM"@);
    lemma_prop_block(lines, i + 1, c0, b);
    lemma_add_props_name(c0, b);
    assert("END:VALARM"@ =~= "END:"@ + "VALARM"@);
    lemma_end_line(lines, i + 4, add_props(c0, b));
}

/// The components of an item's reminders.
pub open spec fn reminder_comps(rs: Seq<(i64, Seq<char>)>) -> Seq<CompV>
    decreases rs.len(),
{
    if rs.len() == 0 {
        seq![]
    } else {
        reminder_comps(rs.drop_last()).push(valarm_comp(rs.last().0, rs.last().1, "Reminder"@))
    }
}

proof fn lemma_reminders_len(rs: Seq<(i64, Seq<char>)>)
    ensures
        reminders_lines(rs).len() == 5 * rs.len(),
        reminder_comps(rs).len() == rs.len(),
    decreases rs.len(),
{
    if rs.len() > 0 {
        lemma_reminders_len(rs.drop_last());
    }
}

proof fn lemma_parse_reminders(lines: Seq<Seq<char>>, i: int, c: CompV, rs: Seq<(i64, Seq<char>)>)
    requires
        block_at(lines, i, reminders_lines(rs)),
        reminders_survive(rs),
    ensures
        parse_body(lines, i, c) == parse_body(
            lines,
            i + reminders_lines(rs).len(),
            CompV { nested: c.nested + reminder_comps(rs), ..c },
        ),
    decreases rs.len(),
{
    reveal_strlit("Reminder");
    if rs.len() == 0 {
        assert(c.nested + reminder_comps(rs) =~= c.nested);
        assert(CompV { nested: c.nested + reminder_comps(rs), ..c } == c);
    } else {
        let init = rs.drop_last();
        let last = rs.last();
        lemma_block_split(lines, i, reminders_lines(init), valarm_lines(last.0, last.1, "Reminder"@));
        assert forall|k: int| 0 <= k < init.len() implies reminder_survives(#[trigger] init[k]) by {
            assert(init[k] == rs[k]);
        }
        lemma_parse_reminders(lines, i, c, init);
        let j = i + reminders_lines(init).len();
        let c1 = CompV { nested: c.nested + reminder_comps(init), ..c };
        assert(reminder_survives(rs[rs.len() - 1]));
        assert(text_survives("Reminder"@));
        lemma_parse_valarm(lines, j, last.0, last.1, "Reminder"@);
        lemma_block_line(lines, j, valarm_lines(last.0, last.1, "Reminder"@), 0);
        reveal_strlit("BEGIN:VALARM");
        reveal_strlit("VALARM");
        reveal_strlit("BEGIN:");
        assert("BEGIN:VALARM"@ =~= "BEGIN:"@ + "VALARM"@);
        lemma_begin_name("BEGIN:VALARM"@, "VALARM"@);
        lemma_nested_block(lines, j, c1, valarm_comp(last.0, last.1, "Reminder"@), j + 5);
        assert(c1.nested.push(valarm_comp(last.0, last.1, "Reminder"@)) =~= c.nested + reminder_comps(rs));
    }
}

/// A first character that starts neither `BEGIN:` nor `END:` and is not
/// whitespace.
pub open spec fn good_letter(c: char) -> bool {
    c != 'B' && c != 'E' && !is_ws(c)
}

/// Every line of `ls` is non-empty and starts with a good letter.
pub open spec fn good_starts(ls: Seq<Seq<char>>) -> bool {
    forall|k: int| 0 <= k < ls.len() ==> (#[trigger] ls[k]).len() > 0 && good_letter(ls[k][0])
}

proof fn lemma_good_starts_concat(a: Seq<Seq<char>>, b: Seq<Seq<char>>)
    requires
        good_starts(a),
        good_starts(b),
    ensures
        good_starts(a + b),
{
    assert forall|k: int| 0 <= k < (a + b).len() implies (#[trigger] (a + b)[k]).len() > 0 && good_letter((a + b)[k][0]) by {
        if k < a.len() {
            assert((a + b)[k] == a[k]);
        } else {
            assert((a + b)[k] == b[k - a.len()]);
        }
    }
}

proof fn lemma_prop_lines_of(ls: Seq<Seq<char>>)
    requires
        all_plain(ls),
        good_starts(ls),
    ensures
        all_prop_lines(ls),
{
    assert forall|k: int| 0 <= k < ls.len() implies prop_line(#[trigger] ls[k]) by {
        assert(plain_content_line(ls[k]));
        assert(good_letter(ls[k][0]));
        lemma_plain_prop_line(ls[k]);
    }
}

proof fn lemma_all_plain_sub(a: Seq<Seq<char>>, b: Seq<Seq<char>>)
    requires
        all_plain(a + b),
    ensures
        all_plain(a),
        all_plain(b),
{
    assert forall|k: int| 0 <= k < a.len() implies plain_content_line(#[trigger] a[k]) by {
        assert((a + b)[k] == a[k]);
    }
    assert forall|k: int| 0 <= k < b.len() implies plain_content_line(#[trigger] b[k]) by {
        assert((a + b)[k + a.len()] == b[k]);
    }
}

proof fn lemma_text_prop_start(n: Seq<char>, v: Seq<char>)
    requires
        n.len() > 0,
    ensures
        text_prop(n, v).len() > 0,
        text_prop(n, v)[0] == n[0],
        raw_prop(n, v).len() > 0,
        raw_prop(n, v)[0] == n[0],
{
}

proof fn lemma_address_start(prop: Seq<char>, p: (Seq<char>, Seq<char>))
    requires
        prop.len() > 0,
    ensures
        address_prop(prop, p).len() > 0,
        address_prop(prop, p)[0] == prop[0],
{
    assert(address_header(prop, p)[0] == prop[0]);
}

proof fn lemma_attendees_starts(ps: Seq<(Seq<char>, Seq<char>)>)
    ensures
        good_starts(attendees_lines(ps)),
    decreases ps.len(),
{
    reveal_strlit("ATTENDEE");
    if ps.len() > 0 {
        lemma_attendees_starts(ps.drop_last());
        lemma_address_start("ATTENDEE"@, ps.last());
        let a = attendees_lines(ps.drop_last());
        let l = address_prop("ATTENDEE"@, ps.last());
        assert(good_letter('A'));
        assert(a.push(l) =~= a + seq![l]);
        lemma_good_starts_concat(a, seq![l]);
    } else {
        assert(attendees_lines(ps) =~= Seq::<Seq<char>>::empty());
    }
}

/// The property lines of a VEVENT.
pub open spec fn event_prop_lines(e: EventV, now: i64) -> Seq<Seq<char>> {
    seq![text_prop("UID"@, e.uid), raw_prop("DTSTAMP"@, stamp(now))] + times_lines(e) + event_detail_lines(e)
}

/// The component a written VEVENT reads as.
pub open spec fn event_comp(e: EventV, now: i64) -> CompV {
    CompV { nested: reminder_comps(e.reminders), ..add_props(empty_comp("VEVENT"@), event_prop_lines(e, now)) }
}

proof fn lemma_event_starts(e: EventV, now: i64)
    ensures
        good_starts(event_prop_lines(e, now)),
{
    reveal_strlit("UID");
    reveal_strlit("DTSTAMP");
    reveal_strlit("DTSTART");
    reveal_strlit("DTEND");
    reveal_strlit("DTSTART;VALUE=DATE");
    reveal_strlit("DTEND;VALUE=DATE");
    reveal_strlit("SUMMARY");
    reveal_strlit("DESCRIPTION");
    reveal_strlit("LOCATION");
    reveal_strlit("STATUS");
    reveal_strlit("CLASS");
    reveal_strlit("ORGANIZER");
    assert(good_letter('U') && good_letter('D') && good_letter('S') && good_letter('L') && good_letter('C') && good_letter('O'));
    lemma_text_prop_start("UID"@, e.uid);
    lemma_text_prop_start("DTSTAMP"@, stamp(now));
    lemma_text_prop_start("DTSTART"@, stamp(e.start));
    lemma_text_prop_start("DTEND"@, stamp(e.end));
    lemma_text_prop_start("DTSTART;VALUE=DATE"@, date(e.start));
    lemma_text_prop_start("DTEND;VALUE=DATE"@, date(e.end));
    lemma_text_prop_start("SUMMARY"@, e.summary);
    lemma_text_prop_start("DESCRIPTION"@, e.description);
    lemma_text_prop_start("LOCATION"@, e.location);
    lemma_text_prop_start("STATUS"@, event_status_text(e.status));
    lemma_text_prop_start("CLASS"@, event_class_text(e.class));
    let h = seq![text_prop("UID"@, e.uid), raw_prop("DTSTAMP"@, stamp(now))];
    assert(good_starts(h));
    assert(good_starts(times_lines(e)));
    let a = seq![text_prop("SUMMARY"@, e.summary)];
    let b = optional_lines("DESCRIPTION"@, e.description);
    let c = optional_lines("LOCATION"@, e.location);
    let d = seq![raw_prop("STATUS"@, event_status_text(e.status)), raw_prop("CLASS"@, event_class_text(e.class))];
    let o: Seq<Seq<char>> = match e.organizer {
        Some(p) => seq![address_prop("ORGANIZER"@, p)],
        None => seq![],
    };
    match e.organizer {
        Some(p) => lemma_address_start("ORGANIZER"@, p),
        None => {},
    }
    assert(good_starts(a));
    assert(good_starts(b));
    assert(good_starts(c));
    assert(good_starts(d));
    assert(good_starts(o));
    lemma_attendees_starts(e.attendees);
    lemma_good_starts_concat(a, b);
    lemma_good_starts_concat(a + b, c);
    lemma_good_starts_concat(a + b + c, d);
    lemma_good_starts_concat(a + b + c + d, o);
    lemma_good_starts_concat(a + b + c + d + o, attendees_lines(e.attendees));
    lemma_good_starts_concat(h, times_lines(e));
    lemma_good_starts_concat(h + times_lines(e), event_detail_lines(e));
}

proof fn lemma_parse_event(lines: Seq<Seq<char>>, i: int, e: EventV, now: i64)
    requires
        block_at(lines, i, event_lines(e, now)),
        event_survives(e),
        stamp_plain(now),
    ensures
        parse_comp(lines, i) == Ok::<(CompV, int), crate::calendar::component::ErrV>(
            (event_comp(e, now), i + event_lines(e, now).len()),
        ),
{
    reveal_strlit("BEGIN:VEVENT");
    reveal_strlit("VEVENT");
    reveal_strlit("END:VEVENT");
    reveal_strlit("BEGIN:");
    reveal_strlit("END:");
    let v = event_lines(e, now);
    let p = event_prop_lines(e, now);
    let r = reminders_lines(e.reminders);
    let b0 = seq!["BEGIN:VEVENT"@];
    let z = seq!["END:VEVENT"@];
    assert(v =~= b0 + p + r + z);
    lemma_block_split(lines, i, b0 + p + r, z);
    lemma_block_split(lines, i, b0 + p, r);
    lemma_block_split(lines, i, b0, p);
    lemma_block_line(lines, i, b0, 0);
    lemma_block_line(lines, i + 1 + p.len() + r.len(), z, 0);
    assert("BEGIN:VEVENT"@ =~= "BEGIN:"@ + "VEVENT"@);
    lemma_begin_name("BEGIN:VEVENT"@, "VEVENT"@);
    lemma_event_plain(e, now);
    lemma_all_plain_sub(b0 + p + r, z);
    lemma_all_plain_sub(b0 + p, r);
    lemma_all_plain_sub(b0, p);
    lemma_event_starts(e, now);
    lemma_prop_lines_of(p);
    let c0 = empty_comp("VEVENT"@);
    lemma_prop_block(lines, i + 1, c0, p);
    let c1 = add_props(c0, p);
    lemma_add_props_name(c0, p);
    lemma_parse_reminders(lines, i + 1 + p.len(), c1, e.reminders);
    let c2 = CompV { nested: c1.nested + reminder_comps(e.reminders), ..c1 };
    assert(c1.nested + reminder_comps(e.reminders) =~= reminder_comps(e.reminders));
    assert(c2 == event_comp(e, now));
    assert("END:VEVENT"@ =~= "END:"@ + "VEVENT"@);
    lemma_end_line(lines, i + 1 + p.len() + r.len(), c2);
}

/// The property lines of a VTODO.
pub open spec fn todo_prop_lines(t: TodoV, now: i64) -> Seq<Seq<char>> {
    seq![text_prop("UID"@, t.uid), raw_prop("DTSTAMP"@, stamp(now))] + todo_detail_lines(t)
}

/// The component a written VTODO reads as.
pub open spec fn todo_comp(t: TodoV, now: i64) -> CompV {
    CompV { nested: reminder_comps(t.reminders), ..add_props(empty_comp("VTODO"@), todo_prop_lines(t, now)) }
}

proof fn lemma_todo_starts(t: TodoV, now: i64)
    ensures
        good_starts(todo_prop_lines(t, now)),
{
    reveal_strlit("UID");
    reveal_strlit("DTSTAMP");
    reveal_strlit("SUMMARY");
    reveal_strlit("DESCRIPTION");
    reveal_strlit("DUE");
    reveal_strlit("STATUS");
    reveal_strlit("PRIORITY");
    assert(good_letter('U') && good_letter('D') && good_letter('S') && good_letter('P'));
    lemma_text_prop_start("UID"@, t.uid);
    lemma_text_prop_start("DTSTAMP"@, stamp(now));
    lemma_text_prop_start("SUMMARY"@, t.summary);
    lemma_text_prop_start("DESCRIPTION"@, t.description);
    lemma_text_prop_start("STATUS"@, todo_status_text(t.status));
    lemma_text_prop_start("PRIORITY"@, dec(t.priority as nat));
    match t.due {
        Some(d) => lemma_text_prop_start("DUE"@, stamp(d)),
        None => {},
    }
    let h = seq![text_prop("UID"@, t.uid), raw_prop("DTSTAMP"@, stamp(now))];
    let a = seq![text_prop("SUMMARY"@, t.summary)];
    let b = optional_lines("DESCRIPTION"@, t.description);
    let c: Seq<Seq<char>> = match t.due {
        Some(d) => seq![raw_prop("DUE"@, stamp(d))],
        None => seq![],
    };
    let d = seq![raw_prop("STATUS"@, todo_status_text(t.status))];
    let p: Seq<Seq<char>> = if t.priority > 0 {
        seq![raw_prop("PRIORITY"@, dec(t.priority as nat))]
    } else {
        seq![]
    };
    assert(good_starts(h));
    assert(good_starts(a));
    assert(good_starts(b));
    assert(good_starts(c));
    assert(good_starts(d));
    assert(good_starts(p));
    lemma_good_starts_concat(a, b);
    lemma_good_starts_concat(a + b, c);
    lemma_good_starts_concat(a + b + c, d);
    lemma_good_starts_concat(a + b + c + d, p);
    lemma_good_starts_concat(h, todo_detail_lines(t));
}

proof fn lemma_parse_todo(lines: Seq<Seq<char>>, i: int, t: TodoV, now: i64)
    requires
        block_at(lines, i, todo_lines(t, now)),
        todo_survives(t),
        stamp_plain(now),
    ensures
        parse_comp(lines, i) == Ok::<(CompV, int), crate::calendar::component::ErrV>(
            (todo_comp(t, now), i + todo_lines(t, now).len()),
        ),
{
    reveal_strlit("BEGIN:VTODO");
    reveal_strlit("VTODO");
    reveal_strlit("END:VTODO");
    reveal_strlit("BEGIN:");
    reveal_strlit("END:");
    let v = todo_lines(t, now);
    let p = todo_prop_lines(t, now);
    let r = reminders_lines(t.reminders);
    let b0 = seq!["BEGIN:VTODO"@];
    let z = seq!["END:VTODO"@];
    assert(v =~= b0 + p + r + z);
    lemma_block_split(lines, i, b0 + p + r, z);
    lemma_block_split(lines, i, b0 + p, r);
    lemma_block_split(lines, i, b0, p);
    lemma_block_line(lines, i, b0, 0);
    lemma_block_line(lines, i + 1 + p.len() + r.len(), z, 0);
    assert("BEGIN:VTODO"@ =~= "BEGIN:"@ + "VTODO"@);
    lemma_begin_name("BEGIN:VTODO"@, "VTODO"@);
    lemma_todo_plain(t, now);
    lemma_all_plain_sub(b0 + p + r, z);
    lemma_all_plain_sub(b0 + p, r);
    lemma_all_plain_sub(b0, p);
    lemma_todo_starts(t, now);
    lemma_prop_lines_of(p);
    let c0 = empty_comp("VTODO"@);
    lemma_prop_block(lines, i + 1, c0, p);
    let c1 = add_props(c0, p);
    lemma_add_props_name(c0, p);
    lemma_parse_reminders(lines, i + 1 + p.len(), c1, t.reminders);
    let c2 = CompV { nested: c1.nested + reminder_comps(t.reminders), ..c1 };
    assert(c1.nested + reminder_comps(t.reminders) =~= reminder_comps(t.reminders));
    assert(c2 == todo_comp(t, now));
    assert("END:VTODO"@ =~= "END:"@ + "VTODO"@);
    lemma_end_line(lines, i + 1 + p.len() + r.len(), c2);
}

/// The component a written item reads as.
pub open spec fn item_comp(i: ItemV, now: i64) -> CompV {
    match i {
        ItemV::Event(e) => event_comp(e, now),
        ItemV::Todo(t) => todo_comp(t, now),
        ItemV::Alarm(trigger, desc) => valarm_comp(trigger, desc, "Alarm"@),
    }
}

/// The components of the written items.
pub open spec fn item_comps(items: Seq<ItemV>, now: i64) -> Seq<CompV>
    decreases items.len(),
{
    if items.len() == 0 {
        seq![]
    } else {
        item_comps(items.drop_last(), now).push(item_comp(items.last(), now))
    }
}

proof fn lemma_item_first_line(it: ItemV, now: i64)
    ensures
        item_lines(it, now).len() > 0,
        has_prefix(item_lines(it, now)[0], "BEGIN:"@),
        item_lines(it, now)[0][0] == 'B',
        !is_ws(item_lines(it, now)[0][0]),
{
    reveal_strlit("BEGIN:");
    reveal_strlit("BEGIN:VEVENT");
    reveal_strlit("BEGIN:VTODO");
    reveal_strlit("BEGIN:VALARM");
    reveal_strlit("VEVENT");
    reveal_strlit("VTODO");
    reveal_strlit("VALARM");
    assert("BEGIN:VEVENT"@ =~= "BEGIN:"@ + "VEVENT"@);
    assert("BEGIN:VTODO"@ =~= "BEGIN:"@ + "VTODO"@);
    assert("BEGIN:VALARM"@ =~= "BEGIN:"@ + "VALARM"@);
    lemma_begin_name("BEGIN:VEVENT"@, "VEVENT"@);
    lemma_begin_name("BEGIN:VTODO"@, "VTODO"@);
    lemma_begin_name("BEGIN:VALARM"@, "VALARM"@);
    match it {
        ItemV::Event(e) => {
            assert(event_lines(e, now)[0] == "BEGIN:VEVENT"@);
        },
        ItemV::Todo(t) => {
            assert(todo_lines(t, now)[0] == "BEGIN:VTODO"@);
        },
        ItemV::Alarm(tr, d) => {
            assert(valarm_lines(tr, d, "Alarm"@)[0] == "BEGIN:VALARM"@);
        },
    }
}

proof fn lemma_parse_items(lines: Seq<Seq<char>>, i: int, c: CompV, items: Seq<ItemV>, now: i64)
    requires
        block_at(lines, i, items_lines(items, now)),
        items_survive(items, now),
    ensures
        parse_body(lines, i, c) == parse_body(
            lines,
            i + items_lines(items, now).len(),
            CompV { nested: c.nested + item_comps(items, now), ..c },
        ),
    decreases items.len(),
{
    reveal_strlit("Alarm");
    if items.len() == 0 {
        assert(c.nested + item_comps(items, now) =~= c.nested);
        assert(CompV { nested: c.nested + item_comps(items, now), ..c } == c);
    } else {
        let init = items.drop_last();
        let last = items.last();
        lemma_block_split(lines, i, items_lines(init, now), item_lines(last, now));
        assert forall|k: int| 0 <= k < init.len() implies item_survives(#[trigger] init[k]) by {
            assert(init[k] == items[k]);
        }
        lemma_parse_items(lines, i, c, init, now);
        let j = i + items_lines(init, now).len();
        let c1 = CompV { nested: c.nested + item_comps(init, now), ..c };
        assert(item_survives(items[items.len() - 1]));
        match last {
            ItemV::Event(e) => lemma_parse_event(lines, j, e, now),
            ItemV::Todo(t) => lemma_parse_todo(lines, j, t, now),
            ItemV::Alarm(tr, d) => {
                assert(text_survives("Alarm"@));
                lemma_parse_valarm(lines, j, tr, d, "Alarm"@);
            },
        }
        lemma_item_first_line(last, now);
        lemma_block_line(lines, j, item_lines(last, now), 0);
        lemma_nested_block(lines, j, c1, item_comp(last, now), j + item_lines(last, now).len());
        assert(c1.nested.push(item_comp(last, now)) =~= c.nested + item_comps(items, now));
    }
}

/// The calendar properties of the written header.
pub open spec fn calendar_prop_lines() -> Seq<Seq<char>> {
    seq!["VERSION:2.0"@, "PRODID:-//PlausiDen//mail-calendar 0.1//EN"@, "CALSCALE:GREGORIAN"@]
}

/// The root component a written calendar reads as.
pub open spec fn calendar_comp(items: Seq<ItemV>, now: i64) -> CompV {
    CompV { nested: item_comps(items, now), ..add_props(empty_comp("VCALENDAR"@), calendar_prop_lines()) }
}

/// A written calendar reads as one VCALENDAR spanning all its lines, whose
/// components are those of the items.
pub proof fn lemma_parse_document(items: Seq<ItemV>, now: i64)
    requires
        items_survive(items, now),
    ensures
        parse_comp(doc_lines(items, now), 0) == Ok::<(CompV, int), crate::calendar::component::ErrV>(
            (calendar_comp(items, now), doc_lines(items, now).len() as int),
        ),
{
    reveal_strlit("BEGIN:VCALENDAR");
    reveal_strlit("VCALENDAR");
    reveal_strlit("END:VCALENDAR");
    reveal_strlit("BEGIN:");
    reveal_strlit("END:");
    reveal_strlit("VERSION:2.0");
    reveal_strlit("PRODID:-//PlausiDen//mail-calendar 0.1//EN");
    reveal_strlit("CALSCALE:GREGORIAN");
    let lines = doc_lines(items, now);
    let b0 = seq!["BEGIN:VCALENDAR"@];
    let p = calendar_prop_lines();
    let r = items_lines(items, now);
    let z = seq!["END:VCALENDAR"@];
    assert(lines =~= b0 + p + r + z);
    assert(block_at(lines, 0, lines)) by {
        assert(lines.subrange(0, lines.len() as int) =~= lines);
    }
    lemma_block_split(lines, 0, b0 + p + r, z);
    lemma_block_split(lines, 0, b0 + p, r);
    lemma_block_split(lines, 0, b0, p);
    lemma_block_line(lines, 0, b0, 0);
    lemma_block_line(lines, (1 + p.len() + r.len()) as int, z, 0);
    assert("BEGIN:VCALENDAR"@ =~= "BEGIN:"@ + "VCALENDAR"@);
    lemma_begin_name("BEGIN:VCALENDAR"@, "VCALENDAR"@);
    assert(all_prop_lines(p)) by {
        assert(prop_line("VERSION:2.0"@));
        assert(prop_line("PRODID:-//PlausiDen//mail-calendar 0.1//EN"@));
        assert(prop_line("CALSCALE:GREGORIAN"@));
    }
    let c0 = empty_comp("VCALENDAR"@);
    lemma_prop_block(lines, 1, c0, p);
    let c1 = add_props(c0, p);
    lemma_add_props_name(c0, p);
    lemma_parse_items(lines, (1 + p.len()) as int, c1, items, now);
    let c2 = CompV { nested: c1.nested + item_comps(items, now), ..c1 };
    assert(c1.nested + item_comps(items, now) =~= item_comps(items, now));
    assert(c2 == calendar_comp(items, now));
    assert("END:VCALENDAR"@ =~= "END:"@ + "VCALENDAR"@);
    lemma_end_line(lines, (1 + p.len() + r.len()) as int, c2);
}

// ----- how the written lines read as properties ------------------------------------

/// `name;key=value:v` with simple parts reads as `name` with the one
/// parameter.
proof fn lemma_param_property(n: Seq<char>, k: Seq<char>, pv: Seq<char>, v: Seq<char>)
    requires
        simple_name(n),
        simple_name(k),
        forall|i: int| 0 <= i < k.len() ==> k[i] != '=',
        forall|i: int| 0 <= i < pv.len() ==> pv[i] != ':' && pv[i] != ';' && pv[i] != '"',
        pv.len() > 0,
        trim(pv) == pv,
    ensures
        property_of(n + ";"@ + k + "="@ + pv + ":"@ + v) == Some(
            (n, PropV { params: seq![(k, pv)], value: v }),
        ),
{
    reveal_strlit(";");
    reveal_strlit("=");
    reveal_strlit(":");
    let h = n + ";"@ + k + "="@ + pv;
    let line = h + ":"@ + v;
    let c = h.len() as int;
    assert forall|j: int| 0 <= j < c implies line[j] != ':' && line[j] != '"' by {
        assert(line[j] == h[j]);
        if j < n.len() {
            assert(h[j] == n[j]);
        } else if j == n.len() {
        } else if j < n.len() + 1 + k.len() {
            assert(h[j] == k[j - n.len() - 1]);
        } else if j == n.len() + 1 + k.len() {
        } else {
            assert(h[j] == pv[j - n.len() - 2 - k.len()]);
        }
    }
    assert(line[c] == ':');
    lemma_colon_after_name(line, c, 0);
    assert(line.take(c) =~= h);
    assert(line.skip(c + 1) =~= v);
    let kv = k + "="@ + pv;
    assert(h =~= n + ";"@ + kv);
    assert forall|j: int| 0 <= j < n.len() implies h[j] != ';' by {
        assert(h[j] == n[j]);
    }
    assert(h[n.len() as int] == ';');
    crate::text::lemma_first_index(h, ';', n.len() as int);
    assert(h.take(n.len() as int) =~= n);
    assert(h.skip(n.len() as int + 1) =~= kv);
    assert forall|j: int| 0 <= j < kv.len() implies kv[j] != ';' by {
        if j < k.len() {
            assert(kv[j] == k[j]);
        } else if j > k.len() {
            assert(kv[j] == pv[j - k.len() - 1]);
        }
    }
    crate::text::lemma_first_index(kv, ';', kv.len() as int);
    assert(split_all(kv, ';') == seq![kv]);
    assert(split_all(h, ';') == seq![n] + seq![kv]);
    let parts = split_all(h, ';');
    assert(parts.skip(1) =~= seq![kv]);
    assert forall|j: int| 0 <= j < k.len() implies kv[j] != '=' by {
        assert(kv[j] == k[j]);
    }
    assert(kv[k.len() as int] == '=');
    crate::text::lemma_first_index(kv, '=', k.len() as int);
    assert(kv.take(k.len() as int) =~= k);
    assert(kv.skip(k.len() as int + 1) =~= pv);
    assert(trim_quotes(pv) == pv);
    assert(param_of(kv) == Some((k, pv)));
    let f = |p: Seq<char>| param_of(p);
    assert(seq![kv].drop_last() =~= Seq::<Seq<char>>::empty());
    assert(filter_map(seq![kv], f) == filter_map(Seq::<Seq<char>>::empty(), f).push((k, pv)));
    assert(filter_map(seq![kv], f) =~= seq![(k, pv)]);
}

proof fn lemma_colon_walk(line: Seq<char>, i: int, o: int)
    requires
        0 <= i <= o <= line.len(),
        forall|j: int| i <= j < o ==> line[j] != ':' && line[j] != '"',
    ensures
        colon_from(line, i, false) == colon_from(line, o, false),
    decreases o - i,
{
    if i < o {
        lemma_colon_walk(line, i + 1, o);
    }
}

proof fn lemma_colon_in_quotes(line: Seq<char>, j: int, close: int)
    requires
        0 <= j <= close < line.len(),
        line[close] == '"',
        forall|k: int| j <= k < close ==> line[k] != '"',
    ensures
        colon_from(line, j, true) == colon_from(line, close + 1, false),
    decreases close - j,
{
    if j < close {
        lemma_colon_in_quotes(line, j + 1, close);
    }
}

proof fn lemma_without_dquotes_id(s: Seq<char>)
    requires
        forall|i: int| 0 <= i < s.len() ==> s[i] != '"',
    ensures
        without_dquotes(s) == s,
    decreases s.len(),
{
    if s.len() > 0 {
        assert forall|i: int| 0 <= i < s.drop_last().len() implies s.drop_last()[i] != '"' by {
            assert(s.drop_last()[i] == s[i]);
        }
        lemma_without_dquotes_id(s.drop_last());
        assert(s.drop_last().push(s.last()) =~= s);
    }
}

proof fn lemma_quoted_colon(n: Seq<char>, k: Seq<char>, q: Seq<char>, v: Seq<char>)
    requires
        simple_name(n),
        simple_name(k),
        forall|i: int| 0 <= i < q.len() ==> q[i] != '"',
    ensures
        colon_from(n + ";"@ + k + "="@ + ("\""@ + q + "\""@) + ":"@ + v, 0, false) == Some(
            (n + ";"@ + k + "="@ + ("\""@ + q + "\""@)).len() as int,
        ),
{
    reveal_strlit(";");
    reveal_strlit("=");
    reveal_strlit(":");
    reveal_strlit("\"");
    let qq = "\""@ + q + "\""@;
    let h = n + ";"@ + k + "="@ + qq;
    let line = h + ":"@ + v;
    let o = (n.len() + k.len() + 2) as int;
    let close = (o + q.len() + 1) as int;
    assert(h.len() == close + 1);
    assert forall|j: int| 0 <= j < o implies line[j] != ':' && line[j] != '"' by {
        assert(line[j] == h[j]);
        if j < n.len() {
            assert(h[j] == n[j]);
        } else if j == n.len() {
        } else if j < n.len() + 1 + k.len() {
            assert(h[j] == k[j - n.len() - 1]);
        }
    }
    lemma_colon_walk(line, 0, o);
    assert(line[o] == '"');
    assert(line[close] == '"');
    assert forall|j: int| o + 1 <= j < close implies line[j] != '"' by {
        assert(line[j] == q[j - o - 1]);
    }
    lemma_colon_in_quotes(line, o + 1, close);
    assert(line[close + 1] == ':');
}

proof fn lemma_quoted_parts(n: Seq<char>, k: Seq<char>, q: Seq<char>)
    requires
        simple_name(n),
        forall|i: int| 0 <= i < k.len() ==> k[i] != '=' && k[i] != ';',
        trim(k) == k,
        forall|i: int| 0 <= i < q.len() ==> q[i] != ';' && q[i] != '"',
        q.len() > 0,
    ensures
        split_all(n + ";"@ + k + "="@ + ("\""@ + q + "\""@), ';') == seq![n, k + "="@ + ("\""@ + q + "\""@)],
        param_of(k + "="@ + ("\""@ + q + "\""@)) == Some((k, q)),
{
    reveal_strlit(";");
    reveal_strlit("=");
    reveal_strlit("\"");
    let qq = "\""@ + q + "\""@;
    let kv = k + "="@ + qq;
    let h = n + ";"@ + kv;
    assert(n + ";"@ + k + "="@ + qq =~= h);
    assert forall|j: int| 0 <= j < n.len() implies h[j] != ';' by {
        assert(h[j] == n[j]);
    }
    assert(h[n.len() as int] == ';');
    crate::text::lemma_first_index(h, ';', n.len() as int);
    assert(h.take(n.len() as int) =~= n);
    assert(h.skip(n.len() as int + 1) =~= kv);
    assert forall|j: int| 0 <= j < kv.len() implies kv[j] != ';' by {
        if j < k.len() {
            assert(kv[j] == k[j]);
        } else if j > k.len() + 1 && j < kv.len() - 1 {
            assert(kv[j] == q[j - k.len() - 2]);
        }
    }
    crate::text::lemma_first_index(kv, ';', kv.len() as int);
    assert(split_all(kv, ';') == seq![kv]);
    assert(split_all(h, ';') =~= seq![n, kv]);
    assert forall|j: int| 0 <= j < k.len() implies kv[j] != '=' by {
        assert(kv[j] == k[j]);
    }
    assert(kv[k.len() as int] == '=');
    crate::text::lemma_first_index(kv, '=', k.len() as int);
    assert(kv.take(k.len() as int) =~= k);
    assert(kv.skip(k.len() as int + 1) =~= qq);
    assert(!is_ws(qq[0]) && !is_ws(qq.last()));
    lemma_trim_plain(qq);
    assert(qq.drop_first() =~= q + "\""@);
    assert((q + "\""@)[0] == q[0]);
    assert((q + "\""@).drop_last() =~= q);
    assert(trim_quotes(q) == q);
    assert(trim_quotes(q + "\""@) == trim_quotes(q));
    assert(trim_quotes(qq) == q);
}

/// `name;key="quoted":v` reads as `name` with the unquoted parameter, a
/// `:` inside the quotes included.
proof fn lemma_quoted_property(n: Seq<char>, k: Seq<char>, q: Seq<char>, v: Seq<char>)
    requires
        simple_name(n),
        simple_name(k),
        forall|i: int| 0 <= i < k.len() ==> k[i] != '=',
        forall|i: int| 0 <= i < q.len() ==> q[i] != ';' && q[i] != '"',
        q.len() > 0,
    ensures
        property_of(n + ";"@ + k + "="@ + ("\""@ + q + "\""@) + ":"@ + v) == Some(
            (n, PropV { params: seq![(k, q)], value: v }),
        ),
{
    reveal_strlit(":");
    let qq = "\""@ + q + "\""@;
    let h = n + ";"@ + k + "="@ + qq;
    let line = h + ":"@ + v;
    let c = h.len() as int;
    lemma_quoted_colon(n, k, q, v);
    lemma_quoted_parts(n, k, q);
    assert(line.take(c) =~= h);
    assert(line.skip(c + 1) =~= v);
    let kv = k + "="@ + qq;
    let parts = split_all(h, ';');
    assert(parts.skip(1) =~= seq![kv]);
    let f = |p: Seq<char>| param_of(p);
    assert(seq![kv].drop_last() =~= Seq::<Seq<char>>::empty());
    assert(filter_map(seq![kv], f) == filter_map(Seq::<Seq<char>>::empty(), f).push((k, q)));
    assert(filter_map(seq![kv], f) =~= seq![(k, q)]);
}

/// What a CAL-ADDRESS line of a person reads as.
pub open spec fn address_pv(p: (Seq<char>, Seq<char>)) -> PropV {
    PropV {
        params: if p.1.len() == 0 {
            seq![]
        } else {
            seq![("CN"@, p.1)]
        },
        value: "mailto:"@ + p.0,
    }
}

proof fn lemma_address_property(prop: Seq<char>, p: (Seq<char>, Seq<char>))
    requires
        simple_name(prop),
        name_survives(p.1),
    ensures
        property_of(address_prop(prop, p)) == Some((prop, address_pv(p))),
{
    reveal_strlit(";CN=");
    reveal_strlit(";");
    reveal_strlit("=");
    reveal_strlit(":");
    reveal_strlit("CN");
    reveal_strlit("mailto:");
    reveal_strlit("\"");
    let v = "mailto:"@ + p.0;
    if p.1.len() == 0 {
        assert(address_prop(prop, p) =~= prop + ":"@ + v);
        lemma_plain_property(prop, v);
    } else {
        assert(simple_name("CN"@)) by {
            lemma_trim_plain("CN"@);
        }
        let n = p.1;
        if needs_quote(n) {
            lemma_without_dquotes_id(n);
            assert(cn_value(n) == "\""@ + n + "\""@);
            assert(address_prop(prop, p) =~= prop + ";"@ + "CN"@ + "="@ + ("\""@ + n + "\""@) + ":"@ + v);
            lemma_quoted_property(prop, "CN"@, n, v);
        } else {
            assert(cn_value(n) == n);
            assert forall|i: int| 0 <= i < n.len() implies n[i] != ':' by {
                if n[i] == ':' {
                    assert(n.contains(':'));
                }
            }
            assert(address_prop(prop, p) =~= prop + ";"@ + "CN"@ + "="@ + n + ":"@ + v);
            lemma_param_property(prop, "CN"@, n, v);
        }
    }
}

// ----- the properties of the written components --------------------------------

/// A property without parameters.
pub open spec fn pv(v: Seq<char>) -> PropV {
    PropV { params: seq![], value: v }
}

/// A component with properties and multi-valued properties appended.
pub open spec fn with_props(c: CompV, ps: Seq<(Seq<char>, PropV)>, ms: Seq<(Seq<char>, PropV)>) -> CompV {
    CompV { props: c.props + ps, multi: c.multi + ms, ..c }
}

proof fn lemma_add_single(c: CompV, l: Seq<char>, k: Seq<char>, p: PropV)
    requires
        property_of(l) == Some((k, p)),
        !is_multi_valued(k),
    ensures
        add_props(c, seq![l]) == with_props(c, seq![(k, p)], seq![]),
{
    assert(seq![l].drop_first() =~= Seq::<Seq<char>>::empty());
    assert(seq![l][0] == l);
    let w = with_line(c, l);
    assert(w == CompV { props: c.props.push((k, p)), ..c });
    assert(add_props(w, Seq::<Seq<char>>::empty()) == w);
    assert(add_props(c, seq![l]) == w);
    assert(c.props.push((k, p)) =~= c.props + seq![(k, p)]);
    assert(c.multi + Seq::<(Seq<char>, PropV)>::empty() =~= c.multi);
    assert(w =~~= with_props(c, seq![(k, p)], seq![]));
}

proof fn lemma_add_multi(c: CompV, l: Seq<char>, k: Seq<char>, p: PropV)
    requires
        property_of(l) == Some((k, p)),
        is_multi_valued(k),
    ensures
        add_props(c, seq![l]) == with_props(c, seq![], seq![(k, p)]),
{
    assert(seq![l].drop_first() =~= Seq::<Seq<char>>::empty());
    assert(seq![l][0] == l);
    let w = with_line(c, l);
    assert(w == CompV { multi: c.multi.push((k, p)), ..c });
    assert(add_props(w, Seq::<Seq<char>>::empty()) == w);
    assert(add_props(c, seq![l]) == w);
    assert(c.multi.push((k, p)) =~= c.multi + seq![(k, p)]);
    assert(c.props + Seq::<(Seq<char>, PropV)>::empty() =~= c.props);
    assert(w =~~= with_props(c, seq![], seq![(k, p)]));
}

proof fn lemma_add_none(c: CompV)
    ensures
        add_props(c, seq![]) == with_props(c, seq![], seq![]),
{
    assert(c.props + Seq::<(Seq<char>, PropV)>::empty() =~= c.props);
    assert(c.multi + Seq::<(Seq<char>, PropV)>::empty() =~= c.multi);
}

proof fn lemma_with_props_then(c: CompV, a: Seq<(Seq<char>, PropV)>, am: Seq<(Seq<char>, PropV)>, b: Seq<(Seq<char>, PropV)>, bm: Seq<(Seq<char>, PropV)>)
    ensures
        with_props(with_props(c, a, am), b, bm) == with_props(c, a + b, am + bm),
{
    assert(c.props + a + b =~= c.props + (a + b));
    assert(c.multi + am + bm =~= c.multi + (am + bm));
}

/// Lines that read as `ps` and `ms` give them, in order, to any component.
pub open spec fn reads_as(ls: Seq<Seq<char>>, ps: Seq<(Seq<char>, PropV)>, ms: Seq<(Seq<char>, PropV)>) -> bool {
    forall|c: CompV| #[trigger] add_props(c, ls) == with_props(c, ps, ms)
}

proof fn lemma_reads_as_concat(
    a: Seq<Seq<char>>,
    ap: Seq<(Seq<char>, PropV)>,
    am: Seq<(Seq<char>, PropV)>,
    b: Seq<Seq<char>>,
    bp: Seq<(Seq<char>, PropV)>,
    bm: Seq<(Seq<char>, PropV)>,
)
    requires
        reads_as(a, ap, am),
        reads_as(b, bp, bm),
    ensures
        reads_as(a + b, ap + bp, am + bm),
{
    assert forall|c: CompV| #[trigger] add_props(c, a + b) == with_props(c, ap + bp, am + bm) by {
        lemma_add_props_concat(c, a, b);
        assert(add_props(c, a) == with_props(c, ap, am));
        assert(add_props(with_props(c, ap, am), b) == with_props(with_props(c, ap, am), bp, bm));
        lemma_with_props_then(c, ap, am, bp, bm);
    }
}

proof fn lemma_reads_single(l: Seq<char>, k: Seq<char>, p: PropV)
    requires
        property_of(l) == Some((k, p)),
        !is_multi_valued(k),
    ensures
        reads_as(seq![l], seq![(k, p)], seq![]),
{
    assert forall|c: CompV| #[trigger] add_props(c, seq![l]) == with_props(c, seq![(k, p)], seq![]) by {
        lemma_add_single(c, l, k, p);
    }
}

proof fn lemma_reads_none()
    ensures
        reads_as(seq![], seq![], seq![]),
{
    assert forall|c: CompV| #[trigger] add_props(c, seq![]) == with_props(c, seq![], seq![]) by {
        lemma_add_none(c);
    }
}

proof fn lemma_simple_literal(n: Seq<char>)
    requires
        n.len() > 0,
        forall|i: int| 0 <= i < n.len() ==> 'A' <= #[trigger] n[i] <= 'Z' || n[i] == '-',
    ensures
        simple_name(n),
{
    assert(!is_ws(n[0]) && !is_ws(n.last()));
    lemma_trim_plain(n);
}

proof fn lemma_single_names()
    ensures
        simple_name("UID"@),
        simple_name("DTSTAMP"@),
        simple_name("DTSTART"@),
        simple_name("DTEND"@),
        simple_name("SUMMARY"@),
        simple_name("DESCRIPTION"@),
        simple_name("LOCATION"@),
        simple_name("STATUS"@),
        simple_name("CLASS"@),
        simple_name("ORGANIZER"@),
        simple_name("ATTENDEE"@),
        simple_name("ACTION"@),
        simple_name("TRIGGER"@),
        simple_name("DUE"@),
        simple_name("PRIORITY"@),
        simple_name("VALUE"@),
        !is_multi_valued("UID"@),
        !is_multi_valued("DTSTAMP"@),
        !is_multi_valued("DTSTART"@),
        !is_multi_valued("DTEND"@),
        !is_multi_valued("SUMMARY"@),
        !is_multi_valued("DESCRIPTION"@),
        !is_multi_valued("LOCATION"@),
        !is_multi_valued("STATUS"@),
        !is_multi_valued("CLASS"@),
        !is_multi_valued("ORGANIZER"@),
        !is_multi_valued("ACTION"@),
        !is_multi_valued("TRIGGER"@),
        !is_multi_valued("DUE"@),
        !is_multi_valued("PRIORITY"@),
        is_multi_valued("ATTENDEE"@),
{
    reveal_strlit("UID");
    reveal_strlit("DTSTAMP");
    reveal_strlit("DTSTART");
    reveal_strlit("DTEND");
    reveal_strlit("SUMMARY");
    reveal_strlit("DESCRIPTION");
    reveal_strlit("LOCATION");
    reveal_strlit("STATUS");
    reveal_strlit("CLASS");
    reveal_strlit("ORGANIZER");
    reveal_strlit("ATTENDEE");
    reveal_strlit("ACTION");
    reveal_strlit("TRIGGER");
    reveal_strlit("DUE");
    reveal_strlit("PRIORITY");
    reveal_strlit("VALUE");
    reveal_strlit("COMMENT");
    reveal_strlit("CATEGORIES");
    reveal_strlit("RELATED-TO");
    lemma_simple_literal("UID"@);
    lemma_simple_literal("DTSTAMP"@);
    lemma_simple_literal("DTSTART"@);
    lemma_simple_literal("DTEND"@);
    lemma_simple_literal("SUMMARY"@);
    lemma_simple_literal("DESCRIPTION"@);
    lemma_simple_literal("LOCATION"@);
    lemma_simple_literal("STATUS"@);
    lemma_simple_literal("CLASS"@);
    lemma_simple_literal("ORGANIZER"@);
    lemma_simple_literal("ATTENDEE"@);
    lemma_simple_literal("ACTION"@);
    lemma_simple_literal("TRIGGER"@);
    lemma_simple_literal("DUE"@);
    lemma_simple_literal("PRIORITY"@);
    lemma_simple_literal("VALUE"@);
}

proof fn lemma_reads_text(n: Seq<char>, v: Seq<char>)
    requires
        simple_name(n),
        !is_multi_valued(n),
    ensures
        reads_as(seq![text_prop(n, v)], seq![(n, pv(escaped(v)))], seq![]),
        reads_as(seq![raw_prop(n, v)], seq![(n, pv(v))], seq![]),
{
    lemma_plain_property(n, escaped(v));
    lemma_plain_property(n, v);
    lemma_reads_single(text_prop(n, v), n, pv(escaped(v)));
    lemma_reads_single(raw_prop(n, v), n, pv(v));
}

/// What a `NAME;VALUE=...:` line reads as.
pub open spec fn valued(kind: Seq<char>, v: Seq<char>) -> PropV {
    PropV { params: seq![("VALUE"@, kind)], value: v }
}

proof fn lemma_reads_valued(n: Seq<char>, kind: Seq<char>, header: Seq<char>, v: Seq<char>)
    requires
        simple_name(n),
        !is_multi_valued(n),
        header == n + ";"@ + "VALUE"@ + "="@ + kind,
        kind.len() > 0,
        trim(kind) == kind,
        forall|i: int| 0 <= i < kind.len() ==> kind[i] != ':' && kind[i] != ';' && kind[i] != '"',
    ensures
        reads_as(seq![raw_prop(header, v)], seq![(n, valued(kind, v))], seq![]),
{
    reveal_strlit("VALUE");
    lemma_single_names();
    assert(raw_prop(header, v) =~= n + ";"@ + "VALUE"@ + "="@ + kind + ":"@ + v);
    lemma_param_property(n, "VALUE"@, kind, v);
    lemma_reads_single(raw_prop(header, v), n, valued(kind, v));
}

proof fn lemma_value_kinds()
    ensures
        "DTSTART;VALUE=DATE"@ == "DTSTART"@ + ";"@ + "VALUE"@ + "="@ + "DATE"@,
        "DTEND;VALUE=DATE"@ == "DTEND"@ + ";"@ + "VALUE"@ + "="@ + "DATE"@,
        "TRIGGER;VALUE=DATE-TIME"@ == "TRIGGER"@ + ";"@ + "VALUE"@ + "="@ + "DATE-TIME"@,
        trim("DATE"@) == "DATE"@,
        trim("DATE-TIME"@) == "DATE-TIME"@,
        forall|i: int| 0 <= i < "DATE"@.len() ==> "DATE"@[i] != ':' && "DATE"@[i] != ';' && "DATE"@[i] != '"',
        forall|i: int| 0 <= i < "DATE-TIME"@.len() ==> "DATE-TIME"@[i] != ':' && "DATE-TIME"@[i] != ';'
            && "DATE-TIME"@[i] != '"',
        "DATE"@.len() > 0,
        "DATE-TIME"@.len() > 0,
{
    reveal_strlit("DTSTART;VALUE=DATE");
    reveal_strlit("DTEND;VALUE=DATE");
    reveal_strlit("TRIGGER;VALUE=DATE-TIME");
    reveal_strlit("DTSTART");
    reveal_strlit("DTEND");
    reveal_strlit("TRIGGER");
    reveal_strlit(";");
    reveal_strlit("VALUE");
    reveal_strlit("=");
    reveal_strlit("DATE");
    reveal_strlit("DATE-TIME");
    assert("DTSTART;VALUE=DATE"@ =~= "DTSTART"@ + ";"@ + "VALUE"@ + "="@ + "DATE"@);
    assert("DTEND;VALUE=DATE"@ =~= "DTEND"@ + ";"@ + "VALUE"@ + "="@ + "DATE"@);
    assert("TRIGGER;VALUE=DATE-TIME"@ =~= "TRIGGER"@ + ";"@ + "VALUE"@ + "="@ + "DATE-TIME"@);
    lemma_trim_plain("DATE"@);
    lemma_trim_plain("DATE-TIME"@);
}

/// The properties a written VALARM reads as.
pub open spec fn valarm_props(trigger: i64, desc: Seq<char>, fallback: Seq<char>) -> Seq<(Seq<char>, PropV)> {
    seq![
        ("ACTION"@, pv("DISPLAY"@)),
        (
            "DESCRIPTION"@,
            pv(
                escaped(
                    if desc.len() == 0 {
                        fallback
                    } else {
                        desc
                    },
                ),
            ),
        ),
        ("TRIGGER"@, valued("DATE-TIME"@, stamp(trigger))),
    ]
}

proof fn lemma_valarm_reads(trigger: i64, desc: Seq<char>, fallback: Seq<char>)
    ensures
        reads_as(valarm_prop_lines(trigger, desc, fallback), valarm_props(trigger, desc, fallback), seq![]),
{
    reveal_strlit("ACTION:DISPLAY");
    reveal_strlit("ACTION");
    reveal_strlit(":");
    reveal_strlit("DISPLAY");
    lemma_single_names();
    lemma_value_kinds();
    let d = if desc.len() == 0 {
        fallback
    } else {
        desc
    };
    assert("ACTION:DISPLAY"@ =~= raw_prop("ACTION"@, "DISPLAY"@));
    lemma_reads_text("ACTION"@, "DISPLAY"@);
    lemma_reads_text("DESCRIPTION"@, d);
    lemma_reads_valued("TRIGGER"@, "DATE-TIME"@, "TRIGGER;VALUE=DATE-TIME"@, stamp(trigger));
    let l1 = seq!["ACTION:DISPLAY"@];
    let l2 = seq![text_prop("DESCRIPTION"@, d)];
    let l3 = seq![raw_prop("TRIGGER;VALUE=DATE-TIME"@, stamp(trigger))];
    let p1 = seq![("ACTION"@, pv("DISPLAY"@))];
    let p2 = seq![("DESCRIPTION"@, pv(escaped(d)))];
    let p3 = seq![("TRIGGER"@, valued("DATE-TIME"@, stamp(trigger)))];
    let e = Seq::<(Seq<char>, PropV)>::empty();
    lemma_reads_as_concat(l1, p1, e, l2, p2, e);
    lemma_reads_as_concat(l1 + l2, p1 + p2, e + e, l3, p3, e);
    assert(l1 + l2 + l3 =~= valarm_prop_lines(trigger, desc, fallback));
    assert(p1 + p2 + p3 =~= valarm_props(trigger, desc, fallback));
    assert(e + e + e =~= e);
}

/// The start and end properties of a written event.
pub open spec fn time_props(e: EventV) -> Seq<(Seq<char>, PropV)> {
    if e.all_day {
        seq![("DTSTART"@, valued("DATE"@, date(e.start))), ("DTEND"@, valued("DATE"@, date(e.end)))]
    } else {
        seq![("DTSTART"@, pv(stamp(e.start))), ("DTEND"@, pv(stamp(e.end)))]
    }
}

/// An optional TEXT property.
pub open spec fn optional_props(n: Seq<char>, v: Seq<char>) -> Seq<(Seq<char>, PropV)> {
    if v.len() == 0 {
        seq![]
    } else {
        seq![(n, pv(escaped(v)))]
    }
}

/// The ORGANIZER property, when there is one.
pub open spec fn organizer_props(o: Option<(Seq<char>, Seq<char>)>) -> Seq<(Seq<char>, PropV)> {
    match o {
        Some(p) => seq![("ORGANIZER"@, address_pv(p))],
        None => seq![],
    }
}

/// The ATTENDEE properties.
pub open spec fn attendee_props(ps: Seq<(Seq<char>, Seq<char>)>) -> Seq<(Seq<char>, PropV)>
    decreases ps.len(),
{
    if ps.len() == 0 {
        seq![]
    } else {
        attendee_props(ps.drop_last()).push(("ATTENDEE"@, address_pv(ps.last())))
    }
}

/// The single-valued properties of a written event.
pub open spec fn event_props(e: EventV, now: i64) -> Seq<(Seq<char>, PropV)> {
    seq![("UID"@, pv(escaped(e.uid))), ("DTSTAMP"@, pv(stamp(now)))] + time_props(e) + seq![
        ("SUMMARY"@, pv(escaped(e.summary))),
    ] + optional_props("DESCRIPTION"@, e.description) + optional_props("LOCATION"@, e.location) + seq![
        ("STATUS"@, pv(event_status_text(e.status))),
        ("CLASS"@, pv(event_class_text(e.class))),
    ] + organizer_props(e.organizer)
}

proof fn lemma_reads_two(
    l1: Seq<char>,
    k1: Seq<char>,
    p1: PropV,
    l2: Seq<char>,
    k2: Seq<char>,
    p2: PropV,
)
    requires
        reads_as(seq![l1], seq![(k1, p1)], seq![]),
        reads_as(seq![l2], seq![(k2, p2)], seq![]),
    ensures
        reads_as(seq![l1, l2], seq![(k1, p1), (k2, p2)], seq![]),
{
    let e = Seq::<(Seq<char>, PropV)>::empty();
    lemma_reads_as_concat(seq![l1], seq![(k1, p1)], e, seq![l2], seq![(k2, p2)], e);
    assert(seq![l1] + seq![l2] =~= seq![l1, l2]);
    assert(seq![(k1, p1)] + seq![(k2, p2)] =~= seq![(k1, p1), (k2, p2)]);
    assert(e + e =~= e);
}

proof fn lemma_reads_optional(n: Seq<char>, v: Seq<char>)
    requires
        simple_name(n),
        !is_multi_valued(n),
    ensures
        reads_as(optional_lines(n, v), optional_props(n, v), seq![]),
{
    if v.len() == 0 {
        lemma_reads_none();
    } else {
        lemma_reads_text(n, v);
    }
}

proof fn lemma_reads_attendees(ps: Seq<(Seq<char>, Seq<char>)>)
    requires
        forall|i: int| 0 <= i < ps.len() ==> person_survives(#[trigger] ps[i]),
    ensures
        reads_as(attendees_lines(ps), seq![], attendee_props(ps)),
    decreases ps.len(),
{
    lemma_single_names();
    if ps.len() == 0 {
        lemma_reads_none();
    } else {
        let init = ps.drop_last();
        assert forall|i: int| 0 <= i < init.len() implies person_survives(#[trigger] init[i]) by {
            assert(init[i] == ps[i]);
        }
        lemma_reads_attendees(init);
        assert(person_survives(ps[ps.len() - 1]));
        lemma_address_property("ATTENDEE"@, ps.last());
        let l = address_prop("ATTENDEE"@, ps.last());
        let kp = ("ATTENDEE"@, address_pv(ps.last()));
        assert forall|c: CompV| #[trigger] add_props(c, seq![l]) == with_props(c, seq![], seq![kp]) by {
            lemma_add_multi(c, l, "ATTENDEE"@, address_pv(ps.last()));
        }
        let e = Seq::<(Seq<char>, PropV)>::empty();
        lemma_reads_as_concat(attendees_lines(init), e, attendee_props(init), seq![l], e, seq![kp]);
        assert(attendees_lines(init) + seq![l] =~= attendees_lines(ps));
        assert(attendee_props(init) + seq![kp] =~= attendee_props(ps));
        assert(e + e =~= e);
    }
}

proof fn lemma_event_reads(e: EventV, now: i64)
    requires
        event_survives(e),
    ensures
        reads_as(event_prop_lines(e, now), event_props(e, now), attendee_props(e.attendees)),
{
    lemma_single_names();
    lemma_value_kinds();
    let z = Seq::<(Seq<char>, PropV)>::empty();
    lemma_reads_text("UID"@, e.uid);
    lemma_reads_text("DTSTAMP"@, stamp(now));
    lemma_reads_two(
        text_prop("UID"@, e.uid),
        "UID"@,
        pv(escaped(e.uid)),
        raw_prop("DTSTAMP"@, stamp(now)),
        "DTSTAMP"@,
        pv(stamp(now)),
    );
    if e.all_day {
        lemma_reads_valued("DTSTART"@, "DATE"@, "DTSTART;VALUE=DATE"@, date(e.start));
        lemma_reads_valued("DTEND"@, "DATE"@, "DTEND;VALUE=DATE"@, date(e.end));
        lemma_reads_two(
            raw_prop("DTSTART;VALUE=DATE"@, date(e.start)),
            "DTSTART"@,
            valued("DATE"@, date(e.start)),
            raw_prop("DTEND;VALUE=DATE"@, date(e.end)),
            "DTEND"@,
            valued("DATE"@, date(e.end)),
        );
    } else {
        lemma_reads_text("DTSTART"@, stamp(e.start));
        lemma_reads_text("DTEND"@, stamp(e.end));
        lemma_reads_two(
            raw_prop("DTSTART"@, stamp(e.start)),
            "DTSTART"@,
            pv(stamp(e.start)),
            raw_prop("DTEND"@, stamp(e.end)),
            "DTEND"@,
            pv(stamp(e.end)),
        );
    }
    lemma_reads_text("SUMMARY"@, e.summary);
    lemma_reads_optional("DESCRIPTION"@, e.description);
    lemma_reads_optional("LOCATION"@, e.location);
    lemma_reads_text("STATUS"@, event_status_text(e.status));
    lemma_reads_text("CLASS"@, event_class_text(e.class));
    lemma_reads_two(
        raw_prop("STATUS"@, event_status_text(e.status)),
        "STATUS"@,
        pv(event_status_text(e.status)),
        raw_prop("CLASS"@, event_class_text(e.class)),
        "CLASS"@,
        pv(event_class_text(e.class)),
    );
    let ol: Seq<Seq<char>> = match e.organizer {
        Some(p) => seq![address_prop("ORGANIZER"@, p)],
        None => seq![],
    };
    match e.organizer {
        Some(p) => {
            lemma_address_property("ORGANIZER"@, p);
            lemma_reads_single(address_prop("ORGANIZER"@, p), "ORGANIZER"@, address_pv(p));
        },
        None => lemma_reads_none(),
    }
    lemma_reads_attendees(e.attendees);
    let h = seq![text_prop("UID"@, e.uid), raw_prop("DTSTAMP"@, stamp(now))];
    let hp = seq![("UID"@, pv(escaped(e.uid))), ("DTSTAMP"@, pv(stamp(now)))];
    let a = seq![text_prop("SUMMARY"@, e.summary)];
    let ap = seq![("SUMMARY"@, pv(escaped(e.summary)))];
    let b = optional_lines("DESCRIPTION"@, e.description);
    let c = optional_lines("LOCATION"@, e.location);
    let d = seq![raw_prop("STATUS"@, event_status_text(e.status)), raw_prop("CLASS"@, event_class_text(e.class))];
    let dp = seq![("STATUS"@, pv(event_status_text(e.status))), ("CLASS"@, pv(event_class_text(e.class)))];
    let at = attendees_lines(e.attendees);
    lemma_reads_as_concat(h, hp, z, times_lines(e), time_props(e), z);
    lemma_reads_as_concat(h + times_lines(e), hp + time_props(e), z + z, a, ap, z);
    lemma_reads_as_concat(
        h + times_lines(e) + a,
        hp + time_props(e) + ap,
        z + z + z,
        b,
        optional_props("DESCRIPTION"@, e.description),
        z,
    );
    lemma_reads_as_concat(
        h + times_lines(e) + a + b,
        hp + time_props(e) + ap + optional_props("DESCRIPTION"@, e.description),
        z + z + z + z,
        c,
        optional_props("LOCATION"@, e.location),
        z,
    );
    let pre = h + times_lines(e) + a + b + c;
    let prep = hp + time_props(e) + ap + optional_props("DESCRIPTION"@, e.description)
        + optional_props("LOCATION"@, e.location);
    assert(z + z + z + z + z =~= z);
    lemma_reads_as_concat(pre, prep, z, d, dp, z);
    lemma_reads_as_concat(pre + d, prep + dp, z + z, ol, organizer_props(e.organizer), z);
    lemma_reads_as_concat(
        pre + d + ol,
        prep + dp + organizer_props(e.organizer),
        z + z + z,
        at,
        z,
        attendee_props(e.attendees),
    );
    assert(pre + d + ol + at =~= event_prop_lines(e, now));
    assert(prep + dp + organizer_props(e.organizer) + z =~= event_props(e, now));
    assert(z + z + z + attendee_props(e.attendees) =~= attendee_props(e.attendees));
}

/// The single-valued properties of a written task.
pub open spec fn todo_props(t: TodoV, now: i64) -> Seq<(Seq<char>, PropV)> {
    seq![("UID"@, pv(escaped(t.uid))), ("DTSTAMP"@, pv(stamp(now)))] + seq![("SUMMARY"@, pv(escaped(t.summary)))]
        + optional_props("DESCRIPTION"@, t.description) + (match t.due {
        Some(d) => seq![("DUE"@, pv(stamp(d)))],
        None => seq![],
    }) + seq![("STATUS"@, pv(todo_status_text(t.status)))] + (if t.priority > 0 {
        seq![("PRIORITY"@, pv(dec(t.priority as nat)))]
    } else {
        seq![]
    })
}

proof fn lemma_todo_reads(t: TodoV, now: i64)
    ensures
        reads_as(todo_prop_lines(t, now), todo_props(t, now), seq![]),
{
    lemma_single_names();
    let z = Seq::<(Seq<char>, PropV)>::empty();
    lemma_reads_text("UID"@, t.uid);
    lemma_reads_text("DTSTAMP"@, stamp(now));
    lemma_reads_two(
        text_prop("UID"@, t.uid),
        "UID"@,
        pv(escaped(t.uid)),
        raw_prop("DTSTAMP"@, stamp(now)),
        "DTSTAMP"@,
        pv(stamp(now)),
    );
    lemma_reads_text("SUMMARY"@, t.summary);
    lemma_reads_optional("DESCRIPTION"@, t.description);
    let cl: Seq<Seq<char>> = match t.due {
        Some(d) => seq![raw_prop("DUE"@, stamp(d))],
        None => seq![],
    };
    let cp: Seq<(Seq<char>, PropV)> = match t.due {
        Some(d) => seq![("DUE"@, pv(stamp(d)))],
        None => seq![],
    };
    match t.due {
        Some(d) => lemma_reads_text("DUE"@, stamp(d)),
        None => lemma_reads_none(),
    }
    lemma_reads_text("STATUS"@, todo_status_text(t.status));
    let pl: Seq<Seq<char>> = if t.priority > 0 {
        seq![raw_prop("PRIORITY"@, dec(t.priority as nat))]
    } else {
        seq![]
    };
    let pp: Seq<(Seq<char>, PropV)> = if t.priority > 0 {
        seq![("PRIORITY"@, pv(dec(t.priority as nat)))]
    } else {
        seq![]
    };
    if t.priority > 0 {
        lemma_reads_text("PRIORITY"@, dec(t.priority as nat));
    } else {
        lemma_reads_none();
    }
    let h = seq![text_prop("UID"@, t.uid), raw_prop("DTSTAMP"@, stamp(now))];
    let hp = seq![("UID"@, pv(escaped(t.uid))), ("DTSTAMP"@, pv(stamp(now)))];
    let a = seq![text_prop("SUMMARY"@, t.summary)];
    let ap = seq![("SUMMARY"@, pv(escaped(t.summary)))];
    let b = optional_lines("DESCRIPTION"@, t.description);
    let bp = optional_props("DESCRIPTION"@, t.description);
    let d = seq![raw_prop("STATUS"@, todo_status_text(t.status))];
    let dp = seq![("STATUS"@, pv(todo_status_text(t.status)))];
    lemma_reads_as_concat(h, hp, z, a, ap, z);
    lemma_reads_as_concat(h + a, hp + ap, z + z, b, bp, z);
    assert(z + z + z =~= z);
    lemma_reads_as_concat(h + a + b, hp + ap + bp, z, cl, cp, z);
    lemma_reads_as_concat(h + a + b + cl, hp + ap + bp + cp, z + z, d, dp, z);
    lemma_reads_as_concat(h + a + b + cl + d, hp + ap + bp + cp + dp, z + z + z, pl, pp, z);
    assert(h + a + b + cl + d + pl =~= todo_prop_lines(t, now));
    assert(hp + ap + bp + cp + dp + pp =~= todo_props(t, now));
    assert(z + z + z + z =~= z);
}

// ----- reading the components back ------------------------------------------------

proof fn lemma_lookup_concat(a: Seq<(Seq<char>, PropV)>, b: Seq<(Seq<char>, PropV)>)
    ensures
        forall|n: Seq<char>|
            #[trigger] lookup(a + b, n) == match lookup(b, n) {
                Some(x) => Some(x),
                None => lookup(a, n),
            },
    decreases b.len(),
{
    assert forall|n: Seq<char>|
        #[trigger] lookup(a + b, n) == match lookup(b, n) {
            Some(x) => Some(x),
            None => lookup(a, n),
        } by {
        if b.len() == 0 {
            assert(a + b =~= a);
            assert(lookup(b, n) is None);
        } else {
            lemma_lookup_concat(a, b.drop_last());
            assert((a + b).drop_last() =~= a + b.drop_last());
            assert((a + b).last() == b.last());
            assert(lookup(a + b.drop_last(), n) == match lookup(b.drop_last(), n) {
                Some(x) => Some(x),
                None => lookup(a, n),
            });
            if b.last().0 == n {
                assert(lookup(a + b, n) == Some(b.last().1));
                assert(lookup(b, n) == Some(b.last().1));
            } else {
                assert(lookup(a + b, n) == lookup((a + b).drop_last(), n));
                assert(lookup(b, n) == lookup(b.drop_last(), n));
            }
        }
    }
}

proof fn lemma_lookup_one(s: Seq<(Seq<char>, PropV)>, k: Seq<char>, p: PropV)
    requires
        s == seq![(k, p)],
    ensures
        forall|n: Seq<char>|
            #[trigger] lookup(s, n) == if k == n {
                Some(p)
            } else {
                None
            },
{
    assert forall|n: Seq<char>|
        #[trigger] lookup(s, n) == if k == n {
            Some(p)
        } else {
            None
        } by {
        assert(s.drop_last() =~= Seq::<(Seq<char>, PropV)>::empty());
        assert(s.last() == (k, p));
        assert(lookup(Seq::<(Seq<char>, PropV)>::empty(), n) is None);
        if k != n {
            assert(lookup(s, n) == lookup(s.drop_last(), n));
        }
    }
}

proof fn lemma_lookup_empty()
    ensures
        forall|n: Seq<char>| #[trigger] lookup(Seq::<(Seq<char>, PropV)>::empty(), n) is None,
{
}

proof fn lemma_lookup_two(s: Seq<(Seq<char>, PropV)>, k1: Seq<char>, p1: PropV, k2: Seq<char>, p2: PropV)
    requires
        s == seq![(k1, p1), (k2, p2)],
    ensures
        forall|n: Seq<char>|
            #[trigger] lookup(s, n) == if k2 == n {
                Some(p2)
            } else if k1 == n {
                Some(p1)
            } else {
                None
            },
{
    let a = seq![(k1, p1)];
    let b = seq![(k2, p2)];
    assert(s =~= a + b);
    lemma_lookup_concat(a, b);
    lemma_lookup_one(a, k1, p1);
    lemma_lookup_one(b, k2, p2);
}

proof fn lemma_reveal_names()
    ensures
        "UID"@ != "DTSTAMP"@, "UID"@ != "DTSTART"@, "UID"@ != "DTEND"@, "UID"@ != "SUMMARY"@,
        "UID"@ != "DESCRIPTION"@, "UID"@ != "LOCATION"@, "UID"@ != "STATUS"@, "UID"@ != "CLASS"@,
        "UID"@ != "ORGANIZER"@, "UID"@ != "DUE"@, "UID"@ != "PRIORITY"@,
        "DTSTAMP"@ != "DTSTART"@, "DTSTAMP"@ != "DTEND"@, "DTSTAMP"@ != "SUMMARY"@,
        "DTSTAMP"@ != "DESCRIPTION"@, "DTSTAMP"@ != "LOCATION"@, "DTSTAMP"@ != "STATUS"@,
        "DTSTAMP"@ != "CLASS"@, "DTSTAMP"@ != "ORGANIZER"@, "DTSTAMP"@ != "DUE"@, "DTSTAMP"@ != "PRIORITY"@,
        "DTSTART"@ != "DTEND"@, "DTSTART"@ != "SUMMARY"@, "DTSTART"@ != "DESCRIPTION"@,
        "DTSTART"@ != "LOCATION"@, "DTSTART"@ != "STATUS"@, "DTSTART"@ != "CLASS"@,
        "DTSTART"@ != "ORGANIZER"@,
        "DTEND"@ != "SUMMARY"@, "DTEND"@ != "DESCRIPTION"@, "DTEND"@ != "LOCATION"@,
        "DTEND"@ != "STATUS"@, "DTEND"@ != "CLASS"@, "DTEND"@ != "ORGANIZER"@,
        "SUMMARY"@ != "DESCRIPTION"@, "SUMMARY"@ != "LOCATION"@, "SUMMARY"@ != "STATUS"@,
        "SUMMARY"@ != "CLASS"@, "SUMMARY"@ != "ORGANIZER"@, "SUMMARY"@ != "DUE"@, "SUMMARY"@ != "PRIORITY"@,
        "DESCRIPTION"@ != "LOCATION"@, "DESCRIPTION"@ != "STATUS"@, "DESCRIPTION"@ != "CLASS"@,
        "DESCRIPTION"@ != "ORGANIZER"@, "DESCRIPTION"@ != "DUE"@, "DESCRIPTION"@ != "PRIORITY"@,
        "LOCATION"@ != "STATUS"@, "LOCATION"@ != "CLASS"@, "LOCATION"@ != "ORGANIZER"@,
        "STATUS"@ != "CLASS"@, "STATUS"@ != "ORGANIZER"@, "STATUS"@ != "DUE"@, "STATUS"@ != "PRIORITY"@,
        "CLASS"@ != "ORGANIZER"@,
        "DUE"@ != "PRIORITY"@,
        "ACTION"@ != "DESCRIPTION"@, "ACTION"@ != "TRIGGER"@, "DESCRIPTION"@ != "TRIGGER"@,
{
    reveal_strlit("UID");
    reveal_strlit("DTSTAMP");
    reveal_strlit("DTSTART");
    reveal_strlit("DTEND");
    reveal_strlit("SUMMARY");
    reveal_strlit("DESCRIPTION");
    reveal_strlit("LOCATION");
    reveal_strlit("STATUS");
    reveal_strlit("CLASS");
    reveal_strlit("ORGANIZER");
    reveal_strlit("DUE");
    reveal_strlit("PRIORITY");
    reveal_strlit("ACTION");
    reveal_strlit("TRIGGER");
    assert("UID"@.len() == 3);
    assert("DUE"@.len() == 3);
    assert("DTEND"@.len() == 5);
    assert("CLASS"@.len() == 5);
    assert("STATUS"@.len() == 6);
    assert("ACTION"@.len() == 6);
    assert("DTSTAMP"@.len() == 7);
    assert("DTSTART"@.len() == 7);
    assert("SUMMARY"@.len() == 7);
    assert("TRIGGER"@.len() == 7);
    assert("LOCATION"@.len() == 8);
    assert("PRIORITY"@.len() == 8);
    assert("ORGANIZER"@.len() == 9);
    assert("DESCRIPTION"@.len() == 11);
    assert("UID"@[0] != "DUE"@[0]);
    assert("DTSTAMP"@[5] != "DTSTART"@[5]);
    assert("DTSTAMP"@[0] != "SUMMARY"@[0]);
    assert("DTSTART"@[0] != "SUMMARY"@[0]);
    assert("DTEND"@[0] != "CLASS"@[0]);
    assert("STATUS"@[0] != "ACTION"@[0]);
}

/// What the reader finds of each property of a written event.
proof fn lemma_event_lookups(e: EventV, now: i64)
    ensures
        lookup(event_props(e, now), "UID"@) == Some(pv(escaped(e.uid))),
        lookup(event_props(e, now), "DTSTART"@) == Some(time_props(e)[0].1),
        lookup(event_props(e, now), "DTEND"@) == Some(time_props(e)[1].1),
        lookup(event_props(e, now), "SUMMARY"@) == Some(pv(escaped(e.summary))),
        lookup(event_props(e, now), "DESCRIPTION"@) == (if e.description.len() == 0 {
            None
        } else {
            Some(pv(escaped(e.description)))
        }),
        lookup(event_props(e, now), "LOCATION"@) == (if e.location.len() == 0 {
            None
        } else {
            Some(pv(escaped(e.location)))
        }),
        lookup(event_props(e, now), "STATUS"@) == Some(pv(event_status_text(e.status))),
        lookup(event_props(e, now), "CLASS"@) == Some(pv(event_class_text(e.class))),
        lookup(event_props(e, now), "ORGANIZER"@) == match e.organizer {
            Some(p) => Some(address_pv(p)),
            None => None,
        },
{
    lemma_reveal_names();
    let h = seq![("UID"@, pv(escaped(e.uid))), ("DTSTAMP"@, pv(stamp(now)))];
    let t = time_props(e);
    let sm = seq![("SUMMARY"@, pv(escaped(e.summary)))];
    let d = optional_props("DESCRIPTION"@, e.description);
    let l = optional_props("LOCATION"@, e.location);
    let sc = seq![("STATUS"@, pv(event_status_text(e.status))), ("CLASS"@, pv(event_class_text(e.class)))];
    let o = organizer_props(e.organizer);
    lemma_lookup_two(h, "UID"@, pv(escaped(e.uid)), "DTSTAMP"@, pv(stamp(now)));
    assert(t =~= seq![("DTSTART"@, t[0].1), ("DTEND"@, t[1].1)]);
    lemma_lookup_two(t, "DTSTART"@, t[0].1, "DTEND"@, t[1].1);
    lemma_lookup_one(sm, "SUMMARY"@, pv(escaped(e.summary)));
    lemma_lookup_empty();
    if e.description.len() > 0 {
        lemma_lookup_one(d, "DESCRIPTION"@, pv(escaped(e.description)));
    }
    if e.location.len() > 0 {
        lemma_lookup_one(l, "LOCATION"@, pv(escaped(e.location)));
    }
    lemma_lookup_two(sc, "STATUS"@, pv(event_status_text(e.status)), "CLASS"@, pv(event_class_text(e.class)));
    match e.organizer {
        Some(p) => lemma_lookup_one(o, "ORGANIZER"@, address_pv(p)),
        None => {},
    }
    lemma_lookup_concat(h, t);
    lemma_lookup_concat(h + t, sm);
    lemma_lookup_concat(h + t + sm, d);
    lemma_lookup_concat(h + t + sm + d, l);
    lemma_lookup_concat(h + t + sm + d + l, sc);
    lemma_lookup_concat(h + t + sm + d + l + sc, o);
}

proof fn lemma_digit_not_ws(c: char)
    requires
        is_digit(c),
    ensures
        !is_ws(c),
        c != '-' && c != 'P' && c != '+' && c != 'Z',
{
}

/// A written stamp reads back as its instant, not a date.
proof fn lemma_stamp_datetime(t: i64, f: Seq<char>)
    requires
        stamp_reads_back(t),
    ensures
        datetime_of(stamp(t), f) == Ok::<(i64, bool), crate::calendar::component::ErrV>((t, false)),
{
    let s = stamp(t);
    lemma_digit_not_ws(s[0]);
    lemma_trim_plain(s);
}

/// A written date reads back as its midnight, a date.
proof fn lemma_date_datetime(t: i64, f: Seq<char>)
    requires
        date_reads_back(t),
    ensures
        datetime_of(date(t), f) == Ok::<(i64, bool), crate::calendar::component::ErrV>((t, true)),
{
    let d = date(t);
    lemma_digit_not_ws(d[0]);
    lemma_trim_plain(d);
}

proof fn lemma_uid_escaped(u: Seq<char>)
    requires
        uid_survives(u),
    ensures
        escaped(u) == u,
    decreases u.len(),
{
    if u.len() > 0 {
        let r = u.drop_first();
        assert(uid_survives(r)) by {
            assert forall|i: int| 0 <= i < r.len() implies r[i] != '\\' && r[i] != ',' && r[i] != ';'
                && r[i] != '\r' && r[i] != '\n' by {
                assert(r[i] == u[i + 1]);
            }
            if r.len() > 0 {
                assert(r.last() == u.last());
            }
        }
        lemma_uid_escaped(r);
        assert(u[0] != '\n');
        assert(escape_char(u[0]) == seq![u[0]]);
        assert(seq![u[0]] + r =~= u);
    }
}

/// A person's CAL-ADDRESS line reads back as the person.
proof fn lemma_person_reads(p: (Seq<char>, Seq<char>))
    requires
        person_survives(p),
    ensures
        person_of(address_pv(p)) == p,
{
    reveal_strlit("mailto:");
    reveal_strlit("CN");
    let v = "mailto:"@ + p.0;
    assert(v.take(7) =~= "mailto:"@);
    assert(has_prefix(v, "mailto:"@));
    assert(v.skip(7) =~= p.0);
    assert(strip_all_prefix(v, "mailto:"@) == strip_all_prefix(p.0, "mailto:"@));
    assert(strip_all_prefix(p.0, "mailto:"@) == p.0);
    if p.1.len() > 0 {
        let ps = seq![("CN"@, p.1)];
        assert(ps.last() == ("CN"@, p.1));
        assert(param_lookup(ps, "CN"@) == Some(p.1));
    } else {
        assert(param_lookup(Seq::<(Seq<char>, Seq<char>)>::empty(), "CN"@) is None);
        assert(p.1 =~= Seq::<char>::empty());
    }
}

proof fn lemma_dec_value(n: nat)
    ensures
        digits_value(dec(n)) == n,
    decreases n,
{
    if n >= 10 {
        lemma_dec_value(n / 10);
        let d = dec(n / 10);
        assert(dec(n) == d.push(digit_char(n % 10)));
        assert(dec(n).drop_last() =~= d);
        assert(digit_char(n % 10) as int - '0' as int == n % 10);
        assert(dec(n).last() == digit_char(n % 10));
        assert(digits_value(dec(n)) == digits_value(d) * 10 + (digit_char(n % 10) as int - '0' as int));
        assert((n / 10) * 10 + n % 10 == n) by (nonlinear_arith);
    } else {
        assert(dec(n) == seq![digit_char(n)]);
        assert(dec(n).drop_last() =~= Seq::<char>::empty());
        assert(dec(n).last() == digit_char(n));
        assert(digit_char(n) as int - '0' as int == n);
        assert(digits_value(Seq::<char>::empty()) == 0);
        assert(digits_value(dec(n)) == digits_value(dec(n).drop_last()) * 10 + (dec(n).last() as int - '0' as int));
    }
}

/// A written priority reads back.
proof fn lemma_priority_reads(p: u8)
    requires
        p > 0,
    ensures
        u8_of(dec(p as nat)) == Some(p),
{
    lemma_dec_survives(p as nat);
    lemma_dec_value(p as nat);
    let d = dec(p as nat);
    lemma_digit_not_ws(d[0]);
    assert(unsigned_digits(d) == d);
    assert(all_digits(d));
}

proof fn lemma_attendees_read(c: CompV, ps: Seq<(Seq<char>, Seq<char>)>)
    requires
        c.multi == attendee_props(ps),
        forall|i: int| 0 <= i < ps.len() ==> person_survives(#[trigger] ps[i]),
    ensures
        attendees_of(c) == ps,
    decreases ps.len(),
{
    reveal_strlit("ATTENDEE");
    if ps.len() == 0 {
        assert(c.multi =~= Seq::<(Seq<char>, PropV)>::empty());
    } else {
        let init = ps.drop_last();
        assert forall|i: int| 0 <= i < init.len() implies person_survives(#[trigger] init[i]) by {
            assert(init[i] == ps[i]);
        }
        let c1 = CompV { multi: attendee_props(init), ..c };
        lemma_attendees_read(c1, init);
        assert(person_survives(ps[ps.len() - 1]));
        lemma_person_reads(ps.last());
        assert(c.multi.drop_last() =~= attendee_props(init));
        assert(c.multi.last() == ("ATTENDEE"@, address_pv(ps.last())));
        assert(init.push(ps.last()) =~= ps);
    }
}

/// The component of a written VALARM as its name and properties.
proof fn lemma_valarm_comp(trigger: i64, desc: Seq<char>, fallback: Seq<char>)
    ensures
        valarm_comp(trigger, desc, fallback) == (CompV {
            name: "VALARM"@,
            props: valarm_props(trigger, desc, fallback),
            multi: seq![],
            nested: seq![],
        }),
{
    lemma_valarm_reads(trigger, desc, fallback);
    let c0 = empty_comp("VALARM"@);
    assert(add_props(c0, valarm_prop_lines(trigger, desc, fallback)) == with_props(c0, valarm_props(trigger, desc, fallback), seq![]));
    assert(c0.props + valarm_props(trigger, desc, fallback) =~= valarm_props(trigger, desc, fallback));
    assert(c0.multi + Seq::<(Seq<char>, PropV)>::empty() =~= Seq::<(Seq<char>, PropV)>::empty());
}

/// What the reader finds in a written VALARM.
proof fn lemma_valarm_lookups(trigger: i64, desc: Seq<char>, fallback: Seq<char>)
    ensures
        text_of(valarm_comp(trigger, desc, fallback), "TRIGGER"@) == Some(stamp(trigger)),
        text_of(valarm_comp(trigger, desc, fallback), "DESCRIPTION"@) == Some(
            escaped(
                if desc.len() == 0 {
                    fallback
                } else {
                    desc
                },
            ),
        ),
{
    lemma_valarm_comp(trigger, desc, fallback);
    lemma_reveal_names();
    let d = if desc.len() == 0 {
        fallback
    } else {
        desc
    };
    let a = seq![("ACTION"@, pv("DISPLAY"@))];
    let b = seq![("DESCRIPTION"@, pv(escaped(d))), ("TRIGGER"@, valued("DATE-TIME"@, stamp(trigger)))];
    assert(valarm_props(trigger, desc, fallback) =~= a + b);
    lemma_lookup_concat(a, b);
    lemma_lookup_one(a, "ACTION"@, pv("DISPLAY"@));
    lemma_lookup_two(b, "DESCRIPTION"@, pv(escaped(d)), "TRIGGER"@, valued("DATE-TIME"@, stamp(trigger)));
}

proof fn lemma_stamp_absolute(t: i64)
    requires
        stamp_reads_back(t),
    ensures
        !is_relative(stamp(t)),
{
    reveal_strlit("-PT");
    reveal_strlit("PT");
    let s = stamp(t);
    lemma_digit_not_ws(s[0]);
    if has_prefix(s, "-PT"@) {
        assert(s[0] == "-PT"@[0]);
    }
    if has_prefix(s, "PT"@) {
        assert(s[0] == "PT"@[0]);
    }
}

/// A written reminder reads back.
proof fn lemma_reminder_reads(r: (i64, Seq<char>), anchor: i64)
    requires
        reminder_survives(r),
    ensures
        reminder_of(valarm_comp(r.0, r.1, "Reminder"@), anchor) == Ok::<
            Option<(i64, Seq<char>)>,
            crate::calendar::component::ErrV,
        >(Some(r)),
        valarm_comp(r.0, r.1, "Reminder"@).name == "VALARM"@,
{
    lemma_valarm_lookups(r.0, r.1, "Reminder"@);
    lemma_valarm_comp(r.0, r.1, "Reminder"@);
    lemma_stamp_absolute(r.0);
    lemma_stamp_datetime(r.0, "TRIGGER"@);
    law_unescape_inverts_escape(r.1);
}

/// A written standalone alarm reads back.
proof fn lemma_alarm_reads(trigger: i64, desc: Seq<char>)
    requires
        stamp_reads_back(trigger),
        text_survives(desc),
        desc.len() > 0,
    ensures
        alarm_of(valarm_comp(trigger, desc, "Alarm"@)) == Ok::<(i64, Seq<char>), crate::calendar::component::ErrV>(
            (trigger, desc),
        ),
        valarm_comp(trigger, desc, "Alarm"@).name == "VALARM"@,
{
    lemma_valarm_lookups(trigger, desc, "Alarm"@);
    lemma_valarm_comp(trigger, desc, "Alarm"@);
    lemma_stamp_absolute(trigger);
    lemma_stamp_datetime(trigger, "TRIGGER"@);
    law_unescape_inverts_escape(desc);
}

proof fn lemma_reminders_of_concat(a: Seq<CompV>, b: Seq<CompV>, anchor: i64, x: Seq<(i64, Seq<char>)>, y: Seq<(i64, Seq<char>)>)
    requires
        reminders_of(a, anchor) == Ok::<Seq<(i64, Seq<char>)>, crate::calendar::component::ErrV>(x),
        reminders_of(b, anchor) == Ok::<Seq<(i64, Seq<char>)>, crate::calendar::component::ErrV>(y),
    ensures
        reminders_of(a + b, anchor) == Ok::<Seq<(i64, Seq<char>)>, crate::calendar::component::ErrV>(x + y),
    decreases a.len(),
{
    if a.len() == 0 {
        assert(a + b =~= b);
        assert(x =~= Seq::<(i64, Seq<char>)>::empty());
        assert(x + y =~= y);
    } else {
        let head = if a[0].name == "VALARM"@ {
            reminder_of(a[0], anchor)
        } else {
            Ok(None)
        };
        assert(head is Ok);
        let rest_x = reminders_of(a.drop_first(), anchor)->Ok_0;
        lemma_reminders_of_concat(a.drop_first(), b, anchor, rest_x, y);
        assert((a + b)[0] == a[0]);
        assert((a + b).drop_first() =~= a.drop_first() + b);
        match head->Ok_0 {
            Some(r) => {
                assert(x == seq![r] + rest_x);
                assert(seq![r] + (rest_x + y) =~= (seq![r] + rest_x) + y);
            },
            None => {},
        }
    }
}

/// Written reminders read back, against any anchor.
proof fn lemma_reminders_read(rs: Seq<(i64, Seq<char>)>, anchor: i64)
    requires
        reminders_survive(rs),
    ensures
        reminders_of(reminder_comps(rs), anchor) == Ok::<Seq<(i64, Seq<char>)>, crate::calendar::component::ErrV>(rs),
    decreases rs.len(),
{
    if rs.len() == 0 {
        assert(reminder_comps(rs) =~= Seq::<CompV>::empty());
        assert(rs =~= Seq::<(i64, Seq<char>)>::empty());
        assert(reminders_of(Seq::<CompV>::empty(), anchor) == Ok::<Seq<(i64, Seq<char>)>, crate::calendar::component::ErrV>(seq![]));
    } else {
        let init = rs.drop_last();
        assert forall|i: int| 0 <= i < init.len() implies reminder_survives(#[trigger] init[i]) by {
            assert(init[i] == rs[i]);
        }
        lemma_reminders_read(init, anchor);
        assert(reminder_survives(rs[rs.len() - 1]));
        lemma_reminder_reads(rs.last(), anchor);
        let vc = valarm_comp(rs.last().0, rs.last().1, "Reminder"@);
        let one = seq![vc];
        assert(one[0] == vc);
        assert(one.drop_first() =~= Seq::<CompV>::empty());
        assert(reminders_of(one.drop_first(), anchor) == Ok::<Seq<(i64, Seq<char>)>, crate::calendar::component::ErrV>(seq![]));
        assert(reminders_of(one, anchor) == Ok::<Seq<(i64, Seq<char>)>, crate::calendar::component::ErrV>(seq![rs.last()] + seq![]));
        assert(seq![rs.last()] + Seq::<(i64, Seq<char>)>::empty() =~= seq![rs.last()]);
        lemma_reminders_of_concat(reminder_comps(init), one, anchor, init, seq![rs.last()]);
        assert(reminder_comps(init) + one =~= reminder_comps(rs));
        assert(init + seq![rs.last()] =~= rs);
    }
}

/// Upper-casing leaves the RFC 5545 status and class names as they are
/// (they are upper-case ASCII already).
pub open spec fn status_names_keep_case() -> bool {
    &&& upper_text("CONFIRMED"@) == "CONFIRMED"@
    &&& upper_text("TENTATIVE"@) == "TENTATIVE"@
    &&& upper_text("CANCELLED"@) == "CANCELLED"@
    &&& upper_text("PUBLIC"@) == "PUBLIC"@
    &&& upper_text("PRIVATE"@) == "PRIVATE"@
    &&& upper_text("CONFIDENTIAL"@) == "CONFIDENTIAL"@
    &&& upper_text("NEEDS-ACTION"@) == "NEEDS-ACTION"@
    &&& upper_text("IN-PROCESS"@) == "IN-PROCESS"@
    &&& upper_text("COMPLETED"@) == "COMPLETED"@
}

/// Upper-case ASCII letters and hyphens are left alone by upper-casing.
proof fn lemma_upper_fixed(s: Seq<char>)
    requires
        forall|i: int| 0 <= i < s.len() ==> ('A' <= #[trigger] s[i] && s[i] <= 'Z') || s[i] == '-',
    ensures
        upper_text(s) == s,
{
    assert(all_ascii(s));
    assert(ascii_upper_seq(s) =~= s);
}

proof fn lemma_status_names_keep_case()
    ensures
        status_names_keep_case(),
{
    reveal_strlit("CONFIRMED");
    reveal_strlit("TENTATIVE");
    reveal_strlit("CANCELLED");
    reveal_strlit("PUBLIC");
    reveal_strlit("PRIVATE");
    reveal_strlit("CONFIDENTIAL");
    reveal_strlit("NEEDS-ACTION");
    reveal_strlit("IN-PROCESS");
    reveal_strlit("COMPLETED");
    lemma_upper_fixed("CONFIRMED"@);
    lemma_upper_fixed("TENTATIVE"@);
    lemma_upper_fixed("CANCELLED"@);
    lemma_upper_fixed("PUBLIC"@);
    lemma_upper_fixed("PRIVATE"@);
    lemma_upper_fixed("CONFIDENTIAL"@);
    lemma_upper_fixed("NEEDS-ACTION"@);
    lemma_upper_fixed("IN-PROCESS"@);
    lemma_upper_fixed("COMPLETED"@);
}

proof fn lemma_status_names_differ()
    ensures
        "CONFIRMED"@ != "TENTATIVE"@,
        "CONFIRMED"@ != "CANCELLED"@,
        "TENTATIVE"@ != "CANCELLED"@,
        "PUBLIC"@ != "PRIVATE"@,
        "PUBLIC"@ != "CONFIDENTIAL"@,
        "PRIVATE"@ != "CONFIDENTIAL"@,
        "NEEDS-ACTION"@ != "IN-PROCESS"@,
        "NEEDS-ACTION"@ != "COMPLETED"@,
        "NEEDS-ACTION"@ != "CANCELLED"@,
        "IN-PROCESS"@ != "COMPLETED"@,
        "IN-PROCESS"@ != "CANCELLED"@,
        "COMPLETED"@ != "CANCELLED"@,
{
    reveal_strlit("CONFIRMED");
    reveal_strlit("TENTATIVE");
    reveal_strlit("CANCELLED");
    reveal_strlit("PUBLIC");
    reveal_strlit("PRIVATE");
    reveal_strlit("CONFIDENTIAL");
    reveal_strlit("NEEDS-ACTION");
    reveal_strlit("IN-PROCESS");
    reveal_strlit("COMPLETED");
    assert("CONFIRMED"@.len() == 9 && "TENTATIVE"@.len() == 9 && "CANCELLED"@.len() == 9);
    assert("COMPLETED"@.len() == 9 && "IN-PROCESS"@.len() == 10 && "NEEDS-ACTION"@.len() == 12);
    assert("PUBLIC"@.len() == 6 && "PRIVATE"@.len() == 7 && "CONFIDENTIAL"@.len() == 12);
    assert("CONFIRMED"@[0] != "TENTATIVE"@[0]);
    assert("CONFIRMED"@[1] != "CANCELLED"@[1]);
    assert("TENTATIVE"@[0] != "CANCELLED"@[0]);
    assert("COMPLETED"@[1] != "CANCELLED"@[1]);
}

proof fn lemma_event_status_reads(c: CompV, es: EventStatus, ec: EventClass)
    requires
        status_names_keep_case(),
        text_of(c, "STATUS"@) == Some(event_status_text(es)),
        text_of(c, "CLASS"@) == Some(event_class_text(ec)),
    ensures
        event_status_of(c) == es,
        event_class_of(c) == ec,
{
    lemma_status_names_differ();
}

proof fn lemma_todo_status_reads(c: CompV, ts: TodoStatus)
    requires
        status_names_keep_case(),
        text_of(c, "STATUS"@) == Some(todo_status_text(ts)),
    ensures
        todo_status_of(c) == ts,
{
    lemma_status_names_differ();
}

proof fn lemma_event_comp(e: EventV, now: i64)
    requires
        event_survives(e),
    ensures
        event_comp(e, now) == (CompV {
            name: "VEVENT"@,
            props: event_props(e, now),
            multi: attendee_props(e.attendees),
            nested: reminder_comps(e.reminders),
        }),
{
    lemma_event_reads(e, now);
    let c0 = empty_comp("VEVENT"@);
    assert(add_props(c0, event_prop_lines(e, now)) == with_props(c0, event_props(e, now), attendee_props(e.attendees)));
    assert(c0.props + event_props(e, now) =~= event_props(e, now));
    assert(c0.multi + attendee_props(e.attendees) =~= attendee_props(e.attendees));
}

/// A written event reads back as the event.
proof fn lemma_event_read_back(e: EventV, now: i64)
    requires
        event_survives(e),
        status_names_keep_case(),
    ensures
        event_of(event_comp(e, now)) == Ok::<EventV, crate::calendar::component::ErrV>(e),
{
    lemma_event_comp(e, now);
    lemma_event_lookups(e, now);
    let c = event_comp(e, now);
    lemma_uid_escaped(e.uid);
    let t = time_props(e);
    if e.all_day {
        lemma_date_datetime(e.start, "DTSTART"@);
        lemma_date_datetime(e.end, "DTEND"@);
    } else {
        lemma_stamp_datetime(e.start, "DTSTART"@);
        lemma_stamp_datetime(e.end, "DTEND"@);
    }
    lemma_reminders_read(e.reminders, e.start);
    law_unescape_inverts_escape(e.summary);
    if e.description.len() > 0 {
        law_unescape_inverts_escape(e.description);
    } else {
        assert(e.description =~= Seq::<char>::empty());
    }
    if e.location.len() > 0 {
        law_unescape_inverts_escape(e.location);
    } else {
        assert(e.location =~= Seq::<char>::empty());
    }
    lemma_event_status_reads(c, e.status, e.class);
    match e.organizer {
        Some(p) => lemma_person_reads(p),
        None => {},
    }
    lemma_attendees_read(c, e.attendees);
    let r = event_of(c)->Ok_0;
    assert(event_of(c) is Ok);
    assert(r.uid == e.uid);
    assert(r.summary == e.summary);
    assert(r.description == e.description);
    assert(r.location == e.location);
    assert(r.start == e.start);
    assert(r.end == e.end);
    assert(r.all_day == e.all_day);
    assert(r.status == e.status);
    assert(r.class == e.class);
    assert(r.organizer == e.organizer);
    assert(r.attendees == e.attendees);
    assert(r.reminders == e.reminders);
}

proof fn lemma_todo_comp(t: TodoV, now: i64)
    ensures
        todo_comp(t, now) == (CompV {
            name: "VTODO"@,
            props: todo_props(t, now),
            multi: seq![],
            nested: reminder_comps(t.reminders),
        }),
{
    lemma_todo_reads(t, now);
    let c0 = empty_comp("VTODO"@);
    assert(add_props(c0, todo_prop_lines(t, now)) == with_props(c0, todo_props(t, now), seq![]));
    assert(c0.props + todo_props(t, now) =~= todo_props(t, now));
    assert(c0.multi + Seq::<(Seq<char>, PropV)>::empty() =~= Seq::<(Seq<char>, PropV)>::empty());
}

/// What the reader finds of each property of a written task.
proof fn lemma_todo_lookups(t: TodoV, now: i64)
    ensures
        lookup(todo_props(t, now), "UID"@) == Some(pv(escaped(t.uid))),
        lookup(todo_props(t, now), "SUMMARY"@) == Some(pv(escaped(t.summary))),
        lookup(todo_props(t, now), "DESCRIPTION"@) == (if t.description.len() == 0 {
            None
        } else {
            Some(pv(escaped(t.description)))
        }),
        lookup(todo_props(t, now), "DUE"@) == match t.due {
            Some(d) => Some(pv(stamp(d))),
            None => None,
        },
        lookup(todo_props(t, now), "STATUS"@) == Some(pv(todo_status_text(t.status))),
        lookup(todo_props(t, now), "PRIORITY"@) == (if t.priority > 0 {
            Some(pv(dec(t.priority as nat)))
        } else {
            None
        }),
{
    lemma_reveal_names();
    let h = seq![("UID"@, pv(escaped(t.uid))), ("DTSTAMP"@, pv(stamp(now)))];
    let sm = seq![("SUMMARY"@, pv(escaped(t.summary)))];
    let d = optional_props("DESCRIPTION"@, t.description);
    let du: Seq<(Seq<char>, PropV)> = match t.due {
        Some(x) => seq![("DUE"@, pv(stamp(x)))],
        None => seq![],
    };
    let st = seq![("STATUS"@, pv(todo_status_text(t.status)))];
    let pr: Seq<(Seq<char>, PropV)> = if t.priority > 0 {
        seq![("PRIORITY"@, pv(dec(t.priority as nat)))]
    } else {
        seq![]
    };
    lemma_lookup_two(h, "UID"@, pv(escaped(t.uid)), "DTSTAMP"@, pv(stamp(now)));
    lemma_lookup_one(sm, "SUMMARY"@, pv(escaped(t.summary)));
    lemma_lookup_one(st, "STATUS"@, pv(todo_status_text(t.status)));
    lemma_lookup_empty();
    if t.description.len() > 0 {
        lemma_lookup_one(d, "DESCRIPTION"@, pv(escaped(t.description)));
    }
    match t.due {
        Some(x) => lemma_lookup_one(du, "DUE"@, pv(stamp(x))),
        None => {},
    }
    if t.priority > 0 {
        lemma_lookup_one(pr, "PRIORITY"@, pv(dec(t.priority as nat)));
    }
    lemma_lookup_concat(h, sm);
    lemma_lookup_concat(h + sm, d);
    lemma_lookup_concat(h + sm + d, du);
    lemma_lookup_concat(h + sm + d + du, st);
    lemma_lookup_concat(h + sm + d + du + st, pr);
}

/// A written task reads back as the task.
proof fn lemma_todo_read_back(t: TodoV, now: i64)
    requires
        todo_survives(t),
        status_names_keep_case(),
    ensures
        todo_of(todo_comp(t, now)) == Ok::<TodoV, crate::calendar::component::ErrV>(t),
{
    lemma_todo_comp(t, now);
    lemma_todo_lookups(t, now);
    let c = todo_comp(t, now);
    lemma_uid_escaped(t.uid);
    match t.due {
        Some(d) => {
            lemma_stamp_datetime(d, "DUE"@);
            lemma_reminders_read(t.reminders, d);
        },
        None => {
            assert(t.reminders =~= Seq::<(i64, Seq<char>)>::empty());
        },
    }
    law_unescape_inverts_escape(t.summary);
    if t.description.len() > 0 {
        law_unescape_inverts_escape(t.description);
    } else {
        assert(t.description =~= Seq::<char>::empty());
    }
    lemma_todo_status_reads(c, t.status);
    if t.priority > 0 {
        lemma_priority_reads(t.priority);
    }
    let r = todo_of(c)->Ok_0;
    assert(todo_of(c) is Ok);
    assert(r.uid == t.uid);
    assert(r.summary == t.summary);
    assert(r.description == t.description);
    assert(r.due == t.due);
    assert(r.status == t.status);
    assert(r.priority == t.priority);
    assert(r.reminders == t.reminders);
}

proof fn lemma_items_of_concat(a: Seq<CompV>, b: Seq<CompV>, x: Seq<ItemV>, y: Seq<ItemV>)
    requires
        items_of(a) == Ok::<Seq<ItemV>, crate::calendar::component::ErrV>(x),
        items_of(b) == Ok::<Seq<ItemV>, crate::calendar::component::ErrV>(y),
    ensures
        items_of(a + b) == Ok::<Seq<ItemV>, crate::calendar::component::ErrV>(x + y),
    decreases a.len(),
{
    if a.len() == 0 {
        assert(a + b =~= b);
        assert(x =~= Seq::<ItemV>::empty());
        assert(x + y =~= y);
    } else {
        let rest_x = items_of(a.drop_first())->Ok_0;
        lemma_items_of_concat(a.drop_first(), b, rest_x, y);
        assert((a + b)[0] == a[0]);
        assert((a + b).drop_first() =~= a.drop_first() + b);
        if x.len() > rest_x.len() {
            assert(seq![x[0]] + (rest_x + y) =~= x + y);
        } else {
            assert(x == rest_x);
        }
    }
}

proof fn lemma_comp_names()
    ensures
        "VTODO"@ != "VEVENT"@,
        "VALARM"@ != "VEVENT"@,
        "VALARM"@ != "VTODO"@,
{
    reveal_strlit("VEVENT");
    reveal_strlit("VTODO");
    reveal_strlit("VALARM");
    assert("VTODO"@.len() == 5 && "VEVENT"@.len() == 6 && "VALARM"@.len() == 6);
    assert("VALARM"@[1] != "VEVENT"@[1]);
}

/// One written item reads back as itself.
proof fn lemma_item_read_back(it: ItemV, now: i64)
    requires
        item_survives(it),
        status_names_keep_case(),
    ensures
        items_of(seq![item_comp(it, now)]) == Ok::<Seq<ItemV>, crate::calendar::component::ErrV>(seq![it]),
{
    reveal_strlit("Alarm");
    lemma_comp_names();
    let one = seq![item_comp(it, now)];
    assert(one[0] == item_comp(it, now));
    assert(one.drop_first() =~= Seq::<CompV>::empty());
    assert(items_of(Seq::<CompV>::empty()) == Ok::<Seq<ItemV>, crate::calendar::component::ErrV>(seq![]));
    match it {
        ItemV::Event(e) => {
            lemma_event_comp(e, now);
            lemma_event_read_back(e, now);
        },
        ItemV::Todo(t) => {
            lemma_todo_comp(t, now);
            lemma_todo_read_back(t, now);
        },
        ItemV::Alarm(tr, d) => {
            lemma_alarm_reads(tr, d);
        },
    }
    assert(seq![it] + Seq::<ItemV>::empty() =~= seq![it]);
}

proof fn lemma_items_read_back(items: Seq<ItemV>, now: i64)
    requires
        forall|i: int| 0 <= i < items.len() ==> item_survives(#[trigger] items[i]),
        status_names_keep_case(),
    ensures
        items_of(item_comps(items, now)) == Ok::<Seq<ItemV>, crate::calendar::component::ErrV>(items),
    decreases items.len(),
{
    if items.len() == 0 {
        assert(item_comps(items, now) =~= Seq::<CompV>::empty());
        assert(items =~= Seq::<ItemV>::empty());
        assert(items_of(Seq::<CompV>::empty()) == Ok::<Seq<ItemV>, crate::calendar::component::ErrV>(seq![]));
    } else {
        let init = items.drop_last();
        assert forall|i: int| 0 <= i < init.len() implies item_survives(#[trigger] init[i]) by {
            assert(init[i] == items[i]);
        }
        lemma_items_read_back(init, now);
        assert(item_survives(items[items.len() - 1]));
        lemma_item_read_back(items.last(), now);
        lemma_items_of_concat(item_comps(init, now), seq![item_comp(items.last(), now)], init, seq![items.last()]);
        assert(item_comps(init, now) + seq![item_comp(items.last(), now)] =~= item_comps(items, now));
        assert(init + seq![items.last()] =~= items);
    }
}

/// Reading a written calendar gives back the items written: the parser
/// undoes the writer. This holds for items whose instants chrono writes
/// as text it reads back as the same instants (all-day events at UTC
/// midnights), whose texts have no carriage return (the writer drops
/// them) or trailing whitespace (the reader trims lines), whose UIDs need
/// no escaping (the reader takes them as written), whose reminder and
/// alarm descriptions are not empty (the writer fills in a default), whose
/// people's names carry no double quote or semicolon and addresses do not
/// start with `mailto:`, and whose tasks with reminders have a due time
/// (the reader anchors reminders to it); and where std's `to_uppercase`
/// leaves the status and class names as they are.
pub proof fn law_parse_reads_back_written(items: Seq<ItemV>, now: i64)
    requires
        items_survive(items, now),
    ensures
        ics_of(ics_document(items, now)) == Ok::<Seq<ItemV>, crate::calendar::component::ErrV>(items),
{
    lemma_status_names_keep_case();
    lemma_written_content_lines(items, now);
    lemma_parse_document(items, now);
    let root = calendar_comp(items, now);
    lemma_add_props_name(empty_comp("VCALENDAR"@), calendar_prop_lines());
    assert(root.name == "VCALENDAR"@);
    lemma_items_read_back(items, now);
}

} // verus!
