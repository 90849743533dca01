use chrono::TimeZone;
use chrono::Utc;
use mailroom::calendar::component::IcsError;
use mailroom::calendar::ics::{parse_datetime, parse_ics, resolve_relative_trigger};
use mailroom::calendar::ics_text::{fold_line, parse_property_line, unfold};
use mailroom::calendar::ics_write::write_ics_at;
use mailroom::calendar::{
    CalendarEvent, CalendarItem, CalendarTodo, EventClass, EventStatus, Person, Reminder,
    TodoStatus,
};

/// Writes the items stamped with the current time.
fn write_ics(items: &[CalendarItem]) -> Option<String> {
    write_ics_at(items, Utc::now().timestamp())
}

fn fmt(t: i64, f: &str) -> String {
    chrono::DateTime::from_timestamp(t, 0).unwrap().format(f).to_string()
}

fn ts(s: &str) -> i64 {
    s.parse::<chrono::DateTime<Utc>>().unwrap().timestamp()
}

const SAMPLE_INVITATION: &str = "BEGIN:VCALENDAR\r\n\
VERSION:2.0\r\n\
PRODID:-//Mailroom//mail-calendar//EN\r\n\
BEGIN:VEVENT\r\n\
UID:abc-123@plausiden.com\r\n\
DTSTAMP:20260501T120000Z\r\n\
DTSTART:20260501T143000Z\r\n\
DTEND:20260501T153000Z\r\n\
SUMMARY:Quarterly review\r\n\
DESCRIPTION:Discuss roadmap for Q3\r\n\
LOCATION:Boardroom A\r\n\
STATUS:CONFIRMED\r\n\
ORGANIZER;CN=Paul:mailto:paul@plausiden.com\r\n\
ATTENDEE;CN=William:mailto:william@plausiden.com\r\n\
ATTENDEE:mailto:team@plausiden.com\r\n\
BEGIN:VALARM\r\n\
ACTION:DISPLAY\r\n\
DESCRIPTION:Reminder\r\n\
TRIGGER:-PT15M\r\n\
END:VALARM\r\n\
END:VEVENT\r\n\
END:VCALENDAR\r\n";


const SAMPLE_TODO: &str = "BEGIN:VCALENDAR\r\n\
VERSION:2.0\r\n\
PRODID:-//Mailroom//mail-calendar//EN\r\n\
BEGIN:VTODO\r\n\
UID:task-456@plausiden.com\r\n\
DTSTAMP:20260501T120000Z\r\n\
DUE:20260510T170000Z\r\n\
SUMMARY:Submit Q2 report\r\n\
STATUS:NEEDS-ACTION\r\n\
PRIORITY:1\r\n\
END:VTODO\r\n\
END:VCALENDAR\r\n";


fn sample_event() -> CalendarEvent {
    CalendarEvent {
        uid: "evt-1@example.com".into(),
        summary: "Standup".into(),
        description: "Daily, all hands".into(),
        start: ts("2026-05-02T14:00:00Z"),
        end: ts("2026-05-02T14:30:00Z"),
        all_day: false,
        location: "Zoom: https://zoom.us/j/123".into(),
        status: EventStatus::Confirmed,
        class: EventClass::Public,
        organizer: Some(Person {
            email: "tim@example.com".into(),
            name: "Tim Porter".into(),
        }),
        attendees: vec![Person {
            email: "alice@example.com".into(),
            name: "Alice".into(),
        }],
        reminders: vec![Reminder {
            trigger: ts("2026-05-02T13:45:00Z"),
            description: String::new(),
        }],
    }
}

#[test]
fn parse_meeting_invitation() {
    let items = parse_ics(SAMPLE_INVITATION).unwrap();
    assert_eq!(items.len(), 1);
    let CalendarItem::Event(ev) = &items[0] else {
        panic!("expected an event");
    };
    assert_eq!(ev.uid, "abc-123@plausiden.com");
    assert_eq!(ev.summary, "Quarterly review");
    assert_eq!(ev.location, "Boardroom A");
    assert_eq!(ev.status, EventStatus::Confirmed);
    assert!(!ev.all_day);
    let org = ev.organizer.as_ref().unwrap();
    assert_eq!(org.email, "paul@plausiden.com");
    assert_eq!(org.name, "Paul");
    assert_eq!(ev.attendees.len(), 2);
    assert_eq!(ev.attendees[0].email, "william@plausiden.com");
    assert_eq!(ev.attendees[0].name, "William");
    assert_eq!(ev.attendees[1].email, "team@plausiden.com");
    assert_eq!(ev.reminders.len(), 1);
    assert_eq!(fmt(ev.reminders[0].trigger, "%H:%M"), "14:15");
}

#[test]
fn parse_todo_with_priority() {
    let items = parse_ics(SAMPLE_TODO).unwrap();
    assert_eq!(items.len(), 1);
    let CalendarItem::Todo(t) = &items[0] else {
        panic!("expected a todo");
    };
    assert_eq!(t.uid, "task-456@plausiden.com");
    assert_eq!(t.summary, "Submit Q2 report");
    assert_eq!(t.priority, 1);
    assert_eq!(t.status, TodoStatus::NeedsAction);
    assert!(t.due.is_some());
}

#[test]
fn malformed_input_rejected() {
    assert!(parse_ics("not an ics").is_err());
}

#[test]
fn missing_uid_rejected() {
    let bad = "BEGIN:VCALENDAR\r\nBEGIN:VEVENT\r\nDTSTART:20260501T143000Z\r\nDTEND:20260501T153000Z\r\nSUMMARY:no uid\r\nEND:VEVENT\r\nEND:VCALENDAR\r\n";
    let err = parse_ics(bad).unwrap_err();
    assert!(matches!(err, IcsError::MissingProperty { property: "UID", .. }));
}

#[test]
fn relative_trigger_minutes_before() {
    let anchor = Utc.with_ymd_and_hms(2026, 5, 1, 14, 30, 0).unwrap().timestamp();
    let resolved = resolve_relative_trigger("-PT15M", anchor).unwrap();
    assert_eq!(fmt(resolved, "%H:%M"), "14:15");
}

#[test]
fn relative_trigger_hours_after() {
    let anchor = Utc.with_ymd_and_hms(2026, 5, 1, 14, 30, 0).unwrap().timestamp();
    let resolved = resolve_relative_trigger("PT1H30M", anchor).unwrap();
    assert_eq!(fmt(resolved, "%H:%M"), "16:00");
}

#[test]
fn parse_datetime_utc() {
    let (dt, all_day) = parse_datetime("20260501T143000Z", "DTSTART").unwrap();
    assert_eq!(fmt(dt, "%Y-%m-%d %H:%M:%S"), "2026-05-01 14:30:00");
    assert!(!all_day);
}

#[test]
fn parse_datetime_floating() {
    let (dt, all_day) = parse_datetime("20260501T143000", "DTSTART").unwrap();
    assert_eq!(fmt(dt, "%Y-%m-%d %H:%M:%S"), "2026-05-01 14:30:00");
    assert!(!all_day);
}

#[test]
fn parse_datetime_date_only() {
    let (dt, all_day) = parse_datetime("20260501", "DTSTART").unwrap();
    assert_eq!(fmt(dt, "%Y-%m-%d"), "2026-05-01");
    assert!(all_day);
}

#[test]
fn parse_datetime_invalid() {
    assert!(parse_datetime("bogus", "DTSTART").is_err());
}

#[test]
fn standalone_alarm_with_relative_trigger_rejected() {
    let ics = "BEGIN:VCALENDAR\r\nBEGIN:VALARM\r\nACTION:DISPLAY\r\nDESCRIPTION:bare\r\nTRIGGER:-PT15M\r\nEND:VALARM\r\nEND:VCALENDAR\r\n";
    assert!(parse_ics(ics).is_err());
}

#[test]
fn unfolds_continuation_lines() {
    // RFC 5545 §3.1: the inserted CRLF+WSP is removed entirely.
    // "DESCRIPTION:lo\r\n ng" → "DESCRIPTION:long" (the WSP at
    // the start of the continuation line is consumed, not kept).
    let raw = "DESCRIPTION:lo\r\n ng description\r\n";
    let unfolded = unfold(raw);
    assert!(
        unfolded.contains("long description"),
        "unfold should join across CRLF+WSP: got {unfolded:?}"
    );
}

#[test]
fn parses_property_with_params() {
    let line = "ATTENDEE;CN=Alice;ROLE=REQ-PARTICIPANT:mailto:alice@x";
    let (name, prop) = parse_property_line(line).unwrap();
    assert_eq!(name, "ATTENDEE");
    assert_eq!(prop.param("CN").unwrap(), "Alice");
    assert_eq!(prop.param("ROLE").unwrap(), "REQ-PARTICIPANT");
    assert_eq!(prop.value, "mailto:alice@x");
}

#[test]
fn parses_property_with_quoted_param() {
    let line = r#"ORGANIZER;CN="O'Brien, Pat":mailto:pat@x"#;
    let (name, prop) = parse_property_line(line).unwrap();
    assert_eq!(name, "ORGANIZER");
    assert_eq!(prop.param("CN").unwrap(), "O'Brien, Pat");
}

#[test]
fn multiple_components_in_one_calendar() {
    let ics = format!(
        "BEGIN:VCALENDAR\r\n{}{}END:VCALENDAR\r\n",
        "BEGIN:VEVENT\r\nUID:e1\r\nDTSTART:20260501T143000Z\r\nDTEND:20260501T153000Z\r\nSUMMARY:e1\r\nEND:VEVENT\r\n",
        "BEGIN:VTODO\r\nUID:t1\r\nDUE:20260510T170000Z\r\nSUMMARY:t1\r\nEND:VTODO\r\n"
    );
    let items = parse_ics(&ics).unwrap();
    assert_eq!(items.len(), 2);
    assert!(matches!(items[0], CalendarItem::Event(_)));
    assert!(matches!(items[1], CalendarItem::Todo(_)));
}

#[test]
fn unknown_component_skipped() {
    let ics = "BEGIN:VCALENDAR\r\nBEGIN:VTIMEZONE\r\nTZID:UTC\r\nEND:VTIMEZONE\r\nBEGIN:VEVENT\r\nUID:e1\r\nDTSTART:20260501T143000Z\r\nDTEND:20260501T153000Z\r\nSUMMARY:e1\r\nEND:VEVENT\r\nEND:VCALENDAR\r\n";
    let items = parse_ics(ics).unwrap();
    assert_eq!(items.len(), 1);
}

#[test]
fn write_event_emits_required_props() {
    let ics = write_ics(&[CalendarItem::Event(sample_event())]).unwrap();
    assert!(ics.starts_with("BEGIN:VCALENDAR\r\n"));
    assert!(ics.contains("BEGIN:VEVENT\r\n"));
    assert!(ics.contains("UID:evt-1@example.com\r\n"));
    assert!(ics.contains("DTSTART:20260502T140000Z\r\n"));
    assert!(ics.contains("DTEND:20260502T143000Z\r\n"));
    assert!(ics.contains("SUMMARY:Standup\r\n"));
    assert!(ics.contains("STATUS:CONFIRMED\r\n"));
    assert!(ics.contains("CLASS:PUBLIC\r\n"));
    assert!(ics.contains("ORGANIZER;CN=Tim Porter:mailto:tim@example.com\r\n"));
    assert!(ics.contains("ATTENDEE;CN=Alice:mailto:alice@example.com\r\n"));
    assert!(ics.contains("END:VEVENT\r\n"));
    assert!(ics.ends_with("END:VCALENDAR\r\n"));
}

#[test]
fn write_event_escapes_text_fields() {
    let mut e = sample_event();
    e.summary = "needs, escaping; and\\here".into();
    e.description = "line1\nline2".into();
    let ics = write_ics(&[CalendarItem::Event(e)]).unwrap();
    assert!(ics.contains(r"SUMMARY:needs\, escaping\; and\\here"));
    assert!(ics.contains(r"DESCRIPTION:line1\nline2"));
}

#[test]
fn write_event_round_trips_through_parse() {
    // Round-trip: parse(write(x)) should produce a CalendarItem
    // equal to x for all fields except DTSTAMP (which is regenerated
    // at write time).
    let original = sample_event();
    let ics = write_ics(&[CalendarItem::Event(original.clone())]).unwrap();
    let parsed = parse_ics(&ics).expect("parse should succeed");
    assert_eq!(parsed.len(), 1);
    let CalendarItem::Event(round_tripped) = &parsed[0] else {
        panic!("expected event, got {:?}", parsed[0]);
    };
    assert_eq!(round_tripped.uid, original.uid);
    assert_eq!(round_tripped.summary, original.summary);
    assert_eq!(round_tripped.description, original.description);
    assert_eq!(round_tripped.start, original.start);
    assert_eq!(round_tripped.end, original.end);
    assert_eq!(round_tripped.location, original.location);
    assert_eq!(round_tripped.status, original.status);
    assert_eq!(round_tripped.class, original.class);
    assert_eq!(round_tripped.organizer, original.organizer);
    assert_eq!(round_tripped.attendees, original.attendees);
    assert_eq!(round_tripped.reminders.len(), original.reminders.len());
    assert_eq!(round_tripped.reminders[0].trigger, original.reminders[0].trigger);
}

#[test]
fn write_all_day_event_uses_date_form() {
    let mut e = sample_event();
    e.all_day = true;
    e.start = ts("2026-05-04T00:00:00Z");
    e.end = ts("2026-05-05T00:00:00Z");
    let ics = write_ics(&[CalendarItem::Event(e)]).unwrap();
    assert!(ics.contains("DTSTART;VALUE=DATE:20260504\r\n"));
    assert!(ics.contains("DTEND;VALUE=DATE:20260505\r\n"));
    // No time-portion form should appear for the all-day case.
    assert!(!ics.contains("DTSTART:20260504T"));
}

#[test]
fn write_todo_round_trips() {
    let original = CalendarTodo {
        uid: "todo-1@example.com".into(),
        summary: "Buy groceries".into(),
        description: String::new(),
        due: Some(ts("2026-05-03T17:00:00Z")),
        status: TodoStatus::NeedsAction,
        priority: 5,
        reminders: vec![],
    };
    let ics = write_ics(&[CalendarItem::Todo(original.clone())]).unwrap();
    assert!(ics.contains("BEGIN:VTODO\r\n"));
    assert!(ics.contains("UID:todo-1@example.com"));
    assert!(ics.contains("DUE:20260503T170000Z"));
    assert!(ics.contains("STATUS:NEEDS-ACTION"));
    assert!(ics.contains("PRIORITY:5"));

    let parsed = parse_ics(&ics).expect("parse");
    let CalendarItem::Todo(rt) = &parsed[0] else {
        panic!("expected todo, got {:?}", parsed[0]);
    };
    assert_eq!(rt.uid, original.uid);
    assert_eq!(rt.summary, original.summary);
    assert_eq!(rt.due, original.due);
    assert_eq!(rt.status, original.status);
    assert_eq!(rt.priority, original.priority);
}

#[test]
fn write_emits_calendar_chrome() {
    let ics = write_ics(&[]).unwrap();
    assert!(ics.contains("VERSION:2.0\r\n"));
    assert!(ics.contains("PRODID:-//PlausiDen//mail-calendar 0.1//EN\r\n"));
    assert!(ics.contains("CALSCALE:GREGORIAN\r\n"));
    assert!(ics.starts_with("BEGIN:VCALENDAR\r\n"));
    assert!(ics.ends_with("END:VCALENDAR\r\n"));
}

#[test]
fn fold_long_lines_at_75_octets() {
    let line = format!("DESCRIPTION:{}", "x".repeat(200));
    let folded = fold_line(&line);
    for chunk in folded.split("\r\n") {
        // Each segment fits in 75 octets (continuation chunks
        // include the leading space which counts).
        assert!(chunk.len() <= 76, "chunk too long: {}", chunk.len());
    }
    // Continuation lines start with a single space.
    assert!(folded.contains("\r\n "));
}

#[test]
fn round_trip_with_long_description() {
    let mut e = sample_event();
    e.description = "x".repeat(300);
    let ics = write_ics(&[CalendarItem::Event(e.clone())]).unwrap();
    let parsed = parse_ics(&ics).expect("parse");
    let CalendarItem::Event(rt) = &parsed[0] else {
        panic!()
    };
    // After fold + unfold, the body comes back identical.
    assert_eq!(rt.description, e.description);
}

#[test]
fn cn_with_special_chars_is_quoted() {
    let mut e = sample_event();
    e.organizer = Some(Person {
        email: "pat@x".into(),
        name: "O'Brien, Pat".into(),
    });
    let ics = write_ics(&[CalendarItem::Event(e)]).unwrap();
    assert!(ics.contains(r#"ORGANIZER;CN="O'Brien, Pat":mailto:pat@x"#));
}
