use mailroom::calendar::component::IcsError;
use mailroom::calendar::ics::{parse_ics, resolve_relative_trigger};
use mailroom::calendar::ics_text::{
    content_lines_of, escape_text, fold_line, parse_property_line, unescape_text, unfold, Property,
};
use mailroom::calendar::ics_write::write_ics_at;
use mailroom::calendar::merge::merge_by_uid_at;
use mailroom::calendar::{
    CalendarAlarm, CalendarEvent, CalendarItem, CalendarTodo, EventClass, EventStatus,
    MergeOutcome, Person, Reminder, TodoStatus,
};

const NOW: i64 = 1_777_646_400; // 2026-05-01T14:40:00Z

fn evt(uid: &str, summary: &str) -> CalendarItem {
    CalendarItem::Event(CalendarEvent {
        uid: uid.into(),
        summary: summary.into(),
        description: String::new(),
        start: 1_777_644_000,
        end: 1_777_647_600,
        all_day: false,
        location: String::new(),
        status: EventStatus::Confirmed,
        class: EventClass::Public,
        organizer: None,
        attendees: vec![],
        reminders: vec![],
    })
}

fn alarm() -> CalendarItem {
    CalendarItem::Alarm(CalendarAlarm { trigger: 1_777_644_000, description: String::new() })
}

#[test]
fn write_ics_at_stamps_the_given_time() {
    let ics = write_ics_at(&[evt("a@x", "A")], NOW).unwrap();
    assert_eq!(
        ics,
        "BEGIN:VCALENDAR\r\nVERSION:2.0\r\nPRODID:-//PlausiDen//mail-calendar 0.1//EN\r\nCALSCALE:GREGORIAN\r\nBEGIN:VEVENT\r\nUID:a@x\r\nDTSTAMP:20260501T144000Z\r\nDTSTART:20260501T140000Z\r\nDTEND:20260501T150000Z\r\nSUMMARY:A\r\nSTATUS:CONFIRMED\r\nCLASS:PUBLIC\r\nEND:VEVENT\r\nEND:VCALENDAR\r\n"
    );
}

#[test]
fn write_standalone_alarm_uses_fallback_description() {
    let ics = write_ics_at(&[alarm()], NOW).unwrap();
    assert!(ics.contains("BEGIN:VALARM\r\nACTION:DISPLAY\r\nDESCRIPTION:Alarm\r\nTRIGGER;VALUE=DATE-TIME:20260501T140000Z\r\nEND:VALARM\r\n"));
}

#[test]
fn write_todo_without_priority_or_due() {
    let t = CalendarItem::Todo(CalendarTodo {
        uid: "t@x".into(),
        summary: "S".into(),
        description: "d".into(),
        due: None,
        status: TodoStatus::Completed,
        priority: 0,
        reminders: vec![],
    });
    let ics = write_ics_at(&[t], NOW).unwrap();
    assert!(ics.contains("BEGIN:VTODO\r\nUID:t@x\r\nDTSTAMP:20260501T144000Z\r\nSUMMARY:S\r\nDESCRIPTION:d\r\nSTATUS:COMPLETED\r\nEND:VTODO\r\n"));
    assert!(!ics.contains("PRIORITY"));
    assert!(!ics.contains("DUE"));
}

#[test]
fn unwritable_instant_gives_none() {
    let mut e = evt("a@x", "A");
    if let CalendarItem::Event(ev) = &mut e {
        ev.start = i64::MAX;
    }
    assert!(write_ics_at(&[e], NOW).is_none());
    assert!(write_ics_at(&[evt("a@x", "A")], i64::MIN).is_none());
}

#[test]
fn merge_at_is_exact_and_keeps_order() {
    let seed = write_ics_at(&[evt("a@x", "A"), evt("b@x", "B")], NOW).unwrap();
    let r = merge_by_uid_at(&seed, &[evt("b@x", "B2"), evt("c@x", "C"), alarm()], NOW).unwrap();
    assert_eq!(
        r.outcomes,
        vec![
            MergeOutcome::Updated("b@x".into()),
            MergeOutcome::Added("c@x".into()),
            MergeOutcome::AppendedAlarm,
        ]
    );
    assert_eq!(r.added_count(), 1);
    assert_eq!(r.updated_count(), 1);
    assert_eq!(r.alarms_count(), 1);
    let expected = write_ics_at(&[evt("a@x", "A"), evt("b@x", "B2"), evt("c@x", "C"), alarm()], NOW).unwrap();
    assert_eq!(r.ics, expected);
}

#[test]
fn merge_latest_item_for_a_uid_wins() {
    let r = merge_by_uid_at("", &[evt("a@x", "A1"), evt("a@x", "A2"), evt("a@x", "A3")], NOW).unwrap();
    assert_eq!(
        r.outcomes,
        vec![
            MergeOutcome::Added("a@x".into()),
            MergeOutcome::Updated("a@x".into()),
            MergeOutcome::Updated("a@x".into()),
        ]
    );
    assert_eq!(r.ics, write_ics_at(&[evt("a@x", "A3")], NOW).unwrap());
}

#[test]
fn merge_keeps_unmentioned_items_in_place() {
    let seed = write_ics_at(&[evt("a@x", "A"), evt("b@x", "B"), evt("c@x", "C")], NOW).unwrap();
    let r = merge_by_uid_at(&seed, &[evt("b@x", "B2")], NOW).unwrap();
    let items = parse_ics(&r.ics).unwrap();
    let uids: Vec<String> = items
        .iter()
        .map(|i| match i {
            CalendarItem::Event(e) => format!("{}={}", e.uid, e.summary),
            _ => String::new(),
        })
        .collect();
    assert_eq!(uids, vec!["a@x=A", "b@x=B2", "c@x=C"]);
}

#[test]
fn merge_reports_parse_error_of_existing() {
    let err = merge_by_uid_at("not an ics", &[evt("a@x", "A")], NOW).unwrap_err();
    assert!(matches!(err, IcsError::Malformed(_)));
}

#[test]
fn merge_reports_unwritable_instant() {
    let err = merge_by_uid_at("", &[evt("a@x", "A")], i64::MAX).unwrap_err();
    assert_eq!(
        err,
        IcsError::Malformed("an instant of the merged calendar is outside the range chrono can write".into())
    );
}

#[test]
fn escape_then_unescape_gives_back_the_text() {
    for s in ["plain", "a,b;c\\d", "line1\nline2", ""] {
        assert_eq!(unescape_text(&escape_text(s)), s);
    }
    assert_eq!(escape_text("a\r\nb"), "a\\nb");
}

#[test]
fn fold_then_unfold_gives_back_the_line() {
    let line = format!("DESCRIPTION:{}", "é".repeat(100));
    let folded = fold_line(&line);
    for chunk in folded.split("\r\n") {
        assert!(chunk.len() <= 76);
    }
    assert_eq!(unfold(&format!("{folded}\r\n")), line);
}

#[test]
fn relative_trigger_overflow_is_an_error() {
    assert!(resolve_relative_trigger("PT1S", i64::MAX).is_err());
    assert!(resolve_relative_trigger("-PT1H", 7200).unwrap() == 3600);
    assert!(resolve_relative_trigger("P1D", 0).is_err());
}

#[test]
fn merging_the_same_items_twice_changes_nothing_more() {
    let seed = write_ics_at(&[evt("a@x", "A"), evt("b@x", "B")], NOW).unwrap();
    let incoming = [evt("b@x", "B2"), evt("c@x", "C"), evt("b@x", "B3")];
    let once = merge_by_uid_at(&seed, &incoming, NOW).unwrap();
    let twice = merge_by_uid_at(&once.ics, &incoming, NOW).unwrap();
    assert_eq!(twice.ics, once.ics);
    assert_eq!(
        twice.outcomes,
        vec![
            MergeOutcome::Updated("b@x".into()),
            MergeOutcome::Updated("c@x".into()),
            MergeOutcome::Updated("b@x".into()),
        ]
    );
}

#[test]
fn merging_a_standalone_alarm_twice_appends_it_twice() {
    let once = merge_by_uid_at("", &[alarm()], NOW).unwrap();
    let twice = merge_by_uid_at(&once.ics, &[alarm()], NOW).unwrap();
    assert_eq!(parse_ics(&once.ics).unwrap().len(), 1);
    assert_eq!(parse_ics(&twice.ics).unwrap().len(), 2);
}

#[test]
fn content_lines_of_folded_lines_are_the_lines() {
    let long = format!("DESCRIPTION:{}", "é, and a long run of words to fold ".repeat(6));
    let long = long.trim_end().to_string();
    let lines = vec!["BEGIN:VCALENDAR".to_string(), long, "END:VCALENDAR".to_string()];
    let mut doc = String::new();
    for l in &lines {
        doc.push_str(&fold_line(l));
        doc.push_str("\r\n");
    }
    assert!(doc.contains("\r\n "));
    let read: Vec<String> = content_lines_of(&doc).into_iter().map(|v| v.into_iter().collect()).collect();
    assert_eq!(read, lines);
}

#[test]
fn text_property_reads_back() {
    let text = "a, b; c\\d\ne";
    let line = format!("SUMMARY:{}", escape_text(text));
    let (name, prop) = parse_property_line(&line).unwrap();
    assert_eq!(name, "SUMMARY");
    assert_eq!(prop, Property { params: vec![], value: escape_text(text) });
    assert_eq!(unescape_text(&prop.value), text);
}

#[test]
fn written_calendar_reads_back_whole() {
    let event = CalendarItem::Event(CalendarEvent {
        uid: "round-1@x".into(),
        summary: "Plan, review; and \\ ship\nsoon".into(),
        description: "Long text ".repeat(20).trim_end().to_string(),
        start: 1_777_644_000,
        end: 1_777_647_600,
        all_day: false,
        location: String::new(),
        status: EventStatus::Tentative,
        class: EventClass::Confidential,
        organizer: Some(Person { email: "lead@x".into(), name: "Lead, Team: Ops".into() }),
        attendees: vec![
            Person { email: "a@x".into(), name: String::new() },
            Person { email: "b@x".into(), name: "Bea".into() },
        ],
        reminders: vec![Reminder { trigger: 1_777_643_100, description: "Soon".into() }],
    });
    let all_day = CalendarItem::Event(CalendarEvent {
        uid: "round-2@x".into(),
        summary: "Holiday".into(),
        description: String::new(),
        start: 1_777_593_600,
        end: 1_777_680_000,
        all_day: true,
        location: "Home".into(),
        status: EventStatus::Confirmed,
        class: EventClass::Public,
        organizer: None,
        attendees: vec![],
        reminders: vec![],
    });
    let todo = CalendarItem::Todo(CalendarTodo {
        uid: "round-3@x".into(),
        summary: "File report".into(),
        description: "by Friday".into(),
        due: Some(1_777_900_000),
        status: TodoStatus::InProcess,
        priority: 7,
        reminders: vec![Reminder { trigger: 1_777_890_000, description: "Nudge".into() }],
    });
    let standalone = CalendarItem::Alarm(CalendarAlarm { trigger: 1_777_644_000, description: "Ping".into() });
    let items = vec![event, all_day, todo, standalone];
    let ics = write_ics_at(&items, NOW).unwrap();
    assert_eq!(parse_ics(&ics).unwrap(), items);
}

#[test]
fn event_without_summary_is_missing_a_property() {
    let ics = "BEGIN:VCALENDAR\r\nBEGIN:VEVENT\r\nUID:e1\r\nDTSTART:20260501T143000Z\r\nDTEND:20260501T153000Z\r\nEND:VEVENT\r\nEND:VCALENDAR\r\n";
    assert_eq!(
        parse_ics(ics),
        Err(IcsError::MissingProperty { component: "VEVENT", property: "SUMMARY" })
    );
    let empty = "BEGIN:VCALENDAR\r\nBEGIN:VEVENT\r\nUID:e1\r\nDTSTART:20260501T143000Z\r\nDTEND:20260501T153000Z\r\nSUMMARY:\r\nEND:VEVENT\r\nEND:VCALENDAR\r\n";
    assert!(parse_ics(empty).is_ok());
}
