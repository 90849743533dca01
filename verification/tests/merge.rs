use chrono::Utc;
use mailroom::calendar::component::IcsError;
use mailroom::calendar::ics_write::write_ics_at;
use mailroom::calendar::merge::{merge_by_uid_at, MergeReport};
use mailroom::calendar::{
    CalendarAlarm, CalendarEvent, CalendarItem, EventClass, EventStatus, MergeOutcome,
};

/// Writes the items stamped with the current time.
fn write_ics(items: &[CalendarItem]) -> Option<String> {
    write_ics_at(items, Utc::now().timestamp())
}

/// Merges stamped with the current time.
fn merge_by_uid(existing: &str, incoming: &[CalendarItem]) -> Result<MergeReport, IcsError> {
    merge_by_uid_at(existing, incoming, Utc::now().timestamp())
}

fn ts(s: &str) -> i64 {
    s.parse::<chrono::DateTime<Utc>>().unwrap().timestamp()
}

fn evt(uid: &str, summary: &str) -> CalendarItem {
    CalendarItem::Event(CalendarEvent {
        uid: uid.into(),
        summary: summary.into(),
        description: String::new(),
        start: ts("2026-05-01T14:00:00Z"),
        end: ts("2026-05-01T15:00:00Z"),
        all_day: false,
        location: String::new(),
        status: EventStatus::Confirmed,
        class: EventClass::Public,
        organizer: None,
        attendees: vec![],
        reminders: vec![],
    })
}

#[test]
fn merge_into_empty_appends_all() {
    let r = merge_by_uid("", &[evt("a@x", "A"), evt("b@x", "B")]).unwrap();
    assert_eq!(r.added_count(), 2);
    assert_eq!(r.updated_count(), 0);
    assert!(r.ics.contains("UID:a@x"));
    assert!(r.ics.contains("UID:b@x"));
}

#[test]
fn merge_replaces_matching_uid_in_place() {
    // Seed an ICS doc with two events, then update one.
    let seed = write_ics(&[evt("a@x", "old A"), evt("b@x", "B")]).unwrap();
    let r = merge_by_uid(&seed, &[evt("a@x", "new A")]).unwrap();
    assert_eq!(r.updated_count(), 1);
    assert_eq!(r.added_count(), 0);
    assert!(r.ics.contains("SUMMARY:new A"));
    assert!(!r.ics.contains("SUMMARY:old A"));
    // B is preserved untouched.
    assert!(r.ics.contains("SUMMARY:B"));
}

#[test]
fn merge_appends_unknown_uid() {
    let seed = write_ics(&[evt("a@x", "A")]).unwrap();
    let r = merge_by_uid(&seed, &[evt("c@x", "C")]).unwrap();
    assert_eq!(r.added_count(), 1);
    assert!(r.ics.contains("SUMMARY:A"));
    assert!(r.ics.contains("SUMMARY:C"));
}

#[test]
fn merge_preserves_unmatched_existing_items() {
    // Existing has 3, incoming has 1 (matching one of them) —
    // result keeps all three, with the match updated.
    let seed = write_ics(&[evt("a@x", "A"), evt("b@x", "B"), evt("c@x", "C")]).unwrap();
    let r = merge_by_uid(&seed, &[evt("b@x", "B-updated")]).unwrap();
    assert_eq!(r.updated_count(), 1);
    assert!(r.ics.contains("SUMMARY:A"));
    assert!(r.ics.contains("SUMMARY:B-updated"));
    assert!(r.ics.contains("SUMMARY:C"));
    assert!(!r.ics.contains("SUMMARY:B\r\n"));
}

#[test]
fn merge_outcomes_in_input_order() {
    let seed = write_ics(&[evt("a@x", "A")]).unwrap();
    let r = merge_by_uid(
        &seed,
        &[evt("a@x", "A2"), evt("b@x", "B"), evt("a@x", "A3")],
    )
    .unwrap();
    // Input is [update, add, update-again].
    assert_eq!(
        r.outcomes,
        vec![
            MergeOutcome::Updated("a@x".into()),
            MergeOutcome::Added("b@x".into()),
            MergeOutcome::Updated("a@x".into()),
        ]
    );
    // Final state: a@x has the latest summary "A3"; b@x present.
    assert!(r.ics.contains("SUMMARY:A3"));
    assert!(!r.ics.contains("SUMMARY:A2"));
    assert!(r.ics.contains("SUMMARY:B"));
}

#[test]
fn merge_alarm_has_no_uid_and_appends() {
        let alarm = CalendarItem::Alarm(CalendarAlarm {
        trigger: ts("2026-05-02T10:00:00Z"),
        description: "Reminder".into(),
    });
    let r = merge_by_uid("", &[alarm]).unwrap();
    assert_eq!(r.alarms_count(), 1);
    assert_eq!(r.added_count(), 0);
}

#[test]
fn merge_empty_existing_handles_whitespace_only() {
    // A whitespace-only or empty existing should not error.
    let r = merge_by_uid("   \n", &[evt("a@x", "A")]).unwrap();
    assert_eq!(r.added_count(), 1);
}

#[test]
fn merge_idempotent_when_incoming_unchanged() {
    // Merging the same item twice should produce the same final
    // ICS body (modulo regenerated DTSTAMP).
    let seed = write_ics(&[evt("a@x", "A")]).unwrap();
    let pass1 = merge_by_uid(&seed, &[evt("a@x", "A2")]).unwrap();
    let pass2 = merge_by_uid(&pass1.ics, &[evt("a@x", "A2")]).unwrap();
    // Body content equal modulo DTSTAMP timing.
    let strip_dtstamp = |s: &str| {
        s.lines()
            .filter(|l| !l.starts_with("DTSTAMP:"))
            .collect::<Vec<_>>()
            .join("\n")
    };
    assert_eq!(strip_dtstamp(&pass1.ics), strip_dtstamp(&pass2.ics));
}
