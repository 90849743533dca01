//! Typed calendar items. Instants are whole seconds since the Unix epoch,
//! in UTC.
use vstd::prelude::*;

verus! {

/// One calendar payload.
#[derive(Debug, Clone, PartialEq, Eq)]
pub enum CalendarItem {
    /// VEVENT: a meeting, appointment or scheduled occurrence.
    Event(CalendarEvent),
    /// VTODO: a task.
    Todo(CalendarTodo),
    /// A standalone VALARM.
    Alarm(CalendarAlarm),
}

/// A meeting or appointment.
#[derive(Debug, Clone, PartialEq, Eq)]
pub struct CalendarEvent {
    /// Stable identifier (RFC 5545 UID); a re-sent invitation with the
    /// same UID updates rather than duplicates.
    pub uid: String,
    /// One-line title.
    pub summary: String,
    /// Longer description; may be empty.
    pub description: String,
    /// Start, in seconds since the epoch (UTC).
    pub start: i64,
    /// End, in seconds since the epoch (UTC); exclusive for all-day events.
    pub end: i64,
    /// Whether this is an all-day occurrence.
    pub all_day: bool,
    /// Free-form location; may be empty.
    pub location: String,
    /// Confirmed, tentative or cancelled.
    pub status: EventStatus,
    /// Public, private or confidential.
    pub class: EventClass,
    /// The organizer, if any.
    pub organizer: Option<Person>,
    /// Every invited address.
    pub attendees: Vec<Person>,
    /// Embedded reminders.
    pub reminders: Vec<Reminder>,
}

/// A task.
#[derive(Debug, Clone, PartialEq, Eq)]
pub struct CalendarTodo {
    /// Stable identifier.
    pub uid: String,
    /// Task title.
    pub summary: String,
    /// Longer description; may be empty.
    pub description: String,
    /// Optional due instant (seconds since the epoch, UTC).
    pub due: Option<i64>,
    /// Needs-action, in-process, completed or cancelled.
    pub status: TodoStatus,
    /// 0 undefined, 1 highest, 9 lowest.
    pub priority: u8,
    /// Reminders.
    pub reminders: Vec<Reminder>,
}

/// A standalone notification.
#[derive(Debug, Clone, PartialEq, Eq)]
pub struct CalendarAlarm {
    /// When it fires (seconds since the epoch, UTC).
    pub trigger: i64,
    /// Optional message; may be empty.
    pub description: String,
}

/// An organizer or attendee.
#[derive(Debug, Clone, PartialEq, Eq)]
pub struct Person {
    /// E-mail address.
    pub email: String,
    /// Display name; may be empty.
    pub name: String,
}

/// VEVENT STATUS.
#[derive(Debug, Clone, Copy, PartialEq, Eq, Structural)]
pub enum EventStatus {
    Confirmed,
    Tentative,
    Cancelled,
}

/// VEVENT CLASS.
#[derive(Debug, Clone, Copy, PartialEq, Eq, Structural)]
pub enum EventClass {
    Public,
    Private,
    Confidential,
}

/// VTODO STATUS.
#[derive(Debug, Clone, Copy, PartialEq, Eq, Structural)]
pub enum TodoStatus {
    NeedsAction,
    InProcess,
    Completed,
    Cancelled,
}

/// A reminder nested in an event or task.
#[derive(Debug, Clone, PartialEq, Eq)]
pub struct Reminder {
    /// When it fires (seconds since the epoch, UTC); relative triggers are
    /// already resolved against the item.
    pub trigger: i64,
    /// Message; may be empty.
    pub description: String,
}

/// The UID of an item; standalone alarms have none.
pub open spec fn uid_of(item: CalendarItem) -> Option<Seq<char>> {
    match item {
        CalendarItem::Event(e) => Some(e.uid@),
        CalendarItem::Todo(t) => Some(t.uid@),
        CalendarItem::Alarm(_) => None,
    }
}

/// The UID of an item; standalone alarms have none.
pub fn item_uid(item: &CalendarItem) -> (r: Option<&str>)
    ensures
        r matches Some(u) ==> uid_of(*item) == Some(u@),
        r is None ==> uid_of(*item) is None,
{
    match item {
        CalendarItem::Event(e) => Some(e.uid.as_str()),
        CalendarItem::Todo(t) => Some(t.uid.as_str()),
        CalendarItem::Alarm(_) => None,
    }
}

/// The RFC 5545 name of an event status.
pub open spec fn event_status_text(s: EventStatus) -> Seq<char> {
    match s {
        EventStatus::Confirmed => "CONFIRMED"@,
        EventStatus::Tentative => "TENTATIVE"@,
        EventStatus::Cancelled => "CANCELLED"@,
    }
}

/// The RFC 5545 name of an event status.
pub fn event_status_str(s: EventStatus) -> (r: &'static str)
    ensures
        r@ == event_status_text(s),
{
    match s {
        EventStatus::Confirmed => "CONFIRMED",
        EventStatus::Tentative => "TENTATIVE",
        EventStatus::Cancelled => "CANCELLED",
    }
}

/// The RFC 5545 name of an event class.
pub open spec fn event_class_text(c: EventClass) -> Seq<char> {
    match c {
        EventClass::Public => "PUBLIC"@,
        EventClass::Private => "PRIVATE"@,
        EventClass::Confidential => "CONFIDENTIAL"@,
    }
}

/// The RFC 5545 name of an event class.
pub fn event_class_str(c: EventClass) -> (r: &'static str)
    ensures
        r@ == event_class_text(c),
{
    match c {
        EventClass::Public => "PUBLIC",
        EventClass::Private => "PRIVATE",
        EventClass::Confidential => "CONFIDENTIAL",
    }
}

/// The RFC 5545 name of a task status.
pub open spec fn todo_status_text(s: TodoStatus) -> Seq<char> {
    match s {
        TodoStatus::NeedsAction => "NEEDS-ACTION"@,
        TodoStatus::InProcess => "IN-PROCESS"@,
        TodoStatus::Completed => "COMPLETED"@,
        TodoStatus::Cancelled => "CANCELLED"@,
    }
}

/// The RFC 5545 name of a task status.
pub fn todo_status_str(s: TodoStatus) -> (r: &'static str)
    ensures
        r@ == todo_status_text(s),
{
    match s {
        TodoStatus::NeedsAction => "NEEDS-ACTION",
        TodoStatus::InProcess => "IN-PROCESS",
        TodoStatus::Completed => "COMPLETED",
        TodoStatus::Cancelled => "CANCELLED",
    }
}

} // verus!
