//! Calendar payloads carried by mail: typed events, tasks and alarms,
//! their RFC 5545 (iCalendar) text, and the UID-keyed merge.
pub mod item;
pub mod merge;
pub mod ics_text;
pub mod component;
pub mod ics;
pub mod ics_write;

pub use item::{
    CalendarAlarm, CalendarEvent, CalendarItem, CalendarTodo, EventClass, EventStatus, Person,
    Reminder, TodoStatus,
};
pub use merge::{MergeOutcome, MergeReport};
pub mod round_trip;
