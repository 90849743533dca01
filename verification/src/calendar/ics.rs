//! RFC 5545 (iCalendar) to typed items: VEVENT, VTODO and VALARM inside a
//! VCALENDAR. Times are read as UTC (a trailing `Z`, a floating time, or a
//! date at midnight); relative alarm triggers (`-PT15M`, `PT1H30M`) are
//! resolved against the item's start or due time.
use vstd::prelude::*;
use crate::calendar::component::{
    CompV, Component, ErrV, IcsError, comp_view, err_view, parse_comp, parse_component,
    props_view,
};
use crate::calendar::ics_text::{
    PropV, Property, content_lines, content_lines_of, param_lookup, prop_view, unescape_text,
    unescaped,
};
use crate::calendar::item::{
    CalendarAlarm, CalendarEvent, CalendarItem, CalendarTodo, EventClass, EventStatus, Person,
    Reminder, TodoStatus,
};
use crate::seqs::{filter_map, lemma_filter_map_step, lemma_take_full};
use crate::text::{
    append_string, chars_eq, chars_of, dec, fmt_u64, has_prefix, is_empty_str, owned,
    slice_chars, starts_with_chars, str_eq, string_of, to_upper, trim, trimmed_chars,
    upper_text, views, all_ascii, ascii_upper_seq,
};

verus! {

// ----- chrono ----------------------------------------------------------

/// The UTC instant (seconds since the epoch) that
/// `NaiveDateTime::parse_from_str(s, "%Y%m%dT%H%M%S")` reads from `s`, if
/// it reads one.
pub uninterp spec fn parsed_naive_datetime(s: Seq<char>) -> Option<i64>;

/// The UTC midnight (seconds since the epoch) of the date that
/// `NaiveDate::parse_from_str(s, "%Y%m%d")` reads from `s`, if it reads one.
pub uninterp spec fn parsed_naive_date(s: Seq<char>) -> Option<i64>;

/// Calls `chrono::NaiveDateTime::parse_from_str` with `%Y%m%dT%H%M%S` and
/// takes the result as UTC seconds. Claims that the result is the named
/// reading of `s`; the calendar rules chrono applies are not stated.
#[verifier::external_body]
fn naive_datetime_secs(s: &str) -> (r: Option<i64>)
    ensures
        r == parsed_naive_datetime(s@),
{
    match chrono::NaiveDateTime::parse_from_str(s, "%Y%m%dT%H%M%S") {
        Ok(ndt) => Some(ndt.and_utc().timestamp()),
        Err(_) => None,
    }
}

/// Calls `chrono::NaiveDate::parse_from_str` with `%Y%m%d` and takes the
/// date's UTC midnight in seconds. Claims that the result is the named
/// reading of `s`; the calendar rules chrono applies are not stated.
#[verifier::external_body]
fn naive_date_secs(s: &str) -> (r: Option<i64>)
    ensures
        r == parsed_naive_date(s@),
{
    match chrono::NaiveDate::parse_from_str(s, "%Y%m%d") {
        Ok(d) => Some(d.and_time(chrono::NaiveTime::MIN).and_utc().timestamp()),
        Err(_) => None,
    }
}

// ----- plain-value items -----------------------------------------------

/// A person as plain values: address and name.
pub open spec fn person_view(p: Person) -> (Seq<char>, Seq<char>) {
    (p.email@, p.name@)
}

/// A reminder as plain values: trigger and message.
pub open spec fn reminder_view(r: Reminder) -> (i64, Seq<char>) {
    (r.trigger, r.description@)
}

/// An event as plain values.
pub struct EventV {
    pub uid: Seq<char>,
    pub summary: Seq<char>,
    pub description: Seq<char>,
    pub start: i64,
    pub end: i64,
    pub all_day: bool,
    pub location: Seq<char>,
    pub status: EventStatus,
    pub class: EventClass,
    pub organizer: Option<(Seq<char>, Seq<char>)>,
    pub attendees: Seq<(Seq<char>, Seq<char>)>,
    pub reminders: Seq<(i64, Seq<char>)>,
}

/// A task as plain values.
pub struct TodoV {
    pub uid: Seq<char>,
    pub summary: Seq<char>,
    pub description: Seq<char>,
    pub due: Option<i64>,
    pub status: TodoStatus,
    pub priority: u8,
    pub reminders: Seq<(i64, Seq<char>)>,
}

/// An item as plain values.
pub enum ItemV {
    Event(EventV),
    Todo(TodoV),
    Alarm(i64, Seq<char>),
}

/// An event as plain values.
pub open spec fn event_view(e: CalendarEvent) -> EventV {
    EventV {
        uid: e.uid@,
        summary: e.summary@,
        description: e.description@,
        start: e.start,
        end: e.end,
        all_day: e.all_day,
        location: e.location@,
        status: e.status,
        class: e.class,
        organizer: match e.organizer {
            Some(p) => Some(person_view(p)),
            None => None,
        },
        attendees: e.attendees@.map_values(|p: Person| person_view(p)),
        reminders: e.reminders@.map_values(|r: Reminder| reminder_view(r)),
    }
}

/// A task as plain values.
pub open spec fn todo_view(t: CalendarTodo) -> TodoV {
    TodoV {
        uid: t.uid@,
        summary: t.summary@,
        description: t.description@,
        due: t.due,
        status: t.status,
        priority: t.priority,
        reminders: t.reminders@.map_values(|r: Reminder| reminder_view(r)),
    }
}

/// An item as plain values.
pub open spec fn item_view(i: CalendarItem) -> ItemV {
    match i {
        CalendarItem::Event(e) => ItemV::Event(event_view(e)),
        CalendarItem::Todo(t) => ItemV::Todo(todo_view(t)),
        CalendarItem::Alarm(a) => ItemV::Alarm(a.trigger, a.description@),
    }
}

/// Items as plain values.
pub open spec fn items_view(items: Seq<CalendarItem>) -> Seq<ItemV> {
    items.map_values(|i: CalendarItem| item_view(i))
}

/// Items behind references, as plain values.
pub open spec fn refs_view(items: Seq<&CalendarItem>) -> Seq<ItemV> {
    items.map_values(|i: &CalendarItem| item_view(*i))
}

/// The UID of an item; standalone alarms have none.
pub open spec fn uid_of_item(i: ItemV) -> Option<Seq<char>> {
    match i {
        ItemV::Event(e) => Some(e.uid),
        ItemV::Todo(t) => Some(t.uid),
        ItemV::Alarm(_, _) => None,
    }
}

// ----- properties --------------------------------------------------------

/// The last property named `name`.
pub open spec fn lookup(props: Seq<(Seq<char>, PropV)>, name: Seq<char>) -> Option<PropV>
    decreases props.len(),
{
    if props.len() == 0 {
        None
    } else if props.last().0 == name {
        Some(props.last().1)
    } else {
        lookup(props.drop_last(), name)
    }
}

/// The value of the last property named `name`.
pub open spec fn text_of(c: CompV, name: Seq<char>) -> Option<Seq<char>> {
    match lookup(c.props, name) {
        Some(p) => Some(p.value),
        None => None,
    }
}

/// The unescaped TEXT value of a property, empty when absent.
pub open spec fn text_or_empty(c: CompV, name: Seq<char>) -> Seq<char> {
    match text_of(c, name) {
        Some(v) => unescaped(v),
        None => seq![],
    }
}

impl Component {
    /// The last property named `name`.
    pub fn prop(&self, name: &str) -> (r: Option<&Property>)
        ensures
            r matches Some(p) ==> lookup(comp_view(*self).props, name@) == Some(prop_view(*p)),
            r is None ==> lookup(comp_view(*self).props, name@) is None,
    {
        let ghost ps = comp_view(*self).props;
        let mut k: usize = self.props.len();
        assert(ps.take(ps.len() as int) =~= ps);
        while k > 0
            invariant
                k <= self.props@.len(),
                ps == comp_view(*self).props,
                ps == props_view(self.props@),
                lookup(ps, name@) == lookup(ps.take(k as int), name@),
            decreases k,
        {
            assert(ps.take(k as int).drop_last() =~= ps.take(k - 1));
            assert(ps.take(k as int).last() == (self.props@[k - 1].0@, prop_view(self.props@[k - 1].1)));
            if str_eq(self.props[k - 1].0.as_str(), name) {
                return Some(&self.props[k - 1].1);
            }
            k = k - 1;
        }
        None
    }

    /// The value of the last property named `name`.
    pub fn prop_value(&self, name: &str) -> (r: Option<&str>)
        ensures
            r matches Some(v) ==> text_of(comp_view(*self), name@) == Some(v@),
            r is None ==> text_of(comp_view(*self), name@) is None,
    {
        match self.prop(name) {
            Some(p) => Some(p.value.as_str()),
            None => None,
        }
    }
}

/// The unescaped TEXT value of a property, empty when absent.
fn text_value(c: &Component, name: &str) -> (r: String)
    ensures
        r@ == text_or_empty(comp_view(*c), name@),
{
    match c.prop_value(name) {
        Some(v) => unescape_text(v),
        None => String::new(),
    }
}

// ----- date-times --------------------------------------------------------

/// Why an unreadable date-time was refused.
pub open spec fn datetime_reason() -> Seq<char> {
    "unrecognized format (expected YYYYMMDDTHHMMSSZ, YYYYMMDDTHHMMSS, or YYYYMMDD)"@
}

/// One of the RFC 5545 date-time forms as a UTC instant, with whether it
/// was a date only: `YYYYMMDDTHHMMSSZ`, a floating `YYYYMMDDTHHMMSS`
/// (read as UTC), or `YYYYMMDD` (UTC midnight).
pub open spec fn datetime_of(raw: Seq<char>, field: Seq<char>) -> Result<(i64, bool), ErrV> {
    let s = trim(raw);
    let zulu = if s.len() > 0 && s.last() == 'Z' {
        parsed_naive_datetime(s.drop_last())
    } else {
        None
    };
    match zulu {
        Some(t) => Ok((t, false)),
        None => match parsed_naive_datetime(s) {
            Some(t) => Ok((t, false)),
            None => match parsed_naive_date(s) {
                Some(t) => Ok((t, true)),
                None => Err(ErrV::BadDateTime(field, s, datetime_reason())),
            },
        },
    }
}

/// Reads an RFC 5545 date-time as a UTC instant, with whether it was a
/// date only.
pub fn parse_datetime(raw: &str, field: &'static str) -> (r: Result<(i64, bool), IcsError>)
    ensures
        match r {
            Ok(v) => datetime_of(raw@, field@) == Ok::<(i64, bool), ErrV>(v),
            Err(e) => datetime_of(raw@, field@) == Err::<(i64, bool), ErrV>(err_view(e)),
        },
{
    let v = trimmed_chars(&chars_of(raw));
    let s = string_of(&v);
    if v.len() > 0 && v[v.len() - 1] == 'Z' {
        let rest = string_of(&slice_chars(&v, 0, v.len() - 1));
        assert(rest@ =~= s@.drop_last());
        match naive_datetime_secs(rest.as_str()) {
            Some(t) => {
                return Ok((t, false));
            },
            None => {},
        }
    }
    match naive_datetime_secs(s.as_str()) {
        Some(t) => {
            return Ok((t, false));
        },
        None => {},
    }
    match naive_date_secs(s.as_str()) {
        Some(t) => Ok((t, true)),
        None => Err(
            IcsError::BadDateTime {
                field,
                value: s,
                reason: owned(
                    "unrecognized format (expected YYYYMMDDTHHMMSSZ, YYYYMMDDTHHMMSS, or YYYYMMDD)",
                ),
            },
        ),
    }
}

// ----- relative triggers -------------------------------------------------

/// The value of a run of decimal digits.
pub open spec fn digits_value(s: Seq<char>) -> int
    decreases s.len(),
{
    if s.len() == 0 {
        0
    } else {
        digits_value(s.drop_last()) * 10 + (s.last() as int - '0' as int)
    }
}

/// Whether a character is an ASCII digit.
pub open spec fn is_digit(c: char) -> bool {
    '0' <= c && c <= '9'
}

/// The seconds in one unit of a duration (`H`, `M`, `S`).
pub open spec fn unit_seconds(c: char) -> Option<int> {
    if c == 'H' {
        Some(3600)
    } else if c == 'M' {
        Some(60)
    } else if c == 'S' {
        Some(1)
    } else {
        None
    }
}

/// A `TRIGGER` error with a reason.
pub open spec fn trigger_error(raw: Seq<char>, reason: Seq<char>) -> ErrV {
    ErrV::BadDateTime("TRIGGER"@, raw, reason)
}

/// The total of the duration components in `cs`, given the digits `buf`
/// read so far and the total `total` so far. Trailing digits without a
/// unit are ignored; a total beyond the 64-bit range is refused.
pub open spec fn duration_scan(cs: Seq<char>, buf: Seq<char>, total: int, raw: Seq<char>) -> Result<int, ErrV>
    decreases cs.len(),
{
    if cs.len() == 0 {
        Ok(total)
    } else if is_digit(cs[0]) {
        duration_scan(cs.drop_first(), buf.push(cs[0]), total, raw)
    } else if buf.len() == 0 || digits_value(buf) > i64::MAX {
        Err(trigger_error(raw, "non-numeric duration component"@))
    } else {
        match unit_seconds(cs[0]) {
            None => Err(trigger_error(raw, "unknown duration unit '"@ + seq![cs[0]] + "'"@)),
            Some(m) => {
                let t = total + digits_value(buf) * m;
                if t > i64::MAX {
                    Err(trigger_error(raw, "duration out of range"@))
                } else {
                    duration_scan(cs.drop_first(), seq![], t, raw)
                }
            },
        }
    }
}

/// A relative trigger (`-PT15M`, `PT1H30M`) resolved against `anchor`.
pub open spec fn relative_trigger(raw: Seq<char>, anchor: i64) -> Result<i64, ErrV> {
    let s = trim(raw);
    let neg = s.len() > 0 && s[0] == '-';
    let body = if neg {
        s.drop_first()
    } else {
        s
    };
    if !has_prefix(body, "PT"@) {
        Err(trigger_error(raw, "expected PT-prefixed duration"@))
    } else {
        trigger_from_total(duration_scan(body.skip(2), seq![], 0, raw), neg, anchor, raw)
    }
}

/// The trigger instant from the scanned total.
pub open spec fn trigger_from_total(scan: Result<int, ErrV>, neg: bool, anchor: i64, raw: Seq<char>) -> Result<i64, ErrV> {
    match scan {
        Err(e) => Err(e),
        Ok(total) => {
            let r = anchor + if neg {
                -total
            } else {
                total
            };
            if i64::MIN <= r <= i64::MAX {
                Ok(r as i64)
            } else {
                Err(trigger_error(raw, "duration out of range"@))
            }
        },
    }
}

/// The value of a run of digits, if it fits in an `i64`.
fn digits_i64(buf: &Vec<char>) -> (r: Option<i64>)
    requires
        forall|i: int| 0 <= i < buf@.len() ==> is_digit(#[trigger] buf@[i]),
    ensures
        r matches Some(n) ==> buf@.len() > 0 && n as int == digits_value(buf@) && n >= 0,
        r is None ==> buf@.len() == 0 || digits_value(buf@) > i64::MAX,
{
    if buf.len() == 0 {
        return None;
    }
    let mut acc: i64 = 0;
    let mut i: usize = 0;
    assert(buf@.take(0) =~= seq![]);
    while i < buf.len()
        invariant
            i <= buf@.len(),
            forall|k: int| 0 <= k < buf@.len() ==> is_digit(#[trigger] buf@[k]),
            acc as int == digits_value(buf@.take(i as int)),
            acc >= 0,
        decreases buf.len() - i,
    {
        assert(buf@.take(i + 1).drop_last() =~= buf@.take(i as int));
        let c = buf[i];
        assert(is_digit(buf@[i as int]));
        let d: i64 = (c as u32 - '0' as u32) as i64;
        assert(d as int == c as int - '0' as int);
        if acc > (i64::MAX - d) / 10 {
            proof {
                lemma_digits_value_grows(buf@, i as int + 1);
            }
            return None;
        }
        acc = acc * 10 + d;
        i = i + 1;
    }
    assert(buf@.take(buf@.len() as int) =~= buf@);
    Some(acc)
}

/// A longer run of digits never has a smaller value.
proof fn lemma_digits_value_grows(s: Seq<char>, k: int)
    requires
        0 <= k <= s.len(),
        forall|i: int| 0 <= i < s.len() ==> is_digit(#[trigger] s[i]),
    ensures
        digits_value(s) >= digits_value(s.take(k)),
        digits_value(s.take(k)) >= 0,
    decreases s.len(),
{
    if s.len() > 0 {
        assert forall|i: int| 0 <= i < s.drop_last().len() implies is_digit(#[trigger] s.drop_last()[i]) by {
            assert(s.drop_last()[i] == s[i]);
        }
        if k < s.len() {
            lemma_digits_value_grows(s.drop_last(), k);
            assert(s.drop_last().take(k) =~= s.take(k));
        } else {
            assert(s.take(k) =~= s);
            lemma_digits_value_grows(s.drop_last(), 0);
        }
        assert(is_digit(s.last()));
    } else {
        assert(s.take(k) =~= s);
    }
}

/// Resolves a relative `TRIGGER` against an anchor instant.
pub fn resolve_relative_trigger(raw: &str, anchor: i64) -> (r: Result<i64, IcsError>)
    ensures
        match r {
            Ok(t) => relative_trigger(raw@, anchor) == Ok::<i64, ErrV>(t),
            Err(e) => relative_trigger(raw@, anchor) == Err::<i64, ErrV>(err_view(e)),
        },
{
    let s = trimmed_chars(&chars_of(raw));
    let neg = s.len() > 0 && s[0] == '-';
    let body = if neg {
        slice_chars(&s, 1, s.len())
    } else {
        slice_chars(&s, 0, s.len())
    };
    assert(body@ =~= (if neg {
        s@.drop_first()
    } else {
        s@
    }));
    let pt = chars_of("PT");
    if !starts_with_chars(&body, &pt) {
        return Err(
            IcsError::BadDateTime {
                field: "TRIGGER",
                value: owned(raw),
                reason: owned("expected PT-prefixed duration"),
            },
        );
    }
    proof {
        reveal_strlit("PT");
    }
    let ghost cs = body@.skip(2);
    let mut buf: Vec<char> = Vec::new();
    let mut total: i64 = 0;
    let mut i: usize = 2;
    assert(body@.skip(2) =~= cs);
    while i < body.len()
        invariant
            2 <= i <= body@.len(),
            cs == body@.skip(2),
            relative_trigger(raw@, anchor) == trigger_from_total(duration_scan(cs, seq![], 0, raw@), neg, anchor, raw@),
            total >= 0,
            forall|k: int| 0 <= k < buf@.len() ==> is_digit(#[trigger] buf@[k]),
            duration_scan(cs, seq![], 0, raw@) == duration_scan(
                body@.skip(i as int),
                buf@,
                total as int,
                raw@,
            ),
        decreases body.len() - i,
    {
        let c = body[i];
        let ghost rest = body@.skip(i as int);
        assert(rest[0] == c);
        assert(rest.drop_first() =~= body@.skip(i + 1));
        if '0' <= c && c <= '9' {
            buf.push(c);
        } else {
            let n = match digits_i64(&buf) {
                Some(n) => n,
                None => {
                    return Err(
                        IcsError::BadDateTime {
                            field: "TRIGGER",
                            value: owned(raw),
                            reason: owned("non-numeric duration component"),
                        },
                    );
                },
            };
            let m: i64 = if c == 'H' {
                3600
            } else if c == 'M' {
                60
            } else if c == 'S' {
                1
            } else {
                let mut reason = owned("unknown duration unit '");
                crate::text::push_char(&mut reason, c);
                reason.append("'");
                assert(reason@ =~= "unknown duration unit '"@ + seq![c] + "'"@);
                return Err(IcsError::BadDateTime { field: "TRIGGER", value: owned(raw), reason });
            };
            let room: i64 = i64::MAX - total;
            let q: i64 = room / m;
            if n > q {
                assert(total + n * m > i64::MAX) by (nonlinear_arith)
                    requires
                        n > q,
                        q == room / m,
                        room == i64::MAX - total,
                        m >= 1,
                        total >= 0,
                        n >= 0,
                ;
                return Err(
                    IcsError::BadDateTime {
                        field: "TRIGGER",
                        value: owned(raw),
                        reason: owned("duration out of range"),
                    },
                );
            }
            assert(n * m <= i64::MAX - total) by (nonlinear_arith)
                requires
                    n <= q,
                    q == room / m,
                    room == i64::MAX - total,
                    m >= 1,
                    total >= 0,
                    n >= 0,
            ;
            total = total + n * m;
            buf = Vec::new();
        }
        i = i + 1;
    }
    assert(body@.skip(i as int) =~= seq![]);
    let signed: i64 = if neg {
        -total
    } else {
        total
    };
    if (signed > 0 && anchor > i64::MAX - signed) || (signed < 0 && anchor < i64::MIN - signed) {
        return Err(
            IcsError::BadDateTime {
                field: "TRIGGER",
                value: owned(raw),
                reason: owned("duration out of range"),
            },
        );
    }
    Ok(anchor + signed)
}

// ----- people ------------------------------------------------------------

/// `s` without every leading repetition of `p` (`trim_start_matches`).
pub open spec fn strip_all_prefix(s: Seq<char>, p: Seq<char>) -> Seq<char>
    decreases s.len(),
{
    if p.len() > 0 && has_prefix(s, p) {
        strip_all_prefix(s.skip(p.len() as int), p)
    } else {
        s
    }
}

/// A CAL-ADDRESS property as a person: the address without `mailto:`, the
/// `CN` parameter as the name.
pub open spec fn person_of(p: PropV) -> (Seq<char>, Seq<char>) {
    (
        strip_all_prefix(p.value, "mailto:"@),
        match param_lookup(p.params, "CN"@) {
            Some(n) => n,
            None => seq![],
        },
    )
}

/// Reads a CAL-ADDRESS property (`mailto:foo@bar`, `CN=` name).
pub fn parse_cal_address(prop: &Property) -> (r: Person)
    ensures
        person_view(r) == person_of(prop_view(*prop)),
{
    let v = chars_of(prop.value.as_str());
    let p = chars_of("mailto:");
    let mut start: usize = 0;
    assert(v@.skip(0) =~= v@);
    proof {
        reveal_strlit("mailto:");
    }
    while start <= v.len() && v.len() - start >= 7 && starts_with_chars(&slice_chars(&v, start, v.len()), &p)
        invariant
            start <= v.len(),
            p@ == "mailto:"@,
            p@.len() == 7,
            strip_all_prefix(v@, p@) == strip_all_prefix(v@.skip(start as int), p@),
        decreases v.len() - start,
    {
        assert(v@.subrange(start as int, v@.len() as int) =~= v@.skip(start as int));
        assert(v@.skip(start as int).skip(7) =~= v@.skip(start + 7));
        start = start + 7;
    }
    let rest = slice_chars(&v, start, v.len());
    assert(rest@ =~= v@.skip(start as int));
    proof {
        if v@.len() - start >= 7 {
            assert(v@.subrange(start as int, v@.len() as int) =~= v@.skip(start as int));
        }
    }
    let name = match prop.param("CN") {
        Some(n) => owned(n),
        None => String::new(),
    };
    Person { email: string_of(&rest), name }
}

// ----- alarms --------------------------------------------------------------

/// Whether a trigger is written as a relative duration.
pub open spec fn is_relative(t: Seq<char>) -> bool {
    has_prefix(t, "-PT"@) || has_prefix(t, "PT"@)
}

/// The reminder of a nested VALARM resolved against `anchor`; none
/// without a `TRIGGER`.
pub open spec fn reminder_of(c: CompV, anchor: i64) -> Result<Option<(i64, Seq<char>)>, ErrV> {
    match text_of(c, "TRIGGER"@) {
        None => Ok(None),
        Some(raw) => {
            let t = if is_relative(raw) {
                relative_trigger(raw, anchor)
            } else {
                match datetime_of(raw, "TRIGGER"@) {
                    Ok((t, _)) => Ok(t),
                    Err(e) => Err(e),
                }
            };
            match t {
                Err(e) => Err(e),
                Ok(t) => Ok(Some((t, text_or_empty(c, "DESCRIPTION"@)))),
            }
        },
    }
}

/// The reminders of the VALARMs among `ns`, in order; the first failing
/// one fails them all.
pub open spec fn reminders_of(ns: Seq<CompV>, anchor: i64) -> Result<Seq<(i64, Seq<char>)>, ErrV>
    decreases ns.len(),
{
    if ns.len() == 0 {
        Ok(seq![])
    } else {
        let head = if ns[0].name == "VALARM"@ {
            reminder_of(ns[0], anchor)
        } else {
            Ok(None)
        };
        match head {
            Err(e) => Err(e),
            Ok(h) => match reminders_of(ns.drop_first(), anchor) {
                Err(e) => Err(e),
                Ok(rs) => Ok(
                    match h {
                        Some(r) => seq![r] + rs,
                        None => rs,
                    },
                ),
            },
        }
    }
}

/// Whether a string starts with `-PT` or `PT`.
fn is_relative_exec(t: &str) -> (r: bool)
    ensures
        r == is_relative(t@),
{
    let v = chars_of(t);
    starts_with_chars(&v, &chars_of("-PT")) || starts_with_chars(&v, &chars_of("PT"))
}

/// The reminder of a nested VALARM.
pub fn parse_nested_alarm(c: &Component, anchor: i64) -> (r: Result<Option<Reminder>, IcsError>)
    ensures
        match r {
            Ok(None) => reminder_of(comp_view(*c), anchor) == Ok::<Option<(i64, Seq<char>)>, ErrV>(None),
            Ok(Some(x)) => reminder_of(comp_view(*c), anchor) == Ok::<Option<(i64, Seq<char>)>, ErrV>(Some(reminder_view(x))),
            Err(e) => reminder_of(comp_view(*c), anchor) == Err::<Option<(i64, Seq<char>)>, ErrV>(err_view(e)),
        },
{
    let raw = match c.prop_value("TRIGGER") {
        Some(raw) => raw,
        None => {
            return Ok(None);
        },
    };
    let trigger = if is_relative_exec(raw) {
        match resolve_relative_trigger(raw, anchor) {
            Ok(t) => t,
            Err(e) => {
                return Err(e);
            },
        }
    } else {
        match parse_datetime(raw, "TRIGGER") {
            Ok((t, _)) => t,
            Err(e) => {
                return Err(e);
            },
        }
    };
    Ok(Some(Reminder { trigger, description: text_value(c, "DESCRIPTION") }))
}

/// Whether a component is named `VALARM`.
fn named(c: &Component, name: &str) -> (r: bool)
    ensures
        r == (comp_view(*c).name == name@),
{
    str_eq(c.name.as_str(), name)
}

/// The reminders of the VALARMs nested in `c`, resolved against `anchor`.
fn collect_reminders(c: &Component, anchor: i64) -> (r: Result<Vec<Reminder>, IcsError>)
    ensures
        match r {
            Ok(v) => reminders_of(comp_view(*c).nested, anchor) == Ok::<Seq<(i64, Seq<char>)>, ErrV>(
                v@.map_values(|x: Reminder| reminder_view(x)),
            ),
            Err(e) => reminders_of(comp_view(*c).nested, anchor) == Err::<Seq<(i64, Seq<char>)>, ErrV>(err_view(e)),
        },
{
    let ghost ns = comp_view(*c).nested;
    let mut out: Vec<Reminder> = Vec::new();
    let mut i: usize = 0;
    assert(ns.skip(0) =~= ns);
    while i < c.nested.len()
        invariant
            i <= c.nested@.len(),
            ns == comp_view(*c).nested,
            ns.len() == c.nested@.len(),
            reminders_of(ns, anchor) == (match reminders_of(ns.skip(i as int), anchor) {
                Err(e) => Err(e),
                Ok(rs) => Ok(out@.map_values(|x: Reminder| reminder_view(x)) + rs),
            }),
        decreases c.nested.len() - i,
    {
        let n = &c.nested[i];
        let ghost rest = ns.skip(i as int);
        assert(rest[0] == comp_view(*n));
        assert(rest.drop_first() =~= ns.skip(i + 1));
        if named(n, "VALARM") {
            match parse_nested_alarm(n, anchor) {
                Ok(Some(r)) => {
                    let ghost before = out@;
                    out.push(r);
                    assert(out@.map_values(|x: Reminder| reminder_view(x)) =~= before.map_values(
                        |x: Reminder| reminder_view(x),
                    ).push(reminder_view(r)));
                    proof {
                        match reminders_of(ns.skip(i + 1), anchor) {
                            Ok(rs) => {
                                assert(before.map_values(|x: Reminder| reminder_view(x)) + (seq![reminder_view(r)] + rs) =~= out@.map_values(|x: Reminder| reminder_view(x)) + rs);
                            },
                            Err(_) => {},
                        }
                    }
                },
                Ok(None) => {},
                Err(e) => {
                    return Err(e);
                },
            }
        }
        i = i + 1;
    }
    assert(ns.skip(i as int) =~= seq![]);
    assert(out@.map_values(|x: Reminder| reminder_view(x)) + seq![] =~= out@.map_values(|x: Reminder| reminder_view(x)));
    Ok(out)
}

/// A standalone VALARM: it needs an absolute `TRIGGER`.
pub open spec fn alarm_of(c: CompV) -> Result<(i64, Seq<char>), ErrV> {
    match text_of(c, "TRIGGER"@) {
        None => Err(ErrV::MissingProperty("VALARM"@, "TRIGGER"@)),
        Some(raw) => if is_relative(raw) {
            Err(
                ErrV::BadDateTime(
                    "TRIGGER"@,
                    raw,
                    "standalone VALARM requires an absolute trigger"@,
                ),
            )
        } else {
            match datetime_of(raw, "TRIGGER"@) {
                Err(e) => Err(e),
                Ok((t, _)) => Ok((t, text_or_empty(c, "DESCRIPTION"@))),
            }
        },
    }
}

/// Reads a standalone VALARM.
pub fn parse_standalone_alarm(c: &Component) -> (r: Result<CalendarAlarm, IcsError>)
    ensures
        match r {
            Ok(a) => alarm_of(comp_view(*c)) == Ok::<(i64, Seq<char>), ErrV>((a.trigger, a.description@)),
            Err(e) => alarm_of(comp_view(*c)) == Err::<(i64, Seq<char>), ErrV>(err_view(e)),
        },
{
    let raw = match c.prop_value("TRIGGER") {
        Some(raw) => raw,
        None => {
            return Err(IcsError::MissingProperty { component: "VALARM", property: "TRIGGER" });
        },
    };
    if is_relative_exec(raw) {
        return Err(
            IcsError::BadDateTime {
                field: "TRIGGER",
                value: owned(raw),
                reason: owned("standalone VALARM requires an absolute trigger"),
            },
        );
    }
    match parse_datetime(raw, "TRIGGER") {
        Ok((trigger, _)) => Ok(CalendarAlarm { trigger, description: text_value(c, "DESCRIPTION") }),
        Err(e) => Err(e),
    }
}

// ----- events and tasks ------------------------------------------------------

/// The upper-cased value of a property, if present.
pub open spec fn upper_of(c: CompV, name: Seq<char>) -> Option<Seq<char>> {
    match text_of(c, name) {
        Some(v) => Some(upper_text(v)),
        None => None,
    }
}

/// The status of an event (`CONFIRMED` unless stated otherwise).
pub open spec fn event_status_of(c: CompV) -> EventStatus {
    match upper_of(c, "STATUS"@) {
        Some(u) => if u == "TENTATIVE"@ {
            EventStatus::Tentative
        } else if u == "CANCELLED"@ {
            EventStatus::Cancelled
        } else {
            EventStatus::Confirmed
        },
        None => EventStatus::Confirmed,
    }
}

/// The class of an event (`PUBLIC` unless stated otherwise).
pub open spec fn event_class_of(c: CompV) -> EventClass {
    match upper_of(c, "CLASS"@) {
        Some(u) => if u == "PRIVATE"@ {
            EventClass::Private
        } else if u == "CONFIDENTIAL"@ {
            EventClass::Confidential
        } else {
            EventClass::Public
        },
        None => EventClass::Public,
    }
}

/// The status of a task (`NEEDS-ACTION` unless stated otherwise).
pub open spec fn todo_status_of(c: CompV) -> TodoStatus {
    match upper_of(c, "STATUS"@) {
        Some(u) => if u == "IN-PROCESS"@ {
            TodoStatus::InProcess
        } else if u == "COMPLETED"@ {
            TodoStatus::Completed
        } else if u == "CANCELLED"@ {
            TodoStatus::Cancelled
        } else {
            TodoStatus::NeedsAction
        },
        None => TodoStatus::NeedsAction,
    }
}

/// The attendees of an event, in line order.
pub open spec fn attendees_of(c: CompV) -> Seq<(Seq<char>, Seq<char>)> {
    filter_map(
        c.multi,
        |kp: (Seq<char>, PropV)|
            if kp.0 == "ATTENDEE"@ {
                Some(person_of(kp.1))
            } else {
                None
            },
    )
}

/// A VEVENT: UID, DTSTART, DTEND and SUMMARY are required; it is all-day when both
/// times are dates; nested VALARMs resolve against the start.
pub open spec fn event_of(c: CompV) -> Result<EventV, ErrV> {
    match (text_of(c, "UID"@), text_of(c, "DTSTART"@), text_of(c, "DTEND"@)) {
        (None, _, _) => Err(ErrV::MissingProperty("VEVENT"@, "UID"@)),
        (Some(_), None, _) => Err(ErrV::MissingProperty("VEVENT"@, "DTSTART"@)),
        (Some(_), Some(_), None) => Err(ErrV::MissingProperty("VEVENT"@, "DTEND"@)),
        (Some(_), Some(_), Some(_)) if text_of(c, "SUMMARY"@) is None => Err(
            ErrV::MissingProperty("VEVENT"@, "SUMMARY"@),
        ),
        (Some(uid), Some(ds), Some(de)) => match datetime_of(ds, "DTSTART"@) {
            Err(e) => Err(e),
            Ok((start, ad1)) => match datetime_of(de, "DTEND"@) {
                Err(e) => Err(e),
                Ok((end, ad2)) => match reminders_of(c.nested, start) {
                    Err(e) => Err(e),
                    Ok(rs) => Ok(
                        EventV {
                            uid,
                            summary: text_or_empty(c, "SUMMARY"@),
                            description: text_or_empty(c, "DESCRIPTION"@),
                            start,
                            end,
                            all_day: ad1 && ad2,
                            location: text_or_empty(c, "LOCATION"@),
                            status: event_status_of(c),
                            class: event_class_of(c),
                            organizer: match lookup(c.props, "ORGANIZER"@) {
                                Some(p) => Some(person_of(p)),
                                None => None,
                            },
                            attendees: attendees_of(c),
                            reminders: rs,
                        },
                    ),
                },
            },
        },
    }
}

/// The upper-cased value of a property, if present.
fn upper_value(c: &Component, name: &str) -> (r: Option<String>)
    ensures
        r matches Some(u) ==> upper_of(comp_view(*c), name@) == Some(u@),
        r is None ==> upper_of(comp_view(*c), name@) is None,
{
    match c.prop_value(name) {
        Some(v) => Some(to_upper(v)),
        None => None,
    }
}

/// The attendees of an event.
fn collect_attendees(c: &Component) -> (r: Vec<Person>)
    ensures
        r@.map_values(|p: Person| person_view(p)) == attendees_of(comp_view(*c)),
{
    let ghost ms = comp_view(*c).multi;
    let ghost f = |kp: (Seq<char>, PropV)|
        if kp.0 == "ATTENDEE"@ {
            Some(person_of(kp.1))
        } else {
            None
        };
    let mut out: Vec<Person> = Vec::new();
    let mut i: usize = 0;
    while i < c.multi.len()
        invariant
            i <= c.multi@.len(),
            ms == comp_view(*c).multi,
            ms == props_view(c.multi@),
            f == (|kp: (Seq<char>, PropV)|
                if kp.0 == "ATTENDEE"@ {
                    Some(person_of(kp.1))
                } else {
                    None
                }),
            out@.map_values(|p: Person| person_view(p)) == filter_map(ms.take(i as int), f),
        decreases c.multi.len() - i,
    {
        proof {
            lemma_filter_map_step(ms, f, i as int);
        }
        let (k, p) = &c.multi[i];
        assert(ms[i as int] == (k@, prop_view(*p)));
        if str_eq(k.as_str(), "ATTENDEE") {
            let person = parse_cal_address(p);
            let ghost before = out@;
            out.push(person);
            assert(out@.map_values(|p: Person| person_view(p)) =~= before.map_values(
                |p: Person| person_view(p),
            ).push(person_view(person)));
        }
        i = i + 1;
    }
    proof {
        lemma_take_full(ms);
    }
    out
}

/// Reads a VEVENT.
pub fn parse_event(c: &Component) -> (r: Result<CalendarEvent, IcsError>)
    ensures
        match r {
            Ok(e) => event_of(comp_view(*c)) == Ok::<EventV, ErrV>(event_view(e)),
            Err(e) => event_of(comp_view(*c)) == Err::<EventV, ErrV>(err_view(e)),
        },
{
    let uid = match c.prop_value("UID") {
        Some(u) => owned(u),
        None => {
            return Err(IcsError::MissingProperty { component: "VEVENT", property: "UID" });
        },
    };
    let summary = text_value(c, "SUMMARY");
    let description = text_value(c, "DESCRIPTION");
    let location = text_value(c, "LOCATION");
    let ds = match c.prop_value("DTSTART") {
        Some(v) => v,
        None => {
            return Err(IcsError::MissingProperty { component: "VEVENT", property: "DTSTART" });
        },
    };
    let de = match c.prop_value("DTEND") {
        Some(v) => v,
        None => {
            return Err(IcsError::MissingProperty { component: "VEVENT", property: "DTEND" });
        },
    };
    if c.prop_value("SUMMARY").is_none() {
        return Err(IcsError::MissingProperty { component: "VEVENT", property: "SUMMARY" });
    }
    let (start, ad1) = match parse_datetime(ds, "DTSTART") {
        Ok(v) => v,
        Err(e) => {
            return Err(e);
        },
    };
    let (end, ad2) = match parse_datetime(de, "DTEND") {
        Ok(v) => v,
        Err(e) => {
            return Err(e);
        },
    };
    let status = match upper_value(c, "STATUS") {
        Some(u) => {
            if str_eq(u.as_str(), "TENTATIVE") {
                EventStatus::Tentative
            } else if str_eq(u.as_str(), "CANCELLED") {
                EventStatus::Cancelled
            } else {
                EventStatus::Confirmed
            }
        },
        None => EventStatus::Confirmed,
    };
    let class = match upper_value(c, "CLASS") {
        Some(u) => {
            if str_eq(u.as_str(), "PRIVATE") {
                EventClass::Private
            } else if str_eq(u.as_str(), "CONFIDENTIAL") {
                EventClass::Confidential
            } else {
                EventClass::Public
            }
        },
        None => EventClass::Public,
    };
    let organizer = match c.prop("ORGANIZER") {
        Some(p) => Some(parse_cal_address(p)),
        None => None,
    };
    let attendees = collect_attendees(c);
    let reminders = match collect_reminders(c, start) {
        Ok(rs) => rs,
        Err(e) => {
            return Err(e);
        },
    };
    let e = CalendarEvent {
        uid,
        summary,
        description,
        start,
        end,
        all_day: ad1 && ad2,
        location,
        status,
        class,
        organizer,
        attendees,
        reminders,
    };
    assert(event_view(e) =~~= event_of(comp_view(*c))->Ok_0);
    Ok(e)
}

/// Every character of `d` is a decimal digit.
pub open spec fn all_digits(d: Seq<char>) -> bool {
    forall|i: int| 0 <= i < d.len() ==> is_digit(#[trigger] d[i])
}

/// What follows an optional leading `+`.
pub open spec fn unsigned_digits(s: Seq<char>) -> Seq<char> {
    if s.len() > 0 && s[0] == '+' {
        s.drop_first()
    } else {
        s
    }
}

/// The priority `PRIORITY` reads as (`str::parse::<u8>`: an optional `+`,
/// then decimal digits worth at most 255).
pub open spec fn u8_of(s: Seq<char>) -> Option<u8> {
    let d = unsigned_digits(s);
    if d.len() > 0 && all_digits(d) && digits_value(d) <= 255 {
        Some(digits_value(d) as u8)
    } else {
        None
    }
}

/// Reads a `u8` the way `str::parse::<u8>` does.
fn parse_u8(s: &str) -> (r: Option<u8>)
    ensures
        r == u8_of(s@),
{
    let v = chars_of(s);
    let d = if v.len() > 0 && v[0] == '+' {
        slice_chars(&v, 1, v.len())
    } else {
        slice_chars(&v, 0, v.len())
    };
    let ghost dv = unsigned_digits(s@);
    assert(d@ =~= dv);
    if d.len() == 0 {
        return None;
    }
    let mut i: usize = 0;
    while i < d.len()
        invariant
            i <= d@.len(),
            d@ == dv,
            dv == unsigned_digits(s@),
            forall|k: int| 0 <= k < i ==> is_digit(#[trigger] d@[k]),
        decreases d.len() - i,
    {
        if !('0' <= d[i] && d[i] <= '9') {
            assert(!is_digit(dv[i as int]));
            return None;
        }
        i = i + 1;
    }
    match digits_i64(&d) {
        Some(n) => {
            if n <= 255 {
                Some(n as u8)
            } else {
                None
            }
        },
        None => None,
    }
}

/// A VTODO: UID is required; nested VALARMs resolve against DUE and are
/// dropped when there is none.
pub open spec fn todo_of(c: CompV) -> Result<TodoV, ErrV> {
    match text_of(c, "UID"@) {
        None => Err(ErrV::MissingProperty("VTODO"@, "UID"@)),
        Some(uid) => {
            let due: Result<Option<i64>, ErrV> = match text_of(c, "DUE"@) {
                None => Ok(None),
                Some(raw) => match datetime_of(raw, "DUE"@) {
                    Err(e) => Err(e),
                    Ok((t, _)) => Ok(Some(t)),
                },
            };
            match due {
                Err(e) => Err(e),
                Ok(due) => {
                    let rs: Result<Seq<(i64, Seq<char>)>, ErrV> = match due {
                        Some(d) => reminders_of(c.nested, d),
                        None => Ok(seq![]),
                    };
                    match rs {
                        Err(e) => Err(e),
                        Ok(rs) => Ok(
                            TodoV {
                                uid,
                                summary: text_or_empty(c, "SUMMARY"@),
                                description: text_or_empty(c, "DESCRIPTION"@),
                                due,
                                status: todo_status_of(c),
                                priority: match text_of(c, "PRIORITY"@) {
                                    Some(p) => match u8_of(p) {
                                        Some(n) => n,
                                        None => 0,
                                    },
                                    None => 0,
                                },
                                reminders: rs,
                            },
                        ),
                    }
                },
            }
        },
    }
}

/// Reads a VTODO.
pub fn parse_todo(c: &Component) -> (r: Result<CalendarTodo, IcsError>)
    ensures
        match r {
            Ok(t) => todo_of(comp_view(*c)) == Ok::<TodoV, ErrV>(todo_view(t)),
            Err(e) => todo_of(comp_view(*c)) == Err::<TodoV, ErrV>(err_view(e)),
        },
{
    let uid = match c.prop_value("UID") {
        Some(u) => owned(u),
        None => {
            return Err(IcsError::MissingProperty { component: "VTODO", property: "UID" });
        },
    };
    let summary = text_value(c, "SUMMARY");
    let description = text_value(c, "DESCRIPTION");
    let due = match c.prop_value("DUE") {
        Some(raw) => match parse_datetime(raw, "DUE") {
            Ok((t, _)) => Some(t),
            Err(e) => {
                return Err(e);
            },
        },
        None => None,
    };
    let status = match upper_value(c, "STATUS") {
        Some(u) => {
            if str_eq(u.as_str(), "IN-PROCESS") {
                TodoStatus::InProcess
            } else if str_eq(u.as_str(), "COMPLETED") {
                TodoStatus::Completed
            } else if str_eq(u.as_str(), "CANCELLED") {
                TodoStatus::Cancelled
            } else {
                TodoStatus::NeedsAction
            }
        },
        None => TodoStatus::NeedsAction,
    };
    let priority = match c.prop_value("PRIORITY") {
        Some(p) => match parse_u8(p) {
            Some(n) => n,
            None => 0,
        },
        None => 0,
    };
    let reminders = match due {
        Some(d) => match collect_reminders(c, d) {
            Ok(rs) => rs,
            Err(e) => {
                return Err(e);
            },
        },
        None => Vec::new(),
    };
    let t = CalendarTodo { uid, summary, description, due, status, priority, reminders };
    proof {
        let cv = comp_view(*c);
        assert(t.status == todo_status_of(cv));
        assert(t.priority == (match text_of(cv, "PRIORITY"@) {
            Some(p) => match u8_of(p) {
                Some(n) => n,
                None => 0,
            },
            None => 0,
        }));
        if due is None {
            assert(t.reminders@.map_values(|r: Reminder| reminder_view(r)) =~= seq![]);
        }
    }
    assert(todo_view(t) =~~= todo_of(comp_view(*c))->Ok_0);
    Ok(t)
}

// ----- documents -------------------------------------------------------------

/// The items of the calendar's components, in order: VEVENT, VTODO and
/// VALARM are read, anything else (VTIMEZONE, VJOURNAL, ...) is skipped.
pub open spec fn items_of(ns: Seq<CompV>) -> Result<Seq<ItemV>, ErrV>
    decreases ns.len(),
{
    if ns.len() == 0 {
        Ok(seq![])
    } else {
        let n = ns[0];
        let head: Result<Option<ItemV>, ErrV> = if n.name == "VEVENT"@ {
            match event_of(n) {
                Ok(e) => Ok(Some(ItemV::Event(e))),
                Err(e) => Err(e),
            }
        } else if n.name == "VTODO"@ {
            match todo_of(n) {
                Ok(t) => Ok(Some(ItemV::Todo(t))),
                Err(e) => Err(e),
            }
        } else if n.name == "VALARM"@ {
            match alarm_of(n) {
                Ok(a) => Ok(Some(ItemV::Alarm(a.0, a.1))),
                Err(e) => Err(e),
            }
        } else {
            Ok(None)
        };
        match head {
            Err(e) => Err(e),
            Ok(h) => match items_of(ns.drop_first()) {
                Err(e) => Err(e),
                Ok(rest) => Ok(
                    match h {
                        Some(i) => seq![i] + rest,
                        None => rest,
                    },
                ),
            },
        }
    }
}

/// A whole document: one VCALENDAR spanning all content lines.
pub open spec fn ics_of(s: Seq<char>) -> Result<Seq<ItemV>, ErrV> {
    let lines = content_lines(s);
    match parse_comp(lines, 0) {
        Err(e) => Err(e),
        Ok((root, consumed)) => if consumed != lines.len() {
            Err(
                ErrV::Malformed(
                    "trailing content after VCALENDAR (line "@ + dec(consumed as nat) + " of "@
                        + dec(lines.len()) + ")"@,
                ),
            )
        } else if root.name != "VCALENDAR"@ {
            Err(ErrV::Malformed("expected root VCALENDAR, found "@ + root.name))
        } else {
            items_of(root.nested)
        },
    }
}

/// Parses an ICS document into its items, in document order.
pub fn parse_ics(ics: &str) -> (r: Result<Vec<CalendarItem>, IcsError>)
    ensures
        match r {
            Ok(items) => ics_of(ics@) == Ok::<Seq<ItemV>, ErrV>(items@.map_values(|i: CalendarItem| item_view(i))),
            Err(e) => ics_of(ics@) == Err::<Seq<ItemV>, ErrV>(err_view(e)),
        },
{
    let lines = content_lines_of(ics);
    let (root, consumed) = match parse_component(&lines, 0) {
        Ok(v) => v,
        Err(e) => {
            return Err(e);
        },
    };
    proof {
        crate::calendar::component::lemma_parse_comp_advances(views(lines@), 0);
    }
    if consumed != lines.len() {
        let mut m = owned("trailing content after VCALENDAR (line ");
        append_string(&mut m, &fmt_u64(consumed as u64));
        m.append(" of ");
        append_string(&mut m, &fmt_u64(lines.len() as u64));
        m.append(")");
        return Err(IcsError::Malformed(m));
    }
    if !str_eq(root.name.as_str(), "VCALENDAR") {
        let mut m = owned("expected root VCALENDAR, found ");
        append_string(&mut m, &root.name);
        return Err(IcsError::Malformed(m));
    }
    let ghost ns = comp_view(root).nested;
    assert(ics_of(ics@) == items_of(ns));
    let mut out: Vec<CalendarItem> = Vec::new();
    let mut i: usize = 0;
    assert(ns.skip(0) =~= ns);
    while i < root.nested.len()
        invariant
            i <= root.nested@.len(),
            ns == comp_view(root).nested,
            ns.len() == root.nested@.len(),
            ics_of(ics@) == items_of(ns),
            items_of(ns) == (match items_of(ns.skip(i as int)) {
                Err(e) => Err(e),
                Ok(rs) => Ok(out@.map_values(|x: CalendarItem| item_view(x)) + rs),
            }),
        decreases root.nested.len() - i,
    {
        let n = &root.nested[i];
        let ghost rest = ns.skip(i as int);
        assert(rest[0] == comp_view(*n));
        assert(rest.drop_first() =~= ns.skip(i + 1));
        let item = if named(n, "VEVENT") {
            match parse_event(n) {
                Ok(e) => Some(CalendarItem::Event(e)),
                Err(e) => {
                    assert(items_of(rest) == Err::<Seq<ItemV>, ErrV>(err_view(e)));
                    return Err(e);
                },
            }
        } else if named(n, "VTODO") {
            match parse_todo(n) {
                Ok(t) => Some(CalendarItem::Todo(t)),
                Err(e) => {
                    assert(items_of(rest) == Err::<Seq<ItemV>, ErrV>(err_view(e)));
                    return Err(e);
                },
            }
        } else if named(n, "VALARM") {
            match parse_standalone_alarm(n) {
                Ok(a) => Some(CalendarItem::Alarm(a)),
                Err(e) => {
                    assert(items_of(rest) == Err::<Seq<ItemV>, ErrV>(err_view(e)));
                    return Err(e);
                },
            }
        } else {
            None
        };
        match item {
            Some(it) => {
                let ghost before = out@;
                out.push(it);
                assert(out@.map_values(|x: CalendarItem| item_view(x)) =~= before.map_values(
                    |x: CalendarItem| item_view(x),
                ).push(item_view(it)));
                proof {
                    match items_of(ns.skip(i + 1)) {
                        Ok(rs) => {
                            assert(before.map_values(|x: CalendarItem| item_view(x)) + (seq![item_view(it)] + rs) =~= out@.map_values(|x: CalendarItem| item_view(x)) + rs);
                        },
                        Err(_) => {},
                    }
                }
            },
            None => {},
        }
        i = i + 1;
    }
    assert(ns.skip(i as int) =~= seq![]);
    assert(out@.map_values(|x: CalendarItem| item_view(x)) + seq![] =~= out@.map_values(|x: CalendarItem| item_view(x)));
    Ok(out)
}


// ----- the RFC 5545 status and class names ------------------------------

proof fn lemma_status_words_differ()
    ensures
        "TENTATIVE"@ != "CANCELLED"@,
        "TENTATIVE"@ != "CONFIRMED"@,
        "CANCELLED"@ != "CONFIRMED"@,
        "PRIVATE"@ != "CONFIDENTIAL"@,
        "PRIVATE"@ != "PUBLIC"@,
        "CONFIDENTIAL"@ != "PUBLIC"@,
        "IN-PROCESS"@ != "COMPLETED"@,
        "IN-PROCESS"@ != "CANCELLED"@,
        "COMPLETED"@ != "CANCELLED"@,
        "NEEDS-ACTION"@ != "IN-PROCESS"@,
        "NEEDS-ACTION"@ != "COMPLETED"@,
        "NEEDS-ACTION"@ != "CANCELLED"@,
{
    reveal_strlit("IN-PROCESS");
    reveal_strlit("CANCELLED");
    reveal_strlit("COMPLETED");
    reveal_strlit("NEEDS-ACTION");
    assert("IN-PROCESS"@[0] != "COMPLETED"@[0]);
    assert("IN-PROCESS"@[0] != "CANCELLED"@[0]);
    assert("COMPLETED"@[1] != "CANCELLED"@[1]);
    assert("NEEDS-ACTION"@[0] != "IN-PROCESS"@[0]);
    assert("NEEDS-ACTION"@[0] != "COMPLETED"@[0]);
    reveal_strlit("TENTATIVE");
    reveal_strlit("CANCELLED");
    reveal_strlit("CONFIRMED");
    reveal_strlit("PRIVATE");
    reveal_strlit("CONFIDENTIAL");
    reveal_strlit("PUBLIC");
    assert("TENTATIVE"@[0] != "CANCELLED"@[0]);
    assert("TENTATIVE"@[0] != "CONFIRMED"@[0]);
    assert("CANCELLED"@[1] != "CONFIRMED"@[1]);
    assert("PRIVATE"@.len() != "CONFIDENTIAL"@.len());
    assert("PRIVATE"@[1] != "PUBLIC"@[1]);
    assert("CONFIDENTIAL"@[0] != "PUBLIC"@[0]);
}

/// A VEVENT's STATUS is read by its RFC 5545 name, ignoring ASCII case:
/// `TENTATIVE` gives a tentative event, `CANCELLED` a cancelled one, and
/// `CONFIRMED`, any other value or no STATUS at all a confirmed one; CLASS
/// likewise (`PRIVATE`, `CONFIDENTIAL`, else public).
pub proof fn law_event_status_names(c: CompV, v: Seq<char>, w: Seq<char>)
    ensures
        text_of(c, "STATUS"@) == Some(v) && all_ascii(v) ==> (event_of(c) matches Ok(e) ==> {
            &&& ascii_upper_seq(v) == "TENTATIVE"@ ==> e.status == EventStatus::Tentative
            &&& ascii_upper_seq(v) == "CANCELLED"@ ==> e.status == EventStatus::Cancelled
            &&& ascii_upper_seq(v) == "CONFIRMED"@ ==> e.status == EventStatus::Confirmed
        }),
        text_of(c, "STATUS"@) is None ==> (event_of(c) matches Ok(e) ==> e.status == EventStatus::Confirmed),
        text_of(c, "CLASS"@) == Some(w) && all_ascii(w) ==> (event_of(c) matches Ok(e) ==> {
            &&& ascii_upper_seq(w) == "PRIVATE"@ ==> e.class == EventClass::Private
            &&& ascii_upper_seq(w) == "CONFIDENTIAL"@ ==> e.class == EventClass::Confidential
            &&& ascii_upper_seq(w) == "PUBLIC"@ ==> e.class == EventClass::Public
        }),
        text_of(c, "CLASS"@) is None ==> (event_of(c) matches Ok(e) ==> e.class == EventClass::Public),
{
    lemma_status_words_differ();
}


/// A VTODO's STATUS is read by its RFC 5545 name, ignoring ASCII case:
/// `IN-PROCESS`, `COMPLETED`, `CANCELLED` give those statuses, and
/// `NEEDS-ACTION`, any other value or no STATUS at all give needs-action.
pub proof fn law_todo_status_names(c: CompV, v: Seq<char>)
    ensures
        text_of(c, "STATUS"@) == Some(v) && all_ascii(v) ==> (todo_of(c) matches Ok(t) ==> {
            &&& ascii_upper_seq(v) == "IN-PROCESS"@ ==> t.status == TodoStatus::InProcess
            &&& ascii_upper_seq(v) == "COMPLETED"@ ==> t.status == TodoStatus::Completed
            &&& ascii_upper_seq(v) == "CANCELLED"@ ==> t.status == TodoStatus::Cancelled
            &&& ascii_upper_seq(v) == "NEEDS-ACTION"@ ==> t.status == TodoStatus::NeedsAction
        }),
        text_of(c, "STATUS"@) is None ==> (todo_of(c) matches Ok(t) ==> t.status == TodoStatus::NeedsAction),
{
    lemma_status_words_differ();
}

} // verus!
