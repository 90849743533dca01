//! Scheduled sends: the stored record, the cron expression handed to the
//! cron parser, and what follows a successful send.
use vstd::prelude::*;
use crate::text::{append_string, chars_of, owned, words, words_of};

verus! {

/// A scheduled email as stored.
#[derive(Debug)]
pub struct ScheduledEmail {
    pub id: i64,
    pub tracking_id: String,
    pub from_addr: String,
    pub to_addr: String,
    pub subject: String,
    pub body: String,
    pub template: Option<String>,
    pub template_vars: Option<String>,
    pub scheduled_at: String,
    pub cron_expr: Option<String>,
    pub is_recurring: bool,
}

/// The cron parser wants seconds first: a five-field expression gets a
/// leading `0 `, any other is kept.
pub open spec fn padded_cron(expr: Seq<char>) -> Seq<char> {
    if words(expr).len() == 5 {
        "0 "@ + expr
    } else {
        expr
    }
}

/// The expression handed to the cron parser.
pub fn pad_cron(expr: &str) -> (r: String)
    ensures
        r@ == padded_cron(expr@),
{
    if words_of(&chars_of(expr)).len() == 5 {
        let mut s = owned("0 ");
        s.append(expr);
        s
    } else {
        owned(expr)
    }
}

/// What follows a successful send of a due email.
#[derive(Debug, PartialEq, Eq)]
pub enum DueAction {
    /// Keep it pending, due again at this time.
    Reschedule(String),
    /// Done: mark it sent.
    MarkSent,
}

/// The cron expression whose next run is needed: that of a recurring
/// email, when it has one.
pub open spec fn recurrence_of(e: ScheduledEmail) -> Option<Seq<char>> {
    if e.is_recurring {
        match e.cron_expr {
            Some(c) => Some(c@),
            None => None,
        }
    } else {
        None
    }
}

impl ScheduledEmail {
    /// The cron expression whose next run is needed after a send.
    pub fn recurrence(&self) -> (r: Option<&str>)
        ensures
            r matches Some(c) ==> recurrence_of(*self) == Some(c@),
            r is None ==> recurrence_of(*self) is None,
    {
        if self.is_recurring {
            match &self.cron_expr {
                Some(c) => Some(c.as_str()),
                None => None,
            }
        } else {
            None
        }
    }

    /// What follows a successful send, given the next run time of its
    /// recurrence (when it has one and the cron expression yields one): a
    /// recurring email with a next run is rescheduled, any other is done.
    pub fn after_send(&self, next_run: Option<String>) -> (r: DueAction)
        ensures
            match (recurrence_of(*self), next_run) {
                (Some(_), Some(n)) => r matches DueAction::Reschedule(t) && t@ == n@,
                _ => r == DueAction::MarkSent,
            },
    {
        match (self.recurrence(), next_run) {
            (Some(_), Some(n)) => DueAction::Reschedule(n),
            _ => DueAction::MarkSent,
        }
    }
}

/// What the cron crate makes of `expr` after the instant `after` (UTC
/// seconds): `None` when it does not parse as a schedule, else the next
/// firing time in RFC 3339 form, if there is one.
pub uninterp spec fn cron_after(expr: Seq<char>, after: i64) -> Option<Option<Seq<char>>>;

/// Calls `cron::Schedule::from_str(expr)`, then `Schedule::after` with
/// `DateTime::<Utc>::from_timestamp(after, 0)` and takes the first item,
/// formatted with `to_rfc3339`. Claims that the result is the named
/// reading of (`expr`, `after`). The cron crate first adds one second to
/// `after`, which chrono refuses (with a panic) at its last instant, so
/// `after` stays below it.
#[verifier::external_body]
fn cron_next(expr: &str, after: i64) -> (r: Option<Option<String>>)
    requires
        after < LAST_CHRONO_SECOND,
    ensures
        match r {
            None => cron_after(expr@, after) is None,
            Some(None) => cron_after(expr@, after) == Some(None::<Seq<char>>),
            Some(Some(t)) => cron_after(expr@, after) == Some(Some(t@)),
        },
{
    let schedule = <cron::Schedule as std::str::FromStr>::from_str(expr).ok()?;
    Some(match chrono::DateTime::<chrono::Utc>::from_timestamp(after, 0) {
        Some(dt) => schedule.after(&dt).next().map(|d| d.to_rfc3339()),
        None => None,
    })
}

/// The next run of a cron expression after `now`.
#[derive(Debug, PartialEq, Eq)]
pub enum NextRun {
    /// The expression is not a valid schedule.
    Invalid,
    /// The schedule has no run after `now`.
    Exhausted,
    /// The next run, in RFC 3339 form.
    At(String),
}

/// The last whole second chrono can represent (UTC seconds since the
/// epoch: 262143-12-31T23:59:59Z).
pub const LAST_CHRONO_SECOND: i64 = 8_210_298_412_799i64;

/// The next run of `expr` (five fields get seconds prepended) after
/// `now`, as the cron crate computes it. No instant follows chrono's last
/// one, so `now` lies before it.
pub fn next_run_at(expr: &str, now: i64) -> (r: NextRun)
    requires
        now < LAST_CHRONO_SECOND,
    ensures
        match cron_after(padded_cron(expr@), now) {
            None => r == NextRun::Invalid,
            Some(None) => r == NextRun::Exhausted,
            Some(Some(t)) => r matches NextRun::At(s) && s@ == t,
        },
{
    let padded = pad_cron(expr);
    match cron_next(padded.as_str(), now) {
        None => NextRun::Invalid,
        Some(None) => NextRun::Exhausted,
        Some(Some(t)) => NextRun::At(t),
    }
}

} // verus!
