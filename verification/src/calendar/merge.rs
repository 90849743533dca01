//! UID-keyed merge of calendar items: an incoming item whose UID is
//! already present replaces that entry in place, any other is appended;
//! entries the incoming items do not mention are kept untouched.
//! Standalone alarms have no UID and are always appended.
use vstd::prelude::*;
use crate::calendar::component::{ErrV, IcsError, err_view};
use crate::calendar::ics::{ItemV, ics_of, item_view, items_view, parse_ics, refs_view, uid_of_item};
use crate::calendar::ics_write::{ics_document, items_ok, opt_view, write_refs_at};
use crate::calendar::item::{CalendarItem, item_uid};
use crate::text::{chars_of, owned, str_eq, trim, trimmed_chars};

verus! {

/// What happened to one incoming item.
#[derive(Debug, Clone, PartialEq, Eq)]
pub enum MergeOutcome {
    /// A new UID, appended.
    Added(String),
    /// A known UID, replaced in place.
    Updated(String),
    /// A standalone alarm, appended.
    AppendedAlarm,
}

/// An outcome as plain values.
pub enum OutcomeV {
    Added(Seq<char>),
    Updated(Seq<char>),
    AppendedAlarm,
}

/// An outcome as plain values.
pub open spec fn outcome_view(o: MergeOutcome) -> OutcomeV {
    match o {
        MergeOutcome::Added(u) => OutcomeV::Added(u@),
        MergeOutcome::Updated(u) => OutcomeV::Updated(u@),
        MergeOutcome::AppendedAlarm => OutcomeV::AppendedAlarm,
    }
}

/// Whether some item carries UID `u`.
pub open spec fn has_uid(items: Seq<ItemV>, u: Seq<char>) -> bool {
    exists|k: int| 0 <= k < items.len() && #[trigger] uid_of_item(items[k]) == Some(u)
}

/// The position of the first item carrying UID `u`.
pub open spec fn first_with_uid(items: Seq<ItemV>, u: Seq<char>) -> int
    decreases items.len(),
{
    if items.len() == 0 {
        0
    } else if uid_of_item(items[0]) == Some(u) {
        0
    } else {
        1 + first_with_uid(items.drop_first(), u)
    }
}

/// One merge step: the items and the outcome after merging `inc`.
pub open spec fn merge_step(items: Seq<ItemV>, inc: ItemV) -> (Seq<ItemV>, OutcomeV) {
    match uid_of_item(inc) {
        None => (items.push(inc), OutcomeV::AppendedAlarm),
        Some(u) => if has_uid(items, u) {
            (items.update(first_with_uid(items, u), inc), OutcomeV::Updated(u))
        } else {
            (items.push(inc), OutcomeV::Added(u))
        },
    }
}

/// The merged items and the outcome of each incoming item, in input order.
pub open spec fn merged(existing: Seq<ItemV>, incoming: Seq<ItemV>) -> (Seq<ItemV>, Seq<OutcomeV>)
    decreases incoming.len(),
{
    if incoming.len() == 0 {
        (existing, seq![])
    } else {
        let (items, outs) = merged(existing, incoming.drop_last());
        let (items2, o) = merge_step(items, incoming.last());
        (items2, outs.push(o))
    }
}

proof fn lemma_first_with_uid(items: Seq<ItemV>, u: Seq<char>, k: int)
    requires
        0 <= k <= items.len(),
        forall|j: int| 0 <= j < k ==> uid_of_item(#[trigger] items[j]) != Some(u),
    ensures
        k < items.len() && uid_of_item(items[k]) == Some(u) ==> first_with_uid(items, u) == k,
    decreases k,
{
    if k > 0 {
        assert forall|j: int| 0 <= j < k - 1 implies uid_of_item(#[trigger] items.drop_first()[j])
            != Some(u) by {
            assert(items.drop_first()[j] == items[j + 1]);
        }
        lemma_first_with_uid(items.drop_first(), u, k - 1);
    }
}

/// The position of the first item (behind a reference) carrying `u`.
fn find_uid(items: &Vec<&CalendarItem>, u: &str) -> (r: Option<usize>)
    ensures
        r matches Some(k) ==> k < items@.len() && has_uid(refs_view(items@), u@) && first_with_uid(
            refs_view(items@),
            u@,
        ) == k as int,
        r is None ==> !has_uid(refs_view(items@), u@),
{
    let ghost s = refs_view(items@);
    let mut k: usize = 0;
    while k < items.len()
        invariant
            k <= items@.len(),
            s == refs_view(items@),
            forall|j: int| 0 <= j < k ==> uid_of_item(#[trigger] s[j]) != Some(u@),
        decreases items.len() - k,
    {
        assert(s[k as int] == item_view(*items@[k as int]));
        match item_uid(items[k]) {
            Some(v) => {
                if str_eq(v, u) {
                    proof {
                        lemma_first_with_uid(s, u@, k as int);
                        assert(uid_of_item(s[k as int]) == Some(u@));
                    }
                    return Some(k);
                }
            },
            None => {},
        }
        assert(uid_of_item(s[k as int]) != Some(u@));
        k = k + 1;
    }
    None
}

/// Merges `incoming` into `existing` by UID: the merged items (as
/// references into the two inputs) and one outcome per incoming item.
fn merge_items<'a>(existing: &'a [CalendarItem], incoming: &'a [CalendarItem]) -> (r: (
    Vec<&'a CalendarItem>,
    Vec<MergeOutcome>,
))
    ensures
        refs_view(r.0@) == merged(items_view(existing@), items_view(incoming@)).0,
        r.1@.map_values(|o: MergeOutcome| outcome_view(o)) == merged(
            items_view(existing@),
            items_view(incoming@),
        ).1,
{
    let ghost ev = items_view(existing@);
    let ghost iv = items_view(incoming@);
    let mut items: Vec<&'a CalendarItem> = Vec::new();
    let mut i: usize = 0;
    while i < existing.len()
        invariant
            i <= existing@.len(),
            ev == items_view(existing@),
            refs_view(items@) == ev.take(i as int),
        decreases existing.len() - i,
    {
        let ghost before = items@;
        items.push(&existing[i]);
        assert(refs_view(items@) =~= refs_view(before).push(ev[i as int]));
        assert(ev.take(i + 1) =~= ev.take(i as int).push(ev[i as int]));
        i = i + 1;
    }
    assert(ev.take(ev.len() as int) =~= ev);
    let mut outcomes: Vec<MergeOutcome> = Vec::new();
    let mut j: usize = 0;
    assert(iv.take(0) =~= seq![]);
    while j < incoming.len()
        invariant
            j <= incoming@.len(),
            ev == items_view(existing@),
            iv == items_view(incoming@),
            refs_view(items@) == merged(ev, iv.take(j as int)).0,
            outcomes@.map_values(|o: MergeOutcome| outcome_view(o)) == merged(ev, iv.take(j as int)).1,
        decreases incoming.len() - j,
    {
        let inc = &incoming[j];
        assert(iv[j as int] == item_view(*inc));
        assert(iv.take(j + 1).drop_last() =~= iv.take(j as int));
        let ghost before_items = refs_view(items@);
        match item_uid(inc) {
            None => {
                items.push(inc);
                outcomes.push(MergeOutcome::AppendedAlarm);
                assert(refs_view(items@) =~= before_items.push(item_view(*inc)));
            },
            Some(uid) => {
                match find_uid(&items, uid) {
                    Some(k) => {
                        items.set(k, inc);
                        outcomes.push(MergeOutcome::Updated(owned(uid)));
                        assert(refs_view(items@) =~= before_items.update(k as int, item_view(*inc)));
                    },
                    None => {
                        items.push(inc);
                        outcomes.push(MergeOutcome::Added(owned(uid)));
                        assert(refs_view(items@) =~= before_items.push(item_view(*inc)));
                    },
                }
            },
        }
        assert(refs_view(items@) =~= merged(ev, iv.take(j + 1)).0);
        assert(outcomes@.map_values(|o: MergeOutcome| outcome_view(o)) =~= merged(
            ev,
            iv.take(j + 1),
        ).1);
        j = j + 1;
    }
    assert(iv.take(iv.len() as int) =~= iv);
    (items, outcomes)
}

/// The number of outcomes that satisfy `pred`.
pub open spec fn count_outcomes(os: Seq<MergeOutcome>, pred: spec_fn(MergeOutcome) -> bool) -> nat
    decreases os.len(),
{
    if os.len() == 0 {
        0
    } else {
        count_outcomes(os.drop_last(), pred) + if pred(os.last()) {
            1nat
        } else {
            0nat
        }
    }
}

/// Whether an outcome is an addition.
pub open spec fn is_added(o: MergeOutcome) -> bool {
    o is Added
}

/// Whether an outcome is an update.
pub open spec fn is_updated(o: MergeOutcome) -> bool {
    o is Updated
}

/// Whether an outcome is an appended alarm.
pub open spec fn is_alarm(o: MergeOutcome) -> bool {
    o is AppendedAlarm
}

/// The result of a merge: the outcome of each incoming item, in input
/// order, and the merged calendar.
#[derive(Debug, Clone)]
pub struct MergeReport {
    /// One outcome per incoming item, in input order.
    pub outcomes: Vec<MergeOutcome>,
    /// The merged calendar as an ICS document.
    pub ics: String,
}

impl MergeReport {
    /// The number of UIDs added.
    pub fn added_count(&self) -> (r: usize)
        ensures
            r == count_outcomes(self.outcomes@, |o: MergeOutcome| is_added(o)),
    {
        let mut n: usize = 0;
        let mut i: usize = 0;
        while i < self.outcomes.len()
            invariant
                i <= self.outcomes@.len(),
                n == count_outcomes(self.outcomes@.take(i as int), |o: MergeOutcome| is_added(o)),
                n <= i,
            decreases self.outcomes.len() - i,
        {
            assert(self.outcomes@.take(i + 1).drop_last() =~= self.outcomes@.take(i as int));
            match &self.outcomes[i] {
                MergeOutcome::Added(_) => n = n + 1,
                _ => {},
            }
            i = i + 1;
        }
        assert(self.outcomes@.take(self.outcomes@.len() as int) =~= self.outcomes@);
        n
    }

    /// The number of UIDs updated in place.
    pub fn updated_count(&self) -> (r: usize)
        ensures
            r == count_outcomes(self.outcomes@, |o: MergeOutcome| is_updated(o)),
    {
        let mut n: usize = 0;
        let mut i: usize = 0;
        while i < self.outcomes.len()
            invariant
                i <= self.outcomes@.len(),
                n == count_outcomes(self.outcomes@.take(i as int), |o: MergeOutcome| is_updated(o)),
                n <= i,
            decreases self.outcomes.len() - i,
        {
            assert(self.outcomes@.take(i + 1).drop_last() =~= self.outcomes@.take(i as int));
            match &self.outcomes[i] {
                MergeOutcome::Updated(_) => n = n + 1,
                _ => {},
            }
            i = i + 1;
        }
        assert(self.outcomes@.take(self.outcomes@.len() as int) =~= self.outcomes@);
        n
    }

    /// The number of standalone alarms appended.
    pub fn alarms_count(&self) -> (r: usize)
        ensures
            r == count_outcomes(self.outcomes@, |o: MergeOutcome| is_alarm(o)),
    {
        let mut n: usize = 0;
        let mut i: usize = 0;
        while i < self.outcomes.len()
            invariant
                i <= self.outcomes@.len(),
                n == count_outcomes(self.outcomes@.take(i as int), |o: MergeOutcome| is_alarm(o)),
                n <= i,
            decreases self.outcomes.len() - i,
        {
            assert(self.outcomes@.take(i + 1).drop_last() =~= self.outcomes@.take(i as int));
            match &self.outcomes[i] {
                MergeOutcome::AppendedAlarm => n = n + 1,
                _ => {},
            }
            i = i + 1;
        }
        assert(self.outcomes@.take(self.outcomes@.len() as int) =~= self.outcomes@);
        n
    }
}

/// The calendar that `existing_ics` holds: nothing when it is blank,
/// its parsed items otherwise.
pub open spec fn existing_items(existing_ics: Seq<char>) -> Result<Seq<ItemV>, ErrV> {
    if trim(existing_ics).len() == 0 {
        Ok(seq![])
    } else {
        ics_of(existing_ics)
    }
}

/// Why a merged calendar could not be written.
pub open spec fn unwritable_reason() -> Seq<char> {
    "an instant of the merged calendar is outside the range chrono can write"@
}

/// What merging `incoming` into `existing_ics` at `now` gives: the
/// outcomes and the merged document, or the error.
pub open spec fn merge_report_of(existing_ics: Seq<char>, incoming: Seq<ItemV>, now: i64) -> Result<
    (Seq<OutcomeV>, Seq<char>),
    ErrV,
> {
    match existing_items(existing_ics) {
        Err(e) => Err(e),
        Ok(ex) => {
            let m = merged(ex, incoming);
            if items_ok(m.0, now) {
                Ok((m.1, ics_document(m.0, now)))
            } else {
                Err(ErrV::Malformed(unwritable_reason()))
            }
        },
    }
}

/// A report as plain values.
pub open spec fn report_view(r: MergeReport) -> (Seq<OutcomeV>, Seq<char>) {
    (r.outcomes@.map_values(|o: MergeOutcome| outcome_view(o)), r.ics@)
}

/// Merges `incoming` into the calendar `existing_ics` by UID and writes the
/// merged calendar stamped at `now` (seconds since the epoch). A blank
/// `existing_ics` is an empty calendar; otherwise a parse error of it is
/// returned.
pub fn merge_by_uid_at(existing_ics: &str, incoming: &[CalendarItem], now: i64) -> (r: Result<
    MergeReport,
    IcsError,
>)
    ensures
        match r {
            Ok(rep) => merge_report_of(existing_ics@, items_view(incoming@), now) == Ok::<
                (Seq<OutcomeV>, Seq<char>),
                ErrV,
            >(report_view(rep)),
            Err(e) => merge_report_of(existing_ics@, items_view(incoming@), now) == Err::<
                (Seq<OutcomeV>, Seq<char>),
                ErrV,
            >(err_view(e)),
        },
{
    let blank = trimmed_chars(&chars_of(existing_ics)).len() == 0;
    let parsed: Vec<CalendarItem> = if blank {
        Vec::new()
    } else {
        match parse_ics(existing_ics) {
            Ok(v) => v,
            Err(e) => {
                return Err(e);
            },
        }
    };
    assert(items_view(parsed@) =~= existing_items(existing_ics@)->Ok_0);
    let (items, outcomes) = merge_items(parsed.as_slice(), incoming);
    match write_refs_at(&items, now) {
        Some(ics) => Ok(MergeReport { outcomes, ics }),
        None => Err(
            IcsError::Malformed(
                owned("an instant of the merged calendar is outside the range chrono can write"),
            ),
        ),
    }
}

// ----- laws ------------------------------------------------------------

/// Where some item carries `u`, the first one does, at a valid position,
/// and none before it.
proof fn lemma_first_facts(items: Seq<ItemV>, u: Seq<char>)
    requires
        has_uid(items, u),
    ensures
        0 <= first_with_uid(items, u) < items.len(),
        uid_of_item(items[first_with_uid(items, u)]) == Some(u),
        forall|j: int| 0 <= j < first_with_uid(items, u) ==> uid_of_item(#[trigger] items[j]) != Some(u),
    decreases items.len(),
{
    if uid_of_item(items[0]) != Some(u) {
        let k = choose|k: int| 0 <= k < items.len() && #[trigger] uid_of_item(items[k]) == Some(u);
        assert(uid_of_item(items.drop_first()[k - 1]) == Some(u));
        lemma_first_facts(items.drop_first(), u);
        assert forall|j: int| 0 <= j < first_with_uid(items, u) implies uid_of_item(#[trigger] items[j])
            != Some(u) by {
            if j > 0 {
                assert(items[j] == items.drop_first()[j - 1]);
            }
        }
    }
}

/// No item carries `u`: the first position is past the end.
proof fn lemma_first_absent(items: Seq<ItemV>, u: Seq<char>)
    requires
        !has_uid(items, u),
    ensures
        forall|j: int| 0 <= j < items.len() ==> uid_of_item(#[trigger] items[j]) != Some(u),
{
}

/// Merging gives one outcome per incoming item, in input order: an item
/// without a UID is an appended alarm, one with UID `u` is added or
/// updated under `u`.
pub proof fn law_one_outcome_per_item(existing: Seq<ItemV>, incoming: Seq<ItemV>)
    ensures
        merged(existing, incoming).1.len() == incoming.len(),
        forall|i: int|
            0 <= i < incoming.len() ==> match uid_of_item(#[trigger] incoming[i]) {
                None => merged(existing, incoming).1[i] == OutcomeV::AppendedAlarm,
                Some(u) => merged(existing, incoming).1[i] == OutcomeV::Added(u)
                    || merged(existing, incoming).1[i] == OutcomeV::Updated(u),
            },
    decreases incoming.len(),
{
    if incoming.len() > 0 {
        let rest = incoming.drop_last();
        law_one_outcome_per_item(existing, rest);
        let outs = merged(existing, rest).1;
        let o = merge_step(merged(existing, rest).0, incoming.last()).1;
        assert(merged(existing, incoming).1 == outs.push(o));
        assert forall|i: int| 0 <= i < incoming.len() implies match uid_of_item(#[trigger] incoming[i]) {
            None => merged(existing, incoming).1[i] == OutcomeV::AppendedAlarm,
            Some(u) => merged(existing, incoming).1[i] == OutcomeV::Added(u)
                || merged(existing, incoming).1[i] == OutcomeV::Updated(u),
        } by {
            if i < incoming.len() - 1 {
                assert(rest[i] == incoming[i]);
                assert(outs.push(o)[i] == outs[i]);
            }
        }
    }
}

/// Merging keeps every existing item that no incoming item names: at its
/// position, unchanged; nothing existing is dropped.
pub proof fn law_unmentioned_items_kept(existing: Seq<ItemV>, incoming: Seq<ItemV>, k: int)
    requires
        0 <= k < existing.len(),
        forall|j: int|
            0 <= j < incoming.len() ==> uid_of_item(#[trigger] incoming[j]) is None
                || uid_of_item(incoming[j]) != uid_of_item(existing[k]),
    ensures
        merged(existing, incoming).0.len() >= existing.len(),
        merged(existing, incoming).0[k] == existing[k],
    decreases incoming.len(),
{
    if incoming.len() > 0 {
        let rest = incoming.drop_last();
        assert forall|j: int| 0 <= j < rest.len() implies uid_of_item(#[trigger] rest[j]) is None
            || uid_of_item(rest[j]) != uid_of_item(existing[k]) by {
            assert(rest[j] == incoming[j]);
        }
        law_unmentioned_items_kept(existing, rest, k);
        let items = merged(existing, rest).0;
        let inc = incoming.last();
        assert(uid_of_item(incoming[incoming.len() - 1]) is None || uid_of_item(incoming[incoming.len() - 1])
            != uid_of_item(existing[k]));
        match uid_of_item(inc) {
            None => {},
            Some(u) => {
                if has_uid(items, u) {
                    lemma_first_facts(items, u);
                }
            },
        }
    }
}

/// The position of the last item carrying UID `u` (-1 when none does).
pub open spec fn last_with_uid(items: Seq<ItemV>, u: Seq<char>) -> int
    decreases items.len(),
{
    if items.len() == 0 {
        -1
    } else if uid_of_item(items.last()) == Some(u) {
        items.len() - 1
    } else {
        last_with_uid(items.drop_last(), u)
    }
}

proof fn lemma_last_facts(items: Seq<ItemV>, u: Seq<char>)
    ensures
        -1 <= last_with_uid(items, u) < items.len(),
        last_with_uid(items, u) >= 0 ==> uid_of_item(items[last_with_uid(items, u)]) == Some(u),
        forall|j: int|
            last_with_uid(items, u) < j < items.len() ==> uid_of_item(#[trigger] items[j]) != Some(u),
        (exists|j: int| 0 <= j < items.len() && #[trigger] uid_of_item(items[j]) == Some(u))
            ==> last_with_uid(items, u) >= 0,
    decreases items.len(),
{
    if items.len() > 0 && uid_of_item(items.last()) != Some(u) {
        let rest = items.drop_last();
        lemma_last_facts(rest, u);
        assert forall|j: int| last_with_uid(items, u) < j < items.len() implies uid_of_item(
            #[trigger] items[j],
        ) != Some(u) by {
            if j < items.len() - 1 {
                assert(items[j] == rest[j]);
            }
        }
        if exists|j: int| 0 <= j < items.len() && #[trigger] uid_of_item(items[j]) == Some(u) {
            let j = choose|j: int| 0 <= j < items.len() && #[trigger] uid_of_item(items[j]) == Some(u);
            assert(uid_of_item(rest[j]) == Some(u));
        }
    }
}

/// After a merge, each UID of the incoming items is present, and its first
/// entry is the last incoming item with that UID: a later item for the
/// same UID replaces an earlier one.
pub proof fn law_latest_item_wins(existing: Seq<ItemV>, incoming: Seq<ItemV>, u: Seq<char>)
    requires
        last_with_uid(incoming, u) >= 0,
    ensures
        has_uid(merged(existing, incoming).0, u),
        merged(existing, incoming).0[first_with_uid(merged(existing, incoming).0, u)]
            == incoming[last_with_uid(incoming, u)],
    decreases incoming.len(),
{
    lemma_last_facts(incoming, u);
    let rest = incoming.drop_last();
    let items = merged(existing, rest).0;
    let inc = incoming.last();
    let m = merged(existing, incoming).0;
    if uid_of_item(inc) == Some(u) {
        if has_uid(items, u) {
            lemma_first_facts(items, u);
            let f = first_with_uid(items, u);
            assert(m == items.update(f, inc));
            assert(uid_of_item(m[f]) == Some(u));
            assert forall|j: int| 0 <= j < f implies uid_of_item(#[trigger] m[j]) != Some(u) by {
                assert(m[j] == items[j]);
            }
            lemma_first_with_uid(m, u, f);
        } else {
            lemma_first_absent(items, u);
            assert(m == items.push(inc));
            assert(uid_of_item(m[items.len() as int]) == Some(u));
            assert forall|j: int| 0 <= j < items.len() implies uid_of_item(#[trigger] m[j]) != Some(u) by {
                assert(m[j] == items[j]);
            }
            lemma_first_with_uid(m, u, items.len() as int);
        }
    } else {
        assert(last_with_uid(rest, u) == last_with_uid(incoming, u));
        law_latest_item_wins(existing, rest, u);
        lemma_first_facts(items, u);
        let f = first_with_uid(items, u);
        assert(rest[last_with_uid(rest, u)] == incoming[last_with_uid(incoming, u)]);
        let g: int = match uid_of_item(inc) {
            Some(v) => if has_uid(items, v) {
                first_with_uid(items, v)
            } else {
                -1
            },
            None => -1,
        };
        match uid_of_item(inc) {
            Some(v) => {
                if has_uid(items, v) {
                    lemma_first_facts(items, v);
                }
            },
            None => {},
        }
        assert(g != f);
        if g >= 0 {
            assert(m == items.update(g, inc));
        } else {
            assert(m == items.push(inc));
        }
        assert forall|j: int| 0 <= j < f implies uid_of_item(#[trigger] m[j]) != Some(u) by {
            if j != g {
                assert(m[j] == items[j]);
            }
        }
        assert(m[f] == items[f]);
        lemma_first_with_uid(m, u, f);
        assert(exists|k: int| 0 <= k < m.len() && #[trigger] uid_of_item(m[k]) == Some(u)) by {
            assert(uid_of_item(m[f]) == Some(u));
        }
    }
}

/// Whether every item carries a UID (no standalone alarm).
pub open spec fn no_alarms(items: Seq<ItemV>) -> bool {
    forall|j: int| 0 <= j < items.len() ==> (#[trigger] uid_of_item(items[j])) is Some
}

/// The item expected at position `k` of `m` once `p` was merged into it
/// again: at the first entry of a UID that `p` names, the last item of `p`
/// with that UID; elsewhere the item of `m`.
spec fn expected_at(m: Seq<ItemV>, p: Seq<ItemV>, k: int) -> ItemV {
    match uid_of_item(m[k]) {
        Some(u) => if first_with_uid(m, u) == k && last_with_uid(p, u) >= 0 {
            p[last_with_uid(p, u)]
        } else {
            m[k]
        },
        None => m[k],
    }
}

/// `s` is `m` with the entries that merging `p` replaces replaced.
spec fn agrees(s: Seq<ItemV>, m: Seq<ItemV>, p: Seq<ItemV>) -> bool {
    &&& s.len() == m.len()
    &&& forall|k: int| 0 <= k < m.len() ==> uid_of_item(#[trigger] s[k]) == uid_of_item(m[k])
    &&& forall|k: int| 0 <= k < m.len() ==> #[trigger] s[k] == expected_at(m, p, k)
}

/// Each UID that `inc` names has an entry in `m`, and the first one holds
/// the last item of `inc` with that UID.
spec fn settled(m: Seq<ItemV>, inc: Seq<ItemV>) -> bool {
    forall|u: Seq<char>|
        #![trigger last_with_uid(inc, u)]
        last_with_uid(inc, u) >= 0 ==> has_uid(m, u) && m[first_with_uid(m, u)] == inc[last_with_uid(
            inc,
            u,
        )]
}

/// Merging `inc` into a settled `m` a second time, item by item: after a
/// prefix, the entries of the UIDs it named hold its last items.
proof fn lemma_second_pass(m: Seq<ItemV>, inc: Seq<ItemV>, n: int)
    requires
        settled(m, inc),
        no_alarms(inc),
        0 <= n <= inc.len(),
    ensures
        agrees(merged(m, inc.take(n)).0, m, inc.take(n)),
    decreases n,
{
    if n == 0 {
        assert(inc.take(0).len() == 0);
        let s = merged(m, inc.take(0)).0;
        assert(s == m);
        assert forall|k: int| 0 <= k < m.len() implies #[trigger] s[k] == expected_at(m, inc.take(0), k) by {
            match uid_of_item(m[k]) {
                Some(u) => assert(last_with_uid(inc.take(0), u) == -1),
                None => {},
            }
        }
    } else {
        lemma_second_pass(m, inc, n - 1);
        let p = inc.take(n - 1);
        let q = inc.take(n);
        assert(q.drop_last() =~= p);
        let x = inc[n - 1];
        assert(q.last() == x);
        let s = merged(m, p).0;
        assert(uid_of_item(inc[n - 1]) is Some);
        let v = uid_of_item(x).unwrap();
        lemma_last_facts(inc, v);
        assert(uid_of_item(inc[n - 1]) == Some(v));
        assert(last_with_uid(inc, v) >= 0);
        assert(has_uid(m, v));
        lemma_first_facts(m, v);
        let f = first_with_uid(m, v);
        assert forall|j: int| 0 <= j < f implies uid_of_item(#[trigger] s[j]) != Some(v) by {
            assert(uid_of_item(s[j]) == uid_of_item(m[j]));
        }
        assert(uid_of_item(s[f]) == Some(v));
        lemma_first_with_uid(s, v, f);
        assert(has_uid(s, v));
        let s2 = merged(m, q).0;
        assert(s2 == merge_step(s, x).0);
        assert(s2 == s.update(f, x));
        assert(last_with_uid(q, v) == n - 1);
        assert forall|k: int| 0 <= k < m.len() implies uid_of_item(#[trigger] s2[k]) == uid_of_item(m[k]) by {
            if k != f {
                assert(s2[k] == s[k]);
            }
        }
        assert forall|k: int| 0 <= k < m.len() implies #[trigger] s2[k] == expected_at(m, q, k) by {
            if k == f {
                assert(q[n - 1] == x);
            } else {
                assert(s2[k] == s[k]);
                assert(s[k] == expected_at(m, p, k));
                match uid_of_item(m[k]) {
                    Some(u) => {
                        if u != v {
                            assert(last_with_uid(q, u) == last_with_uid(p, u));
                            lemma_last_facts(p, u);
                            if last_with_uid(p, u) >= 0 {
                                assert(q[last_with_uid(p, u)] == p[last_with_uid(p, u)]);
                            }
                        }
                    },
                    None => {},
                }
            }
        }
    }
}

/// Merging the same items twice gives the calendar that merging them once
/// gives, when none of them is a standalone alarm (those are appended each
/// time).
pub proof fn law_merge_idempotent(existing: Seq<ItemV>, incoming: Seq<ItemV>)
    requires
        no_alarms(incoming),
    ensures
        merged(merged(existing, incoming).0, incoming).0 == merged(existing, incoming).0,
{
    let m = merged(existing, incoming).0;
    assert forall|u: Seq<char>| #[trigger] last_with_uid(incoming, u) >= 0 implies has_uid(m, u)
        && m[first_with_uid(m, u)] == incoming[last_with_uid(incoming, u)] by {
        law_latest_item_wins(existing, incoming, u);
    }
    lemma_second_pass(m, incoming, incoming.len() as int);
    assert(incoming.take(incoming.len() as int) =~= incoming);
    let s = merged(m, incoming).0;
    assert forall|k: int| 0 <= k < m.len() implies #[trigger] s[k] == m[k] by {
        assert(s[k] == expected_at(m, incoming, k));
        match uid_of_item(m[k]) {
            Some(u) => {
                if first_with_uid(m, u) == k && last_with_uid(incoming, u) >= 0 {
                    law_latest_item_wins(existing, incoming, u);
                }
            },
            None => {},
        }
    }
    assert(s =~= m);
}

} // verus!
