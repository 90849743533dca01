//! Router commands: the structured mail an authorized sender writes to
//! the router mailbox to have the orchestrator send (or schedule) a
//! message as one of the allowed identities.
//!
//! ```text
//! TO: someone@example.com
//! FROM: admin@sacredvote.org
//! SUBJECT: Your account has been verified
//! TEMPLATE: account_verified
//! VARS: name=John, date=2026-04-02
//! SCHEDULE: 2026-04-03T09:00:00Z
//! ---
//! Optional raw body here if no TEMPLATE specified.
//! ```
use vstd::prelude::*;
use crate::orchestrator::config::RouterConfig;
use crate::orchestrator::parser::{ParsedEmail, address_of, address_well_placed, extract_address};
use crate::text::{
    append_string, chars_of, first_index, is_empty_str, lines, lines_of, owned, push_char, slice_chars, split_all,
    split_all_chars, str_eq, string_of, to_lower, trim, trim_end, trim_end_chars, trimmed_chars,
    lower_text, views,
};

verus! {

// ----- commands ----------------------------------------------------------

/// Why a router command was refused.
#[derive(Debug, Clone, Copy, PartialEq, Eq)]
pub enum RouterError {
    MissingTo,
    MissingFrom,
    MissingSubject,
}

/// The text of a refusal.
pub open spec fn router_error_text(e: RouterError) -> Seq<char> {
    match e {
        RouterError::MissingTo => "Router command missing TO: field"@,
        RouterError::MissingFrom => "Router command missing FROM: field"@,
        RouterError::MissingSubject => "Router command missing SUBJECT: field"@,
    }
}

impl RouterError {
    /// The text of the refusal.
    pub fn message(&self) -> (r: String)
        ensures
            r@ == router_error_text(*self),
    {
        match self {
            RouterError::MissingTo => owned("Router command missing TO: field"),
            RouterError::MissingFrom => owned("Router command missing FROM: field"),
            RouterError::MissingSubject => owned("Router command missing SUBJECT: field"),
        }
    }
}

/// A router command read from a mail body. Template variables are kept
/// as (name, value) pairs, each name once, in the order first given.
#[derive(Debug)]
pub struct RouterCommand {
    pub to: String,
    pub from: String,
    pub subject: String,
    pub template: Option<String>,
    pub vars: Vec<(String, String)>,
    pub schedule: Option<String>,
    pub body: String,
}

/// The names a command line may start with.
pub open spec fn is_command_key(k: Seq<char>) -> bool {
    k == "TO"@ || k == "FROM"@ || k == "SUBJECT"@ || k == "TEMPLATE"@ || k == "VARS"@ || k
        == "SCHEDULE"@ || k == "ATTACH"@
}

/// A (trimmed) line of the form `KEY: value` with a known key and at
/// least one character after the colon, as (key, trimmed value).
pub open spec fn command_field(t: Seq<char>) -> Option<(Seq<char>, Seq<char>)> {
    match first_index(t, ':') {
        Some(i) => if is_command_key(t.take(i)) && i + 1 < t.len() {
            Some((t.take(i), trim(t.skip(i + 1))))
        } else {
            None
        },
        None => None,
    }
}

/// The position of variable `k`.
pub open spec fn var_pos(vars: Seq<(Seq<char>, Seq<char>)>, k: Seq<char>) -> Option<int>
    decreases vars.len(),
{
    if vars.len() == 0 {
        None
    } else if vars[0].0 == k {
        Some(0)
    } else {
        match var_pos(vars.drop_first(), k) {
            Some(i) => Some(i + 1),
            None => None,
        }
    }
}

/// The variables with `k` set to `v`: in place when `k` is there, at the
/// end otherwise.
pub open spec fn set_var(vars: Seq<(Seq<char>, Seq<char>)>, k: Seq<char>, v: Seq<char>) -> Seq<
    (Seq<char>, Seq<char>),
> {
    match var_pos(vars, k) {
        Some(i) => vars.update(i, (k, v)),
        None => vars.push((k, v)),
    }
}

/// A `name=value` item of `VARS`, both sides trimmed.
pub open spec fn var_item(p: Seq<char>) -> Option<(Seq<char>, Seq<char>)> {
    let t = trim(p);
    match first_index(t, '=') {
        Some(i) => Some((trim(t.take(i)), trim(t.skip(i + 1)))),
        None => None,
    }
}

/// The variables after the comma-separated `items` are set in order.
pub open spec fn vars_after(vars: Seq<(Seq<char>, Seq<char>)>, items: Seq<Seq<char>>) -> Seq<
    (Seq<char>, Seq<char>),
>
    decreases items.len(),
{
    if items.len() == 0 {
        vars
    } else {
        let before = vars_after(vars, items.drop_last());
        match var_item(items.last()) {
            Some((k, v)) => set_var(before, k, v),
            None => before,
        }
    }
}

/// What has been read of a command so far.
pub struct Draft {
    pub to: Seq<char>,
    pub from: Seq<char>,
    pub subject: Seq<char>,
    pub template: Option<Seq<char>>,
    pub vars: Seq<(Seq<char>, Seq<char>)>,
    pub schedule: Option<Seq<char>>,
    pub body: Seq<char>,
    pub in_body: bool,
}

/// Nothing read yet.
pub open spec fn empty_draft() -> Draft {
    Draft {
        to: seq![],
        from: seq![],
        subject: seq![],
        template: None,
        vars: seq![],
        schedule: None,
        body: seq![],
        in_body: false,
    }
}

/// The draft after the field `key: value`.
pub open spec fn with_field(d: Draft, key: Seq<char>, value: Seq<char>) -> Draft {
    if key == "TO"@ {
        Draft { to: value, ..d }
    } else if key == "FROM"@ {
        Draft { from: value, ..d }
    } else if key == "SUBJECT"@ {
        Draft { subject: value, ..d }
    } else if key == "TEMPLATE"@ {
        Draft { template: Some(value), ..d }
    } else if key == "VARS"@ {
        Draft { vars: vars_after(d.vars, split_all(value, ',')), ..d }
    } else if key == "SCHEDULE"@ {
        Draft { schedule: Some(value), ..d }
    } else {
        d
    }
}

/// The draft after one more line: past the `---` separator every line
/// is body; before it, a field line sets its field and anything else is
/// ignored.
pub open spec fn draft_step(d: Draft, line: Seq<char>) -> Draft {
    if d.in_body {
        Draft { body: (d.body + line).push('\n'), ..d }
    } else if trim(line) == "---"@ {
        Draft { in_body: true, ..d }
    } else {
        match command_field(trim(line)) {
            Some((k, v)) => with_field(d, k, v),
            None => d,
        }
    }
}

/// The draft after the lines, in order.
pub open spec fn draft_of(ls: Seq<Seq<char>>) -> Draft
    decreases ls.len(),
{
    if ls.len() == 0 {
        empty_draft()
    } else {
        draft_step(draft_of(ls.drop_last()), ls.last())
    }
}

/// A command as plain values.
pub struct CommandV {
    pub to: Seq<char>,
    pub from: Seq<char>,
    pub subject: Seq<char>,
    pub template: Option<Seq<char>>,
    pub vars: Seq<(Seq<char>, Seq<char>)>,
    pub schedule: Option<Seq<char>>,
    pub body: Seq<char>,
}

/// The text of an optional string.
pub open spec fn opt_view(o: Option<String>) -> Option<Seq<char>> {
    match o {
        Some(s) => Some(s@),
        None => None,
    }
}

/// Pairs of strings as plain values.
pub open spec fn pairs_view(v: Seq<(String, String)>) -> Seq<(Seq<char>, Seq<char>)> {
    v.map_values(|p: (String, String)| (p.0@, p.1@))
}

/// A command as plain values.
pub open spec fn command_view(c: RouterCommand) -> CommandV {
    CommandV {
        to: c.to@,
        from: c.from@,
        subject: c.subject@,
        template: opt_view(c.template),
        vars: pairs_view(c.vars@),
        schedule: opt_view(c.schedule),
        body: c.body@,
    }
}

/// The command a mail body holds: TO, FROM and SUBJECT are required
/// (in that order of checking); the body keeps its text up to the last
/// non-blank character.
pub open spec fn command_of(body: Seq<char>) -> Result<CommandV, RouterError> {
    let d = draft_of(lines(body));
    if d.to.len() == 0 {
        Err(RouterError::MissingTo)
    } else if d.from.len() == 0 {
        Err(RouterError::MissingFrom)
    } else if d.subject.len() == 0 {
        Err(RouterError::MissingSubject)
    } else {
        Ok(
            CommandV {
                to: d.to,
                from: d.from,
                subject: d.subject,
                template: d.template,
                vars: d.vars,
                schedule: d.schedule,
                body: trim_end(d.body),
            },
        )
    }
}

/// Whether no two variables share a name.
pub open spec fn distinct_keys(vars: Seq<(Seq<char>, Seq<char>)>) -> bool {
    forall|i: int, j: int| 0 <= i < j < vars.len() ==> #[trigger] vars[i].0 != #[trigger] vars[j].0
}

proof fn lemma_var_pos(vars: Seq<(Seq<char>, Seq<char>)>, k: Seq<char>)
    ensures
        var_pos(vars, k) matches Some(i) ==> 0 <= i < vars.len() && vars[i].0 == k,
        var_pos(vars, k) is None ==> forall|j: int| 0 <= j < vars.len() ==> vars[j].0 != k,
    decreases vars.len(),
{
    if vars.len() > 0 {
        lemma_var_pos(vars.drop_first(), k);
        if var_pos(vars, k) is None {
            assert forall|j: int| 0 <= j < vars.len() implies vars[j].0 != k by {
                if j > 0 {
                    assert(vars.drop_first()[j - 1] == vars[j]);
                }
            }
        }
    }
}

proof fn lemma_set_var_distinct(vars: Seq<(Seq<char>, Seq<char>)>, k: Seq<char>, v: Seq<char>)
    requires
        distinct_keys(vars),
    ensures
        distinct_keys(set_var(vars, k, v)),
{
    lemma_var_pos(vars, k);
    let t = set_var(vars, k, v);
    assert forall|i: int, j: int| 0 <= i < j < t.len() implies #[trigger] t[i].0 != #[trigger] t[j].0 by {
        match var_pos(vars, k) {
            Some(p) => {
                if i != p && j != p {
                    assert(vars[i].0 != vars[j].0);
                } else if i == p {
                    assert(vars[p].0 != vars[j].0);
                } else {
                    assert(vars[i].0 != vars[p].0);
                }
            },
            None => {
                if j < vars.len() {
                    assert(vars[i].0 != vars[j].0);
                }
            },
        }
    }
}

proof fn lemma_vars_after_distinct(vars: Seq<(Seq<char>, Seq<char>)>, items: Seq<Seq<char>>)
    requires
        distinct_keys(vars),
    ensures
        distinct_keys(vars_after(vars, items)),
    decreases items.len(),
{
    if items.len() > 0 {
        lemma_vars_after_distinct(vars, items.drop_last());
        if let Some((k, v)) = var_item(items.last()) {
            lemma_set_var_distinct(vars_after(vars, items.drop_last()), k, v);
        }
    }
}

proof fn lemma_draft_vars_distinct(ls: Seq<Seq<char>>)
    ensures
        distinct_keys(draft_of(ls).vars),
    decreases ls.len(),
{
    if ls.len() > 0 {
        lemma_draft_vars_distinct(ls.drop_last());
        let d = draft_of(ls.drop_last());
        let t = trim(ls.last());
        if let Some((k, v)) = command_field(t) {
            if k == "VARS"@ {
                lemma_vars_after_distinct(d.vars, split_all(v, ','));
            }
        }
    }
}

/// The variables of a command that reads carry distinct names: a later
/// `name=value` replaces an earlier one of the same name.
pub proof fn law_command_vars_distinct(body: Seq<char>)
    ensures
        command_of(body) matches Ok(c) ==> distinct_keys(c.vars),
{
    lemma_draft_vars_distinct(lines(body));
}

/// The draft being filled.
struct DraftBuf {
    to: String,
    from: String,
    subject: String,
    template: Option<String>,
    vars: Vec<(String, String)>,
    schedule: Option<String>,
    body: String,
    in_body: bool,
}

spec fn buf_view(b: DraftBuf) -> Draft {
    Draft {
        to: b.to@,
        from: b.from@,
        subject: b.subject@,
        template: opt_view(b.template),
        vars: pairs_view(b.vars@),
        schedule: opt_view(b.schedule),
        body: b.body@,
        in_body: b.in_body,
    }
}

/// Sets variable `k` to `v`.
fn set_var_in(vars: &mut Vec<(String, String)>, k: String, v: String)
    ensures
        pairs_view(final(vars)@) == set_var(pairs_view(old(vars)@), k@, v@),
{
    let ghost s = pairs_view(vars@);
    let mut i: usize = 0;
    assert(s.skip(0) =~= s);
    while i < vars.len()
        invariant
            i <= vars@.len(),
            s == pairs_view(vars@),
            s == pairs_view(old(vars)@),
            var_pos(s, k@) == match var_pos(s.skip(i as int), k@) {
                Some(j) => Some(j + i),
                None => None,
            },
        decreases vars.len() - i,
    {
        assert(s.skip(i as int)[0] == s[i as int]);
        assert(s.skip(i as int).drop_first() =~= s.skip(i + 1));
        if str_eq(vars[i].0.as_str(), k.as_str()) {
            assert(s[i as int].0 == k@);
            assert(var_pos(s.skip(i as int), k@) == Some(0int));
            let ghost kv = k@;
            let ghost vv = v@;
            vars.set(i, (k, v));
            assert(pairs_view(vars@) =~= s.update(i as int, (kv, vv)));
            return;
        }
        i = i + 1;
    }
    let ghost kv = k@;
    let ghost vv = v@;
    vars.push((k, v));
    assert(pairs_view(vars@) =~= s.push((kv, vv)));
}

/// Sets the variables of a `VARS` value.
fn set_vars(vars: &mut Vec<(String, String)>, value: &Vec<char>)
    ensures
        pairs_view(final(vars)@) == vars_after(pairs_view(old(vars)@), split_all(value@, ',')),
{
    let items = split_all_chars(value, ',');
    let ghost start = pairs_view(vars@);
    let ghost its = views(items@);
    let mut i: usize = 0;
    assert(its.take(0) =~= Seq::<Seq<char>>::empty());
    while i < items.len()
        invariant
            i <= items@.len(),
            its == views(items@),
            its == split_all(value@, ','),
            pairs_view(vars@) == vars_after(start, its.take(i as int)),
        decreases items.len() - i,
    {
        assert(its.take(i + 1).drop_last() =~= its.take(i as int));
        assert(its[i as int] == items@[i as int]@);
        let t = trimmed_chars(&items[i]);
        match crate::text::find_char(&t, '=') {
            Some(eq) => {
                proof {
                    crate::text::lemma_first_index_facts(t@, '=');
                }
                let k = string_of(&trimmed_chars(&slice_chars(&t, 0, eq)));
                let v = string_of(&trimmed_chars(&slice_chars(&t, eq + 1, t.len())));
                assert(t@.subrange(0, eq as int) =~= t@.take(eq as int));
                assert(t@.subrange(eq + 1, t@.len() as int) =~= t@.skip(eq + 1));
                set_var_in(vars, k, v);
            },
            None => {},
        }
        i = i + 1;
    }
    assert(its.take(its.len() as int) =~= its);
}

/// Reads one more line of a command.
fn draft_line(b: &mut DraftBuf, line: &Vec<char>)
    ensures
        buf_view(*final(b)) == draft_step(buf_view(*old(b)), line@),
{
    if b.in_body {
        let ghost before = b.body@;
        crate::text::append_chars(&mut b.body, line);
        push_char(&mut b.body, '\n');
        return;
    }
    let t = trimmed_chars(line);
    if str_eq(string_of(&t).as_str(), "---") {
        b.in_body = true;
        return;
    }
    let colon = match crate::text::find_char(&t, ':') {
        Some(c) => c,
        None => {
            return;
        },
    };
    proof {
        crate::text::lemma_first_index_facts(t@, ':');
    }
    let key = string_of(&slice_chars(&t, 0, colon));
    assert(key@ =~= t@.take(colon as int));
    let known = str_eq(key.as_str(), "TO") || str_eq(key.as_str(), "FROM") || str_eq(
        key.as_str(),
        "SUBJECT",
    ) || str_eq(key.as_str(), "TEMPLATE") || str_eq(key.as_str(), "VARS") || str_eq(
        key.as_str(),
        "SCHEDULE",
    ) || str_eq(key.as_str(), "ATTACH");
    if !known || colon + 1 >= t.len() {
        return;
    }
    let vchars = trimmed_chars(&slice_chars(&t, colon + 1, t.len()));
    assert(t@.subrange(colon + 1, t@.len() as int) =~= t@.skip(colon + 1));
    let value = string_of(&vchars);
    if str_eq(key.as_str(), "TO") {
        b.to = value;
    } else if str_eq(key.as_str(), "FROM") {
        b.from = value;
    } else if str_eq(key.as_str(), "SUBJECT") {
        b.subject = value;
    } else if str_eq(key.as_str(), "TEMPLATE") {
        b.template = Some(value);
    } else if str_eq(key.as_str(), "VARS") {
        set_vars(&mut b.vars, &vchars);
    } else if str_eq(key.as_str(), "SCHEDULE") {
        b.schedule = Some(value);
    }
}

/// Reads a router command from a mail body.
pub fn parse_command(body: &str) -> (r: Result<RouterCommand, RouterError>)
    ensures
        match r {
            Ok(c) => command_of(body@) == Ok::<CommandV, RouterError>(command_view(c))
                && distinct_keys(pairs_view(c.vars@)),
            Err(e) => command_of(body@) == Err::<CommandV, RouterError>(e),
        },
{
    proof {
        law_command_vars_distinct(body@);
    }
    let ls = lines_of(&chars_of(body));
    let ghost lv = views(ls@);
    let mut b = DraftBuf {
        to: String::new(),
        from: String::new(),
        subject: String::new(),
        template: None,
        vars: Vec::new(),
        schedule: None,
        body: String::new(),
        in_body: false,
    };
    assert(pairs_view(b.vars@) =~= Seq::<(Seq<char>, Seq<char>)>::empty());
    assert(lv.take(0) =~= Seq::<Seq<char>>::empty());
    let mut i: usize = 0;
    while i < ls.len()
        invariant
            i <= ls@.len(),
            lv == views(ls@),
            lv == lines(body@),
            buf_view(b) == draft_of(lv.take(i as int)),
        decreases ls.len() - i,
    {
        assert(lv.take(i + 1).drop_last() =~= lv.take(i as int));
        assert(lv[i as int] == ls@[i as int]@);
        draft_line(&mut b, &ls[i]);
        i = i + 1;
    }
    assert(lv.take(lv.len() as int) =~= lv);
    if is_empty_str(b.to.as_str()) {
        return Err(RouterError::MissingTo);
    }
    if is_empty_str(b.from.as_str()) {
        return Err(RouterError::MissingFrom);
    }
    if is_empty_str(b.subject.as_str()) {
        return Err(RouterError::MissingSubject);
    }
    let body_text = string_of(&trim_end_chars(&chars_of(b.body.as_str())));
    Ok(
        RouterCommand {
            to: b.to,
            from: b.from,
            subject: b.subject,
            template: b.template,
            vars: b.vars,
            schedule: b.schedule,
            body: body_text,
        },
    )
}

impl RouterCommand {
    /// The value of template variable `key`.
    pub fn var(&self, key: &str) -> (r: Option<&str>)
        ensures
            match var_pos(pairs_view(self.vars@), key@) {
                Some(i) => r matches Some(v) && v@ == pairs_view(self.vars@)[i].1,
                None => r is None,
            },
    {
        let ghost s = pairs_view(self.vars@);
        let mut i: usize = 0;
        assert(s.skip(0) =~= s);
        while i < self.vars.len()
            invariant
                i <= self.vars@.len(),
                s == pairs_view(self.vars@),
                var_pos(s, key@) == match var_pos(s.skip(i as int), key@) {
                    Some(j) => Some(j + i),
                    None => None,
                },
            decreases self.vars.len() - i,
        {
            assert(s.skip(i as int)[0] == s[i as int]);
            assert(s.skip(i as int).drop_first() =~= s.skip(i + 1));
            if str_eq(self.vars[i].0.as_str(), key) {
                return Some(self.vars[i].1.as_str());
            }
            i = i + 1;
        }
        None
    }
}

// ----- answering a router mail -------------------------------------------

/// The identity the router answers from.
pub const ROUTER_IDENTITY: &'static str = "router@sacredvote.org";

/// The display name of the router's answers.
pub const ROUTER_DISPLAY_NAME: &'static str = "Mail Orchestrator";

/// What answering a router mail takes.
#[derive(Debug)]
pub enum RouterPlan {
    /// The sender may not command the router: log the mail as rejected.
    Reject,
    /// The body holds no command: log the mail as failed and tell the
    /// sender why.
    Unparsable { reply_subject: String, reply: String },
    /// The command asks to send as an identity that is not allowed: log
    /// the mail as rejected and tell the sender.
    FromNotAllowed { reply_subject: String, reply: String },
    /// Queue the message for `at`, then acknowledge.
    Schedule {
        command: RouterCommand,
        at: String,
        body: String,
        ack_subject: String,
        ack_body: String,
    },
    /// Send the message now; acknowledge once it went out.
    Send { command: RouterCommand, body: String, ack_subject: String, ack_body: String },
}

/// The decision on a router mail: whom to answer, and what to do.
#[derive(Debug)]
pub struct RouterDecision {
    /// The sender's bare address, lower-cased.
    pub sender_addr: String,
    pub plan: RouterPlan,
}

/// A plan as plain values.
pub enum PlanV {
    Reject,
    Unparsable(Seq<char>, Seq<char>),
    FromNotAllowed(Seq<char>, Seq<char>),
    Schedule(CommandV, Seq<char>, Seq<char>, Seq<char>, Seq<char>),
    Send(CommandV, Seq<char>, Seq<char>, Seq<char>),
}

/// A plan as plain values.
pub open spec fn plan_view(p: RouterPlan) -> PlanV {
    match p {
        RouterPlan::Reject => PlanV::Reject,
        RouterPlan::Unparsable { reply_subject, reply } => PlanV::Unparsable(reply_subject@, reply@),
        RouterPlan::FromNotAllowed { reply_subject, reply } => PlanV::FromNotAllowed(
            reply_subject@,
            reply@,
        ),
        RouterPlan::Schedule { command, at, body, ack_subject, ack_body } => PlanV::Schedule(
            command_view(command),
            at@,
            body@,
            ack_subject@,
            ack_body@,
        ),
        RouterPlan::Send { command, body, ack_subject, ack_body } => PlanV::Send(
            command_view(command),
            body@,
            ack_subject@,
            ack_body@,
        ),
    }
}

/// The status under which the inbound mail is recorded in the audit log:
/// every plan records it.
pub open spec fn inbound_log_status(p: PlanV) -> Seq<char> {
    match p {
        PlanV::Reject => "rejected"@,
        PlanV::Unparsable(_, _) => "failed"@,
        PlanV::FromNotAllowed(_, _) => "rejected"@,
        PlanV::Schedule(_, _, _, _, _) => "processing"@,
        PlanV::Send(_, _, _, _) => "processing"@,
    }
}

impl RouterPlan {
    /// The status under which the inbound mail is recorded before the plan
    /// is carried out.
    pub fn inbound_status(&self) -> (r: &'static str)
        ensures
            r@ == inbound_log_status(plan_view(*self)),
    {
        match self {
            RouterPlan::Reject => "rejected",
            RouterPlan::Unparsable { .. } => "failed",
            RouterPlan::FromNotAllowed { .. } => "rejected",
            RouterPlan::Schedule { .. } => "processing",
            RouterPlan::Send { .. } => "processing",
        }
    }
}

/// Whether some entry of `list`, lower-cased, is `x`.
pub open spec fn listed(list: Seq<Seq<char>>, x: Seq<char>) -> bool {
    exists|i: int| 0 <= i < list.len() && #[trigger] lower_text(list[i]) == x
}

/// The strings as plain values.
pub open spec fn strings_view(v: Seq<String>) -> Seq<Seq<char>> {
    v.map_values(|s: String| s@)
}

/// The answer to a command that could not be read.
pub open spec fn unparsable_reply(e: RouterError, tid: Seq<char>) -> Seq<char> {
    "Your router command could not be parsed.\n\nError: "@ + router_error_text(e)
        + "\n\nTracking ID: "@ + tid
}

/// The answer to a command asking for an identity that is not allowed.
pub open spec fn identity_reply(from: Seq<char>, tid: Seq<char>) -> Seq<char> {
    "Identity '"@ + from + "' is not in the allowed sender list.\n\nTracking ID: "@ + tid
}

/// The acknowledgement of a scheduled send.
pub open spec fn scheduled_ack(c: CommandV, at: Seq<char>, tid: Seq<char>) -> Seq<char> {
    "Your email has been scheduled.\n\nFrom: "@ + c.from + "\nTo: "@ + c.to + "\nSubject: "@
        + c.subject + "\nScheduled: "@ + at + "\n\nTracking ID: "@ + tid
}

/// The acknowledgement of a send.
pub open spec fn sent_ack(c: CommandV, tid: Seq<char>) -> Seq<char> {
    "Your email has been sent.\n\nFrom: "@ + c.from + "\nTo: "@ + c.to + "\nSubject: "@
        + c.subject + "\n\nTracking ID: "@ + tid
}

/// The body that is sent: the command's, or `default` when it has none.
pub open spec fn body_or(c: CommandV, default: Seq<char>) -> Seq<char> {
    if c.body.len() == 0 {
        default
    } else {
        c.body
    }
}

/// What answering a mail from `from` with body `body` takes, given the
/// senders who may command the router and the identities it may send as.
pub open spec fn plan_of(
    from: Seq<char>,
    body: Seq<char>,
    authorized: Seq<Seq<char>>,
    allowed: Seq<Seq<char>>,
    tid: Seq<char>,
) -> PlanV {
    let sender = lower_text(address_of(from));
    if !listed(authorized, sender) {
        PlanV::Reject
    } else {
        match command_of(body) {
            Err(e) => PlanV::Unparsable("Router Command Failed"@, unparsable_reply(e, tid)),
            Ok(c) => if !listed(allowed, lower_text(c.from)) {
                PlanV::FromNotAllowed("Router Command Rejected"@, identity_reply(c.from, tid))
            } else {
                match c.schedule {
                    Some(at) => PlanV::Schedule(
                        c,
                        at,
                        body_or(c, "(template-based email)"@),
                        "Scheduled: "@ + c.subject,
                        scheduled_ack(c, at, tid),
                    ),
                    None => PlanV::Send(
                        c,
                        body_or(c, "(no body provided)"@),
                        "Sent: "@ + c.subject,
                        sent_ack(c, tid),
                    ),
                }
            },
        }
    }
}

/// Whether some entry of `list`, lower-cased, is `x`.
fn is_listed(list: &Vec<String>, x: &str) -> (r: bool)
    ensures
        r == listed(strings_view(list@), x@),
{
    let ghost l = strings_view(list@);
    let mut i: usize = 0;
    while i < list.len()
        invariant
            i <= list@.len(),
            l == strings_view(list@),
            forall|k: int| 0 <= k < i ==> #[trigger] lower_text(l[k]) != x@,
        decreases list.len() - i,
    {
        let low = to_lower(list[i].as_str());
        assert(l[i as int] == list@[i as int]@);
        assert(low@ == lower_text(l[i as int]));
        if str_eq(low.as_str(), x) {
            assert(lower_text(l[i as int]) == x@);
            return true;
        }
        i = i + 1;
    }
    false
}

fn command_text(c: &RouterCommand) -> (r: String)
    ensures
        r@ == c.body@,
{
    string_of(&chars_of(c.body.as_str()))
}

/// Decides how to answer a mail to the router: whether its sender may
/// command it, whether the command reads, whether the identity it asks
/// for is allowed, and whether to send now or schedule.
pub fn plan_router_command(email: &ParsedEmail, config: &RouterConfig, tracking_id: &str) -> (r:
    RouterDecision)
    requires
        address_well_placed(email.from@),
    ensures
        r.sender_addr@ == lower_text(address_of(email.from@)),
        plan_view(r.plan) == plan_of(
            email.from@,
            email.body_text@,
            strings_view(config.authorized_senders@),
            strings_view(config.allowed_from@),
            tracking_id@,
        ),
{
    let sender_addr = to_lower(extract_address(email.from.as_str()).as_str());
    if !is_listed(&config.authorized_senders, sender_addr.as_str()) {
        return RouterDecision { sender_addr, plan: RouterPlan::Reject };
    }
    let cmd = match parse_command(email.body_text.as_str()) {
        Ok(c) => c,
        Err(e) => {
            let mut reply = owned("Your router command could not be parsed.\n\nError: ");
            append_string(&mut reply, &e.message());
            reply.append("\n\nTracking ID: ");
            reply.append(tracking_id);
            return RouterDecision {
                sender_addr,
                plan: RouterPlan::Unparsable { reply_subject: owned("Router Command Failed"), reply },
            };
        },
    };
    let ghost cv = command_view(cmd);
    if !is_listed(&config.allowed_from, to_lower(cmd.from.as_str()).as_str()) {
        let mut reply = owned("Identity '");
        append_string(&mut reply, &cmd.from);
        reply.append("' is not in the allowed sender list.\n\nTracking ID: ");
        reply.append(tracking_id);
        return RouterDecision {
            sender_addr,
            plan: RouterPlan::FromNotAllowed { reply_subject: owned("Router Command Rejected"), reply },
        };
    }
    let mut ack_subject = owned(
        if cmd.schedule.is_some() {
            "Scheduled: "
        } else {
            "Sent: "
        },
    );
    append_string(&mut ack_subject, &cmd.subject);
    let empty = is_empty_str(cmd.body.as_str());
    match &cmd.schedule {
        Some(at) => {
            let body = if empty {
                owned("(template-based email)")
            } else {
                command_text(&cmd)
            };
            let mut ack = owned("Your email has been scheduled.\n\nFrom: ");
            append_string(&mut ack, &cmd.from);
            ack.append("\nTo: ");
            append_string(&mut ack, &cmd.to);
            ack.append("\nSubject: ");
            append_string(&mut ack, &cmd.subject);
            ack.append("\nScheduled: ");
            append_string(&mut ack, at);
            ack.append("\n\nTracking ID: ");
            ack.append(tracking_id);
            let at = at.clone();
            assert(ack@ =~= scheduled_ack(cv, at@, tracking_id@));
            RouterDecision {
                sender_addr,
                plan: RouterPlan::Schedule { command: cmd, at, body, ack_subject, ack_body: ack },
            }
        },
        None => {
            let body = if empty {
                owned("(no body provided)")
            } else {
                command_text(&cmd)
            };
            let mut ack = owned("Your email has been sent.\n\nFrom: ");
            append_string(&mut ack, &cmd.from);
            ack.append("\nTo: ");
            append_string(&mut ack, &cmd.to);
            ack.append("\nSubject: ");
            append_string(&mut ack, &cmd.subject);
            ack.append("\n\nTracking ID: ");
            ack.append(tracking_id);
            assert(ack@ =~= sent_ack(cv, tracking_id@));
            RouterDecision {
                sender_addr,
                plan: RouterPlan::Send { command: cmd, body, ack_subject, ack_body: ack },
            }
        },
    }
}

} // verus!
