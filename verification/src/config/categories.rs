//! Category rules: a typed, header-only match language, an in-process
//! evaluator and a Sieve emitter that agree on the order rules fire in.
//!
//! Rules fire by score, highest first, ties broken by id; a rule marked
//! `stop_on_match` ends evaluation. Matching is case-insensitive, as
//! Sieve's `:contains` is (RFC 5228), and only headers and the subject are
//! ever read.
use vstd::prelude::*;
use vstd::relations::{sorted_by, total_ordering};
use crate::seqs::{concat, join, lemma_concat_step, lemma_join_step};
use crate::text::{
    append_string, chars_of, dec_int, eq_ignore_case, eq_ignore_case_str, fmt_i64, has_sub,
    last_index, lemma_last_index_facts, lemma_seq_lt_irreflexive, lemma_seq_lt_total,
    lemma_seq_lt_transitive, owned, push_char, rfind_char, seq_lt, str_eq, str_lt,
    string_of_range, to_lower, contains_str, lower_text, ascii_lower, has_prefix, lemma_sub_self, lemma_sub_within, ascii_lower_seq,
};

verus! {

/// A header-only match expression.
#[derive(Debug, PartialEq, Eq)]
pub enum MatchExpr {
    /// Always true; the trailing default route.
    Always,
    /// Header `header` contains `substring` (case-insensitive).
    HeaderContains { header: String, substring: String },
    /// Header `header` is present, with any value.
    HasHeader { header: String },
    /// The `From:` address ends in one of the listed domains (each with
    /// its leading `@`, compared case-insensitively).
    FromDomainIn { domains: Vec<String> },
    /// The subject contains one of the needles (case-insensitive).
    SubjectContainsAny { needles: Vec<String> },
    /// Every sub-expression matches.
    All { exprs: Vec<MatchExpr> },
    /// At least one sub-expression matches.
    Any { exprs: Vec<MatchExpr> },
    /// The sub-expression does not match.
    Not { expr: Box<MatchExpr> },
}

/// What a rule does when it fires.
#[derive(Debug, PartialEq, Eq)]
pub enum Action {
    /// Move the message to a folder, creating it when missing.
    FileInto { folder: String },
    /// Set an IMAP flag without moving the message.
    SetFlag { flag: String },
    /// Several actions, in order.
    Sequence { actions: Vec<Action> },
}

/// One category rule.
#[derive(Debug, PartialEq, Eq)]
pub struct CategoryRule {
    /// Stable snake_case identifier, used in audit headers.
    pub id: String,
    /// Human-readable name.
    pub display_name: String,
    /// The match condition.
    pub when: MatchExpr,
    /// What to do when it matches.
    pub action: Action,
    /// Higher scores fire first; equal scores fire in id order.
    pub score: i32,
    /// Whether evaluation ends once this rule has matched.
    pub stop_on_match: bool,
}

/// The audit record of a fired rule, written as a header value.
#[derive(Debug, Clone, PartialEq, Eq)]
pub struct AuditTag {
    pub rule_id: String,
    pub score: i32,
}

/// Sieve emission options.
#[derive(Debug, Clone, Copy, PartialEq, Eq, Structural)]
pub struct SieveEmitOptions {
    /// Emit `X-PlausiDen-Category` audit headers through the `editheader`
    /// extension (off by default).
    pub audit_header: bool,
}

impl Default for SieveEmitOptions {
    /// No audit header.
    fn default() -> (r: SieveEmitOptions)
        ensures
            !r.audit_header,
    {
        SieveEmitOptions { audit_header: false }
    }
}

/// A collection of rules.
#[derive(Debug)]
pub struct CategoryRules {
    pub rules: Vec<CategoryRule>,
}

/// The headers, sender and subject of a message, as the evaluator reads it.
pub struct MessageContext<'a> {
    /// Lower-cased header names with their original-case values, in
    /// arrival order; a repeated header is repeated here.
    pub headers: &'a [(String, String)],
    /// The lower-cased `From:` address, or empty when unknown.
    pub from_address: &'a str,
    /// The subject, in its original case.
    pub subject: &'a str,
}

// ----- the mathematical model ----------------------------------------

/// A match expression as plain values.
pub enum MatchSpec {
    Always,
    HeaderContains { header: Seq<char>, substring: Seq<char> },
    HasHeader { header: Seq<char> },
    FromDomainIn { domains: Seq<Seq<char>> },
    SubjectContainsAny { needles: Seq<Seq<char>> },
    All { exprs: Seq<MatchSpec> },
    Any { exprs: Seq<MatchSpec> },
    Not { expr: Box<MatchSpec> },
}

/// An action as plain values.
pub enum ActionSpec {
    FileInto { folder: Seq<char> },
    SetFlag { flag: Seq<char> },
    Sequence { actions: Seq<ActionSpec> },
}

/// A rule as plain values.
pub struct RuleSpec {
    pub id: Seq<char>,
    pub display_name: Seq<char>,
    pub when: MatchSpec,
    pub action: ActionSpec,
    pub score: int,
    pub stop_on_match: bool,
}

/// The views of a vector of strings.
pub open spec fn strings_view(v: Vec<String>) -> Seq<Seq<char>> {
    v@.map_values(|s: String| s@)
}

/// A match expression as plain values.
pub open spec fn match_view(e: MatchExpr) -> MatchSpec
    decreases e,
{
    match e {
        MatchExpr::Always => MatchSpec::Always,
        MatchExpr::HeaderContains { header, substring } => MatchSpec::HeaderContains {
            header: header@,
            substring: substring@,
        },
        MatchExpr::HasHeader { header } => MatchSpec::HasHeader { header: header@ },
        MatchExpr::FromDomainIn { domains } => MatchSpec::FromDomainIn {
            domains: strings_view(domains),
        },
        MatchExpr::SubjectContainsAny { needles } => MatchSpec::SubjectContainsAny {
            needles: strings_view(needles),
        },
        MatchExpr::All { exprs } => MatchSpec::All {
            exprs: Seq::new(
                exprs.len() as nat,
                |i: int|
                    if 0 <= i < exprs.len() {
                        match_view(exprs[i])
                    } else {
                        MatchSpec::Always
                    },
            ),
        },
        MatchExpr::Any { exprs } => MatchSpec::Any {
            exprs: Seq::new(
                exprs.len() as nat,
                |i: int|
                    if 0 <= i < exprs.len() {
                        match_view(exprs[i])
                    } else {
                        MatchSpec::Always
                    },
            ),
        },
        MatchExpr::Not { expr } => MatchSpec::Not { expr: Box::new(match_view(*expr)) },
    }
}

/// An action as plain values.
pub open spec fn action_view(a: Action) -> ActionSpec
    decreases a,
{
    match a {
        Action::FileInto { folder } => ActionSpec::FileInto { folder: folder@ },
        Action::SetFlag { flag } => ActionSpec::SetFlag { flag: flag@ },
        Action::Sequence { actions } => ActionSpec::Sequence {
            actions: Seq::new(
                actions.len() as nat,
                |i: int|
                    if 0 <= i < actions.len() {
                        action_view(actions[i])
                    } else {
                        ActionSpec::Sequence { actions: seq![] }
                    },
            ),
        },
    }
}

/// A rule as plain values.
pub open spec fn rule_view(r: CategoryRule) -> RuleSpec {
    RuleSpec {
        id: r.id@,
        display_name: r.display_name@,
        when: match_view(r.when),
        action: action_view(r.action),
        score: r.score as int,
        stop_on_match: r.stop_on_match,
    }
}

/// The rules of a collection as plain values.
pub open spec fn rules_view(rs: Seq<CategoryRule>) -> Seq<RuleSpec> {
    rs.map_values(|r: CategoryRule| rule_view(r))
}

// ----- evaluation ----------------------------------------------------

/// The domain part of a sender address, from its last `@` on.
pub open spec fn from_domain(from: Seq<char>) -> Option<Seq<char>> {
    match last_index(from, '@') {
        Some(i) => Some(from.skip(i)),
        None => None,
    }
}

/// The values of the headers whose (lower-cased) name is `name`.
pub open spec fn values_named(headers: Seq<(String, String)>, name: Seq<char>) -> Seq<Seq<char>> {
    crate::seqs::filter_map(
        headers,
        |h: (String, String)|
            if h.0@ == name {
                Some(h.1@)
            } else {
                None
            },
    )
}

/// Whether the header at `k` is named `header` (compared lower-cased).
pub open spec fn header_named(ctx: MessageContext, k: int, header: Seq<char>) -> bool {
    ctx.headers@[k].0@ == lower_text(header)
}

/// Whether the header at `k` is named `header` and its value contains
/// `substring`, both compared lower-cased.
pub open spec fn header_has(ctx: MessageContext, k: int, header: Seq<char>, substring: Seq<char>) -> bool {
    header_named(ctx, k, header) && has_sub(lower_text(ctx.headers@[k].1@), lower_text(substring))
}

/// Whether some header named `header` has a value containing `substring`.
pub open spec fn some_header_has(ctx: MessageContext, header: Seq<char>, substring: Seq<char>) -> bool {
    exists|k: int| 0 <= k < ctx.headers@.len() && #[trigger] header_has(ctx, k, header, substring)
}

/// Whether a header named `header` is present.
pub open spec fn some_header_named(ctx: MessageContext, header: Seq<char>) -> bool {
    exists|k: int| 0 <= k < ctx.headers@.len() && #[trigger] header_named(ctx, k, header)
}

/// Whether the sender's domain is one of `domains` (ignoring ASCII case).
pub open spec fn from_domain_in(domains: Seq<Seq<char>>, from: Seq<char>) -> bool {
    match from_domain(from) {
        Some(dom) => exists|j: int| 0 <= j < domains.len() && eq_ignore_case(#[trigger] domains[j], dom),
        None => false,
    }
}

/// Whether the subject contains one of the needles (compared lower-cased).
pub open spec fn subject_contains_any(subject: Seq<char>, needles: Seq<Seq<char>>) -> bool {
    exists|j: int|
        0 <= j < needles.len() && has_sub(lower_text(subject), lower_text(#[trigger] needles[j]))
}

/// Whether an expression matches a message.
pub open spec fn expr_matches(e: MatchSpec, ctx: MessageContext) -> bool
    decreases e,
{
    match e {
        MatchSpec::Always => true,
        MatchSpec::HeaderContains { header, substring } => some_header_has(ctx, header, substring),
        MatchSpec::HasHeader { header } => some_header_named(ctx, header),
        MatchSpec::FromDomainIn { domains } => from_domain_in(domains, ctx.from_address@),
        MatchSpec::SubjectContainsAny { needles } => subject_contains_any(ctx.subject@, needles),
        MatchSpec::All { exprs } => forall|j: int|
            0 <= j < exprs.len() ==> expr_matches(#[trigger] exprs[j], ctx),
        MatchSpec::Any { exprs } => exists|j: int|
            0 <= j < exprs.len() && expr_matches(#[trigger] exprs[j], ctx),
        MatchSpec::Not { expr } => !expr_matches(*expr, ctx),
    }
}

impl<'a> MessageContext<'a> {
    /// The values of the headers named `name_lower`, in arrival order.
    pub fn header_values(&self, name_lower: &str) -> (r: Vec<&'a str>)
        ensures
            r@.map_values(|s: &str| s@) == values_named(self.headers@, name_lower@),
    {
        let ghost f = |h: (String, String)|
            if h.0@ == name_lower@ {
                Some(h.1@)
            } else {
                None
            };
        let mut out: Vec<&'a str> = Vec::new();
        let mut i: usize = 0;
        while i < self.headers.len()
            invariant
                i <= self.headers@.len(),
                f == (|h: (String, String)|
                    if h.0@ == name_lower@ {
                        Some(h.1@)
                    } else {
                        None
                    }),
                out@.map_values(|s: &str| s@) == crate::seqs::filter_map(
                    self.headers@.take(i as int),
                    f,
                ),
            decreases self.headers.len() - i,
        {
            proof {
                crate::seqs::lemma_filter_map_step(self.headers@, f, i as int);
            }
            let ghost before = out@;
            let (k, v) = &self.headers[i];
            if str_eq(k.as_str(), name_lower) {
                out.push(v.as_str());
                assert(out@.map_values(|s: &str| s@) =~= before.map_values(|s: &str| s@).push(
                    v@,
                ));
            }
            i = i + 1;
        }
        proof {
            crate::seqs::lemma_take_full(self.headers@);
        }
        out
    }

    /// Whether a header named `name_lower` is present.
    pub fn has_header(&self, name_lower: &str) -> (r: bool)
        ensures
            r == (exists|k: int|
                0 <= k < self.headers@.len() && #[trigger] self.headers@[k].0@ == name_lower@),
    {
        let mut i: usize = 0;
        while i < self.headers.len()
            invariant
                i <= self.headers@.len(),
                forall|k: int| 0 <= k < i ==> #[trigger] self.headers@[k].0@ != name_lower@,
            decreases self.headers.len() - i,
        {
            if str_eq(self.headers[i].0.as_str(), name_lower) {
                return true;
            }
            i = i + 1;
        }
        false
    }

    /// The domain of the sender address, from its last `@` on.
    pub fn extract_from_domain(&self) -> (r: Option<String>)
        ensures
            r matches Some(d) ==> from_domain(self.from_address@) == Some(d@),
            r is None ==> from_domain(self.from_address@) is None,
    {
        let v = chars_of(self.from_address);
        match rfind_char(&v, '@') {
            Some(at) => {
                proof {
                    lemma_last_index_facts(v@, '@');
                }
                let d = string_of_range(&v, at, v.len());
                assert(d@ =~= self.from_address@.skip(at as int));
                Some(d)
            },
            None => None,
        }
    }
}

/// Whether some header named `header` has a value containing `needle`
/// (both compared lower-cased; `needle` is already lower-cased).
fn any_header_contains(ctx: &MessageContext, header: &String, substring: &String) -> (r: bool)
    ensures
        r == some_header_has(*ctx, header@, substring@),
{
    let needle = to_lower(substring.as_str());
    let name = to_lower(header.as_str());
    let mut i: usize = 0;
    while i < ctx.headers.len()
        invariant
            i <= ctx.headers@.len(),
            name@ == lower_text(header@),
            needle@ == lower_text(substring@),
            forall|k: int| 0 <= k < i ==> !#[trigger] header_has(*ctx, k, header@, substring@),
        decreases ctx.headers.len() - i,
    {
        let (k, v) = &ctx.headers[i];
        if str_eq(k.as_str(), name.as_str()) {
            let lv = to_lower(v.as_str());
            if contains_str(lv.as_str(), needle.as_str()) {
                assert(header_has(*ctx, i as int, header@, substring@));
                return true;
            }
        }
        i = i + 1;
    }
    false
}

/// Whether the header `header` is present (name compared lower-cased).
fn header_present(ctx: &MessageContext, header: &String) -> (r: bool)
    ensures
        r == some_header_named(*ctx, header@),
{
    let name = to_lower(header.as_str());
    let r = ctx.has_header(name.as_str());
    proof {
        if r {
            let k = choose|k: int| 0 <= k < ctx.headers@.len() && #[trigger] ctx.headers@[k].0@ == name@;
            assert(header_named(*ctx, k, header@));
        }
    }
    r
}

/// Whether the sender's domain is one of `domains`, ignoring ASCII case.
fn from_domain_listed(ctx: &MessageContext, domains: &Vec<String>) -> (r: bool)
    ensures
        r == from_domain_in(strings_view(*domains), ctx.from_address@),
{
    let ghost ds = strings_view(*domains);
    match ctx.extract_from_domain() {
        Some(dom) => {
            let mut i: usize = 0;
            while i < domains.len()
                invariant
                    i <= domains@.len(),
                    ds == strings_view(*domains),
                    from_domain(ctx.from_address@) == Some(dom@),
                    forall|j: int| 0 <= j < i ==> !eq_ignore_case(#[trigger] ds[j], dom@),
                decreases domains.len() - i,
            {
                assert(ds[i as int] == domains@[i as int]@);
                if eq_ignore_case_str(domains[i].as_str(), dom.as_str()) {
                    return true;
                }
                i = i + 1;
            }
            false
        },
        None => false,
    }
}

/// Whether the subject contains one of the needles, both lower-cased.
fn subject_has_any(subject: &str, needles: &Vec<String>) -> (r: bool)
    ensures
        r == subject_contains_any(subject@, strings_view(*needles)),
{
    let ghost ns = strings_view(*needles);
    let s = to_lower(subject);
    let mut i: usize = 0;
    while i < needles.len()
        invariant
            i <= needles@.len(),
            ns == strings_view(*needles),
            s@ == lower_text(subject@),
            forall|j: int|
                0 <= j < i ==> !has_sub(lower_text(subject@), lower_text(#[trigger] ns[j])),
        decreases needles.len() - i,
    {
        let n = to_lower(needles[i].as_str());
        assert(ns[i as int] == needles@[i as int]@);
        if contains_str(s.as_str(), n.as_str()) {
            return true;
        }
        i = i + 1;
    }
    false
}

/// Whether an expression matches a message.
pub fn eval_match(expr: &MatchExpr, ctx: &MessageContext) -> (r: bool)
    ensures
        r == expr_matches(match_view(*expr), *ctx),
    decreases expr,
{
    match expr {
        MatchExpr::Always => true,
        MatchExpr::HeaderContains { header, substring } => {
            any_header_contains(ctx, header, substring)
        },
        MatchExpr::HasHeader { header } => header_present(ctx, header),
        MatchExpr::FromDomainIn { domains } => from_domain_listed(ctx, domains),
        MatchExpr::SubjectContainsAny { needles } => subject_has_any(ctx.subject, needles),
        MatchExpr::All { exprs } => {
            let ghost es = match_view(*expr)->All_exprs;
            let mut i: usize = 0;
            while i < exprs.len()
                invariant
                    *expr == (MatchExpr::All { exprs: *exprs }),
                    es == match_view(*expr)->All_exprs,
                    i <= exprs@.len(),
                    forall|j: int| 0 <= j < i ==> expr_matches(#[trigger] es[j], *ctx),
                decreases exprs.len() - i,
            {
                proof {
                    assert(decreases_to!(*expr => (*expr)->All_exprs));
                    assert(decreases_to!(*expr => exprs[i as int]));
                }
                if !eval_match(&exprs[i], ctx) {
                    assert(!expr_matches(es[i as int], *ctx));
                    return false;
                }
                i = i + 1;
            }
            true
        },
        MatchExpr::Any { exprs } => {
            let ghost es = match_view(*expr)->Any_exprs;
            let mut i: usize = 0;
            while i < exprs.len()
                invariant
                    *expr == (MatchExpr::Any { exprs: *exprs }),
                    es == match_view(*expr)->Any_exprs,
                    i <= exprs@.len(),
                    forall|j: int| 0 <= j < i ==> !expr_matches(#[trigger] es[j], *ctx),
                decreases exprs.len() - i,
            {
                proof {
                    assert(decreases_to!(*expr => (*expr)->Any_exprs));
                    assert(decreases_to!(*expr => exprs[i as int]));
                }
                if eval_match(&exprs[i], ctx) {
                    assert(expr_matches(es[i as int], *ctx));
                    return true;
                }
                i = i + 1;
            }
            false
        },
        MatchExpr::Not { expr: inner } => {
            proof {
                assert(decreases_to!(*expr => (*expr)->Not_expr));
            }
            !eval_match(inner, ctx)
        },
    }
}

// ----- firing order --------------------------------------------------

/// Whether rule `a` fires no later than rule `b`: higher score first, then
/// smaller id, then earlier position in the collection.
pub open spec fn fires_no_later(rules: Seq<CategoryRule>) -> spec_fn(int, int) -> bool {
    |a: int, b: int|
        rules[a].score > rules[b].score || (rules[a].score == rules[b].score && (seq_lt(
            rules[a].id@,
            rules[b].id@,
        ) || (rules[a].id@ == rules[b].id@ && a <= b)))
}

/// The positions of the rules in the order they fire.
pub open spec fn firing_order(rules: Seq<CategoryRule>) -> Seq<int> {
    Seq::new(rules.len(), |i: int| i).sort_by(fires_no_later(rules))
}

/// The firing relation is a total order on positions.
pub proof fn lemma_fires_no_later_total(rules: Seq<CategoryRule>)
    ensures
        total_ordering(fires_no_later(rules)),
{
    let leq = fires_no_later(rules);
    assert forall|a: int| #[trigger] leq(a, a) by {
        lemma_seq_lt_irreflexive(rules[a].id@);
    }
    assert forall|a: int, b: int| #[trigger] leq(a, b) && #[trigger] leq(b, a) implies a == b by {
        lemma_seq_lt_total(rules[a].id@, rules[b].id@);
    }
    assert forall|a: int, b: int, c: int| #[trigger] leq(a, b) && #[trigger] leq(b, c) implies leq(a, c) by {
        lemma_seq_lt_total(rules[a].id@, rules[b].id@);
        lemma_seq_lt_total(rules[b].id@, rules[c].id@);
        lemma_seq_lt_total(rules[a].id@, rules[c].id@);
        if seq_lt(rules[a].id@, rules[b].id@) && seq_lt(rules[b].id@, rules[c].id@) {
            lemma_seq_lt_transitive(rules[a].id@, rules[b].id@, rules[c].id@);
        }
    }
    assert forall|a: int, b: int| #[trigger] leq(a, b) || #[trigger] leq(b, a) by {
        lemma_seq_lt_total(rules[a].id@, rules[b].id@);
    }
}

/// Whether rule `a` fires no later than rule `b`.
fn fires_no_later_exec(rules: &Vec<CategoryRule>, a: usize, b: usize) -> (r: bool)
    requires
        a < rules@.len(),
        b < rules@.len(),
    ensures
        r == fires_no_later(rules@)(a as int, b as int),
{
    let ra = &rules[a];
    let rb = &rules[b];
    if ra.score != rb.score {
        ra.score > rb.score
    } else if str_lt(ra.id.as_str(), rb.id.as_str()) {
        true
    } else {
        str_eq(ra.id.as_str(), rb.id.as_str()) && a <= b
    }
}

/// Positions as integers.
pub open spec fn positions(v: Seq<usize>) -> Seq<int> {
    v.map_values(|k: usize| k as int)
}

proof fn lemma_insert_sorted(s: Seq<int>, pos: int, x: int, leq: spec_fn(int, int) -> bool)
    requires
        total_ordering(leq),
        sorted_by(s, leq),
        0 <= pos <= s.len(),
        forall|j: int| 0 <= j < pos ==> leq(s[j], x),
        pos < s.len() ==> leq(x, s[pos]),
    ensures
        sorted_by(s.insert(pos, x), leq),
{
    let t = s.insert(pos, x);
    assert forall|i: int, j: int| 0 <= i < j < t.len() implies #[trigger] leq(t[i], t[j]) by {
        if j < pos {
            assert(t[i] == s[i] && t[j] == s[j]);
        } else if j == pos {
            assert(t[i] == s[i]);
        } else if i < pos {
            assert(t[i] == s[i] && t[j] == s[j - 1]);
            assert(leq(s[i], x));
            assert(leq(x, s[pos]));
            if j - 1 > pos {
                assert(leq(s[pos], s[j - 1]));
            }
        } else if i == pos {
            assert(t[j] == s[j - 1]);
            if j - 1 > pos {
                assert(leq(s[pos], s[j - 1]));
            }
        } else {
            assert(t[i] == s[i - 1] && t[j] == s[j - 1]);
        }
    }
}

/// The positions of the rules in firing order.
fn firing_order_exec(rules: &Vec<CategoryRule>) -> (r: Vec<usize>)
    ensures
        positions(r@) == firing_order(rules@),
        forall|k: int| 0 <= k < r@.len() ==> #[trigger] r@[k] < rules@.len(),
{
    let ghost leq = fires_no_later(rules@);
    proof {
        lemma_fires_no_later_total(rules@);
    }
    let mut order: Vec<usize> = Vec::new();
    let mut i: usize = 0;
    assert(positions(order@) =~= Seq::new(0, |k: int| k));
    while i < rules.len()
        invariant
            i <= rules@.len(),
            leq == fires_no_later(rules@),
            total_ordering(leq),
            order@.len() == i,
            forall|k: int| 0 <= k < order@.len() ==> #[trigger] order@[k] < i,
            sorted_by(positions(order@), leq),
            positions(order@).to_multiset() == Seq::new(i as nat, |k: int| k).to_multiset(),
        decreases rules.len() - i,
    {
        let mut pos: usize = 0;
        while pos < order.len() && !fires_no_later_exec(rules, i, order[pos])
            invariant
                i < rules@.len(),
                pos <= order@.len(),
                leq == fires_no_later(rules@),
                forall|k: int| 0 <= k < order@.len() ==> #[trigger] order@[k] < i,
                forall|j: int| 0 <= j < pos ==> !leq(i as int, #[trigger] positions(order@)[j]),
            decreases order.len() - pos,
        {
            pos = pos + 1;
        }
        proof {
            let s = positions(order@);
            assert forall|j: int| 0 <= j < pos implies leq(s[j], i as int) by {
                assert(!leq(i as int, s[j]));
            }
            lemma_insert_sorted(s, pos as int, i as int, leq);
            assert(Seq::new((i + 1) as nat, |k: int| k) =~= Seq::new(i as nat, |k: int| k).push(
                i as int,
            ));
            vstd::seq_lib::to_multiset_build(Seq::new(i as nat, |k: int| k), i as int);
            vstd::seq_lib::to_multiset_insert(s, pos as int, i as int);
        }
        let ghost before = order@;
        order.insert(pos, i);
        assert(positions(order@) =~= positions(before).insert(pos as int, i as int));
        i = i + 1;
    }
    proof {
        let base = Seq::new(rules@.len(), |k: int| k);
        base.lemma_sort_by_ensures(leq);
        assert(Seq::new(i as nat, |k: int| k) =~= base);
        vstd::seq_lib::lemma_sorted_unique(positions(order@), firing_order(rules@), leq);
    }
    order
}

/// The positions of the rules that fire, in firing order: the matching
/// rules, up to and including the first matching `stop_on_match` rule.
pub open spec fn hits_from(order: Seq<int>, rules: Seq<CategoryRule>, ctx: MessageContext) -> Seq<int>
    decreases order.len(),
{
    if order.len() == 0 {
        seq![]
    } else {
        let r = rules[order[0]];
        if expr_matches(match_view(r.when), ctx) {
            if r.stop_on_match {
                seq![order[0]]
            } else {
                seq![order[0]] + hits_from(order.drop_first(), rules, ctx)
            }
        } else {
            hits_from(order.drop_first(), rules, ctx)
        }
    }
}

/// The positions of the rules that fire on a message.
pub open spec fn fired(rules: Seq<CategoryRule>, ctx: MessageContext) -> Seq<int> {
    hits_from(firing_order(rules), rules, ctx)
}

impl CategoryRules {
    /// The rules that fire on a message, in firing order (score descending,
    /// then id ascending), ending at the first matching `stop_on_match` rule.
    pub fn evaluate(&self, ctx: &MessageContext) -> (r: Vec<&CategoryRule>)
        ensures
            r@.len() == fired(self.rules@, *ctx).len(),
            forall|j: int|
                0 <= j < r@.len() ==> *r@[j] == self.rules@[#[trigger] fired(self.rules@, *ctx)[j]],
    {
        let order = firing_order_exec(&self.rules);
        let ghost ord = positions(order@);
        let ghost all = fired(self.rules@, *ctx);
        let mut hits: Vec<&CategoryRule> = Vec::new();
        let ghost mut taken: Seq<int> = seq![];
        let mut k: usize = 0;
        assert(ord.skip(0) =~= ord);
        assert(all =~= taken + hits_from(ord.skip(0), self.rules@, *ctx));
        if order.len() == 0 {
            assert(all =~= taken);
        }
        while k < order.len()
            invariant_except_break
                k <= order@.len(),
                ord == positions(order@),
                ord == firing_order(self.rules@),
                all == fired(self.rules@, *ctx),
                forall|q: int| 0 <= q < order@.len() ==> #[trigger] order@[q] < self.rules@.len(),
                all == taken + hits_from(ord.skip(k as int), self.rules@, *ctx),
                hits@.len() == taken.len(),
                forall|j: int| 0 <= j < taken.len() ==> *hits@[j] == self.rules@[#[trigger] taken[j]],
                k == order@.len() ==> all == taken,
            ensures
                hits@.len() == all.len(),
                forall|j: int| 0 <= j < all.len() ==> *hits@[j] == self.rules@[#[trigger] all[j]],
            decreases order.len() - k,
        {
            let idx = order[k];
            let rule = &self.rules[idx];
            let ghost rest = ord.skip(k as int);
            assert(rest[0] == idx as int);
            assert(rest.drop_first() =~= ord.skip(k + 1));
            let m = eval_match(&rule.when, ctx);
            assert(self.rules@[rest[0]] == *rule);
            if m {
                hits.push(rule);
                let ghost old_taken = taken;
                proof {
                    taken = taken.push(idx as int);
                }
                if rule.stop_on_match {
                    assert(hits_from(rest, self.rules@, *ctx) == seq![idx as int]);
                    assert(all =~= taken);
                    break;
                }
                assert(all =~= taken + hits_from(ord.skip(k + 1), self.rules@, *ctx));
            }
            k = k + 1;
            assert(all == taken + hits_from(ord.skip(k as int), self.rules@, *ctx));
            if k == order.len() {
                assert(hits_from(ord.skip(k as int), self.rules@, *ctx) =~= seq![]);
                assert(all =~= taken);
            }
        }
        hits
    }
}

// ----- Sieve emission ------------------------------------------------

/// The escape of one character in a Sieve quoted string.
pub open spec fn sieve_escape_char(c: char) -> Seq<char> {
    if c == '\\' {
        "\\\\"@
    } else if c == '"' {
        "\\\""@
    } else {
        seq![c]
    }
}

/// A string escaped for a Sieve quoted string: backslash and double quote
/// are escaped, everything else passes through.
pub open spec fn sieve_escaped(s: Seq<char>) -> Seq<char>
    decreases s.len(),
{
    if s.len() == 0 {
        seq![]
    } else {
        sieve_escaped(s.drop_last()) + sieve_escape_char(s.last())
    }
}

/// Escapes a string for a Sieve double-quoted literal.
pub fn sieve_escape(s: &str) -> (r: String)
    ensures
        r@ == sieve_escaped(s@),
{
    let v = chars_of(s);
    let mut out = String::new();
    let mut i: usize = 0;
    while i < v.len()
        invariant
            i <= v@.len(),
            v@ == s@,
            out@ == sieve_escaped(v@.take(i as int)),
        decreases v.len() - i,
    {
        let c = v[i];
        if c == '\\' {
            out.append("\\\\");
        } else if c == '"' {
            out.append("\\\"");
        } else {
            push_char(&mut out, c);
        }
        assert(v@.take(i + 1).drop_last() =~= v@.take(i as int));
        i = i + 1;
    }
    assert(v@.take(v@.len() as int) =~= v@);
    out
}

/// A Sieve quoted string.
pub open spec fn sieve_quoted(s: Seq<char>) -> Seq<char> {
    "\""@ + sieve_escaped(s) + "\""@
}

/// A domain pattern of an `address :matches` test.
pub open spec fn domain_pattern(d: Seq<char>) -> Seq<char> {
    "\"*"@ + sieve_escaped(d) + "\""@
}

/// The Sieve tests of a list of expressions.
pub open spec fn sieve_tests(es: Seq<MatchSpec>) -> Seq<Seq<char>>
    decreases es,
{
    Seq::new(
        es.len(),
        |i: int|
            if 0 <= i < es.len() {
                sieve_test(es[i])
            } else {
                seq![]
            },
    )
}

/// The Sieve test of a match expression.
pub open spec fn sieve_test(e: MatchSpec) -> Seq<char>
    decreases e,
{
    match e {
        MatchSpec::Always => "true"@,
        MatchSpec::HeaderContains { header, substring } => "header :contains "@ + sieve_quoted(
            header,
        ) + " "@ + sieve_quoted(substring),
        MatchSpec::HasHeader { header } => "exists "@ + sieve_quoted(header),
        MatchSpec::FromDomainIn { domains } => "address :matches \"From\" ["@ + join(
            domains.map_values(|d: Seq<char>| domain_pattern(d)),
            ", "@,
        ) + "]"@,
        MatchSpec::SubjectContainsAny { needles } => "header :contains \"Subject\" ["@ + join(
            needles.map_values(|n: Seq<char>| sieve_quoted(n)),
            ", "@,
        ) + "]"@,
        MatchSpec::All { exprs } => "allof ("@ + join(sieve_tests(exprs), ", "@) + ")"@,
        MatchSpec::Any { exprs } => "anyof ("@ + join(sieve_tests(exprs), ", "@) + ")"@,
        MatchSpec::Not { expr } => "not "@ + sieve_test(*expr),
    }
}

/// Appends `items[i]` rendered by `piece`, joined with `, `, for a list of
/// strings (`quote_domain` selects the `"*..."` domain form).
fn push_string_list(out: &mut String, items: &Vec<String>, domain_form: bool)
    ensures
        final(out)@ == old(out)@ + join(
            if domain_form {
                strings_view(*items).map_values(|d: Seq<char>| domain_pattern(d))
            } else {
                strings_view(*items).map_values(|n: Seq<char>| sieve_quoted(n))
            },
            ", "@,
        ),
{
    let ghost parts = if domain_form {
        strings_view(*items).map_values(|d: Seq<char>| domain_pattern(d))
    } else {
        strings_view(*items).map_values(|n: Seq<char>| sieve_quoted(n))
    };
    let ghost start = out@;
    let mut i: usize = 0;
    assert(parts.take(0) =~= seq![]);
    while i < items.len()
        invariant
            i <= items@.len(),
            parts.len() == items@.len(),
            parts == (if domain_form {
                strings_view(*items).map_values(|d: Seq<char>| domain_pattern(d))
            } else {
                strings_view(*items).map_values(|n: Seq<char>| sieve_quoted(n))
            }),
            out@ == start + join(parts.take(i as int), ", "@),
        decreases items.len() - i,
    {
        proof {
            lemma_join_step(parts, ", "@, i as int);
        }
        if i > 0 {
            out.append(", ");
        }
        if domain_form {
            out.append("\"*");
        } else {
            out.append("\"");
        }
        let e = sieve_escape(items[i].as_str());
        append_string(out, &e);
        out.append("\"");
        i = i + 1;
    }
    assert(parts.take(parts.len() as int) =~= parts);
}

/// The Sieve test of a match expression.
pub fn emit_match(expr: &MatchExpr) -> (r: String)
    ensures
        r@ == sieve_test(match_view(*expr)),
    decreases expr,
{
    match expr {
        MatchExpr::Always => owned("true"),
        MatchExpr::HeaderContains { header, substring } => {
            let mut s = owned("header :contains ");
            s.append("\"");
            let h = sieve_escape(header.as_str());
            append_string(&mut s, &h);
            s.append("\"");
            s.append(" ");
            s.append("\"");
            let b = sieve_escape(substring.as_str());
            append_string(&mut s, &b);
            s.append("\"");
            s
        },
        MatchExpr::HasHeader { header } => {
            let mut s = owned("exists ");
            s.append("\"");
            let h = sieve_escape(header.as_str());
            append_string(&mut s, &h);
            s.append("\"");
            s
        },
        MatchExpr::FromDomainIn { domains } => {
            let mut s = owned("address :matches \"From\" [");
            push_string_list(&mut s, domains, true);
            s.append("]");
            s
        },
        MatchExpr::SubjectContainsAny { needles } => {
            let mut s = owned("header :contains \"Subject\" [");
            push_string_list(&mut s, needles, false);
            s.append("]");
            s
        },
        MatchExpr::All { exprs } | MatchExpr::Any { exprs } => {
            let is_all = match expr {
                MatchExpr::All { .. } => true,
                _ => false,
            };
            let ghost es = if is_all {
                match_view(*expr)->All_exprs
            } else {
                match_view(*expr)->Any_exprs
            };
            let ghost parts = sieve_tests(es);
            let mut s = if is_all {
                owned("allof (")
            } else {
                owned("anyof (")
            };
            let ghost start = s@;
            let mut i: usize = 0;
            assert(parts.take(0) =~= seq![]);
            while i < exprs.len()
                invariant
                    is_all ==> *expr == (MatchExpr::All { exprs: *exprs }),
                    !is_all ==> *expr == (MatchExpr::Any { exprs: *exprs }),
                    es == (if is_all {
                        match_view(*expr)->All_exprs
                    } else {
                        match_view(*expr)->Any_exprs
                    }),
                    parts == sieve_tests(es),
                    es.len() == exprs@.len(),
                    i <= exprs@.len(),
                    s@ == start + join(parts.take(i as int), ", "@),
                decreases exprs.len() - i,
            {
                proof {
                    if is_all {
                        assert(decreases_to!(*expr => (*expr)->All_exprs));
                    } else {
                        assert(decreases_to!(*expr => (*expr)->Any_exprs));
                    }
                    assert(decreases_to!(*expr => exprs[i as int]));
                    lemma_join_step(parts, ", "@, i as int);
                }
                if i > 0 {
                    s.append(", ");
                }
                let t = emit_match(&exprs[i]);
                append_string(&mut s, &t);
                i = i + 1;
            }
            assert(parts.take(parts.len() as int) =~= parts);
            s.append(")");
            s
        },
        MatchExpr::Not { expr: inner } => {
            proof {
                assert(decreases_to!(*expr => (*expr)->Not_expr));
            }
            let mut s = owned("not ");
            let t = emit_match(inner);
            append_string(&mut s, &t);
            s
        },
    }
}

/// The Sieve commands of each action of a list.
pub open spec fn sieve_actions(acts: Seq<ActionSpec>, indent: Seq<char>) -> Seq<Seq<char>>
    decreases acts,
{
    Seq::new(
        acts.len(),
        |i: int|
            if 0 <= i < acts.len() {
                sieve_action(acts[i], indent)
            } else {
                seq![]
            },
    )
}

/// The Sieve commands of an action, each line prefixed by `indent`.
pub open spec fn sieve_action(a: ActionSpec, indent: Seq<char>) -> Seq<char>
    decreases a,
{
    match a {
        ActionSpec::FileInto { folder } => indent + "fileinto :create "@ + sieve_quoted(folder)
            + ";\n"@,
        ActionSpec::SetFlag { flag } => indent + "addflag "@ + sieve_quoted(flag) + ";\n"@,
        ActionSpec::Sequence { actions } => concat(sieve_actions(actions, indent)),
    }
}

/// Appends the Sieve commands of an action.
pub fn emit_action(action: &Action, out: &mut String, indent: &str)
    ensures
        final(out)@ == old(out)@ + sieve_action(action_view(*action), indent@),
    decreases action,
{
    match action {
        Action::FileInto { folder } => {
            out.append(indent);
            out.append("fileinto :create ");
            out.append("\"");
            let e = sieve_escape(folder.as_str());
            append_string(out, &e);
            out.append("\"");
            out.append(";\n");
        },
        Action::SetFlag { flag } => {
            out.append(indent);
            out.append("addflag ");
            out.append("\"");
            let e = sieve_escape(flag.as_str());
            append_string(out, &e);
            out.append("\"");
            out.append(";\n");
        },
        Action::Sequence { actions } => {
            let ghost acts = action_view(*action)->Sequence_actions;
            let ghost parts = sieve_actions(acts, indent@);
            let ghost start = out@;
            let mut i: usize = 0;
            assert(parts.take(0) =~= seq![]);
            while i < actions.len()
                invariant
                    *action == (Action::Sequence { actions: *actions }),
                    acts == action_view(*action)->Sequence_actions,
                    parts == sieve_actions(acts, indent@),
                    acts.len() == actions@.len(),
                    i <= actions@.len(),
                    out@ == start + concat(parts.take(i as int)),
                decreases actions.len() - i,
            {
                proof {
                    assert(decreases_to!(*action => (*action)->Sequence_actions));
                    assert(decreases_to!(*action => actions[i as int]));
                    lemma_concat_step(parts, i as int);
                }
                emit_action(&actions[i], out, indent);
                i = i + 1;
            }
            assert(parts.take(parts.len() as int) =~= parts);
        },
    }
}

/// An audit header value: `id=<rule id>; score=<score>`.
pub open spec fn audit_value(rule_id: Seq<char>, score: int) -> Seq<char> {
    "id="@ + rule_id + "; score="@ + dec_int(score)
}

impl AuditTag {
    /// The tag as a single header value, `id=<rule id>; score=<score>`.
    pub fn to_header_value(&self) -> (r: String)
        ensures
            r@ == audit_value(self.rule_id@, self.score as int),
    {
        let mut s = owned("id=");
        append_string(&mut s, &self.rule_id);
        s.append("; score=");
        let n = fmt_i64(self.score as i64);
        append_string(&mut s, &n);
        s
    }
}

/// The fixed head of a generated script, with its `require` line.
pub open spec fn sieve_head(audit_header: bool) -> Seq<char> {
    "# AUTO-GENERATED by mail-config::categories. Do not hand-edit.\n# Edit the typed CategoryRules and re-emit.\n\nrequire ["@
        + (if audit_header {
        "\"fileinto\", \"mailbox\", \"imap4flags\", \"envelope\", \"editheader\""@
    } else {
        "\"fileinto\", \"mailbox\", \"imap4flags\", \"envelope\""@
    }) + "];\n\n"@
}

/// The block of one rule.
pub open spec fn sieve_rule_block(r: RuleSpec, audit_header: bool) -> Seq<char> {
    "# rule "@ + r.id + " (score="@ + dec_int(r.score) + ")\nif "@ + sieve_test(r.when) + " {\n"@
        + (if audit_header {
        "    addheader \"X-PlausiDen-Category\" \""@ + audit_value(r.id, r.score) + "\";\n"@
    } else {
        seq![]
    }) + sieve_action(r.action, "    "@) + (if r.stop_on_match {
        "    stop;\n"@
    } else {
        seq![]
    }) + "}\n\n"@
}

/// The blocks of the rules at the given positions, in that order.
pub open spec fn sieve_blocks(rules: Seq<CategoryRule>, order: Seq<int>, audit_header: bool) -> Seq<char> {
    concat(
        Seq::new(order.len(), |k: int| sieve_rule_block(rule_view(rules[order[k]]), audit_header)),
    )
}

/// The Sieve script of a rule collection: the head, then one block per
/// rule in firing order.
pub open spec fn sieve_script(rules: Seq<CategoryRule>, audit_header: bool) -> Seq<char> {
    sieve_head(audit_header) + sieve_blocks(rules, firing_order(rules), audit_header)
}

/// Appends the block of one rule.
fn push_rule_block(out: &mut String, r: &CategoryRule, audit_header: bool)
    ensures
        final(out)@ == old(out)@ + sieve_rule_block(rule_view(*r), audit_header),
{
    out.append("# rule ");
    append_string(out, &r.id);
    out.append(" (score=");
    let n = fmt_i64(r.score as i64);
    append_string(out, &n);
    out.append(")\nif ");
    let t = emit_match(&r.when);
    append_string(out, &t);
    out.append(" {\n");
    if audit_header {
        out.append("    addheader \"X-PlausiDen-Category\" \"");
        let tag = AuditTag { rule_id: r.id.clone(), score: r.score };
        let v = tag.to_header_value();
        append_string(out, &v);
        out.append("\";\n");
    }
    emit_action(&r.action, out, "    ");
    if r.stop_on_match {
        out.append("    stop;\n");
    }
    out.append("}\n\n");
}

impl CategoryRules {
    /// The Sieve script with default options (no audit header).
    pub fn to_sieve(&self) -> (r: String)
        ensures
            r@ == sieve_script(self.rules@, false),
    {
        self.to_sieve_with(SieveEmitOptions::default())
    }

    /// The Sieve script of the rules, in firing order. With `audit_header`
    /// each block adds an `X-PlausiDen-Category` header naming the rule and
    /// its score (never message content), and `editheader` is required.
    pub fn to_sieve_with(&self, opts: SieveEmitOptions) -> (r: String)
        ensures
            r@ == sieve_script(self.rules@, opts.audit_header),
    {
        let mut out = owned(
            "# AUTO-GENERATED by mail-config::categories. Do not hand-edit.\n# Edit the typed CategoryRules and re-emit.\n\nrequire [",
        );
        if opts.audit_header {
            out.append("\"fileinto\", \"mailbox\", \"imap4flags\", \"envelope\", \"editheader\"");
        } else {
            out.append("\"fileinto\", \"mailbox\", \"imap4flags\", \"envelope\"");
        }
        out.append("];\n\n");
        let order = firing_order_exec(&self.rules);
        let ghost ord = positions(order@);
        let ghost parts = Seq::new(
            ord.len(),
            |k: int| sieve_rule_block(rule_view(self.rules@[ord[k]]), opts.audit_header),
        );
        let ghost head = out@;
        let mut k: usize = 0;
        assert(parts.take(0) =~= seq![]);
        while k < order.len()
            invariant
                k <= order@.len(),
                ord == positions(order@),
                forall|q: int| 0 <= q < order@.len() ==> #[trigger] order@[q] < self.rules@.len(),
                parts == Seq::new(
                    ord.len(),
                    |k: int| sieve_rule_block(rule_view(self.rules@[ord[k]]), opts.audit_header),
                ),
                out@ == head + concat(parts.take(k as int)),
            decreases order.len() - k,
        {
            proof {
                lemma_concat_step(parts, k as int);
            }
            push_rule_block(&mut out, &self.rules[order[k]], opts.audit_header);
            k = k + 1;
        }
        assert(parts.take(parts.len() as int) =~= parts);
        out
    }
}

// ----- building views ------------------------------------------------

/// The view of a vector of strings, element by element.
pub proof fn lemma_strings_view(v: Vec<String>, s: Seq<Seq<char>>)
    requires
        v@.len() == s.len(),
        forall|i: int| 0 <= i < s.len() ==> #[trigger] v@[i]@ == s[i],
    ensures
        strings_view(v) == s,
{
    assert(strings_view(v) =~= s);
}

/// The view of an `All` expression, from the views of its parts.
pub proof fn lemma_all_view(exprs: Vec<MatchExpr>, s: Seq<MatchSpec>)
    requires
        exprs@.len() == s.len(),
        forall|i: int| 0 <= i < s.len() ==> match_view(#[trigger] exprs@[i]) == s[i],
    ensures
        match_view(MatchExpr::All { exprs }) == (MatchSpec::All { exprs: s }),
{
    assert(match_view(MatchExpr::All { exprs })->All_exprs =~= s);
}

/// The view of an `Any` expression, from the views of its parts.
pub proof fn lemma_any_view(exprs: Vec<MatchExpr>, s: Seq<MatchSpec>)
    requires
        exprs@.len() == s.len(),
        forall|i: int| 0 <= i < s.len() ==> match_view(#[trigger] exprs@[i]) == s[i],
    ensures
        match_view(MatchExpr::Any { exprs }) == (MatchSpec::Any { exprs: s }),
{
    assert(match_view(MatchExpr::Any { exprs })->Any_exprs =~= s);
}

/// The view of an action sequence, from the views of its parts.
pub proof fn lemma_sequence_view(actions: Vec<Action>, s: Seq<ActionSpec>)
    requires
        actions@.len() == s.len(),
        forall|i: int| 0 <= i < s.len() ==> action_view(#[trigger] actions@[i]) == s[i],
    ensures
        action_view(Action::Sequence { actions }) == (ActionSpec::Sequence { actions: s }),
{
    assert(action_view(Action::Sequence { actions })->Sequence_actions =~= s);
}

// ----- laws of evaluation --------------------------------------------

proof fn lemma_hits_from_facts(order: Seq<int>, rules: Seq<CategoryRule>, ctx: MessageContext)
    ensures
        forall|j: int|
            0 <= j < hits_from(order, rules, ctx).len() ==> exists|q: int|
                0 <= q < order.len() && order[q] == #[trigger] hits_from(order, rules, ctx)[j],
        forall|j: int|
            0 <= j < hits_from(order, rules, ctx).len() ==> expr_matches(
                match_view(rules[#[trigger] hits_from(order, rules, ctx)[j]].when),
                ctx,
            ),
        forall|j: int|
            0 <= j < hits_from(order, rules, ctx).len() - 1 ==> !rules[#[trigger] hits_from(
                order,
                rules,
                ctx,
            )[j]].stop_on_match,
    decreases order.len(),
{
    if order.len() > 0 {
        let rest = order.drop_first();
        lemma_hits_from_facts(rest, rules, ctx);
        let h = hits_from(order, rules, ctx);
        let hr = hits_from(rest, rules, ctx);
        assert forall|j: int| 0 <= j < h.len() implies exists|q: int|
            0 <= q < order.len() && order[q] == #[trigger] h[j] by {
            if h.len() > 0 && h[0] == order[0] && j == 0 {
                assert(order[0] == h[j]);
            } else if expr_matches(match_view(rules[order[0]].when), ctx)
                && !rules[order[0]].stop_on_match {
                assert(h[j] == hr[j - 1]);
                let q = choose|q: int| 0 <= q < rest.len() && rest[q] == #[trigger] hr[j - 1];
                assert(order[q + 1] == h[j]);
            } else if !expr_matches(match_view(rules[order[0]].when), ctx) {
                assert(h[j] == hr[j]);
                let q = choose|q: int| 0 <= q < rest.len() && rest[q] == #[trigger] hr[j];
                assert(order[q + 1] == h[j]);
            }
        }
    }
}

proof fn lemma_hits_from_sorted(
    order: Seq<int>,
    rules: Seq<CategoryRule>,
    ctx: MessageContext,
    leq: spec_fn(int, int) -> bool,
)
    requires
        sorted_by(order, leq),
    ensures
        sorted_by(hits_from(order, rules, ctx), leq),
    decreases order.len(),
{
    if order.len() > 0 {
        let rest = order.drop_first();
        assert(sorted_by(rest, leq)) by {
            assert forall|i: int, j: int| 0 <= i < j < rest.len() implies #[trigger] leq(
                rest[i],
                rest[j],
            ) by {
                assert(leq(order[i + 1], order[j + 1]));
            }
        }
        lemma_hits_from_sorted(rest, rules, ctx, leq);
        lemma_hits_from_facts(rest, rules, ctx);
        let h = hits_from(order, rules, ctx);
        let hr = hits_from(rest, rules, ctx);
        if expr_matches(match_view(rules[order[0]].when), ctx) && !rules[order[0]].stop_on_match {
            assert forall|i: int, j: int| 0 <= i < j < h.len() implies #[trigger] leq(h[i], h[j]) by {
                assert(h[j] == hr[j - 1]);
                if i == 0 {
                    let q = choose|q: int| 0 <= q < rest.len() && rest[q] == #[trigger] hr[j - 1];
                    assert(leq(order[0], order[q + 1]));
                } else {
                    assert(h[i] == hr[i - 1]);
                }
            }
        }
    }
}

/// Rules fire in order: a higher score first, and among equal scores the
/// smaller id first.
pub proof fn law_fired_in_score_order(rules: Seq<CategoryRule>, ctx: MessageContext, i: int, j: int)
    requires
        0 <= i < j < fired(rules, ctx).len(),
    ensures
        ({
            let a = rules[fired(rules, ctx)[i]];
            let b = rules[fired(rules, ctx)[j]];
            a.score > b.score || (a.score == b.score && !seq_lt(b.id@, a.id@))
        }),
{
    let leq = fires_no_later(rules);
    lemma_fires_no_later_total(rules);
    Seq::new(rules.len(), |k: int| k).lemma_sort_by_ensures(leq);
    lemma_hits_from_sorted(firing_order(rules), rules, ctx, leq);
    let f = fired(rules, ctx);
    assert(leq(f[i], f[j]));
    lemma_seq_lt_total(rules[f[i]].id@, rules[f[j]].id@);
}

/// Every rule that fires matches the message.
pub proof fn law_fired_rules_match(rules: Seq<CategoryRule>, ctx: MessageContext, j: int)
    requires
        0 <= j < fired(rules, ctx).len(),
    ensures
        expr_matches(match_view(rules[fired(rules, ctx)[j]].when), ctx),
{
    lemma_hits_from_facts(firing_order(rules), rules, ctx);
}

/// Evaluation ends at the first matching `stop_on_match` rule: only the
/// last rule that fires may be one.
pub proof fn law_stop_ends_evaluation(rules: Seq<CategoryRule>, ctx: MessageContext, j: int)
    requires
        0 <= j < fired(rules, ctx).len() - 1,
    ensures
        !rules[fired(rules, ctx)[j]].stop_on_match,
{
    lemma_hits_from_facts(firing_order(rules), rules, ctx);
}

/// No rules, no hits.
pub proof fn law_no_rules_no_hits(rules: Seq<CategoryRule>, ctx: MessageContext)
    requires
        rules.len() == 0,
    ensures
        fired(rules, ctx).len() == 0,
{
    let leq = fires_no_later(rules);
    lemma_fires_no_later_total(rules);
    Seq::new(rules.len(), |k: int| k).lemma_sort_by_ensures(leq);
    firing_order(rules).to_multiset_ensures();
    Seq::new(rules.len(), |k: int| k).to_multiset_ensures();
}


// ----- case-insensitivity --------------------------------------------

/// Whether `b` is `a` up to ASCII letter case.
pub open spec fn ascii_case_variant(a: Seq<char>, b: Seq<char>) -> bool {
    ascii_lower_seq(a) == ascii_lower_seq(b)
}

/// Whether `c2` is `c1` with its subject, its sender and every header value
/// replaced by an ASCII-case variant (header names and order unchanged).
pub open spec fn case_variant_ctx(c1: MessageContext, c2: MessageContext) -> bool {
    &&& c1.headers@.len() == c2.headers@.len()
    &&& forall|k: int|
        #![trigger c1.headers@[k]]
        0 <= k < c1.headers@.len() ==> c1.headers@[k].0@ == c2.headers@[k].0@ && ascii_case_variant(
            c1.headers@[k].1@,
            c2.headers@[k].1@,
        )
    &&& ascii_case_variant(c1.subject@, c2.subject@)
    &&& ascii_case_variant(c1.from_address@, c2.from_address@)
}

proof fn lemma_variant_lower(a: Seq<char>, b: Seq<char>)
    requires
        ascii_case_variant(a, b),
    ensures
        lower_text(a) == lower_text(b),
{
}

proof fn lemma_lower_at(c: char)
    ensures
        ascii_lower(c) == '@' <==> c == '@',
{
    if 'A' <= c && c <= 'Z' {
        let d = ((c as u32) + 32) as char;
        assert(d as u32 == (c as u32) + 32);
        assert(d != '@');
    }
}

proof fn lemma_variant_last_at(a: Seq<char>, b: Seq<char>)
    requires
        a.len() == b.len(),
        ascii_lower_seq(a) == ascii_lower_seq(b),
    ensures
        last_index(a, '@') == last_index(b, '@'),
        last_index(a, '@') matches Some(i) ==> ascii_lower_seq(a.skip(i)) == ascii_lower_seq(b.skip(i)),
    decreases a.len(),
{
    if a.len() > 0 {
        assert(ascii_lower_seq(a)[a.len() - 1] == ascii_lower_seq(b)[a.len() - 1]);
        lemma_lower_at(a.last());
        lemma_lower_at(b.last());
        assert(ascii_lower_seq(a)[a.len() - 1] == ascii_lower(a.last()));
        assert(ascii_lower_seq(b)[a.len() - 1] == ascii_lower(b.last()));
        assert(a.last() == '@' <==> b.last() == '@');
        assert(ascii_lower_seq(a.drop_last()) =~= ascii_lower_seq(a).drop_last());
        assert(ascii_lower_seq(b.drop_last()) =~= ascii_lower_seq(b).drop_last());
        lemma_variant_last_at(a.drop_last(), b.drop_last());
        lemma_last_index_facts(a, '@');
        if let Some(i) = last_index(a, '@') {
            assert(ascii_lower_seq(a.skip(i)) =~= ascii_lower_seq(a).skip(i));
            assert(ascii_lower_seq(b.skip(i)) =~= ascii_lower_seq(b).skip(i));
        }
    }
}

proof fn lemma_expr_case(e: MatchSpec, c1: MessageContext, c2: MessageContext)
    requires
        case_variant_ctx(c1, c2),
    ensures
        expr_matches(e, c1) == expr_matches(e, c2),
    decreases e,
{
    match e {
        MatchSpec::Always => {},
        MatchSpec::HeaderContains { header, substring } => {
            assert forall|k: int| 0 <= k < c1.headers@.len() implies #[trigger] header_has(c1, k, header, substring)
                == header_has(c2, k, header, substring) by {
                lemma_variant_lower(c1.headers@[k].1@, c2.headers@[k].1@);
            }
            if some_header_has(c1, header, substring) {
                let k = choose|k: int| 0 <= k < c1.headers@.len() && #[trigger] header_has(c1, k, header, substring);
                assert(header_has(c2, k, header, substring));
            }
            if some_header_has(c2, header, substring) {
                let k = choose|k: int| 0 <= k < c2.headers@.len() && #[trigger] header_has(c2, k, header, substring);
                assert(header_has(c1, k, header, substring));
            }
        },
        MatchSpec::HasHeader { header } => {
            if some_header_named(c1, header) {
                let k = choose|k: int| 0 <= k < c1.headers@.len() && #[trigger] header_named(c1, k, header);
                assert(c1.headers@[k].0@ == c2.headers@[k].0@);
                assert(header_named(c2, k, header));
            }
            if some_header_named(c2, header) {
                let k = choose|k: int| 0 <= k < c2.headers@.len() && #[trigger] header_named(c2, k, header);
                assert(c1.headers@[k].0@ == c2.headers@[k].0@);
                assert(header_named(c1, k, header));
            }
        },
        MatchSpec::FromDomainIn { domains } => {
            let f1 = c1.from_address@;
            let f2 = c2.from_address@;
            assert(f1.len() == ascii_lower_seq(f1).len());
            lemma_variant_last_at(f1, f2);
        },
        MatchSpec::SubjectContainsAny { needles } => {
            lemma_variant_lower(c1.subject@, c2.subject@);
        },
        MatchSpec::All { exprs } => {
            assert forall|j: int| 0 <= j < exprs.len() implies expr_matches(#[trigger] exprs[j], c1)
                == expr_matches(exprs[j], c2) by {
                lemma_expr_case(exprs[j], c1, c2);
            }
        },
        MatchSpec::Any { exprs } => {
            assert forall|j: int| 0 <= j < exprs.len() implies expr_matches(#[trigger] exprs[j], c1)
                == expr_matches(exprs[j], c2) by {
                lemma_expr_case(exprs[j], c1, c2);
            }
        },
        MatchSpec::Not { expr } => {
            lemma_expr_case(*expr, c1, c2);
        },
    }
}

proof fn lemma_hits_case(order: Seq<int>, rules: Seq<CategoryRule>, c1: MessageContext, c2: MessageContext)
    requires
        case_variant_ctx(c1, c2),
    ensures
        hits_from(order, rules, c1) == hits_from(order, rules, c2),
    decreases order.len(),
{
    if order.len() > 0 {
        lemma_expr_case(match_view(rules[order[0]].when), c1, c2);
        lemma_hits_case(order.drop_first(), rules, c1, c2);
    }
}

/// Matching ignores ASCII case: a message whose subject, sender and header
/// values are replaced by ASCII-case variants of themselves fires the same
/// rules, in the same order (what Sieve's `:contains` does).
pub proof fn law_matching_ignores_ascii_case(rules: Seq<CategoryRule>, c1: MessageContext, c2: MessageContext)
    requires
        case_variant_ctx(c1, c2),
    ensures
        fired(rules, c1) == fired(rules, c2),
{
    lemma_hits_case(firing_order(rules), rules, c1, c2);
}


// ----- what the connectives mean --------------------------------------

/// Matching follows the connectives: `Not` matches exactly when its
/// sub-expression does not, `All` when every sub-expression matches, `Any`
/// when some sub-expression matches, `Always` always, and `HasHeader` when
/// some header carries the (lower-cased) name.
pub proof fn law_match_connectives(e: MatchExpr, es: Vec<MatchExpr>, h: String, ctx: MessageContext)
    ensures
        expr_matches(match_view(MatchExpr::Not { expr: Box::new(e) }), ctx) == !expr_matches(match_view(e), ctx),
        expr_matches(match_view(MatchExpr::All { exprs: es }), ctx) == (forall|j: int|
            0 <= j < es.len() ==> expr_matches(match_view(#[trigger] es@[j]), ctx)),
        expr_matches(match_view(MatchExpr::Any { exprs: es }), ctx) == (exists|j: int|
            0 <= j < es.len() && expr_matches(match_view(#[trigger] es@[j]), ctx)),
        expr_matches(match_view(MatchExpr::Always), ctx),
        expr_matches(match_view(MatchExpr::HasHeader { header: h }), ctx) == (exists|k: int|
            0 <= k < ctx.headers@.len() && #[trigger] ctx.headers@[k].0@ == lower_text(h@)),
{
    let all = match_view(MatchExpr::All { exprs: es });
    let any = match_view(MatchExpr::Any { exprs: es });
    let subs = all->All_exprs;
    assert(any->Any_exprs == subs);
    assert forall|j: int| 0 <= j < es.len() implies #[trigger] subs[j] == match_view(es@[j]) by {}
    if expr_matches(all, ctx) {
        assert forall|j: int| 0 <= j < es.len() implies expr_matches(match_view(#[trigger] es@[j]), ctx) by {
            assert(expr_matches(subs[j], ctx));
        }
    }
    if forall|j: int| 0 <= j < es.len() ==> expr_matches(match_view(#[trigger] es@[j]), ctx) {
        assert forall|j: int| 0 <= j < subs.len() implies expr_matches(#[trigger] subs[j], ctx) by {
            assert(expr_matches(match_view(es@[j]), ctx));
        }
    }
    if expr_matches(any, ctx) {
        let j = choose|j: int| 0 <= j < subs.len() && expr_matches(#[trigger] subs[j], ctx);
        assert(expr_matches(match_view(es@[j]), ctx));
    }
    if exists|j: int| 0 <= j < es.len() && expr_matches(match_view(#[trigger] es@[j]), ctx) {
        let j = choose|j: int| 0 <= j < es.len() && expr_matches(match_view(#[trigger] es@[j]), ctx);
        assert(expr_matches(subs[j], ctx));
    }
    let hh = match_view(MatchExpr::HasHeader { header: h });
    if expr_matches(hh, ctx) {
        let k = choose|k: int| 0 <= k < ctx.headers@.len() && #[trigger] header_named(ctx, k, h@);
        assert(ctx.headers@[k].0@ == lower_text(h@));
    }
    if exists|k: int| 0 <= k < ctx.headers@.len() && #[trigger] ctx.headers@[k].0@ == lower_text(h@) {
        let k = choose|k: int| 0 <= k < ctx.headers@.len() && #[trigger] ctx.headers@[k].0@ == lower_text(h@);
        assert(header_named(ctx, k, h@));
    }
}

/// The Sieve test of a connective is the RFC 5228 test of the same
/// meaning over the tests of its parts: `Any` is `anyof`, `All` is
/// `allof` (each over its sub-tests, comma-separated, in order), `Not` is
/// `not`, `HasHeader` is `exists`, `Always` is `true`.
pub proof fn law_sieve_connectives(e: MatchExpr, es: Vec<MatchExpr>, h: String)
    ensures
        sieve_test(match_view(MatchExpr::Any { exprs: es })) == "anyof ("@ + join(
            es@.map_values(|x: MatchExpr| sieve_test(match_view(x))),
            ", "@,
        ) + ")"@,
        sieve_test(match_view(MatchExpr::All { exprs: es })) == "allof ("@ + join(
            es@.map_values(|x: MatchExpr| sieve_test(match_view(x))),
            ", "@,
        ) + ")"@,
        sieve_test(match_view(MatchExpr::Not { expr: Box::new(e) })) == "not "@ + sieve_test(match_view(e)),
        sieve_test(match_view(MatchExpr::HasHeader { header: h })) == "exists \""@ + sieve_escaped(h@) + "\""@,
        sieve_test(match_view(MatchExpr::Always)) == "true"@,
{
    let subs = match_view(MatchExpr::All { exprs: es })->All_exprs;
    assert(match_view(MatchExpr::Any { exprs: es })->Any_exprs == subs);
    assert(sieve_tests(subs) =~= es@.map_values(|x: MatchExpr| sieve_test(match_view(x))));
    reveal_strlit("exists ");
    reveal_strlit("exists \"");
    reveal_strlit("\"");
    assert("exists "@ + sieve_quoted(h@) =~= "exists \""@ + sieve_escaped(h@) + "\""@);
}


/// The Sieve script lists every rule exactly once, in firing order: a
/// higher score first, and among equal scores the smaller id first; each
/// block tests the rule's expression with `if <test> {`.
pub proof fn law_sieve_script_order(rules: Seq<CategoryRule>, audit: bool, i: int, j: int)
    requires
        0 <= i < j < rules.len(),
    ensures
        firing_order(rules).len() == rules.len(),
        firing_order(rules).to_multiset() == Seq::new(rules.len(), |k: int| k).to_multiset(),
        ({
            let o = firing_order(rules);
            let a = rules[o[i]];
            let b = rules[o[j]];
            a.score > b.score || (a.score == b.score && !seq_lt(b.id@, a.id@))
        }),
        sieve_script(rules, audit) == sieve_head(audit) + concat(
            Seq::new(
                rules.len(),
                |k: int| sieve_rule_block(rule_view(rules[firing_order(rules)[k]]), audit),
            ),
        ),
        has_prefix(
            sieve_rule_block(rule_view(rules[firing_order(rules)[i]]), audit).skip(
                ("# rule "@ + rules[firing_order(rules)[i]].id@ + " (score="@ + dec_int(
                    rules[firing_order(rules)[i]].score as int,
                ) + ")\n"@).len() as int,
            ),
            "if "@ + sieve_test(match_view(rules[firing_order(rules)[i]].when)) + " {\n"@,
        ),
{
    let leq = fires_no_later(rules);
    lemma_fires_no_later_total(rules);
    let base = Seq::new(rules.len(), |k: int| k);
    base.lemma_sort_by_ensures(leq);
    let o = firing_order(rules);
    vstd::seq_lib::to_multiset_len(base);
    vstd::seq_lib::to_multiset_len(o);
    assert(o.len() == rules.len());
    assert(sorted_by(o, leq));
    assert(leq(o[i], o[j]));
    lemma_seq_lt_total(rules[o[i]].id@, rules[o[j]].id@);
    let r = rules[o[i]];
    let pre = "# rule "@ + r.id@ + " (score="@ + dec_int(r.score as int) + ")\n"@;
    let blk = sieve_rule_block(rule_view(r), audit);
    let t = "if "@ + sieve_test(match_view(r.when)) + " {\n"@;
    reveal_strlit(")\nif ");
    reveal_strlit(")\n");
    reveal_strlit("if ");
    assert(")\nif "@ =~= ")\n"@ + "if "@);
    assert(blk.skip(pre.len() as int).take(t.len() as int) =~= t);
}


/// The atomic tests: `HeaderContains` matches when some header of that
/// (lower-cased) name has a value containing the substring, both
/// lower-cased; `SubjectContainsAny` when the lower-cased subject contains
/// one of the lower-cased needles; `FromDomainIn` when the sender's domain,
/// from its last `@` on, equals one of the domains ignoring ASCII case.
/// Their Sieve tests are `header :contains`, `header :contains "Subject"`
/// and `address :matches "From"` over the same values.
pub proof fn law_match_atoms(h: String, sub: String, needles: Vec<String>, domains: Vec<String>, ctx: MessageContext)
    ensures
        expr_matches(match_view(MatchExpr::HeaderContains { header: h, substring: sub }), ctx) == (exists|k: int|
            0 <= k < ctx.headers@.len() && ctx.headers@[k].0@ == lower_text(h@) && #[trigger] has_sub(
                lower_text(ctx.headers@[k].1@),
                lower_text(sub@),
            )),
        expr_matches(match_view(MatchExpr::SubjectContainsAny { needles }), ctx) == (exists|j: int|
            0 <= j < needles.len() && #[trigger] has_sub(lower_text(ctx.subject@), lower_text(needles@[j]@))),
        expr_matches(match_view(MatchExpr::FromDomainIn { domains }), ctx) == (exists|i: int, j: int|
            last_index(ctx.from_address@, '@') == Some(i) && 0 <= j < domains.len() && #[trigger] eq_ignore_case(
                domains@[j]@,
                ctx.from_address@.skip(i),
            )),
        sieve_test(match_view(MatchExpr::HeaderContains { header: h, substring: sub })) == "header :contains "@
            + sieve_quoted(h@) + " "@ + sieve_quoted(sub@),
        sieve_test(match_view(MatchExpr::SubjectContainsAny { needles })) == "header :contains \"Subject\" ["@
            + join(strings_view(needles).map_values(|n: Seq<char>| sieve_quoted(n)), ", "@) + "]"@,
        sieve_test(match_view(MatchExpr::FromDomainIn { domains })) == "address :matches \"From\" ["@ + join(
            strings_view(domains).map_values(|d: Seq<char>| domain_pattern(d)),
            ", "@,
        ) + "]"@,
{
    let hc = match_view(MatchExpr::HeaderContains { header: h, substring: sub });
    if expr_matches(hc, ctx) {
        let k = choose|k: int| 0 <= k < ctx.headers@.len() && #[trigger] header_has(ctx, k, h@, sub@);
        assert(has_sub(lower_text(ctx.headers@[k].1@), lower_text(sub@)));
    }
    if exists|k: int| 0 <= k < ctx.headers@.len() && ctx.headers@[k].0@ == lower_text(h@) && #[trigger] has_sub(
        lower_text(ctx.headers@[k].1@),
        lower_text(sub@),
    ) {
        let k = choose|k: int| 0 <= k < ctx.headers@.len() && ctx.headers@[k].0@ == lower_text(h@) && #[trigger] has_sub(
            lower_text(ctx.headers@[k].1@),
            lower_text(sub@),
        );
        assert(header_has(ctx, k, h@, sub@));
    }
    let sv = strings_view(needles);
    if expr_matches(match_view(MatchExpr::SubjectContainsAny { needles }), ctx) {
        let j = choose|j: int| 0 <= j < sv.len() && has_sub(lower_text(ctx.subject@), lower_text(#[trigger] sv[j]));
        assert(sv[j] == needles@[j]@);
    }
    if exists|j: int| 0 <= j < needles.len() && #[trigger] has_sub(lower_text(ctx.subject@), lower_text(needles@[j]@)) {
        let j = choose|j: int| 0 <= j < needles.len() && #[trigger] has_sub(lower_text(ctx.subject@), lower_text(needles@[j]@));
        assert(sv[j] == needles@[j]@);
        assert(has_sub(lower_text(ctx.subject@), lower_text(sv[j])));
    }
    let dv = strings_view(domains);
    if expr_matches(match_view(MatchExpr::FromDomainIn { domains }), ctx) {
        let i = last_index(ctx.from_address@, '@')->Some_0;
        let j = choose|j: int| 0 <= j < dv.len() && eq_ignore_case(#[trigger] dv[j], ctx.from_address@.skip(i));
        assert(dv[j] == domains@[j]@);
        assert(eq_ignore_case(domains@[j]@, ctx.from_address@.skip(i)));
    }
    if exists|i: int, j: int|
        last_index(ctx.from_address@, '@') == Some(i) && 0 <= j < domains.len() && #[trigger] eq_ignore_case(
            domains@[j]@,
            ctx.from_address@.skip(i),
        ) {
        let (i, j) = choose|i: int, j: int|
            last_index(ctx.from_address@, '@') == Some(i) && 0 <= j < domains.len() && #[trigger] eq_ignore_case(
                domains@[j]@,
                ctx.from_address@.skip(i),
            );
        assert(dv[j] == domains@[j]@);
        assert(eq_ignore_case(dv[j], ctx.from_address@.skip(i)));
    }
}


proof fn lemma_block_parts(rv: RuleSpec, audit: bool)
    ensures
        has_sub(sieve_rule_block(rv, audit), sieve_action(rv.action, "    "@)),
        rv.stop_on_match ==> has_sub(sieve_rule_block(rv, audit), "    stop;\n"@),
{
    let head = "# rule "@ + rv.id + " (score="@ + dec_int(rv.score) + ")\nif "@ + sieve_test(rv.when) + " {\n"@
        + (if audit {
        "    addheader \"X-PlausiDen-Category\" \""@ + audit_value(rv.id, rv.score) + "\";\n"@
    } else {
        seq![]
    });
    let act = sieve_action(rv.action, "    "@);
    let stop = if rv.stop_on_match {
        "    stop;\n"@
    } else {
        seq![]
    };
    let blk = sieve_rule_block(rv, audit);
    assert(blk =~= head + act + (stop + "}\n\n"@));
    lemma_sub_self(act);
    lemma_sub_within(head, act, stop + "}\n\n"@, act);
    if rv.stop_on_match {
        assert(blk =~= (head + act) + stop + "}\n\n"@);
        lemma_sub_self(stop);
        lemma_sub_within(head + act, stop, "}\n\n"@, stop);
    }
}

/// A rule's Sieve block carries out its action and honours `stop`: a
/// `FileInto` rule files with `fileinto :create "<folder>"`, a `SetFlag`
/// rule flags with `addflag "<flag>"`, and a `stop_on_match` rule ends the
/// script with `stop;`.
pub proof fn law_sieve_block_actions(r: CategoryRule, audit: bool)
    ensures
        r.action matches Action::FileInto { folder } ==> has_sub(
            sieve_rule_block(rule_view(r), audit),
            "    fileinto :create \""@ + sieve_escaped(folder@) + "\";\n"@,
        ),
        r.action matches Action::SetFlag { flag } ==> has_sub(
            sieve_rule_block(rule_view(r), audit),
            "    addflag \""@ + sieve_escaped(flag@) + "\";\n"@,
        ),
        r.stop_on_match ==> has_sub(sieve_rule_block(rule_view(r), audit), "    stop;\n"@),
{
    lemma_block_parts(rule_view(r), audit);
    match r.action {
        Action::FileInto { folder } => {
            reveal_strlit("    ");
            reveal_strlit("fileinto :create ");
            reveal_strlit("    fileinto :create \"");
            reveal_strlit("\"");
            reveal_strlit(";\n");
            reveal_strlit("\";\n");
            assert(sieve_action(action_view(r.action), "    "@) =~= "    fileinto :create \""@ + sieve_escaped(folder@) + "\";\n"@);
        },
        Action::SetFlag { flag } => {
            reveal_strlit("    ");
            reveal_strlit("addflag ");
            reveal_strlit("    addflag \"");
            reveal_strlit("\"");
            reveal_strlit(";\n");
            reveal_strlit("\";\n");
            assert(sieve_action(action_view(r.action), "    "@) =~= "    addflag \""@ + sieve_escaped(flag@) + "\";\n"@);
        },
        _ => {},
    }
}

} // verus!

