//! The default category rules: internal mail, sign-in codes, important
//! mail, receipts, travel, banking, promotions, social, forums and updates.
use vstd::prelude::*;
use crate::config::categories::{
    Action, ActionSpec, CategoryRule, CategoryRules, MatchExpr, MatchSpec, RuleSpec, action_view,
    lemma_all_view, lemma_any_view, lemma_sequence_view, lemma_strings_view, match_view, rule_view,
    rules_view,
};
use crate::text::owned;

verus! {

/// The `internal_source` rule as plain values.
pub open spec fn default_rule_internal_source() -> RuleSpec {
    RuleSpec {
        id: "internal_source"@,
        display_name: "Internal infrastructure → INBOX"@,
        when: MatchSpec::Any { exprs: seq![
            MatchSpec::FromDomainIn { domains: seq![
                "@plausiden.com"@,
                "@plausiden.internal"@,
                "@vultr.guest"@,
                "@vultr.vultr"@,
                "@vultr.local"@,
                "@web-01.plausiden.internal"@,
            ] },
            MatchSpec::HeaderContains { header: "From"@, substring: ".vultr."@ },
            MatchSpec::HeaderContains { header: "From"@, substring: "@vultr"@ },
        ] },
        action: ActionSpec::FileInto { folder: "INBOX"@ },
        score: 100,
        stop_on_match: true,
    }
}

/// The `internal_source` rule.
fn rule_internal_source() -> (r: CategoryRule)
    ensures
        rule_view(r) == default_rule_internal_source(),
{
    let s1: Vec<String> = vec![
        owned("@plausiden.com"),
        owned("@plausiden.internal"),
        owned("@vultr.guest"),
        owned("@vultr.vultr"),
        owned("@vultr.local"),
        owned("@web-01.plausiden.internal"),
    ];
    proof {
        lemma_strings_view(
            s1,
            seq![
                "@plausiden.com"@,
                "@plausiden.internal"@,
                "@vultr.guest"@,
                "@vultr.vultr"@,
                "@vultr.local"@,
                "@web-01.plausiden.internal"@,
            ],
        );
    }
    let e2 = MatchExpr::FromDomainIn { domains: s1 };
    let e3 = MatchExpr::HeaderContains { header: owned("From"), substring: owned(".vultr.") };
    let e4 = MatchExpr::HeaderContains { header: owned("From"), substring: owned("@vultr") };
    let ghost v5_s = seq![match_view(e2), match_view(e3), match_view(e4)];
    let v5: Vec<MatchExpr> = vec![e2, e3, e4];
    proof {
        assert forall|i: int| 0 <= i < v5_s.len() implies match_view(#[trigger] v5@[i]) == v5_s[i] by {}
        lemma_any_view(v5, v5_s);
    }
    let e6 = MatchExpr::Any { exprs: v5 };
    let a7 = Action::FileInto { folder: owned("INBOX") };
    CategoryRule {
        id: owned("internal_source"),
        display_name: owned("Internal infrastructure → INBOX"),
        when: e6,
        action: a7,
        score: 100,
        stop_on_match: true,
    }
}

/// The `2fa_inbox` rule as plain values.
pub open spec fn default_rule_2fa_inbox() -> RuleSpec {
    RuleSpec {
        id: "2fa_inbox"@,
        display_name: "Auth codes (2FA / verification / sign-in) → INBOX + flagged"@,
        when: MatchSpec::Any { exprs: seq![
            MatchSpec::SubjectContainsAny { needles: seq![
                "2FA"@,
                "verification code"@,
                "verify your email"@,
                "sign-in code"@,
                "sign in code"@,
                "security code"@,
                "one-time code"@,
                "auth code"@,
                "login code"@,
                "passcode"@,
                "your code is"@,
                " code is "@,
                "OTP"@,
            ] },
            MatchSpec::HeaderContains { header: "Subject"@, substring: "is your code"@ },
        ] },
        action: ActionSpec::Sequence { actions: seq![
            ActionSpec::SetFlag { flag: "\\Flagged"@ },
            ActionSpec::FileInto { folder: "INBOX"@ },
        ] },
        score: 95,
        stop_on_match: true,
    }
}

/// The `2fa_inbox` rule.
fn rule_2fa_inbox() -> (r: CategoryRule)
    ensures
        rule_view(r) == default_rule_2fa_inbox(),
{
    let s1: Vec<String> = vec![
        owned("2FA"),
        owned("verification code"),
        owned("verify your email"),
        owned("sign-in code"),
        owned("sign in code"),
        owned("security code"),
        owned("one-time code"),
        owned("auth code"),
        owned("login code"),
        owned("passcode"),
        owned("your code is"),
        owned(" code is "),
        owned("OTP"),
    ];
    proof {
        lemma_strings_view(
            s1,
            seq![
                "2FA"@,
                "verification code"@,
                "verify your email"@,
                "sign-in code"@,
                "sign in code"@,
                "security code"@,
                "one-time code"@,
                "auth code"@,
                "login code"@,
                "passcode"@,
                "your code is"@,
                " code is "@,
                "OTP"@,
            ],
        );
    }
    let e2 = MatchExpr::SubjectContainsAny { needles: s1 };
    let e3 = MatchExpr::HeaderContains { header: owned("Subject"), substring: owned("is your code") };
    let ghost v4_s = seq![match_view(e2), match_view(e3)];
    let v4: Vec<MatchExpr> = vec![e2, e3];
    proof {
        assert forall|i: int| 0 <= i < v4_s.len() implies match_view(#[trigger] v4@[i]) == v4_s[i] by {}
        lemma_any_view(v4, v4_s);
    }
    let e5 = MatchExpr::Any { exprs: v4 };
    let a6 = Action::SetFlag { flag: owned("\\Flagged") };
    let a7 = Action::FileInto { folder: owned("INBOX") };
    let ghost w8_s = seq![action_view(a6), action_view(a7)];
    let w8: Vec<Action> = vec![a6, a7];
    proof {
        assert forall|i: int| 0 <= i < w8_s.len() implies action_view(#[trigger] w8@[i]) == w8_s[i] by {}
        lemma_sequence_view(w8, w8_s);
    }
    let a9 = Action::Sequence { actions: w8 };
    CategoryRule {
        id: owned("2fa_inbox"),
        display_name: owned("Auth codes (2FA / verification / sign-in) → INBOX + flagged"),
        when: e5,
        action: a9,
        score: 95,
        stop_on_match: true,
    }
}

/// The `banking` rule as plain values.
pub open spec fn default_rule_banking() -> RuleSpec {
    RuleSpec {
        id: "banking"@,
        display_name: "Banking — bank / credit card / brokerage senders"@,
        when: MatchSpec::FromDomainIn { domains: seq![
            "@chase.com"@,
            "@bankofamerica.com"@,
            "@wellsfargo.com"@,
            "@citi.com"@,
            "@citibank.com"@,
            "@usbank.com"@,
            "@pnc.com"@,
            "@truist.com"@,
            "@capitalone.com"@,
            "@allyinvest.com"@,
            "@ally.com"@,
            "@discover.com"@,
            "@hsbc.com"@,
            "@tdbank.com"@,
            "@americanexpress.com"@,
            "@amex.com"@,
            "@citicards.com"@,
            "@chase.email.chase.com"@,
            "@schwab.com"@,
            "@fidelity.com"@,
            "@vanguard.com"@,
            "@etrade.com"@,
            "@tdameritrade.com"@,
            "@robinhood.com"@,
            "@coinbase.com"@,
            "@intuit.com"@,
            "@turbotax.com"@,
            "@quickbooks.com"@,
            "@hrblock.com"@,
            "@venmo.com"@,
            "@zelle.com"@,
            "@wise.com"@,
            "@transferwise.com"@,
            "@cash.app"@,
            "@squareup.com"@,
        ] },
        action: ActionSpec::FileInto { folder: "Banking"@ },
        score: 86,
        stop_on_match: true,
    }
}

/// Banking → Banking folder. Bank statements, credit-card alerts,
/// brokerage notices, retirement-account statements. These are
/// reference material reviewed monthly (statements) or at tax time
/// (1099s, donation receipts), and they're worth pulling out of the
/// generic Updates bucket where they currently go via the
/// updates_senders domain list.
///
/// Score 86 (same band as travel): below receipts (87, "your
/// receipt from Chase" → financial record first) and below
/// important_billing_critical (89, "card declined" → page).
///
/// IMPORTANT: bank security alerts ("new sign-in detected") still
/// route to Important via important_security (92), since "did
/// someone log into my bank account?" is page-worthy.
fn rule_banking() -> (r: CategoryRule)
    ensures
        rule_view(r) == default_rule_banking(),
{
    let s1: Vec<String> = vec![
        owned("@chase.com"),
        owned("@bankofamerica.com"),
        owned("@wellsfargo.com"),
        owned("@citi.com"),
        owned("@citibank.com"),
        owned("@usbank.com"),
        owned("@pnc.com"),
        owned("@truist.com"),
        owned("@capitalone.com"),
        owned("@allyinvest.com"),
        owned("@ally.com"),
        owned("@discover.com"),
        owned("@hsbc.com"),
        owned("@tdbank.com"),
        owned("@americanexpress.com"),
        owned("@amex.com"),
        owned("@citicards.com"),
        owned("@chase.email.chase.com"),
        owned("@schwab.com"),
        owned("@fidelity.com"),
        owned("@vanguard.com"),
        owned("@etrade.com"),
        owned("@tdameritrade.com"),
        owned("@robinhood.com"),
        owned("@coinbase.com"),
        owned("@intuit.com"),
        owned("@turbotax.com"),
        owned("@quickbooks.com"),
        owned("@hrblock.com"),
        owned("@venmo.com"),
        owned("@zelle.com"),
        owned("@wise.com"),
        owned("@transferwise.com"),
        owned("@cash.app"),
        owned("@squareup.com"),
    ];
    proof {
        lemma_strings_view(
            s1,
            seq![
                "@chase.com"@,
                "@bankofamerica.com"@,
                "@wellsfargo.com"@,
                "@citi.com"@,
                "@citibank.com"@,
                "@usbank.com"@,
                "@pnc.com"@,
                "@truist.com"@,
                "@capitalone.com"@,
                "@allyinvest.com"@,
                "@ally.com"@,
                "@discover.com"@,
                "@hsbc.com"@,
                "@tdbank.com"@,
                "@americanexpress.com"@,
                "@amex.com"@,
                "@citicards.com"@,
                "@chase.email.chase.com"@,
                "@schwab.com"@,
                "@fidelity.com"@,
                "@vanguard.com"@,
                "@etrade.com"@,
                "@tdameritrade.com"@,
                "@robinhood.com"@,
                "@coinbase.com"@,
                "@intuit.com"@,
                "@turbotax.com"@,
                "@quickbooks.com"@,
                "@hrblock.com"@,
                "@venmo.com"@,
                "@zelle.com"@,
                "@wise.com"@,
                "@transferwise.com"@,
                "@cash.app"@,
                "@squareup.com"@,
            ],
        );
    }
    let e2 = MatchExpr::FromDomainIn { domains: s1 };
    let a3 = Action::FileInto { folder: owned("Banking") };
    CategoryRule {
        id: owned("banking"),
        display_name: owned("Banking — bank / credit card / brokerage senders"),
        when: e2,
        action: a3,
        score: 86,
        stop_on_match: true,
    }
}

/// The `travel` rule as plain values.
pub open spec fn default_rule_travel() -> RuleSpec {
    RuleSpec {
        id: "travel"@,
        display_name: "Travel — airline / hotel / rental car / travel agency senders"@,
        when: MatchSpec::FromDomainIn { domains: seq![
            "@united.com"@,
            "@aa.com"@,
            "@delta.com"@,
            "@southwest.com"@,
            "@jetblue.com"@,
            "@alaskaair.com"@,
            "@spirit.com"@,
            "@frontierairlines.com"@,
            "@hawaiianair.com"@,
            "@britishairways.com"@,
            "@aircanada.ca"@,
            "@aircanada.com"@,
            "@lufthansa.com"@,
            "@airfrance.com"@,
            "@klm.com"@,
            "@emirates.com"@,
            "@qatarairways.com"@,
            "@singaporeair.com"@,
            "@cathaypacific.com"@,
            "@ana.co.jp"@,
            "@jal.com"@,
            "@marriott.com"@,
            "@hilton.com"@,
            "@hyatt.com"@,
            "@ihg.com"@,
            "@accorhotels.com"@,
            "@choicehotels.com"@,
            "@bestwestern.com"@,
            "@wyndhamhotels.com"@,
            "@radisson.com"@,
            "@booking.com"@,
            "@expedia.com"@,
            "@hotels.com"@,
            "@kayak.com"@,
            "@priceline.com"@,
            "@orbitz.com"@,
            "@travelocity.com"@,
            "@tripadvisor.com"@,
            "@trivago.com"@,
            "@agoda.com"@,
            "@airbnb.com"@,
            "@vrbo.com"@,
            "@hertz.com"@,
            "@enterprise.com"@,
            "@avis.com"@,
            "@budget.com"@,
            "@nationalcar.com"@,
            "@alamo.com"@,
            "@sixt.com"@,
            "@amtrak.com"@,
            "@eurostar.com"@,
            "@trainline.com"@,
            "@greyhound.com"@,
            "@megabus.com"@,
            "@tripit.com"@,
            "@triplog.com"@,
        ] },
        action: ActionSpec::FileInto { folder: "Travel"@ },
        score: 86,
        stop_on_match: true,
    }
}

/// Travel → Travel folder. Airline / hotel / rental-car / travel-
/// agency mail. These are reference documents (boarding passes,
/// reservation confirmations) the recipient typically wants
/// findable as a group, not interleaved with GitHub PRs and Stripe
/// receipts in a generic Updates bucket.
///
/// Score 86 sits between receipts (87) and updates_senders (85).
/// So a "Your receipt from United" matches receipts first (87),
/// while a "Your flight to LAX on May 12" hits travel (86) — both
/// are sensible because the receipts rule is for the financial
/// record, the travel rule is for the itinerary.
///
/// IMPORTANT-class travel mail (cancellation, schedule change,
/// "action required") still beats this via important_billing_critical
/// (89, "action required" pattern) — flight delays and cancellations
/// are time-sensitive enough to warrant pager-level routing.
fn rule_travel() -> (r: CategoryRule)
    ensures
        rule_view(r) == default_rule_travel(),
{
    let s1: Vec<String> = vec![
        owned("@united.com"),
        owned("@aa.com"),
        owned("@delta.com"),
        owned("@southwest.com"),
        owned("@jetblue.com"),
        owned("@alaskaair.com"),
        owned("@spirit.com"),
        owned("@frontierairlines.com"),
        owned("@hawaiianair.com"),
        owned("@britishairways.com"),
        owned("@aircanada.ca"),
        owned("@aircanada.com"),
        owned("@lufthansa.com"),
        owned("@airfrance.com"),
        owned("@klm.com"),
        owned("@emirates.com"),
        owned("@qatarairways.com"),
        owned("@singaporeair.com"),
        owned("@cathaypacific.com"),
        owned("@ana.co.jp"),
        owned("@jal.com"),
        owned("@marriott.com"),
        owned("@hilton.com"),
        owned("@hyatt.com"),
        owned("@ihg.com"),
        owned("@accorhotels.com"),
        owned("@choicehotels.com"),
        owned("@bestwestern.com"),
        owned("@wyndhamhotels.com"),
        owned("@radisson.com"),
        owned("@booking.com"),
        owned("@expedia.com"),
        owned("@hotels.com"),
        owned("@kayak.com"),
        owned("@priceline.com"),
        owned("@orbitz.com"),
        owned("@travelocity.com"),
        owned("@tripadvisor.com"),
        owned("@trivago.com"),
        owned("@agoda.com"),
        owned("@airbnb.com"),
        owned("@vrbo.com"),
        owned("@hertz.com"),
        owned("@enterprise.com"),
        owned("@avis.com"),
        owned("@budget.com"),
        owned("@nationalcar.com"),
        owned("@alamo.com"),
        owned("@sixt.com"),
        owned("@amtrak.com"),
        owned("@eurostar.com"),
        owned("@trainline.com"),
        owned("@greyhound.com"),
        owned("@megabus.com"),
        owned("@tripit.com"),
        owned("@triplog.com"),
    ];
    proof {
        lemma_strings_view(
            s1,
            seq![
                "@united.com"@,
                "@aa.com"@,
                "@delta.com"@,
                "@southwest.com"@,
                "@jetblue.com"@,
                "@alaskaair.com"@,
                "@spirit.com"@,
                "@frontierairlines.com"@,
                "@hawaiianair.com"@,
                "@britishairways.com"@,
                "@aircanada.ca"@,
                "@aircanada.com"@,
                "@lufthansa.com"@,
                "@airfrance.com"@,
                "@klm.com"@,
                "@emirates.com"@,
                "@qatarairways.com"@,
                "@singaporeair.com"@,
                "@cathaypacific.com"@,
                "@ana.co.jp"@,
                "@jal.com"@,
                "@marriott.com"@,
                "@hilton.com"@,
                "@hyatt.com"@,
                "@ihg.com"@,
                "@accorhotels.com"@,
                "@choicehotels.com"@,
                "@bestwestern.com"@,
                "@wyndhamhotels.com"@,
                "@radisson.com"@,
                "@booking.com"@,
                "@expedia.com"@,
                "@hotels.com"@,
                "@kayak.com"@,
                "@priceline.com"@,
                "@orbitz.com"@,
                "@travelocity.com"@,
                "@tripadvisor.com"@,
                "@trivago.com"@,
                "@agoda.com"@,
                "@airbnb.com"@,
                "@vrbo.com"@,
                "@hertz.com"@,
                "@enterprise.com"@,
                "@avis.com"@,
                "@budget.com"@,
                "@nationalcar.com"@,
                "@alamo.com"@,
                "@sixt.com"@,
                "@amtrak.com"@,
                "@eurostar.com"@,
                "@trainline.com"@,
                "@greyhound.com"@,
                "@megabus.com"@,
                "@tripit.com"@,
                "@triplog.com"@,
            ],
        );
    }
    let e2 = MatchExpr::FromDomainIn { domains: s1 };
    let a3 = Action::FileInto { folder: owned("Travel") };
    CategoryRule {
        id: owned("travel"),
        display_name: owned("Travel — airline / hotel / rental car / travel agency senders"),
        when: e2,
        action: a3,
        score: 86,
        stop_on_match: true,
    }
}

/// The `receipts` rule as plain values.
pub open spec fn default_rule_receipts() -> RuleSpec {
    RuleSpec {
        id: "receipts"@,
        display_name: "Receipts — payment confirmations + order receipts"@,
        when: MatchSpec::SubjectContainsAny { needles: seq![
            "your receipt"@,
            "payment received"@,
            "payment from"@,
            "you paid"@,
            "you've been paid"@,
            "thanks for your payment"@,
            "thank you for your payment"@,
            "we received your payment"@,
            "payment confirmed"@,
            "payment successful"@,
            "your order"@,
            "order received"@,
            "order confirmed"@,
            "order confirmation"@,
            "thanks for your order"@,
            "thank you for your order"@,
            "shipped"@,
            "delivery confirmation"@,
            "subscription renewed"@,
            "renewal confirmation"@,
            "your invoice"@,
            "invoice receipt"@,
            "donation receipt"@,
            "receipt for"@,
        ] },
        action: ActionSpec::FileInto { folder: "Receipts"@ },
        score: 87,
        stop_on_match: true,
    }
}

/// Receipts → Receipts folder. Transactional payment confirmations
/// (Stripe charges, PayPal receipts, bank notifications, on-demand
/// service receipts). These are valuable to keep but they swamp the
/// Updates folder when they're mixed with operational alerts.
///
/// Score 87 sits BETWEEN important_billing_critical (89, "payment
/// FAILED" → still Important) and updates_senders (85, generic
/// transactional). So:
///   - "Payment received from Stripe" → Receipts (matches here)
///   - "Payment FAILED at Stripe"     → Important (89 wins, paged)
///   - "GitHub PR opened"             → Updates (85, no receipt match)
fn rule_receipts() -> (r: CategoryRule)
    ensures
        rule_view(r) == default_rule_receipts(),
{
    let s1: Vec<String> = vec![
        owned("your receipt"),
        owned("payment received"),
        owned("payment from"),
        owned("you paid"),
        owned("you've been paid"),
        owned("thanks for your payment"),
        owned("thank you for your payment"),
        owned("we received your payment"),
        owned("payment confirmed"),
        owned("payment successful"),
        owned("your order"),
        owned("order received"),
        owned("order confirmed"),
        owned("order confirmation"),
        owned("thanks for your order"),
        owned("thank you for your order"),
        owned("shipped"),
        owned("delivery confirmation"),
        owned("subscription renewed"),
        owned("renewal confirmation"),
        owned("your invoice"),
        owned("invoice receipt"),
        owned("donation receipt"),
        owned("receipt for"),
    ];
    proof {
        lemma_strings_view(
            s1,
            seq![
                "your receipt"@,
                "payment received"@,
                "payment from"@,
                "you paid"@,
                "you've been paid"@,
                "thanks for your payment"@,
                "thank you for your payment"@,
                "we received your payment"@,
                "payment confirmed"@,
                "payment successful"@,
                "your order"@,
                "order received"@,
                "order confirmed"@,
                "order confirmation"@,
                "thanks for your order"@,
                "thank you for your order"@,
                "shipped"@,
                "delivery confirmation"@,
                "subscription renewed"@,
                "renewal confirmation"@,
                "your invoice"@,
                "invoice receipt"@,
                "donation receipt"@,
                "receipt for"@,
            ],
        );
    }
    let e2 = MatchExpr::SubjectContainsAny { needles: s1 };
    let a3 = Action::FileInto { folder: owned("Receipts") };
    CategoryRule {
        id: owned("receipts"),
        display_name: owned("Receipts — payment confirmations + order receipts"),
        when: e2,
        action: a3,
        score: 87,
        stop_on_match: true,
    }
}

/// The `important_security` rule as plain values.
pub open spec fn default_rule_important_security() -> RuleSpec {
    RuleSpec {
        id: "important_security"@,
        display_name: "Important — security alerts (sign-in, password, suspicious activity)"@,
        when: MatchSpec::SubjectContainsAny { needles: seq![
            "new sign-in"@,
            "new sign in"@,
            "new device"@,
            "new login"@,
            "suspicious sign-in"@,
            "suspicious activity"@,
            "unusual sign-in"@,
            "unusual activity"@,
            "we noticed"@,
            "security alert"@,
            "password was changed"@,
            "password changed"@,
            "password reset"@,
            "account locked"@,
            "account suspended"@,
            "compromised"@,
            "data breach"@,
            "have i been pwned"@,
            "haveibeenpwned"@,
        ] },
        action: ActionSpec::Sequence { actions: seq![
            ActionSpec::SetFlag { flag: "\\Flagged"@ },
            ActionSpec::FileInto { folder: "Important"@ },
        ] },
        score: 92,
        stop_on_match: true,
    }
}

/// Security alerts → Important. New-device sign-ins, password changes,
/// suspicious activity warnings, account-lockout notices. Score 92 sits
/// above `important_priority` (90) so we file *into* Important rather
/// than just flagging.
///
/// BUG ASSUMPTION: marketing mail occasionally borrows this language
/// ("Did you mean to sign in?"). Subject keywords are paired with
/// generic auth language so a campaign won't trip a single keyword.
fn rule_important_security() -> (r: CategoryRule)
    ensures
        rule_view(r) == default_rule_important_security(),
{
    let s1: Vec<String> = vec![
        owned("new sign-in"),
        owned("new sign in"),
        owned("new device"),
        owned("new login"),
        owned("suspicious sign-in"),
        owned("suspicious activity"),
        owned("unusual sign-in"),
        owned("unusual activity"),
        owned("we noticed"),
        owned("security alert"),
        owned("password was changed"),
        owned("password changed"),
        owned("password reset"),
        owned("account locked"),
        owned("account suspended"),
        owned("compromised"),
        owned("data breach"),
        owned("have i been pwned"),
        owned("haveibeenpwned"),
    ];
    proof {
        lemma_strings_view(
            s1,
            seq![
                "new sign-in"@,
                "new sign in"@,
                "new device"@,
                "new login"@,
                "suspicious sign-in"@,
                "suspicious activity"@,
                "unusual sign-in"@,
                "unusual activity"@,
                "we noticed"@,
                "security alert"@,
                "password was changed"@,
                "password changed"@,
                "password reset"@,
                "account locked"@,
                "account suspended"@,
                "compromised"@,
                "data breach"@,
                "have i been pwned"@,
                "haveibeenpwned"@,
            ],
        );
    }
    let e2 = MatchExpr::SubjectContainsAny { needles: s1 };
    let a3 = Action::SetFlag { flag: owned("\\Flagged") };
    let a4 = Action::FileInto { folder: owned("Important") };
    let ghost w5_s = seq![action_view(a3), action_view(a4)];
    let w5: Vec<Action> = vec![a3, a4];
    proof {
        assert forall|i: int| 0 <= i < w5_s.len() implies action_view(#[trigger] w5@[i]) == w5_s[i] by {}
        lemma_sequence_view(w5, w5_s);
    }
    let a6 = Action::Sequence { actions: w5 };
    CategoryRule {
        id: owned("important_security"),
        display_name: owned("Important — security alerts (sign-in, password, suspicious activity)"),
        when: e2,
        action: a6,
        score: 92,
        stop_on_match: true,
    }
}

/// The `important_signature` rule as plain values.
pub open spec fn default_rule_important_signature() -> RuleSpec {
    RuleSpec {
        id: "important_signature"@,
        display_name: "Important — signature requests (DocuSign / HelloSign / Adobe Sign)"@,
        when: MatchSpec::Any { exprs: seq![
            MatchSpec::FromDomainIn { domains: seq![
                "@docusign.com"@,
                "@docusign.net"@,
                "@hellosign.com"@,
                "@dropboxsign.com"@,
                "@adobesign.com"@,
                "@echosign.com"@,
                "@pandadoc.com"@,
                "@signnow.com"@,
            ] },
            MatchSpec::SubjectContainsAny { needles: seq![
                "please sign"@,
                "signature requested"@,
                "request for signature"@,
                "complete with docusign"@,
                "ready to sign"@,
                "agreement to sign"@,
                "contract to sign"@,
                "nda"@,
            ] },
        ] },
        action: ActionSpec::Sequence { actions: seq![
            ActionSpec::SetFlag { flag: "\\Flagged"@ },
            ActionSpec::FileInto { folder: "Important"@ },
        ] },
        score: 91,
        stop_on_match: true,
    }
}

/// Document-signature requests → Important. DocuSign / HelloSign /
/// Adobe Sign / Dropbox Sign envelopes plus generic "please sign"
/// patterns. These are time-sensitive and shouldn't be buried in
/// Updates next to receipts.
fn rule_important_signature() -> (r: CategoryRule)
    ensures
        rule_view(r) == default_rule_important_signature(),
{
    let s1: Vec<String> = vec![
        owned("@docusign.com"),
        owned("@docusign.net"),
        owned("@hellosign.com"),
        owned("@dropboxsign.com"),
        owned("@adobesign.com"),
        owned("@echosign.com"),
        owned("@pandadoc.com"),
        owned("@signnow.com"),
    ];
    proof {
        lemma_strings_view(
            s1,
            seq![
                "@docusign.com"@,
                "@docusign.net"@,
                "@hellosign.com"@,
                "@dropboxsign.com"@,
                "@adobesign.com"@,
                "@echosign.com"@,
                "@pandadoc.com"@,
                "@signnow.com"@,
            ],
        );
    }
    let e2 = MatchExpr::FromDomainIn { domains: s1 };
    let s3: Vec<String> = vec![
        owned("please sign"),
        owned("signature requested"),
        owned("request for signature"),
        owned("complete with docusign"),
        owned("ready to sign"),
        owned("agreement to sign"),
        owned("contract to sign"),
        owned("nda"),
    ];
    proof {
        lemma_strings_view(
            s3,
            seq![
                "please sign"@,
                "signature requested"@,
                "request for signature"@,
                "complete with docusign"@,
                "ready to sign"@,
                "agreement to sign"@,
                "contract to sign"@,
                "nda"@,
            ],
        );
    }
    let e4 = MatchExpr::SubjectContainsAny { needles: s3 };
    let ghost v5_s = seq![match_view(e2), match_view(e4)];
    let v5: Vec<MatchExpr> = vec![e2, e4];
    proof {
        assert forall|i: int| 0 <= i < v5_s.len() implies match_view(#[trigger] v5@[i]) == v5_s[i] by {}
        lemma_any_view(v5, v5_s);
    }
    let e6 = MatchExpr::Any { exprs: v5 };
    let a7 = Action::SetFlag { flag: owned("\\Flagged") };
    let a8 = Action::FileInto { folder: owned("Important") };
    let ghost w9_s = seq![action_view(a7), action_view(a8)];
    let w9: Vec<Action> = vec![a7, a8];
    proof {
        assert forall|i: int| 0 <= i < w9_s.len() implies action_view(#[trigger] w9@[i]) == w9_s[i] by {}
        lemma_sequence_view(w9, w9_s);
    }
    let a10 = Action::Sequence { actions: w9 };
    CategoryRule {
        id: owned("important_signature"),
        display_name: owned("Important — signature requests (DocuSign / HelloSign / Adobe Sign)"),
        when: e6,
        action: a10,
        score: 91,
        stop_on_match: true,
    }
}

/// The `important_billing_critical` rule as plain values.
pub open spec fn default_rule_important_billing_critical() -> RuleSpec {
    RuleSpec {
        id: "important_billing_critical"@,
        display_name: "Important — billing failure / expiry / final notice"@,
        when: MatchSpec::SubjectContainsAny { needles: seq![
            "payment failed"@,
            "card declined"@,
            "payment declined"@,
            "could not charge"@,
            "unable to process"@,
            "subscription canceled"@,
            "subscription cancelled"@,
            "subscription expir"@,
            "domain expir"@,
            "renewal failed"@,
            "final notice"@,
            "past due"@,
            "overdue"@,
            "action required"@,
            "trial ending"@,
            "trial expir"@,
        ] },
        action: ActionSpec::Sequence { actions: seq![
            ActionSpec::SetFlag { flag: "\\Flagged"@ },
            ActionSpec::FileInto { folder: "Important"@ },
        ] },
        score: 89,
        stop_on_match: true,
    }
}

/// Billing-critical → Important. Failed payments, expiring domains,
/// final notices. Sits above generic transactional Updates so a
/// "Your domain expires in 7 days" doesn't get lost next to delivery
/// confirmations.
///
/// BUG ASSUMPTION: pure receipts ("invoice for $X") still land in
/// Updates — only failure / expiry / final-notice language hits here.
fn rule_important_billing_critical() -> (r: CategoryRule)
    ensures
        rule_view(r) == default_rule_important_billing_critical(),
{
    let s1: Vec<String> = vec![
        owned("payment failed"),
        owned("card declined"),
        owned("payment declined"),
        owned("could not charge"),
        owned("unable to process"),
        owned("subscription canceled"),
        owned("subscription cancelled"),
        owned("subscription expir"),
        owned("domain expir"),
        owned("renewal failed"),
        owned("final notice"),
        owned("past due"),
        owned("overdue"),
        owned("action required"),
        owned("trial ending"),
        owned("trial expir"),
    ];
    proof {
        lemma_strings_view(
            s1,
            seq![
                "payment failed"@,
                "card declined"@,
                "payment declined"@,
                "could not charge"@,
                "unable to process"@,
                "subscription canceled"@,
                "subscription cancelled"@,
                "subscription expir"@,
                "domain expir"@,
                "renewal failed"@,
                "final notice"@,
                "past due"@,
                "overdue"@,
                "action required"@,
                "trial ending"@,
                "trial expir"@,
            ],
        );
    }
    let e2 = MatchExpr::SubjectContainsAny { needles: s1 };
    let a3 = Action::SetFlag { flag: owned("\\Flagged") };
    let a4 = Action::FileInto { folder: owned("Important") };
    let ghost w5_s = seq![action_view(a3), action_view(a4)];
    let w5: Vec<Action> = vec![a3, a4];
    proof {
        assert forall|i: int| 0 <= i < w5_s.len() implies action_view(#[trigger] w5@[i]) == w5_s[i] by {}
        lemma_sequence_view(w5, w5_s);
    }
    let a6 = Action::Sequence { actions: w5 };
    CategoryRule {
        id: owned("important_billing_critical"),
        display_name: owned("Important — billing failure / expiry / final notice"),
        when: e2,
        action: a6,
        score: 89,
        stop_on_match: true,
    }
}

/// The `important` rule as plain values.
pub open spec fn default_rule_important() -> RuleSpec {
    RuleSpec {
        id: "important_priority"@,
        display_name: "Important (X-Priority high / Importance high / Outlook attach hint)"@,
        when: MatchSpec::Any { exprs: seq![
            MatchSpec::HeaderContains { header: "X-Priority"@, substring: "1"@ },
            MatchSpec::HeaderContains { header: "X-Priority"@, substring: "2"@ },
            MatchSpec::HeaderContains { header: "Importance"@, substring: "High"@ },
            MatchSpec::HeaderContains { header: "X-MS-Has-Attach"@, substring: "yes"@ },
        ] },
        action: ActionSpec::SetFlag { flag: "\\Flagged"@ },
        score: 90,
        stop_on_match: false,
    }
}

/// The `important` rule.
fn rule_important() -> (r: CategoryRule)
    ensures
        rule_view(r) == default_rule_important(),
{
    let e1 = MatchExpr::HeaderContains { header: owned("X-Priority"), substring: owned("1") };
    let e2 = MatchExpr::HeaderContains { header: owned("X-Priority"), substring: owned("2") };
    let e3 = MatchExpr::HeaderContains { header: owned("Importance"), substring: owned("High") };
    let e4 = MatchExpr::HeaderContains { header: owned("X-MS-Has-Attach"), substring: owned("yes") };
    let ghost v5_s = seq![match_view(e1), match_view(e2), match_view(e3), match_view(e4)];
    let v5: Vec<MatchExpr> = vec![e1, e2, e3, e4];
    proof {
        assert forall|i: int| 0 <= i < v5_s.len() implies match_view(#[trigger] v5@[i]) == v5_s[i] by {}
        lemma_any_view(v5, v5_s);
    }
    let e6 = MatchExpr::Any { exprs: v5 };
    let a7 = Action::SetFlag { flag: owned("\\Flagged") };
    CategoryRule {
        id: owned("important_priority"),
        display_name: owned("Important (X-Priority high / Importance high / Outlook attach hint)"),
        when: e6,
        action: a7,
        score: 90,
        stop_on_match: false,
    }
}

/// The `promotions_listunsub` rule as plain values.
pub open spec fn default_rule_promotions_listunsub() -> RuleSpec {
    RuleSpec {
        id: "promotions_listunsub"@,
        display_name: "Promotions — bulk-mail markers (List-Unsubscribe / X-Mailer / X-Campaign / Precedence)"@,
        when: MatchSpec::Any { exprs: seq![
            MatchSpec::HasHeader { header: "List-Unsubscribe"@ },
            MatchSpec::HasHeader { header: "X-Mailer"@ },
            MatchSpec::HasHeader { header: "X-Campaign"@ },
            MatchSpec::HasHeader { header: "X-Mailgun-Tag"@ },
            MatchSpec::HeaderContains { header: "Precedence"@, substring: "bulk"@ },
            MatchSpec::HeaderContains { header: "Precedence"@, substring: "junk"@ },
            MatchSpec::HeaderContains { header: "Precedence"@, substring: "list"@ },
        ] },
        action: ActionSpec::FileInto { folder: "Promotions"@ },
        score: 80,
        stop_on_match: true,
    }
}

/// The `promotions_listunsub` rule.
fn rule_promotions_listunsub() -> (r: CategoryRule)
    ensures
        rule_view(r) == default_rule_promotions_listunsub(),
{
    let e1 = MatchExpr::HasHeader { header: owned("List-Unsubscribe") };
    let e2 = MatchExpr::HasHeader { header: owned("X-Mailer") };
    let e3 = MatchExpr::HasHeader { header: owned("X-Campaign") };
    let e4 = MatchExpr::HasHeader { header: owned("X-Mailgun-Tag") };
    let e5 = MatchExpr::HeaderContains { header: owned("Precedence"), substring: owned("bulk") };
    let e6 = MatchExpr::HeaderContains { header: owned("Precedence"), substring: owned("junk") };
    let e7 = MatchExpr::HeaderContains { header: owned("Precedence"), substring: owned("list") };
    let ghost v8_s = seq![match_view(e1), match_view(e2), match_view(e3), match_view(e4), match_view(e5), match_view(e6), match_view(e7)];
    let v8: Vec<MatchExpr> = vec![e1, e2, e3, e4, e5, e6, e7];
    proof {
        assert forall|i: int| 0 <= i < v8_s.len() implies match_view(#[trigger] v8@[i]) == v8_s[i] by {}
        lemma_any_view(v8, v8_s);
    }
    let e9 = MatchExpr::Any { exprs: v8 };
    let a10 = Action::FileInto { folder: owned("Promotions") };
    CategoryRule {
        id: owned("promotions_listunsub"),
        display_name: owned("Promotions — bulk-mail markers (List-Unsubscribe / X-Mailer / X-Campaign / Precedence)"),
        when: e9,
        action: a10,
        score: 80,
        stop_on_match: true,
    }
}

/// The `promotions_senders` rule as plain values.
pub open spec fn default_rule_promotions_senders() -> RuleSpec {
    RuleSpec {
        id: "promotions_senders"@,
        display_name: "Promotions — known marketing platforms"@,
        when: MatchSpec::FromDomainIn { domains: seq![
            "@mailchimp.com"@,
            "@sendgrid.net"@,
            "@mailgun.org"@,
            "@constantcontact.com"@,
            "@hubspot.com"@,
            "@sparkpostmail.com"@,
            "@amazonses.com"@,
            "@klaviyomail.com"@,
            "@rsgsv.net"@,
        ] },
        action: ActionSpec::FileInto { folder: "Promotions"@ },
        score: 70,
        stop_on_match: true,
    }
}

/// The `promotions_senders` rule.
fn rule_promotions_senders() -> (r: CategoryRule)
    ensures
        rule_view(r) == default_rule_promotions_senders(),
{
    let s1: Vec<String> = vec![
        owned("@mailchimp.com"),
        owned("@sendgrid.net"),
        owned("@mailgun.org"),
        owned("@constantcontact.com"),
        owned("@hubspot.com"),
        owned("@sparkpostmail.com"),
        owned("@amazonses.com"),
        owned("@klaviyomail.com"),
        owned("@rsgsv.net"),
    ];
    proof {
        lemma_strings_view(
            s1,
            seq![
                "@mailchimp.com"@,
                "@sendgrid.net"@,
                "@mailgun.org"@,
                "@constantcontact.com"@,
                "@hubspot.com"@,
                "@sparkpostmail.com"@,
                "@amazonses.com"@,
                "@klaviyomail.com"@,
                "@rsgsv.net"@,
            ],
        );
    }
    let e2 = MatchExpr::FromDomainIn { domains: s1 };
    let a3 = Action::FileInto { folder: owned("Promotions") };
    CategoryRule {
        id: owned("promotions_senders"),
        display_name: owned("Promotions — known marketing platforms"),
        when: e2,
        action: a3,
        score: 70,
        stop_on_match: true,
    }
}

/// The `social_senders` rule as plain values.
pub open spec fn default_rule_social_senders() -> RuleSpec {
    RuleSpec {
        id: "social_senders"@,
        display_name: "Social — major platforms"@,
        when: MatchSpec::FromDomainIn { domains: seq![
            "@facebook.com"@,
            "@facebookmail.com"@,
            "@mail.facebook.com"@,
            "@messenger.com"@,
            "@instagram.com"@,
            "@mail.instagram.com"@,
            "@twitter.com"@,
            "@x.com"@,
            "@linkedin.com"@,
            "@linkedinmail.com"@,
            "@discord.com"@,
            "@discordapp.com"@,
            "@slack.com"@,
            "@tiktok.com"@,
            "@youtube.com"@,
            "@reddit.com"@,
            "@redditmail.com"@,
        ] },
        action: ActionSpec::FileInto { folder: "Social"@ },
        score: 85,
        stop_on_match: true,
    }
}

/// The `social_senders` rule.
fn rule_social_senders() -> (r: CategoryRule)
    ensures
        rule_view(r) == default_rule_social_senders(),
{
    let s1: Vec<String> = vec![
        owned("@facebook.com"),
        owned("@facebookmail.com"),
        owned("@mail.facebook.com"),
        owned("@messenger.com"),
        owned("@instagram.com"),
        owned("@mail.instagram.com"),
        owned("@twitter.com"),
        owned("@x.com"),
        owned("@linkedin.com"),
        owned("@linkedinmail.com"),
        owned("@discord.com"),
        owned("@discordapp.com"),
        owned("@slack.com"),
        owned("@tiktok.com"),
        owned("@youtube.com"),
        owned("@reddit.com"),
        owned("@redditmail.com"),
    ];
    proof {
        lemma_strings_view(
            s1,
            seq![
                "@facebook.com"@,
                "@facebookmail.com"@,
                "@mail.facebook.com"@,
                "@messenger.com"@,
                "@instagram.com"@,
                "@mail.instagram.com"@,
                "@twitter.com"@,
                "@x.com"@,
                "@linkedin.com"@,
                "@linkedinmail.com"@,
                "@discord.com"@,
                "@discordapp.com"@,
                "@slack.com"@,
                "@tiktok.com"@,
                "@youtube.com"@,
                "@reddit.com"@,
                "@redditmail.com"@,
            ],
        );
    }
    let e2 = MatchExpr::FromDomainIn { domains: s1 };
    let a3 = Action::FileInto { folder: owned("Social") };
    CategoryRule {
        id: owned("social_senders"),
        display_name: owned("Social — major platforms"),
        when: e2,
        action: a3,
        score: 85,
        stop_on_match: true,
    }
}

/// The `forums_listid` rule as plain values.
pub open spec fn default_rule_forums_listid() -> RuleSpec {
    RuleSpec {
        id: "forums_listid"@,
        display_name: "Forums — mailing-list headers (List-Id / Mailing-List / List-Post)"@,
        when: MatchSpec::Any { exprs: seq![
            MatchSpec::HasHeader { header: "List-Id"@ },
            MatchSpec::HasHeader { header: "Mailing-List"@ },
            MatchSpec::HasHeader { header: "List-Post"@ },
        ] },
        action: ActionSpec::FileInto { folder: "Forums"@ },
        score: 75,
        stop_on_match: true,
    }
}

/// The `forums_listid` rule.
fn rule_forums_listid() -> (r: CategoryRule)
    ensures
        rule_view(r) == default_rule_forums_listid(),
{
    let e1 = MatchExpr::HasHeader { header: owned("List-Id") };
    let e2 = MatchExpr::HasHeader { header: owned("Mailing-List") };
    let e3 = MatchExpr::HasHeader { header: owned("List-Post") };
    let ghost v4_s = seq![match_view(e1), match_view(e2), match_view(e3)];
    let v4: Vec<MatchExpr> = vec![e1, e2, e3];
    proof {
        assert forall|i: int| 0 <= i < v4_s.len() implies match_view(#[trigger] v4@[i]) == v4_s[i] by {}
        lemma_any_view(v4, v4_s);
    }
    let e5 = MatchExpr::Any { exprs: v4 };
    let a6 = Action::FileInto { folder: owned("Forums") };
    CategoryRule {
        id: owned("forums_listid"),
        display_name: owned("Forums — mailing-list headers (List-Id / Mailing-List / List-Post)"),
        when: e5,
        action: a6,
        score: 75,
        stop_on_match: true,
    }
}

/// The `forums_listid_substring` rule as plain values.
pub open spec fn default_rule_forums_listid_substring() -> RuleSpec {
    RuleSpec {
        id: "forums_listid_substring"@,
        display_name: "Forums — list-id substring on alternate headers"@,
        when: MatchSpec::Any { exprs: seq![
            MatchSpec::HeaderContains { header: "X-List-Id"@, substring: "list"@ },
            MatchSpec::HeaderContains { header: "X-Mailing-List"@, substring: "list"@ },
            MatchSpec::HeaderContains { header: "X-Loop"@, substring: "list"@ },
            MatchSpec::HeaderContains { header: "Sender"@, substring: "owner-"@ },
            MatchSpec::HeaderContains { header: "Sender"@, substring: "-bounces@"@ },
        ] },
        action: ActionSpec::FileInto { folder: "Forums"@ },
        score: 74,
        stop_on_match: true,
    }
}

/// Forums — list-server identity hints in List-Id (when present).
/// `forums_listid` only requires the header to exist. Real-world
/// List-Id values almost always contain "list", "users", "discuss",
/// "forum", or "discourse" — but the bare `exists` check already
/// catches that case. This rule is here for completeness so that
/// senders advertising their list ID via a non-standard header
/// (e.g., `X-List-Id`) still route correctly.
fn rule_forums_listid_substring() -> (r: CategoryRule)
    ensures
        rule_view(r) == default_rule_forums_listid_substring(),
{
    let e1 = MatchExpr::HeaderContains { header: owned("X-List-Id"), substring: owned("list") };
    let e2 = MatchExpr::HeaderContains { header: owned("X-Mailing-List"), substring: owned("list") };
    let e3 = MatchExpr::HeaderContains { header: owned("X-Loop"), substring: owned("list") };
    let e4 = MatchExpr::HeaderContains { header: owned("Sender"), substring: owned("owner-") };
    let e5 = MatchExpr::HeaderContains { header: owned("Sender"), substring: owned("-bounces@") };
    let ghost v6_s = seq![match_view(e1), match_view(e2), match_view(e3), match_view(e4), match_view(e5)];
    let v6: Vec<MatchExpr> = vec![e1, e2, e3, e4, e5];
    proof {
        assert forall|i: int| 0 <= i < v6_s.len() implies match_view(#[trigger] v6@[i]) == v6_s[i] by {}
        lemma_any_view(v6, v6_s);
    }
    let e7 = MatchExpr::Any { exprs: v6 };
    let a8 = Action::FileInto { folder: owned("Forums") };
    CategoryRule {
        id: owned("forums_listid_substring"),
        display_name: owned("Forums — list-id substring on alternate headers"),
        when: e7,
        action: a8,
        score: 74,
        stop_on_match: true,
    }
}

/// The `forums_discourse_subdomain` rule as plain values.
pub open spec fn default_rule_forums_discourse_subdomain() -> RuleSpec {
    RuleSpec {
        id: "forums_discourse_subdomain"@,
        display_name: "Forums — Discourse / forum / community subdomain senders"@,
        when: MatchSpec::Any { exprs: seq![
            MatchSpec::HeaderContains { header: "From"@, substring: "@discourse."@ },
            MatchSpec::HeaderContains { header: "From"@, substring: "@forum."@ },
            MatchSpec::HeaderContains { header: "From"@, substring: "@forums."@ },
            MatchSpec::HeaderContains { header: "From"@, substring: "@community."@ },
            MatchSpec::HeaderContains { header: "From"@, substring: "@boards."@ },
            MatchSpec::HeaderContains { header: "From"@, substring: "noreply@discourse"@ },
        ] },
        action: ActionSpec::FileInto { folder: "Forums"@ },
        score: 72,
        stop_on_match: true,
    }
}

/// Forums — Discourse / phpBB / Vanilla / forum subdomain senders.
/// Discourse-style forums use `notifications@<host>` and the
/// host typically starts with `discourse.` or `forum.` or
/// `community.` Catch the From substring so we don't have to
/// enumerate hostnames.
fn rule_forums_discourse_subdomain() -> (r: CategoryRule)
    ensures
        rule_view(r) == default_rule_forums_discourse_subdomain(),
{
    let e1 = MatchExpr::HeaderContains { header: owned("From"), substring: owned("@discourse.") };
    let e2 = MatchExpr::HeaderContains { header: owned("From"), substring: owned("@forum.") };
    let e3 = MatchExpr::HeaderContains { header: owned("From"), substring: owned("@forums.") };
    let e4 = MatchExpr::HeaderContains { header: owned("From"), substring: owned("@community.") };
    let e5 = MatchExpr::HeaderContains { header: owned("From"), substring: owned("@boards.") };
    let e6 = MatchExpr::HeaderContains { header: owned("From"), substring: owned("noreply@discourse") };
    let ghost v7_s = seq![match_view(e1), match_view(e2), match_view(e3), match_view(e4), match_view(e5), match_view(e6)];
    let v7: Vec<MatchExpr> = vec![e1, e2, e3, e4, e5, e6];
    proof {
        assert forall|i: int| 0 <= i < v7_s.len() implies match_view(#[trigger] v7@[i]) == v7_s[i] by {}
        lemma_any_view(v7, v7_s);
    }
    let e8 = MatchExpr::Any { exprs: v7 };
    let a9 = Action::FileInto { folder: owned("Forums") };
    CategoryRule {
        id: owned("forums_discourse_subdomain"),
        display_name: owned("Forums — Discourse / forum / community subdomain senders"),
        when: e8,
        action: a9,
        score: 72,
        stop_on_match: true,
    }
}

/// The `forums_dev_communities` rule as plain values.
pub open spec fn default_rule_forums_dev_communities() -> RuleSpec {
    RuleSpec {
        id: "forums_dev_communities"@,
        display_name: "Forums — developer Q&A and community platforms"@,
        when: MatchSpec::FromDomainIn { domains: seq![
            "@stackexchange.com"@,
            "@stackoverflow.email"@,
            "@stackoverflow.com"@,
            "@users.rust-lang.org"@,
            "@discuss.kotlinlang.org"@,
            "@meta.discourse.org"@,
            "@discourse.org"@,
            "@quora.com"@,
            "@medium.com"@,
            "@substack.com"@,
        ] },
        action: ActionSpec::FileInto { folder: "Forums"@ },
        score: 86,
        stop_on_match: true,
    }
}

/// Forums — developer Q&A and community platforms. These look like
/// service providers (so `updates_senders` would catch them) but
/// they're discussion threads — Forums is the right home.
fn rule_forums_dev_communities() -> (r: CategoryRule)
    ensures
        rule_view(r) == default_rule_forums_dev_communities(),
{
    let s1: Vec<String> = vec![
        owned("@stackexchange.com"),
        owned("@stackoverflow.email"),
        owned("@stackoverflow.com"),
        owned("@users.rust-lang.org"),
        owned("@discuss.kotlinlang.org"),
        owned("@meta.discourse.org"),
        owned("@discourse.org"),
        owned("@quora.com"),
        owned("@medium.com"),
        owned("@substack.com"),
    ];
    proof {
        lemma_strings_view(
            s1,
            seq![
                "@stackexchange.com"@,
                "@stackoverflow.email"@,
                "@stackoverflow.com"@,
                "@users.rust-lang.org"@,
                "@discuss.kotlinlang.org"@,
                "@meta.discourse.org"@,
                "@discourse.org"@,
                "@quora.com"@,
                "@medium.com"@,
                "@substack.com"@,
            ],
        );
    }
    let e2 = MatchExpr::FromDomainIn { domains: s1 };
    let a3 = Action::FileInto { folder: owned("Forums") };
    CategoryRule {
        id: owned("forums_dev_communities"),
        display_name: owned("Forums — developer Q&A and community platforms"),
        when: e2,
        action: a3,
        score: 86,
        stop_on_match: true,
    }
}

/// The `forums_googlegroups` rule as plain values.
pub open spec fn default_rule_forums_googlegroups() -> RuleSpec {
    RuleSpec {
        id: "forums_googlegroups"@,
        display_name: "Forums — list-server domains (Google Groups, groups.io, Yahoo Groups)"@,
        when: MatchSpec::FromDomainIn { domains: seq![
            "@googlegroups.com"@,
            "@groups.io"@,
            "@yahoogroups.com"@,
        ] },
        action: ActionSpec::FileInto { folder: "Forums"@ },
        score: 70,
        stop_on_match: true,
    }
}

/// The `forums_googlegroups` rule.
fn rule_forums_googlegroups() -> (r: CategoryRule)
    ensures
        rule_view(r) == default_rule_forums_googlegroups(),
{
    let s1: Vec<String> = vec![
        owned("@googlegroups.com"),
        owned("@groups.io"),
        owned("@yahoogroups.com"),
    ];
    proof {
        lemma_strings_view(
            s1,
            seq![
                "@googlegroups.com"@,
                "@groups.io"@,
                "@yahoogroups.com"@,
            ],
        );
    }
    let e2 = MatchExpr::FromDomainIn { domains: s1 };
    let a3 = Action::FileInto { folder: owned("Forums") };
    CategoryRule {
        id: owned("forums_googlegroups"),
        display_name: owned("Forums — list-server domains (Google Groups, groups.io, Yahoo Groups)"),
        when: e2,
        action: a3,
        score: 70,
        stop_on_match: true,
    }
}

/// The `updates_senders` rule as plain values.
pub open spec fn default_rule_updates_senders() -> RuleSpec {
    RuleSpec {
        id: "updates_senders"@,
        display_name: "Updates — service providers"@,
        when: MatchSpec::FromDomainIn { domains: seq![
            "@github.com"@,
            "@noreply.github.com"@,
            "@gitlab.com"@,
            "@bitbucket.org"@,
            "@amazon.com"@,
            "@amazonaws.com"@,
            "@apple.com"@,
            "@icloud.com"@,
            "@google.com"@,
            "@microsoft.com"@,
            "@dropbox.com"@,
            "@cloudflare.com"@,
            "@vercel.com"@,
            "@netlify.com"@,
            "@docker.com"@,
            "@npmjs.com"@,
            "@pypi.org"@,
            "@vultr.com"@,
            "@digitalocean.com"@,
            "@letsencrypt.org"@,
            "@namesilo.com"@,
            "@godaddy.com"@,
            "@networksolutions.com"@,
            "@stripe.com"@,
            "@paypal.com"@,
            "@shopify.com"@,
            "@doordash.com"@,
            "@uber.com"@,
            "@lyft.com"@,
        ] },
        action: ActionSpec::FileInto { folder: "Updates"@ },
        score: 85,
        stop_on_match: true,
    }
}

/// The `updates_senders` rule.
fn rule_updates_senders() -> (r: CategoryRule)
    ensures
        rule_view(r) == default_rule_updates_senders(),
{
    let s1: Vec<String> = vec![
        owned("@github.com"),
        owned("@noreply.github.com"),
        owned("@gitlab.com"),
        owned("@bitbucket.org"),
        owned("@amazon.com"),
        owned("@amazonaws.com"),
        owned("@apple.com"),
        owned("@icloud.com"),
        owned("@google.com"),
        owned("@microsoft.com"),
        owned("@dropbox.com"),
        owned("@cloudflare.com"),
        owned("@vercel.com"),
        owned("@netlify.com"),
        owned("@docker.com"),
        owned("@npmjs.com"),
        owned("@pypi.org"),
        owned("@vultr.com"),
        owned("@digitalocean.com"),
        owned("@letsencrypt.org"),
        owned("@namesilo.com"),
        owned("@godaddy.com"),
        owned("@networksolutions.com"),
        owned("@stripe.com"),
        owned("@paypal.com"),
        owned("@shopify.com"),
        owned("@doordash.com"),
        owned("@uber.com"),
        owned("@lyft.com"),
    ];
    proof {
        lemma_strings_view(
            s1,
            seq![
                "@github.com"@,
                "@noreply.github.com"@,
                "@gitlab.com"@,
                "@bitbucket.org"@,
                "@amazon.com"@,
                "@amazonaws.com"@,
                "@apple.com"@,
                "@icloud.com"@,
                "@google.com"@,
                "@microsoft.com"@,
                "@dropbox.com"@,
                "@cloudflare.com"@,
                "@vercel.com"@,
                "@netlify.com"@,
                "@docker.com"@,
                "@npmjs.com"@,
                "@pypi.org"@,
                "@vultr.com"@,
                "@digitalocean.com"@,
                "@letsencrypt.org"@,
                "@namesilo.com"@,
                "@godaddy.com"@,
                "@networksolutions.com"@,
                "@stripe.com"@,
                "@paypal.com"@,
                "@shopify.com"@,
                "@doordash.com"@,
                "@uber.com"@,
                "@lyft.com"@,
            ],
        );
    }
    let e2 = MatchExpr::FromDomainIn { domains: s1 };
    let a3 = Action::FileInto { folder: owned("Updates") };
    CategoryRule {
        id: owned("updates_senders"),
        display_name: owned("Updates — service providers"),
        when: e2,
        action: a3,
        score: 85,
        stop_on_match: true,
    }
}

/// The `updates_subject_keywords` rule as plain values.
pub open spec fn default_rule_updates_subject_keywords() -> RuleSpec {
    RuleSpec {
        id: "updates_subject_keywords"@,
        display_name: "Updates — transactional subject keywords"@,
        when: MatchSpec::SubjectContainsAny { needles: seq![
            "receipt"@,
            "invoice"@,
            "your order"@,
            "shipping"@,
            "delivery"@,
            "confirmation"@,
            "verify"@,
            "verification"@,
            "verification code"@,
            "password reset"@,
            "two-factor"@,
            "2FA"@,
            "one-time"@,
            "otp"@,
        ] },
        action: ActionSpec::FileInto { folder: "Updates"@ },
        score: 50,
        stop_on_match: true,
    }
}

/// The `updates_subject_keywords` rule.
fn rule_updates_subject_keywords() -> (r: CategoryRule)
    ensures
        rule_view(r) == default_rule_updates_subject_keywords(),
{
    let s1: Vec<String> = vec![
        owned("receipt"),
        owned("invoice"),
        owned("your order"),
        owned("shipping"),
        owned("delivery"),
        owned("confirmation"),
        owned("verify"),
        owned("verification"),
        owned("verification code"),
        owned("password reset"),
        owned("two-factor"),
        owned("2FA"),
        owned("one-time"),
        owned("otp"),
    ];
    proof {
        lemma_strings_view(
            s1,
            seq![
                "receipt"@,
                "invoice"@,
                "your order"@,
                "shipping"@,
                "delivery"@,
                "confirmation"@,
                "verify"@,
                "verification"@,
                "verification code"@,
                "password reset"@,
                "two-factor"@,
                "2FA"@,
                "one-time"@,
                "otp"@,
            ],
        );
    }
    let e2 = MatchExpr::SubjectContainsAny { needles: s1 };
    let a3 = Action::FileInto { folder: owned("Updates") };
    CategoryRule {
        id: owned("updates_subject_keywords"),
        display_name: owned("Updates — transactional subject keywords"),
        when: e2,
        action: a3,
        score: 50,
        stop_on_match: true,
    }
}

/// The `updates_noreply_sender` rule as plain values.
pub open spec fn default_rule_updates_noreply_sender() -> RuleSpec {
    RuleSpec {
        id: "updates_noreply_sender"@,
        display_name: "Updates — From contains noreply / no-reply / donotreply"@,
        when: MatchSpec::Any { exprs: seq![
            MatchSpec::HeaderContains { header: "From"@, substring: "noreply"@ },
            MatchSpec::HeaderContains { header: "From"@, substring: "no-reply"@ },
            MatchSpec::HeaderContains { header: "From"@, substring: "donotreply"@ },
            MatchSpec::HeaderContains { header: "From"@, substring: "do-not-reply"@ },
        ] },
        action: ActionSpec::FileInto { folder: "Updates"@ },
        score: 45,
        stop_on_match: true,
    }
}

/// Catch transactional / no-reply senders by From-header substring.
/// Lower priority than the explicit domain list so a known service
/// provider still wins, but high enough to file generic
/// `noreply@example.org` mail into Updates rather than letting it
/// fall through to (none).
fn rule_updates_noreply_sender() -> (r: CategoryRule)
    ensures
        rule_view(r) == default_rule_updates_noreply_sender(),
{
    let e1 = MatchExpr::HeaderContains { header: owned("From"), substring: owned("noreply") };
    let e2 = MatchExpr::HeaderContains { header: owned("From"), substring: owned("no-reply") };
    let e3 = MatchExpr::HeaderContains { header: owned("From"), substring: owned("donotreply") };
    let e4 = MatchExpr::HeaderContains { header: owned("From"), substring: owned("do-not-reply") };
    let ghost v5_s = seq![match_view(e1), match_view(e2), match_view(e3), match_view(e4)];
    let v5: Vec<MatchExpr> = vec![e1, e2, e3, e4];
    proof {
        assert forall|i: int| 0 <= i < v5_s.len() implies match_view(#[trigger] v5@[i]) == v5_s[i] by {}
        lemma_any_view(v5, v5_s);
    }
    let e6 = MatchExpr::Any { exprs: v5 };
    let a7 = Action::FileInto { folder: owned("Updates") };
    CategoryRule {
        id: owned("updates_noreply_sender"),
        display_name: owned("Updates — From contains noreply / no-reply / donotreply"),
        when: e6,
        action: a7,
        score: 45,
        stop_on_match: true,
    }
}

/// The default rules, in the order the collection lists them.
pub open spec fn default_rules() -> Seq<RuleSpec> {
    seq![
        default_rule_internal_source(),
        default_rule_2fa_inbox(),
        default_rule_important_security(),
        default_rule_important_signature(),
        default_rule_important_billing_critical(),
        default_rule_receipts(),
        default_rule_travel(),
        default_rule_banking(),
        default_rule_important(),
        default_rule_promotions_listunsub(),
        default_rule_promotions_senders(),
        default_rule_social_senders(),
        default_rule_forums_listid(),
        default_rule_forums_listid_substring(),
        default_rule_forums_discourse_subdomain(),
        default_rule_forums_dev_communities(),
        default_rule_forums_googlegroups(),
        default_rule_updates_senders(),
        default_rule_updates_subject_keywords(),
        default_rule_updates_noreply_sender(),
    ]
}

impl Default for CategoryRules {
    /// The default rules, matching the deployed categories script.
    fn default() -> (r: CategoryRules)
        ensures
            rules_view(r.rules@) == default_rules(),
    {
        let r = CategoryRules {
            rules: vec![
                rule_internal_source(),
            rule_2fa_inbox(),
            rule_important_security(),
            rule_important_signature(),
            rule_important_billing_critical(),
            rule_receipts(),
            rule_travel(),
            rule_banking(),
            rule_important(),
            rule_promotions_listunsub(),
            rule_promotions_senders(),
            rule_social_senders(),
            rule_forums_listid(),
            rule_forums_listid_substring(),
            rule_forums_discourse_subdomain(),
            rule_forums_dev_communities(),
            rule_forums_googlegroups(),
            rule_updates_senders(),
            rule_updates_subject_keywords(),
            rule_updates_noreply_sender(),
            ],
        };
        assert(rules_view(r.rules@) =~= default_rules());
        r
    }
}

} // verus!
