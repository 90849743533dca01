//! The operator alert command line: `--severity`, `--title`, fields,
//! runbook, on-call contact, recipient, output form and theme.
use vstd::prelude::*;
use crate::templates::document::{Field, FieldV, field_view};
use crate::templates::prebuilt::AlertSeverity;
use crate::text::{
    ascii_lower_chars, ascii_lower_seq, chars_of, first_index, owned, slice_chars, str_eq, string_of,
    trim, trim_start_chars, trimmed_chars,
};

verus! {

/// The text `format!("{:?}", s)` gives for a string: quoted, with
/// escapes.
pub uninterp spec fn debug_text(s: Seq<char>) -> Seq<char>;

/// Formats `s` with `{:?}` (`<str as Debug>::fmt`). Claims that the result
/// is the named text; the escaping rules are not stated.
#[verifier::external_body]
fn debug_quoted(s: &str) -> (r: String)
    ensures
        r@ == debug_text(s@),
{
    format!("{s:?}")
}

/// Which side of the message is printed.
#[derive(Debug, Clone, Copy, PartialEq, Eq, Structural)]
pub enum OutputMode {
    Html,
    Plain,
    Mime,
}

/// A severity by name, ignoring ASCII case: critical (crit, page),
/// warning (warn), info (informational).
pub open spec fn severity_named(s: Seq<char>) -> Option<AlertSeverity> {
    let l = ascii_lower_seq(s);
    if l == "critical"@ || l == "crit"@ || l == "page"@ {
        Some(AlertSeverity::Critical)
    } else if l == "warning"@ || l == "warn"@ {
        Some(AlertSeverity::Warning)
    } else if l == "info"@ || l == "informational"@ {
        Some(AlertSeverity::Info)
    } else {
        None
    }
}

/// A severity by name.
pub fn parse_severity(s: &str) -> (r: Option<AlertSeverity>)
    ensures
        r == severity_named(s@),
{
    let l = string_of(&ascii_lower_chars(&chars_of(s)));
    let t = l.as_str();
    if str_eq(t, "critical") || str_eq(t, "crit") || str_eq(t, "page") {
        Some(AlertSeverity::Critical)
    } else if str_eq(t, "warning") || str_eq(t, "warn") {
        Some(AlertSeverity::Warning)
    } else if str_eq(t, "info") || str_eq(t, "informational") {
        Some(AlertSeverity::Info)
    } else {
        None
    }
}

/// `s` without its leading `c` characters.
pub open spec fn strip_leading(s: Seq<char>, c: char) -> Seq<char>
    decreases s.len(),
{
    if s.len() > 0 && s[0] == c {
        strip_leading(s.drop_first(), c)
    } else {
        s
    }
}

/// A `NAME=VALUE` field: a name starting with `@` marks a monospace value;
/// the `@`s are dropped and both sides trimmed; an empty name is refused.
pub open spec fn field_of(arg: Seq<char>) -> Option<FieldV> {
    match first_index(arg, '=') {
        None => None,
        Some(i) => {
            let label = arg.take(i);
            let name = trim(strip_leading(label, '@'));
            if name.len() == 0 {
                None
            } else {
                Some(
                    FieldV {
                        label: name,
                        value: trim(arg.skip(i + 1)),
                        mono: label.len() > 0 && label[0] == '@',
                    },
                )
            }
        },
    }
}

/// Reads a `NAME=VALUE` field argument.
pub fn parse_field(arg: &str) -> (r: Option<Field>)
    ensures
        match r {
            Some(f) => field_of(arg@) == Some(field_view(f)),
            None => field_of(arg@) is None,
        },
{
    let v = chars_of(arg);
    let eq = match crate::text::find_char(&v, '=') {
        Some(e) => e,
        None => {
            return None;
        },
    };
    proof {
        crate::text::lemma_first_index_facts(v@, '=');
    }
    let label = slice_chars(&v, 0, eq);
    assert(label@ =~= v@.take(eq as int));
    let value = trimmed_chars(&slice_chars(&v, eq + 1, v.len()));
    assert(v@.subrange(eq + 1, v@.len() as int) =~= v@.skip(eq + 1));
    let mono = label.len() > 0 && label[0] == '@';
    let mut k: usize = 0;
    assert(label@.skip(0) =~= label@);
    while k < label.len() && label[k] == '@'
        invariant
            k <= label@.len(),
            strip_leading(label@, '@') == strip_leading(label@.skip(k as int), '@'),
        decreases label.len() - k,
    {
        assert(label@.skip(k as int).drop_first() =~= label@.skip(k + 1));
        k = k + 1;
    }
    let rest = slice_chars(&label, k, label.len());
    assert(rest@ =~= label@.skip(k as int));
    let name = trimmed_chars(&rest);
    if name.len() == 0 {
        return None;
    }
    Some(Field { label: string_of(&name), value: string_of(&value), mono })
}

/// What the alert command line asks for, when it asks to render.
#[derive(Debug)]
pub struct RenderArgs {
    pub severity: AlertSeverity,
    pub title: String,
    pub summary: String,
    pub fields: Vec<Field>,
    pub runbook: Option<String>,
    pub on_call: Option<String>,
    pub to: Option<String>,
    pub output: OutputMode,
    pub theme: Option<String>,
}

/// What the alert command line asks for.
#[derive(Debug)]
pub enum AlertArgs {
    Help,
    Render(RenderArgs),
}

/// The options read so far.
pub struct AlertDraft {
    pub severity: Option<AlertSeverity>,
    pub title: Option<Seq<char>>,
    pub summary: Seq<char>,
    pub fields: Seq<FieldV>,
    pub runbook: Option<Seq<char>>,
    pub on_call: Option<Seq<char>>,
    pub to: Option<Seq<char>>,
    pub output: OutputMode,
    pub theme: Option<Seq<char>>,
}

/// Nothing read yet: HTML output, no summary.
pub open spec fn start_draft() -> AlertDraft {
    AlertDraft {
        severity: None,
        title: None,
        summary: seq![],
        fields: seq![],
        runbook: None,
        on_call: None,
        to: None,
        output: OutputMode::Html,
        theme: None,
    }
}

/// Where reading the options ends.
pub enum Scan {
    Help,
    Fail(Seq<char>),
    Done(AlertDraft),
}

/// Reads the options from position `i` on: each flag that takes a value
/// takes the next argument; help stops the reading, as does the first
/// error.
pub open spec fn scan_alert(args: Seq<Seq<char>>, i: int, d: AlertDraft) -> Scan
    decreases args.len() - i,
{
    if i < 0 || i >= args.len() {
        Scan::Done(d)
    } else {
        let a = args[i];
        let has_value = i + 1 < args.len();
        let v = args[i + 1];
        if a == "-h"@ || a == "--help"@ {
            Scan::Help
        } else if a == "--severity"@ {
            if !has_value {
                Scan::Fail("--severity requires a value"@)
            } else {
                match severity_named(v) {
                    Some(s) => scan_alert(args, i + 2, AlertDraft { severity: Some(s), ..d }),
                    None => Scan::Fail(
                        "--severity must be critical|warning|info, got "@ + debug_text(v),
                    ),
                }
            }
        } else if a == "--title"@ {
            if !has_value {
                Scan::Fail("--title requires a value"@)
            } else {
                scan_alert(args, i + 2, AlertDraft { title: Some(v), ..d })
            }
        } else if a == "--summary"@ {
            if !has_value {
                Scan::Fail("--summary requires a value"@)
            } else {
                scan_alert(args, i + 2, AlertDraft { summary: v, ..d })
            }
        } else if a == "--field"@ {
            if !has_value {
                Scan::Fail("--field requires a NAME=VALUE arg"@)
            } else {
                match field_of(v) {
                    Some(f) => scan_alert(args, i + 2, AlertDraft { fields: d.fields.push(f), ..d }),
                    None => Scan::Fail("--field expects NAME=VALUE, got "@ + debug_text(v)),
                }
            }
        } else if a == "--runbook"@ {
            if !has_value {
                Scan::Fail("--runbook requires a URL"@)
            } else {
                scan_alert(args, i + 2, AlertDraft { runbook: Some(v), ..d })
            }
        } else if a == "--on-call"@ {
            if !has_value {
                Scan::Fail("--on-call requires a contact"@)
            } else {
                scan_alert(args, i + 2, AlertDraft { on_call: Some(v), ..d })
            }
        } else if a == "--to"@ {
            if !has_value {
                Scan::Fail("--to requires a recipient"@)
            } else {
                scan_alert(args, i + 2, AlertDraft { to: Some(v), ..d })
            }
        } else if a == "--html"@ {
            scan_alert(args, i + 1, AlertDraft { output: OutputMode::Html, ..d })
        } else if a == "--plain"@ {
            scan_alert(args, i + 1, AlertDraft { output: OutputMode::Plain, ..d })
        } else if a == "--mime"@ {
            scan_alert(args, i + 1, AlertDraft { output: OutputMode::Mime, ..d })
        } else if a == "--theme"@ {
            if !has_value {
                Scan::Fail("--theme requires a name"@)
            } else {
                scan_alert(args, i + 2, AlertDraft { theme: Some(v), ..d })
            }
        } else {
            Scan::Fail("unknown arg: "@ + a)
        }
    }
}

/// An alert request as plain values (severity and title present).
pub enum AlertArgsV {
    Help,
    Render(AlertDraft),
}

/// What the command line `argv` (program name first) asks for: help, a
/// render request, or the error to report. Severity and title are
/// required, and MIME output needs a recipient.
pub open spec fn alert_args_of(argv: Seq<Seq<char>>) -> Result<AlertArgsV, Seq<char>> {
    match scan_alert(argv, 1, start_draft()) {
        Scan::Help => Ok(AlertArgsV::Help),
        Scan::Fail(m) => Err(m),
        Scan::Done(d) => if d.severity is None {
            Err("--severity is required"@)
        } else if d.title is None {
            Err("--title is required"@)
        } else if d.output == OutputMode::Mime && d.to is None {
            Err("--mime requires --to <recipient>"@)
        } else {
            Ok(AlertArgsV::Render(d))
        },
    }
}

/// The text of an optional string.
pub open spec fn opt_text(o: Option<String>) -> Option<Seq<char>> {
    match o {
        Some(s) => Some(s@),
        None => None,
    }
}

/// A render request as plain values.
pub open spec fn render_view(r: RenderArgs) -> AlertDraft {
    AlertDraft {
        severity: Some(r.severity),
        title: Some(r.title@),
        summary: r.summary@,
        fields: r.fields@.map_values(|f: Field| field_view(f)),
        runbook: opt_text(r.runbook),
        on_call: opt_text(r.on_call),
        to: opt_text(r.to),
        output: r.output,
        theme: opt_text(r.theme),
    }
}

/// A request as plain values.
pub open spec fn alert_args_view(a: AlertArgs) -> AlertArgsV {
    match a {
        AlertArgs::Help => AlertArgsV::Help,
        AlertArgs::Render(r) => AlertArgsV::Render(render_view(r)),
    }
}

/// The options read so far.
struct AlertBuf {
    severity: Option<AlertSeverity>,
    title: Option<String>,
    summary: String,
    fields: Vec<Field>,
    runbook: Option<String>,
    on_call: Option<String>,
    to: Option<String>,
    output: OutputMode,
    theme: Option<String>,
}

spec fn buf_view(b: AlertBuf) -> AlertDraft {
    AlertDraft {
        severity: b.severity,
        title: opt_text(b.title),
        summary: b.summary@,
        fields: b.fields@.map_values(|f: Field| field_view(f)),
        runbook: opt_text(b.runbook),
        on_call: opt_text(b.on_call),
        to: opt_text(b.to),
        output: b.output,
        theme: opt_text(b.theme),
    }
}

/// The strings as plain values.
pub open spec fn args_view(v: Seq<String>) -> Seq<Seq<char>> {
    v.map_values(|s: String| s@)
}

/// Reads the alert command line (`argv[0]` is the program name).
pub fn parse_args(argv: &[String]) -> (r: Result<AlertArgs, String>)
    ensures
        match r {
            Ok(a) => alert_args_of(args_view(argv@)) == Ok::<AlertArgsV, Seq<char>>(alert_args_view(a)),
            Err(m) => alert_args_of(args_view(argv@)) == Err::<AlertArgsV, Seq<char>>(m@),
        },
{
    let ghost args = args_view(argv@);
    let mut b = AlertBuf {
        severity: None,
        title: None,
        summary: String::new(),
        fields: Vec::new(),
        runbook: None,
        on_call: None,
        to: None,
        output: OutputMode::Html,
        theme: None,
    };
    assert(b.fields@.map_values(|f: Field| field_view(f)) =~= Seq::<FieldV>::empty());
    assert(b.summary@ =~= Seq::<char>::empty());
    assert(buf_view(b) == start_draft());
    let mut i: usize = 1;
    while i < argv.len()
        invariant
            1 <= i,
            args == args_view(argv@),
            scan_alert(args, 1, start_draft()) == scan_alert(args, i as int, buf_view(b)),
        decreases argv.len() - i,
    {
        let a = argv[i].as_str();
        assert(args[i as int] == a@);
        let has_value = i + 1 < argv.len();
        if has_value {
            assert(args[i + 1] == argv@[i + 1]@);
        }
        if str_eq(a, "-h") || str_eq(a, "--help") {
            return Ok(AlertArgs::Help);
        } else if str_eq(a, "--severity") {
            if !has_value {
                return Err(owned("--severity requires a value"));
            }
            let v = argv[i + 1].as_str();
            match parse_severity(v) {
                Some(s) => {
                    b.severity = Some(s);
                },
                None => {
                    let mut m = owned("--severity must be critical|warning|info, got ");
                    crate::text::append_string(&mut m, &debug_quoted(v));
                    return Err(m);
                },
            }
            i = i + 2;
        } else if str_eq(a, "--title") {
            if !has_value {
                return Err(owned("--title requires a value"));
            }
            b.title = Some(argv[i + 1].clone());
            i = i + 2;
        } else if str_eq(a, "--summary") {
            if !has_value {
                return Err(owned("--summary requires a value"));
            }
            b.summary = argv[i + 1].clone();
            i = i + 2;
        } else if str_eq(a, "--field") {
            if !has_value {
                return Err(owned("--field requires a NAME=VALUE arg"));
            }
            let v = argv[i + 1].as_str();
            match parse_field(v) {
                Some(f) => {
                    let ghost before = b.fields@;
                    let ghost fv = field_view(f);
                    b.fields.push(f);
                    assert(b.fields@.map_values(|f: Field| field_view(f)) =~= before.map_values(
                        |f: Field| field_view(f),
                    ).push(fv));
                },
                None => {
                    let mut m = owned("--field expects NAME=VALUE, got ");
                    crate::text::append_string(&mut m, &debug_quoted(v));
                    return Err(m);
                },
            }
            i = i + 2;
        } else if str_eq(a, "--runbook") {
            if !has_value {
                return Err(owned("--runbook requires a URL"));
            }
            b.runbook = Some(argv[i + 1].clone());
            i = i + 2;
        } else if str_eq(a, "--on-call") {
            if !has_value {
                return Err(owned("--on-call requires a contact"));
            }
            b.on_call = Some(argv[i + 1].clone());
            i = i + 2;
        } else if str_eq(a, "--to") {
            if !has_value {
                return Err(owned("--to requires a recipient"));
            }
            b.to = Some(argv[i + 1].clone());
            i = i + 2;
        } else if str_eq(a, "--html") {
            b.output = OutputMode::Html;
            i = i + 1;
        } else if str_eq(a, "--plain") {
            b.output = OutputMode::Plain;
            i = i + 1;
        } else if str_eq(a, "--mime") {
            b.output = OutputMode::Mime;
            i = i + 1;
        } else if str_eq(a, "--theme") {
            if !has_value {
                return Err(owned("--theme requires a name"));
            }
            b.theme = Some(argv[i + 1].clone());
            i = i + 2;
        } else {
            let mut m = owned("unknown arg: ");
            m.append(a);
            return Err(m);
        }
    }
    let severity = match b.severity {
        Some(s) => s,
        None => {
            return Err(owned("--severity is required"));
        },
    };
    let title = match b.title {
        Some(t) => t,
        None => {
            return Err(owned("--title is required"));
        },
    };
    if b.output == OutputMode::Mime && b.to.is_none() {
        return Err(owned("--mime requires --to <recipient>"));
    }
    Ok(
        AlertArgs::Render(
            RenderArgs {
                severity,
                title,
                summary: b.summary,
                fields: b.fields,
                runbook: b.runbook,
                on_call: b.on_call,
                to: b.to,
                output: b.output,
                theme: b.theme,
            },
        ),
    )
}

} // verus!
