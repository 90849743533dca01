//! The document renderer's command line (output form and theme), theme
//! selection by name, and the `multipart/alternative` envelope both
//! command lines print for `sendmail -t`.
use vstd::prelude::*;
use crate::templates::theme::{Theme, is_plausiden, is_sacredvote};
use crate::text::{ascii_lower_chars, ascii_lower_seq, chars_of, owned, str_eq, string_of};
use crate::tools::alert_cli::{OutputMode, args_view};

verus! {

/// What the renderer's command line asks for.
#[derive(Debug)]
pub enum TplArgs {
    Help,
    Render { mode: OutputMode, theme: Option<String> },
}

/// A request as plain values.
pub enum TplArgsV {
    Help,
    Render(OutputMode, Option<Seq<char>>),
}

/// A request as plain values.
pub open spec fn tpl_args_view(a: TplArgs) -> TplArgsV {
    match a {
        TplArgs::Help => TplArgsV::Help,
        TplArgs::Render { mode, theme } => TplArgsV::Render(
            mode,
            match theme {
                Some(t) => Some(t@),
                None => None,
            },
        ),
    }
}

/// Reads the options from position `i` on, with the output form and
/// theme read so far: the last form flag wins, `--theme` takes the next
/// argument, help stops the reading, and anything else is an error.
pub open spec fn scan_tpl(args: Seq<Seq<char>>, i: int, mode: OutputMode, theme: Option<Seq<char>>) -> Result<
    TplArgsV,
    Seq<char>,
>
    decreases args.len() - i,
{
    if i < 0 || i >= args.len() {
        Ok(TplArgsV::Render(mode, theme))
    } else {
        let a = args[i];
        if a == "--help"@ || a == "-h"@ {
            Ok(TplArgsV::Help)
        } else if a == "--plain"@ {
            scan_tpl(args, i + 1, OutputMode::Plain, theme)
        } else if a == "--html"@ {
            scan_tpl(args, i + 1, OutputMode::Html, theme)
        } else if a == "--mime"@ {
            scan_tpl(args, i + 1, OutputMode::Mime, theme)
        } else if a == "--theme"@ {
            if i + 1 < args.len() {
                scan_tpl(args, i + 2, mode, Some(args[i + 1]))
            } else {
                Err("--theme requires a value"@)
            }
        } else {
            Err("unknown arg: "@ + a)
        }
    }
}

/// Reads the renderer's command line (`argv[0]` is the program name):
/// HTML and no theme unless asked otherwise; the error text of a refused
/// line is what is reported before exiting.
pub fn parse_args(argv: &[String]) -> (r: Result<TplArgs, String>)
    ensures
        match r {
            Ok(a) => scan_tpl(args_view(argv@), 1, OutputMode::Html, None) == Ok::<TplArgsV, Seq<char>>(
                tpl_args_view(a),
            ),
            Err(m) => scan_tpl(args_view(argv@), 1, OutputMode::Html, None) == Err::<
                TplArgsV,
                Seq<char>,
            >(m@),
        },
{
    let ghost args = args_view(argv@);
    let mut mode = OutputMode::Html;
    let mut theme: Option<String> = None;
    let mut i: usize = 1;
    while i < argv.len()
        invariant
            1 <= i,
            args == args_view(argv@),
            scan_tpl(args, 1, OutputMode::Html, None) == scan_tpl(
                args,
                i as int,
                mode,
                match theme {
                    Some(t) => Some(t@),
                    None => None,
                },
            ),
        decreases argv.len() - i,
    {
        let a = argv[i].as_str();
        assert(args[i as int] == a@);
        if str_eq(a, "--help") || str_eq(a, "-h") {
            return Ok(TplArgs::Help);
        } else if str_eq(a, "--plain") {
            mode = OutputMode::Plain;
            i = i + 1;
        } else if str_eq(a, "--html") {
            mode = OutputMode::Html;
            i = i + 1;
        } else if str_eq(a, "--mime") {
            mode = OutputMode::Mime;
            i = i + 1;
        } else if str_eq(a, "--theme") {
            if i + 1 < argv.len() {
                assert(args[i + 1] == argv@[i + 1]@);
                theme = Some(argv[i + 1].clone());
                i = i + 2;
            } else {
                return Err(owned("--theme requires a value"));
            }
        } else {
            let mut m = owned("unknown arg: ");
            m.append(a);
            return Err(m);
        }
    }
    Ok(TplArgs::Render { mode, theme })
}

/// Whether a theme name (ignoring ASCII case) picks the SacredVote chrome.
pub open spec fn names_sacredvote(name: Option<Seq<char>>) -> bool {
    match name {
        Some(n) => ascii_lower_seq(n) == "sacredvote"@ || ascii_lower_seq(n) == "sacred"@,
        None => false,
    }
}

/// Whether a theme name is one the renderer knows (no name, `plausiden`,
/// `sacredvote` or `sacred`, ignoring ASCII case).
pub open spec fn known_theme(name: Option<Seq<char>>) -> bool {
    match name {
        Some(n) => names_sacredvote(name) || ascii_lower_seq(n) == "plausiden"@,
        None => true,
    }
}

/// The text of an optional name.
pub open spec fn opt_name(name: Option<&str>) -> Option<Seq<char>> {
    match name {
        Some(n) => Some(n@),
        None => None,
    }
}

/// The theme a name selects: SacredVote for `sacredvote` or `sacred`,
/// PlausiDen for anything else.
pub fn select_theme(name: Option<&str>) -> (t: Theme)
    ensures
        names_sacredvote(opt_name(name)) ==> is_sacredvote(t),
        !names_sacredvote(opt_name(name)) ==> is_plausiden(t),
{
    match name {
        Some(n) => {
            let l = string_of(&ascii_lower_chars(&chars_of(n)));
            if str_eq(l.as_str(), "sacredvote") || str_eq(l.as_str(), "sacred") {
                Theme::sacredvote()
            } else {
                Theme::plausiden()
            }
        },
        None => Theme::plausiden(),
    }
}

/// Whether the renderer knows a theme name (an unknown one falls back to
/// PlausiDen with a warning).
pub fn is_known_theme(name: Option<&str>) -> (r: bool)
    ensures
        r == known_theme(opt_name(name)),
{
    match name {
        Some(n) => {
            let l = string_of(&ascii_lower_chars(&chars_of(n)));
            str_eq(l.as_str(), "sacredvote") || str_eq(l.as_str(), "sacred") || str_eq(
                l.as_str(),
                "plausiden",
            )
        },
        None => true,
    }
}

/// The `multipart/alternative` envelope: an optional `To:` line, the
/// subject, and the plain and HTML sides under `boundary`.
pub open spec fn envelope(
    to: Option<Seq<char>>,
    subject: Seq<char>,
    plain: Seq<char>,
    html: Seq<char>,
    boundary: Seq<char>,
) -> Seq<char> {
    (match to {
        Some(t) => "To: "@ + t + "\n"@,
        None => seq![],
    }) + "Subject: "@ + subject
        + "\nMIME-Version: 1.0\nContent-Type: multipart/alternative; boundary=\""@ + boundary
        + "\"\n\n--"@ + boundary
        + "\nContent-Type: text/plain; charset=\"utf-8\"\nContent-Transfer-Encoding: 8bit\n\n"@ + plain
        + "\n--"@ + boundary
        + "\nContent-Type: text/html; charset=\"utf-8\"\nContent-Transfer-Encoding: 8bit\n\n"@ + html
        + "\n--"@ + boundary + "--\n"@
}

/// The envelope printed for `sendmail -t`.
pub fn mime_envelope(to: Option<&str>, subject: &str, plain: &str, html: &str, boundary: &str) -> (r:
    String)
    ensures
        r@ == envelope(opt_name(to), subject@, plain@, html@, boundary@),
{
    let mut s = String::new();
    match to {
        Some(t) => {
            s.append("To: ");
            s.append(t);
            s.append("\n");
        },
        None => {},
    }
    let ghost head = s@;
    s.append("Subject: ");
    s.append(subject);
    s.append("\nMIME-Version: 1.0\nContent-Type: multipart/alternative; boundary=\"");
    s.append(boundary);
    s.append("\"\n\n--");
    s.append(boundary);
    s.append("\nContent-Type: text/plain; charset=\"utf-8\"\nContent-Transfer-Encoding: 8bit\n\n");
    s.append(plain);
    s.append("\n--");
    s.append(boundary);
    s.append("\nContent-Type: text/html; charset=\"utf-8\"\nContent-Transfer-Encoding: 8bit\n\n");
    s.append(html);
    s.append("\n--");
    s.append(boundary);
    s.append("--\n");
    proof {
        let t: Seq<char> = match opt_name(to) {
            Some(t) => "To: "@ + t + "\n"@,
            None => seq![],
        };
        assert(head =~= t);
    }
    assert(s@ =~= envelope(opt_name(to), subject@, plain@, html@, boundary@));
    s
}

} // verus!
