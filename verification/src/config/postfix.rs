//! Postfix virtual mailbox map entries and local-part validation.
use vstd::prelude::*;
use crate::config::domain::{Domain, address_of};
use crate::config::error::{ConfigError, is_validation, validation_error};
use crate::seqs::{filter_map, lemma_filter_map_step, lemma_take_full};
use crate::text::{append_string, chars_of, is_blank, is_whitespace, is_ws, lines, lines_of, owned, string_of, trim, views};

verus! {

/// Default path of the Postfix virtual mailbox map.
pub const VMAILBOX_PATH: &'static str = "/etc/postfix/vmailbox";

/// Default path of the Postfix virtual alias map.
pub const VALIAS_PATH: &'static str = "/etc/postfix/virtual";

/// One vmailbox line: `local@domain  domain/local/`.
pub open spec fn vmailbox_line(local: Seq<char>, domain: Seq<char>) -> Seq<char> {
    local + "@"@ + domain + "  "@ + domain + "/"@ + local + "/"@
}

/// The vmailbox entries of a domain's mailboxes, in mailbox order.
pub fn generate_vmailbox_entries(domain: &Domain) -> (r: Vec<String>)
    ensures
        r@.len() == domain.mailboxes@.len(),
        forall|i: int|
            0 <= i < r@.len() ==> #[trigger] r@[i]@ == vmailbox_line(
                domain.mailboxes@[i].local_part@,
                domain.name@,
            ),
{
    let mut out: Vec<String> = Vec::new();
    let mut i: usize = 0;
    while i < domain.mailboxes.len()
        invariant
            i <= domain.mailboxes@.len(),
            out@.len() == i,
            forall|k: int|
                0 <= k < i ==> #[trigger] out@[k]@ == vmailbox_line(
                    domain.mailboxes@[k].local_part@,
                    domain.name@,
                ),
        decreases domain.mailboxes@.len() - i,
    {
        let local = &domain.mailboxes[i].local_part;
        let mut s = local.clone();
        s.append("@");
        append_string(&mut s, &domain.name);
        s.append("  ");
        append_string(&mut s, &domain.name);
        s.append("/");
        append_string(&mut s, local);
        s.append("/");
        out.push(s);
        i = i + 1;
    }
    out
}

/// Characters a local part may not hold: whitespace, `@`, `/`, `\`.
pub open spec fn local_part_bad_char(c: char) -> bool {
    is_ws(c) || c == '@' || c == '/' || c == '\\'
}

/// Whether `s` holds a character that is not allowed in a local part.
pub open spec fn has_bad_local_char(s: Seq<char>) -> bool {
    exists|i: int| 0 <= i < s.len() && local_part_bad_char(#[trigger] s[i])
}

/// Checks that a local part is safe to write into Postfix maps: not empty,
/// and without whitespace, `@`, `/` or `\` (config injection).
pub fn validate_local_part(local: &str) -> (r: Result<(), ConfigError>)
    ensures
        r is Ok <==> local@.len() > 0 && !has_bad_local_char(local@),
        local@.len() == 0 ==> (r matches Err(e) && is_validation(
            e,
            "local_part"@,
            "cannot be empty"@,
        )),
        local@.len() > 0 && has_bad_local_char(local@) ==> (r matches Err(e) && is_validation(
            e,
            "local_part"@,
            "contains invalid characters: "@ + local@,
        )),
{
    let v = chars_of(local);
    if v.len() == 0 {
        return Err(validation_error("local_part", owned("cannot be empty")));
    }
    let mut i: usize = 0;
    while i < v.len()
        invariant
            i <= v.len(),
            v@ == local@,
            forall|k: int| 0 <= k < i ==> !local_part_bad_char(#[trigger] v@[k]),
        decreases v.len() - i,
    {
        let c = v[i];
        if is_whitespace(c) || c == '@' || c == '/' || c == '\\' {
            assert(local_part_bad_char(v@[i as int]));
            let mut reason = owned("contains invalid characters: ");
            reason.append(local);
            return Err(validation_error("local_part", reason));
        }
        i = i + 1;
    }
    Ok(())
}

/// Whether a vmailbox line carries an entry (not blank, not a comment).
pub open spec fn vmailbox_line_kept(l: Seq<char>) -> bool {
    trim(l).len() > 0 && !(l.len() > 0 && l[0] == '#')
}

/// The entry lines of a vmailbox file's content, in order.
pub open spec fn vmailbox_entries(content: Seq<char>) -> Seq<Seq<char>> {
    filter_map(
        lines(content),
        |l: Seq<char>|
            if vmailbox_line_kept(l) {
                Some(l)
            } else {
                None
            },
    )
}

/// The entry lines of a vmailbox file's content (blank lines and `#`
/// comments dropped).
pub fn vmailbox_lines(content: &str) -> (r: Vec<String>)
    ensures
        r@.map_values(|s: String| s@) == vmailbox_entries(content@),
{
    let cs = chars_of(content);
    let ls = lines_of(&cs);
    let ghost lv = views(ls@);
    let ghost f = |l: Seq<char>|
        if vmailbox_line_kept(l) {
            Some(l)
        } else {
            None
        };
    let mut out: Vec<String> = Vec::new();
    let mut i: usize = 0;
    while i < ls.len()
        invariant
            i <= ls.len(),
            lv == views(ls@),
            lv == lines(content@),
            f == (|l: Seq<char>|
                if vmailbox_line_kept(l) {
                    Some(l)
                } else {
                    None
                }),
            out@.map_values(|s: String| s@) == filter_map(lv.take(i as int), f),
        decreases ls.len() - i,
    {
        let line = &ls[i];
        proof {
            lemma_filter_map_step(lv, f, i as int);
            assert(lv[i as int] == line@);
        }
        let ghost before = out@;
        if !is_blank(line) && !(line.len() > 0 && line[0] == '#') {
            let s = string_of(line);
            out.push(s);
            assert(out@.map_values(|s: String| s@) =~= before.map_values(|s: String| s@).push(
                line@,
            ));
        }
        i = i + 1;
    }
    proof {
        lemma_take_full(lv);
    }
    out
}


/// A vmailbox entry maps a mailbox's full address (as `Mailbox::address`
/// writes it) to its Maildir `<domain>/<local>/`, separated by two spaces;
/// the trailing `/` makes Postfix deliver in Maildir format.
pub proof fn law_vmailbox_maps_address_to_maildir(local: Seq<char>, domain: Seq<char>)
    ensures
        vmailbox_line(local, domain) == address_of(local, domain) + "  "@ + (domain + "/"@ + local + "/"@),
{
    assert(vmailbox_line(local, domain) =~= address_of(local, domain) + "  "@ + (domain + "/"@ + local + "/"@));
}

} // verus!
