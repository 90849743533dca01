//! Dovecot passwd-file user database entries.
use vstd::prelude::*;
use crate::config::domain::Domain;
use crate::config::error::{ConfigError, is_validation, validation_error};
use crate::seqs::{filter_map, lemma_filter_map_concat, lemma_filter_map_step, lemma_take_full};
use crate::calendar::ics_text::lemma_lines_from_run;
use crate::text::{append_string, digit_char, strip_cr, first_index, is_ws, lemma_first_index, lines_from, trim_end, trim_start, chars_of, dec, fmt_u64, has_char, is_blank, lines, lines_of, owned, splitn, splitn_chars, string_of, trim, views};

verus! {

/// Default path of the Dovecot passwd-file.
pub const PASSWD_FILE_PATH: &'static str = "/etc/dovecot/users";

/// A passwd-file line:
/// `address:hash:uid:gid::base/domain/local/`.
pub open spec fn passwd_line(
    address: Seq<char>,
    hash: Seq<char>,
    uid: nat,
    gid: nat,
    base: Seq<char>,
    domain: Seq<char>,
    local: Seq<char>,
) -> Seq<char> {
    address + ":"@ + hash + ":"@ + dec(uid) + ":"@ + dec(gid) + "::"@ + base + "/"@ + domain
        + "/"@ + local + "/"@
}

/// Whether an address is acceptable for a passwd entry: non-empty, with an `@`.
pub open spec fn passwd_address_ok(address: Seq<char>) -> bool {
    address.len() > 0 && address.contains('@')
}

/// A Dovecot passwd-file entry for a mailbox. The hash is written as given
/// (already hashed, SHA512-CRYPT recommended).
pub fn generate_passwd_entry(
    address: &str,
    password_hash: &str,
    vmail_uid: u32,
    vmail_gid: u32,
    mail_base: &str,
    domain: &str,
    local_part: &str,
) -> (r: Result<String, ConfigError>)
    ensures
        r is Ok <==> passwd_address_ok(address@),
        r matches Ok(s) ==> s@ == passwd_line(
            address@,
            password_hash@,
            vmail_uid as nat,
            vmail_gid as nat,
            mail_base@,
            domain@,
            local_part@,
        ),
        r matches Err(e) ==> is_validation(e, "address"@, "must be a valid email address"@),
{
    let a = chars_of(address);
    if a.len() == 0 || !has_char(&a, '@') {
        return Err(validation_error("address", owned("must be a valid email address")));
    }
    let mut s = owned(address);
    s.append(":");
    s.append(password_hash);
    s.append(":");
    let u = fmt_u64(vmail_uid as u64);
    append_string(&mut s, &u);
    s.append(":");
    let g = fmt_u64(vmail_gid as u64);
    append_string(&mut s, &g);
    s.append("::");
    s.append(mail_base);
    s.append("/");
    s.append(domain);
    s.append("/");
    s.append(local_part);
    s.append("/");
    Ok(s)
}

/// Whether a passwd-file line carries an entry (not blank, not a comment).
pub open spec fn passwd_line_kept(l: Seq<char>) -> bool {
    trim(l).len() > 0 && !(l.len() > 0 && l[0] == '#')
}

/// The entry of one line: address, hash and home (the sixth field, or empty).
pub open spec fn passwd_entry(l: Seq<char>) -> Option<(Seq<char>, Seq<char>, Seq<char>)> {
    if !passwd_line_kept(l) {
        None
    } else {
        let p = splitn(l, 6, ':');
        if p.len() >= 2 {
            Some((p[0], p[1], if p.len() > 5 { p[5] } else { seq![] }))
        } else {
            None
        }
    }
}

/// The entries of a passwd-file, in file order.
pub open spec fn passwd_entries(content: Seq<char>) -> Seq<(Seq<char>, Seq<char>, Seq<char>)> {
    filter_map(lines(content), |l: Seq<char>| passwd_entry(l))
}

/// The views of a triple of strings.
pub open spec fn triple_view(t: (String, String, String)) -> (Seq<char>, Seq<char>, Seq<char>) {
    (t.0@, t.1@, t.2@)
}

/// The (address, hash, home) entries of a passwd-file's content.
pub fn parse_passwd_file(content: &str) -> (r: Vec<(String, String, String)>)
    ensures
        r@.map_values(|t: (String, String, String)| triple_view(t)) == passwd_entries(content@),
{
    let cs = chars_of(content);
    let ls = lines_of(&cs);
    let ghost lv = views(ls@);
    let ghost f = |l: Seq<char>| passwd_entry(l);
    let mut out: Vec<(String, String, String)> = Vec::new();
    let mut i: usize = 0;
    while i < ls.len()
        invariant
            i <= ls.len(),
            lv == views(ls@),
            lv == lines(content@),
            f == (|l: Seq<char>| passwd_entry(l)),
            out@.map_values(|t: (String, String, String)| triple_view(t)) == filter_map(
                lv.take(i as int),
                f,
            ),
        decreases ls.len() - i,
    {
        let line = &ls[i];
        proof {
            lemma_filter_map_step(lv, f, i as int);
            assert(lv[i as int] == line@);
        }
        let ghost before = out@;
        let kept = !is_blank(line) && !(line.len() > 0 && line[0] == '#');
        assert(kept == passwd_line_kept(line@));
        if kept {
            let parts = splitn_chars(line, 6, ':');
            if parts.len() >= 2 {
                let home = if parts.len() > 5 {
                    string_of(&parts[5])
                } else {
                    String::new()
                };
                let t = (string_of(&parts[0]), string_of(&parts[1]), home);
                proof {
                    assert(views(parts@)[0] == parts@[0]@);
                    assert(views(parts@)[1] == parts@[1]@);
                    if parts.len() > 5 {
                        assert(views(parts@)[5] == parts@[5]@);
                    }
                    assert(home@ =~= (if views(parts@).len() > 5 { views(parts@)[5] } else { seq![] }));
                }
                out.push(t);
                assert(out@.map_values(|t: (String, String, String)| triple_view(t)) =~= before.map_values(
                    |t: (String, String, String)| triple_view(t),
                ).push(triple_view(t)));
            }
        }
        i = i + 1;
    }
    proof {
        lemma_take_full(lv);
    }
    out
}

/// A domain is valid when it has at least one mailbox.
pub fn validate_domain(domain: &Domain) -> (r: Result<(), ConfigError>)
    ensures
        r is Ok <==> domain.mailboxes@.len() > 0,
        r matches Err(e) ==> is_validation(
            e,
            "mailboxes"@,
            "domain "@ + domain.name@ + " has no mailboxes"@,
        ),
{
    if domain.mailboxes.len() == 0 {
        let mut reason = owned("domain ");
        append_string(&mut reason, &domain.name);
        reason.append(" has no mailboxes");
        return Err(validation_error("mailboxes", reason));
    }
    Ok(())
}


// ----- reading back what was written -----------------------------------

/// Whether `c` does not occur in `s`.
pub open spec fn lacks(s: Seq<char>, c: char) -> bool {
    forall|i: int| 0 <= i < s.len() ==> s[i] != c
}

/// The home directory a passwd line names: `base/domain/local/`.
pub open spec fn passwd_home(base: Seq<char>, domain: Seq<char>, local: Seq<char>) -> Seq<char> {
    base + "/"@ + domain + "/"@ + local + "/"@
}

proof fn lemma_split_first(x: Seq<char>, c: char, rest: Seq<char>)
    requires
        lacks(x, c),
    ensures
        first_index(x + seq![c] + rest, c) == Some(x.len() as int),
        (x + seq![c] + rest).take(x.len() as int) == x,
        (x + seq![c] + rest).skip(x.len() as int + 1) == rest,
{
    let s = x + seq![c] + rest;
    assert forall|k: int| 0 <= k < x.len() implies s[k] != c by {
        assert(s[k] == x[k]);
    }
    lemma_first_index(s, c, x.len() as int);
    assert(s.take(x.len() as int) =~= x);
    assert(s.skip(x.len() as int + 1) =~= rest);
}

proof fn lemma_lacks_concat(a: Seq<char>, b: Seq<char>, c: char)
    requires
        lacks(a, c),
        lacks(b, c),
    ensures
        lacks(a + b, c),
{
    assert forall|i: int| 0 <= i < (a + b).len() implies (a + b)[i] != c by {
        if i < a.len() {
            assert((a + b)[i] == a[i]);
        } else {
            assert((a + b)[i] == b[i - a.len()]);
        }
    }
}

proof fn lemma_dec_digits(n: nat)
    ensures
        lacks(dec(n), ':'),
        lacks(dec(n), '\n'),
    decreases n,
{
    if n >= 10 {
        lemma_dec_digits(n / 10);
        let d = dec(n / 10);
        assert forall|i: int| 0 <= i < dec(n).len() implies dec(n)[i] != ':' && dec(n)[i] != '\n' by {
            if i < d.len() {
                assert(dec(n)[i] == d[i]);
            } else {
                assert(dec(n)[i] == digit_char(n % 10));
            }
        }
    }
}

proof fn lemma_trim_start_keeps(s: Seq<char>, k: int)
    requires
        0 <= k < s.len(),
        !is_ws(s[k]),
    ensures
        trim_start(s).len() > 0,
        !is_ws(trim_start(s).last()) || exists|j: int| 0 <= j < trim_start(s).len() && !is_ws(#[trigger] trim_start(s)[j]),
    decreases s.len(),
{
    if is_ws(s[0]) {
        assert(s.drop_first()[k - 1] == s[k]);
        lemma_trim_start_keeps(s.drop_first(), k - 1);
    } else {
        assert(!is_ws(trim_start(s)[0]));
    }
}

proof fn lemma_trim_end_keeps(s: Seq<char>, k: int)
    requires
        0 <= k < s.len(),
        !is_ws(s[k]),
    ensures
        trim_end(s).len() > 0,
    decreases s.len(),
{
    if is_ws(s.last()) {
        assert(k < s.len() - 1);
        assert(s.drop_last()[k] == s[k]);
        lemma_trim_end_keeps(s.drop_last(), k);
    }
}

proof fn lemma_trim_keeps(s: Seq<char>, k: int)
    requires
        0 <= k < s.len(),
        !is_ws(s[k]),
    ensures
        crate::text::trim(s).len() > 0,
{
    lemma_trim_start_keeps(s, k);
    let t = trim_start(s);
    let j = choose|j: int| 0 <= j < t.len() && !is_ws(#[trigger] t[j]);
    if !is_ws(t.last()) {
        lemma_trim_end_keeps(t, t.len() - 1);
    } else {
        lemma_trim_end_keeps(t, j);
    }
}

pub(crate) proof fn lemma_splitn_step(x: Seq<char>, rest: Seq<char>, n: nat)
    requires
        lacks(x, ':'),
        n >= 2,
    ensures
        splitn(x + seq![':'] + rest, n, ':') == seq![x] + splitn(rest, (n - 1) as nat, ':'),
{
    lemma_split_first(x, ':', rest);
}

proof fn lemma_passwd_fields(
    address: Seq<char>,
    hash: Seq<char>,
    uid: nat,
    gid: nat,
    base: Seq<char>,
    domain: Seq<char>,
    local: Seq<char>,
)
    requires
        lacks(address, ':'),
        lacks(hash, ':'),
    ensures
        splitn(passwd_line(address, hash, uid, gid, base, domain, local), 6, ':') == seq![
            address,
            hash,
            dec(uid),
            dec(gid),
            Seq::<char>::empty(),
            passwd_home(base, domain, local),
        ],
{
    reveal_strlit(":");
    reveal_strlit("::");
    let home = passwd_home(base, domain, local);
    let l = passwd_line(address, hash, uid, gid, base, domain, local);
    lemma_dec_digits(uid);
    lemma_dec_digits(gid);
    let r4 = seq![':'] + home;
    let r3 = dec(gid) + seq![':'] + r4;
    let r2 = dec(uid) + seq![':'] + r3;
    let r1 = hash + seq![':'] + r2;
    assert(l =~= address + seq![':'] + r1);
    lemma_splitn_step(address, r1, 6);
    lemma_splitn_step(hash, r2, 5);
    lemma_splitn_step(dec(uid), r3, 4);
    lemma_splitn_step(dec(gid), r4, 3);
    assert(Seq::<char>::empty() + seq![':'] + home =~= r4);
    lemma_splitn_step(Seq::<char>::empty(), home, 2);
    assert(splitn(home, 1, ':') == seq![home]);
    assert(splitn(l, 6, ':') =~= seq![address, hash, dec(uid), dec(gid), Seq::<char>::empty(), home]);
}

proof fn lemma_passwd_one_line(
    address: Seq<char>,
    hash: Seq<char>,
    uid: nat,
    gid: nat,
    base: Seq<char>,
    domain: Seq<char>,
    local: Seq<char>,
)
    requires
        lacks(address, '\n'),
        lacks(hash, '\n'),
        lacks(base, '\n'),
        lacks(domain, '\n'),
        lacks(local, '\n'),
    ensures
        forall|rest: Seq<char>| #[trigger] lines(passwd_line(address, hash, uid, gid, base, domain, local) + ("\n"@ + rest)) == seq![
            passwd_line(address, hash, uid, gid, base, domain, local),
        ] + lines(rest),
{
    reveal_strlit(":");
    reveal_strlit("::");
    reveal_strlit("/");
    reveal_strlit("\n");
    let l = passwd_line(address, hash, uid, gid, base, domain, local);
    lemma_dec_digits(uid);
    lemma_dec_digits(gid);
    let slash = seq!['/'];
    let colon = seq![':'];
    let p1 = address + colon;
    lemma_lacks_concat(address, colon, '\n');
    lemma_lacks_concat(p1, hash, '\n');
    let p2 = p1 + hash + colon;
    lemma_lacks_concat(p1 + hash, colon, '\n');
    lemma_lacks_concat(p2, dec(uid), '\n');
    let p3 = p2 + dec(uid) + colon;
    lemma_lacks_concat(p2 + dec(uid), colon, '\n');
    lemma_lacks_concat(p3, dec(gid), '\n');
    let p4 = p3 + dec(gid) + colon + colon;
    lemma_lacks_concat(p3 + dec(gid), colon, '\n');
    lemma_lacks_concat(p3 + dec(gid) + colon, colon, '\n');
    lemma_lacks_concat(p4, base, '\n');
    let p5 = p4 + base + slash;
    lemma_lacks_concat(p4 + base, slash, '\n');
    lemma_lacks_concat(p5, domain, '\n');
    let p6 = p5 + domain + slash;
    lemma_lacks_concat(p5 + domain, slash, '\n');
    lemma_lacks_concat(p6, local, '\n');
    lemma_lacks_concat(p6 + local, slash, '\n');
    assert(l =~= p6 + local + slash);
    assert(l.last() == '/');
    assert(strip_cr(l) == l);
    assert forall|rest: Seq<char>| #[trigger] lines(l + ("\n"@ + rest)) == seq![l] + lines(rest) by {
        let nr = "\n"@ + rest;
        lemma_lines_from_run(l, nr, Seq::<char>::empty());
        assert(Seq::<char>::empty() + l =~= l);
        assert(nr[0] == '\n');
        assert(nr.drop_first() =~= rest);
    }
}

/// A line written for an address and hash without `:` or line breaks (the
/// address not starting with `#`), and a home without line breaks, reads
/// back through the passwd-file parser as that address, hash and home,
/// whatever lines follow it.
pub proof fn law_passwd_entry_reads_back(
    address: Seq<char>,
    hash: Seq<char>,
    uid: nat,
    gid: nat,
    base: Seq<char>,
    domain: Seq<char>,
    local: Seq<char>,
    rest: Seq<char>,
)
    requires
        passwd_address_ok(address),
        address[0] != '#',
        lacks(address, ':'),
        lacks(address, '\n'),
        lacks(hash, ':'),
        lacks(hash, '\n'),
        lacks(base, '\n'),
        lacks(domain, '\n'),
        lacks(local, '\n'),
    ensures
        passwd_entries(passwd_line(address, hash, uid, gid, base, domain, local) + "\n"@ + rest) == seq![
            (address, hash, passwd_home(base, domain, local)),
        ] + passwd_entries(rest),
{
    let home = passwd_home(base, domain, local);
    let l = passwd_line(address, hash, uid, gid, base, domain, local);
    lemma_passwd_fields(address, hash, uid, gid, base, domain, local);
    lemma_passwd_one_line(address, hash, uid, gid, base, domain, local);
    reveal_strlit(":");
    let k = choose|k: int| 0 <= k < address.len() && address[k] == '@';
    assert(l[k] == address[k]);
    lemma_trim_keeps(l, k);
    assert(l[0] == address[0]);
    assert(passwd_entry(l) == Some((address, hash, home)));
    assert(l + "\n"@ + rest =~= l + ("\n"@ + rest));
    assert(lines(l + ("\n"@ + rest)) == seq![l] + lines(rest));
    let f = |x: Seq<char>| passwd_entry(x);
    lemma_filter_map_concat(seq![l], lines(rest), f);
    let one = seq![l];
    assert(one.drop_last() =~= Seq::<Seq<char>>::empty());
    assert(filter_map(one.drop_last(), f) =~= Seq::<(Seq<char>, Seq<char>, Seq<char>)>::empty());
    assert(f(one.last()) == Some((address, hash, home)));
    assert(filter_map(one, f) =~= seq![(address, hash, home)]);
    assert(passwd_entries(l + "\n"@ + rest) == filter_map(one + lines(rest), f));
    assert(passwd_entries(rest) == filter_map(lines(rest), f));
}

/// Blank lines and `#` comments carry no entry: a content made of them
/// alone yields none.
pub proof fn law_passwd_skips_comments_and_blanks(content: Seq<char>)
    requires
        forall|i: int| 0 <= i < lines(content).len() ==> !passwd_line_kept(#[trigger] lines(content)[i]),
    ensures
        passwd_entries(content) == Seq::<(Seq<char>, Seq<char>, Seq<char>)>::empty(),
{
    lemma_no_entries(lines(content));
}

proof fn lemma_no_entries(ls: Seq<Seq<char>>)
    requires
        forall|i: int| 0 <= i < ls.len() ==> !passwd_line_kept(#[trigger] ls[i]),
    ensures
        filter_map(ls, |x: Seq<char>| passwd_entry(x)) == Seq::<(Seq<char>, Seq<char>, Seq<char>)>::empty(),
    decreases ls.len(),
{
    if ls.len() > 0 {
        assert forall|i: int| 0 <= i < ls.drop_last().len() implies !passwd_line_kept(#[trigger] ls.drop_last()[i]) by {
            assert(ls.drop_last()[i] == ls[i]);
        }
        lemma_no_entries(ls.drop_last());
        assert(!passwd_line_kept(ls[ls.len() - 1]));
    }
}

} // verus!
