//! OpenDKIM key tables, signing tables and trusted hosts for multi-domain
//! setups, and the choice between the two file-name conventions.
use vstd::prelude::*;
use crate::config::domain::Domain;
use crate::config::dovecot::{lacks, lemma_splitn_step};
use crate::text::{append_string, has_prefix, owned, splitn};

verus! {

/// Canonical (CamelCase) KeyTable path, as upstream and RHEL/Fedora name it.
pub const KEY_TABLE_PATH: &'static str = "/etc/opendkim/KeyTable";

/// Canonical SigningTable path.
pub const SIGNING_TABLE_PATH: &'static str = "/etc/opendkim/SigningTable";

/// Canonical TrustedHosts path.
pub const TRUSTED_HOSTS_PATH: &'static str = "/etc/opendkim/TrustedHosts";

/// Directory of the per-domain private keys.
pub const KEYS_DIR: &'static str = "/etc/opendkim/keys";

/// Debian's lower-case KeyTable path.
const KEY_TABLE_PATH_DEBIAN: &'static str = "/etc/opendkim/key.table";

/// Debian's lower-case SigningTable path.
const SIGNING_TABLE_PATH_DEBIAN: &'static str = "/etc/opendkim/signing.table";

/// Debian's lower-case TrustedHosts path.
const TRUSTED_HOSTS_PATH_DEBIAN: &'static str = "/etc/opendkim/trusted.hosts";

/// Whether a path exists on this host. Calls `std::path::Path::exists`;
/// its answer depends on the file system, so nothing is claimed of it.
#[verifier::external_body]
fn path_exists(p: &str) -> bool {
    std::path::Path::new(p).exists()
}

/// The index of the first `true` in `probes`, if any.
pub open spec fn first_true(probes: Seq<bool>) -> Option<int>
    decreases probes.len(),
{
    if probes.len() == 0 {
        None
    } else if probes[0] {
        Some(0)
    } else {
        match first_true(probes.drop_first()) {
            Some(i) => Some(i + 1),
            None => None,
        }
    }
}

/// The candidate chosen from existence probes made in candidate order:
/// the first one that exists, else the first candidate.
pub open spec fn chosen_candidate(candidates: Seq<&'static str>, probes: Seq<bool>) -> &'static str {
    match first_true(probes) {
        Some(i) => candidates[i],
        None => candidates[0],
    }
}

proof fn lemma_first_true(probes: Seq<bool>, i: int)
    requires
        0 <= i <= probes.len(),
        forall|k: int| 0 <= k < i ==> !probes[k],
    ensures
        i < probes.len() && probes[i] ==> first_true(probes) == Some(i),
        i == probes.len() ==> first_true(probes) is None,
    decreases i,
{
    if i > 0 {
        lemma_first_true(probes.drop_first(), i - 1);
    }
}

/// The candidate to use given which of the first candidates exist
/// (`probes[i]` tells whether `candidates[i]` exists).
pub fn first_present(candidates: &[&'static str], probes: &[bool]) -> (r: &'static str)
    requires
        candidates@.len() > 0,
        probes@.len() <= candidates@.len(),
    ensures
        r == chosen_candidate(candidates@, probes@),
{
    let mut i: usize = 0;
    while i < probes.len()
        invariant
            i <= probes@.len() <= candidates@.len(),
            forall|k: int| 0 <= k < i ==> !probes@[k],
        decreases probes.len() - i,
    {
        if probes[i] {
            proof {
                lemma_first_true(probes@, i as int);
            }
            return candidates[i];
        }
        i = i + 1;
    }
    proof {
        lemma_first_true(probes@, i as int);
    }
    candidates[0]
}

/// Probes the candidate paths in order and returns the first that exists,
/// falling back to the first (canonical) candidate when none does.
pub fn pick_existing(candidates: &[&'static str]) -> (r: &'static str)
    requires
        candidates@.len() > 0,
    ensures
        exists|i: int| 0 <= i < candidates@.len() && r == candidates@[i],
{
    let mut probes: Vec<bool> = Vec::new();
    let mut found = false;
    let mut i: usize = 0;
    while i < candidates.len() && !found
        invariant
            i <= candidates@.len(),
            probes@.len() == i,
        decreases candidates.len() - i,
    {
        found = path_exists(candidates[i]);
        probes.push(found);
        i = i + 1;
    }
    let r = first_present(candidates, &probes);
    proof {
        match first_true(probes@) {
            Some(k) => {
                lemma_first_true_bound(probes@);
                assert(r == candidates@[k]);
            },
            None => {
                assert(r == candidates@[0]);
            },
        }
    }
    r
}

proof fn lemma_first_true_bound(probes: Seq<bool>)
    ensures
        first_true(probes) matches Some(i) ==> 0 <= i < probes.len(),
    decreases probes.len(),
{
    if probes.len() > 0 {
        lemma_first_true_bound(probes.drop_first());
    }
}

/// The KeyTable path of this host: the canonical one or Debian's.
pub fn resolve_key_table_path() -> (r: &'static str)
    ensures
        r@ == KEY_TABLE_PATH@ || r@ == "/etc/opendkim/key.table"@,
{
    let c = [KEY_TABLE_PATH, KEY_TABLE_PATH_DEBIAN];
    pick_existing(&c)
}

/// The SigningTable path of this host: the canonical one or Debian's.
pub fn resolve_signing_table_path() -> (r: &'static str)
    ensures
        r@ == SIGNING_TABLE_PATH@ || r@ == "/etc/opendkim/signing.table"@,
{
    let c = [SIGNING_TABLE_PATH, SIGNING_TABLE_PATH_DEBIAN];
    pick_existing(&c)
}

/// The TrustedHosts path of this host: the canonical one or Debian's.
pub fn resolve_trusted_hosts_path() -> (r: &'static str)
    ensures
        r@ == TRUSTED_HOSTS_PATH@ || r@ == "/etc/opendkim/trusted.hosts"@,
{
    let c = [TRUSTED_HOSTS_PATH, TRUSTED_HOSTS_PATH_DEBIAN];
    pick_existing(&c)
}

/// A KeyTable line:
/// `selector._domainkey.domain  domain:selector:KEYS_DIR/domain/selector.private`.
pub open spec fn key_table_line(name: Seq<char>, selector: Seq<char>) -> Seq<char> {
    selector + "._domainkey."@ + name + "  "@ + name + ":"@ + selector + ":"@ + key_file(
        name,
        selector,
    )
}

/// The private key file of a domain's selector.
pub open spec fn key_file(name: Seq<char>, selector: Seq<char>) -> Seq<char> {
    KEYS_DIR@ + "/"@ + name + "/"@ + selector + ".private"@
}

/// The KeyTable entry of a domain.
pub fn key_table_entry(domain: &Domain) -> (r: String)
    ensures
        r@ == key_table_line(domain.name@, domain.dkim_selector@),
{
    let mut s = domain.dkim_selector.clone();
    s.append("._domainkey.");
    append_string(&mut s, &domain.name);
    s.append("  ");
    append_string(&mut s, &domain.name);
    s.append(":");
    append_string(&mut s, &domain.dkim_selector);
    s.append(":");
    let k = key_path(domain.name.as_str(), domain.dkim_selector.as_str());
    append_string(&mut s, &k);
    s
}

/// A SigningTable line: `*@domain  selector._domainkey.domain`.
pub open spec fn signing_table_line(name: Seq<char>, selector: Seq<char>) -> Seq<char> {
    "*@"@ + name + "  "@ + selector + "._domainkey."@ + name
}

/// The SigningTable entry of a domain.
pub fn signing_table_entry(domain: &Domain) -> (r: String)
    ensures
        r@ == signing_table_line(domain.name@, domain.dkim_selector@),
{
    let mut s = owned("*@");
    append_string(&mut s, &domain.name);
    s.append("  ");
    append_string(&mut s, &domain.dkim_selector);
    s.append("._domainkey.");
    append_string(&mut s, &domain.name);
    s
}

/// The `*.domain` lines of the given domains, each ended by a newline.
pub open spec fn host_lines(ds: Seq<Domain>) -> Seq<char>
    decreases ds.len(),
{
    if ds.len() == 0 {
        seq![]
    } else {
        host_lines(ds.drop_last()) + "*."@ + ds.last().name@ + "\n"@
    }
}

/// TrustedHosts content: the loopback address, `localhost`, then a
/// wildcard line for each domain.
pub open spec fn trusted_hosts_text(ds: Seq<Domain>) -> Seq<char> {
    "127.0.0.1\nlocalhost\n"@ + host_lines(ds)
}

/// The TrustedHosts file for the given domains.
pub fn trusted_hosts(domains: &[Domain]) -> (r: String)
    ensures
        r@ == trusted_hosts_text(domains@),
{
    let mut s = owned("127.0.0.1\nlocalhost\n");
    let mut i: usize = 0;
    while i < domains.len()
        invariant
            i <= domains@.len(),
            s@ == "127.0.0.1\nlocalhost\n"@ + host_lines(domains@.take(i as int)),
        decreases domains.len() - i,
    {
        s.append("*.");
        append_string(&mut s, &domains[i].name);
        s.append("\n");
        assert(domains@.take(i + 1).drop_last() =~= domains@.take(i as int));
        i = i + 1;
    }
    assert(domains@.take(domains@.len() as int) =~= domains@);
    s
}

/// The path of a domain's DKIM private key for a selector.
pub fn key_path(domain: &str, selector: &str) -> (r: String)
    ensures
        r@ == key_file(domain@, selector@),
{
    let mut s = owned(KEYS_DIR);
    s.append("/");
    s.append(domain);
    s.append("/");
    s.append(selector);
    s.append(".private");
    s
}


// ----- the KeyTable format ---------------------------------------------

/// A KeyTable entry is `<selector>._domainkey.<domain>`, two spaces, then
/// the value OpenDKIM reads as `domain:selector:keyfile`: with a domain
/// and selector free of `:`, its value splits at `:` into the domain, the
/// selector and the key file `/etc/opendkim/keys/<domain>/<selector>.private`,
/// in that order.
pub proof fn law_key_table_fields(name: Seq<char>, selector: Seq<char>)
    requires
        lacks(name, ':'),
        lacks(selector, ':'),
    ensures
        has_prefix(key_table_line(name, selector), selector + "._domainkey."@ + name + "  "@),
        splitn(key_table_line(name, selector).skip((selector + "._domainkey."@ + name + "  "@).len() as int), 3, ':')
            == seq![name, selector, "/etc/opendkim/keys/"@ + name + "/"@ + selector + ".private"@],
{
    reveal_strlit(":");
    reveal_strlit("/etc/opendkim/keys");
    reveal_strlit("/etc/opendkim/keys/");
    reveal_strlit("/");
    let head = selector + "._domainkey."@ + name + "  "@;
    let path = "/etc/opendkim/keys/"@ + name + "/"@ + selector + ".private"@;
    assert(key_file(name, selector) =~= path);
    let value = name + seq![':'] + (selector + seq![':'] + path);
    assert(key_table_line(name, selector) =~= head + value);
    assert(key_table_line(name, selector).take(head.len() as int) =~= head);
    assert(key_table_line(name, selector).skip(head.len() as int) =~= value);
    lemma_splitn_step(name, selector + seq![':'] + path, 3);
    lemma_splitn_step(selector, path, 2);
    assert(splitn(path, 1, ':') == seq![path]);
    assert(splitn(value, 3, ':') =~= seq![name, selector, path]);
}


/// The SigningTable entry of a domain signs every sender of the domain
/// (`*@<domain>`) with the key that the domain's KeyTable entry names: its
/// value is exactly the key in front of the KeyTable entry's two spaces.
pub proof fn law_signing_table_names_key_table_entry(name: Seq<char>, selector: Seq<char>)
    ensures
        signing_table_line(name, selector) == "*@"@ + name + "  "@ + (selector + "._domainkey."@ + name),
        has_prefix(key_table_line(name, selector), (selector + "._domainkey."@ + name) + "  "@),
{
    let key = selector + "._domainkey."@ + name;
    assert(signing_table_line(name, selector) =~= "*@"@ + name + "  "@ + key);
    assert(key_table_line(name, selector).take((key + "  "@).len() as int) =~= key + "  "@);
}

} // verus!
