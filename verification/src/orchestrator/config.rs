//! The orchestrator's settings (the daemon, the domain, the router
//! mailbox, templates, notification mailboxes and scheduled sends) and
//! the decisions taken from them: which Maildirs are watched and which
//! handler a new file goes to.
use vstd::prelude::*;
use crate::text::{append_string, contains_str, has_sub, owned, str_eq};

verus! {

/// Daemon runtime settings.
#[derive(Debug, Clone)]
pub struct DaemonConfig {
    pub pid_file: String,
    pub db_path: String,
    pub log_level: String,
}

/// Mail domain and server settings.
#[derive(Debug, Clone)]
pub struct DomainConfig {
    pub name: String,
    pub mail_base: String,
    pub smtp_host: String,
    pub smtp_port: u16,
}

/// The router mailbox: where its mail lands, who may command it, and
/// which identities it may send as.
#[derive(Debug, Clone)]
pub struct RouterConfig {
    pub mailbox: String,
    pub maildir: String,
    pub authorized_senders: Vec<String>,
    pub allowed_from: Vec<String>,
}

/// Where the message templates live.
#[derive(Debug, Clone)]
pub struct TemplateConfig {
    pub dir: String,
}

/// A service mailbox whose new mail is announced to subscribers.
#[derive(Debug, Clone)]
pub struct NotifyConfig {
    pub mailbox: String,
    pub maildir: String,
    pub subscribers: Vec<String>,
    pub priority: String,
    pub actions: Vec<String>,
}

/// A scheduled send.
#[derive(Debug, Clone)]
pub struct ScheduleConfig {
    pub name: String,
    pub from: String,
    pub to: Vec<String>,
    pub subject: String,
    pub template: Option<String>,
    pub body: Option<String>,
    pub cron: String,
    pub enabled: bool,
}

/// The whole configuration. The notification mailboxes are kept as
/// (name, settings) pairs in the order the file lists them.
#[derive(Debug, Clone)]
pub struct Config {
    pub daemon: DaemonConfig,
    pub domain: DomainConfig,
    pub router: RouterConfig,
    pub templates: TemplateConfig,
    pub notify: Vec<(String, NotifyConfig)>,
    pub schedule: Vec<ScheduleConfig>,
}

/// The log level when none is configured.
pub fn default_log_level() -> (r: String)
    ensures
        r@ == "info"@,
{
    owned("info")
}

/// The SMTP host when none is configured.
pub fn default_smtp_host() -> (r: String)
    ensures
        r@ == "127.0.0.1"@,
{
    owned("127.0.0.1")
}

/// The SMTP port when none is configured.
pub fn default_smtp_port() -> (r: u16)
    ensures
        r == 25,
{
    25
}

/// A notification's priority when none is configured.
pub fn default_priority() -> (r: String)
    ensures
        r@ == "normal"@,
{
    owned("normal")
}

/// Scheduled sends are enabled unless the file says otherwise.
pub fn default_true() -> (r: bool)
    ensures
        r,
{
    true
}

/// The notification mailboxes as (name, Maildir) pairs.
pub open spec fn notify_dirs(n: Seq<(String, NotifyConfig)>) -> Seq<(Seq<char>, Seq<char>)> {
    n.map_values(|e: (String, NotifyConfig)| (e.0@, e.1.maildir@))
}

/// The Maildirs that are watched: the router's first, then each
/// notification mailbox's.
pub open spec fn watched(c: Config) -> Seq<(Seq<char>, Seq<char>)> {
    seq![("router"@, c.router.maildir@)] + notify_dirs(c.notify@)
}

/// Which mailbox a new file at `path` belongs to: the router when its
/// Maildir occurs in the path, else the first notification mailbox whose
/// Maildir does.
pub open spec fn mailbox_for(path: Seq<char>, c: Config) -> Option<Seq<char>> {
    if has_sub(path, c.router.maildir@) {
        Some("router"@)
    } else {
        first_notify_match(path, c.notify@)
    }
}

/// The name of the first notification mailbox whose Maildir occurs in
/// `path`.
pub open spec fn first_notify_match(path: Seq<char>, n: Seq<(String, NotifyConfig)>) -> Option<
    Seq<char>,
>
    decreases n.len(),
{
    if n.len() == 0 {
        None
    } else if has_sub(path, n[0].1.maildir@) {
        Some(n[0].0@)
    } else {
        first_notify_match(path, n.drop_first())
    }
}

/// The position of the notification mailbox named `name`.
pub open spec fn notify_index(n: Seq<(String, NotifyConfig)>, name: Seq<char>) -> Option<int>
    decreases n.len(),
{
    if n.len() == 0 {
        None
    } else if n[0].0@ == name {
        Some(0)
    } else {
        match notify_index(n.drop_first(), name) {
            Some(i) => Some(i + 1),
            None => None,
        }
    }
}

/// Where a new mail goes.
#[derive(Debug, Clone, Copy, PartialEq, Eq)]
pub enum Dispatch {
    /// To the router's command handler.
    Router,
    /// To the notification mailbox at this position.
    Notify(usize),
    /// Nowhere: the mailbox is not configured.
    Ignore,
}

/// Where a new mail of mailbox `name` goes.
pub open spec fn dispatch_of(c: Config, name: Seq<char>) -> Dispatch {
    if name == "router"@ {
        Dispatch::Router
    } else {
        match notify_index(c.notify@, name) {
            Some(i) => Dispatch::Notify(i as usize),
            None => Dispatch::Ignore,
        }
    }
}

impl Config {
    /// The Maildirs to watch as (mailbox name, path): the router's, then
    /// every notification mailbox's.
    pub fn watch_paths(&self) -> (r: Vec<(String, String)>)
        ensures
            r@.map_values(|e: (String, String)| (e.0@, e.1@)) == watched(*self),
    {
        let mut out: Vec<(String, String)> = Vec::new();
        out.push((owned("router"), self.router.maildir.clone()));
        let ghost n = self.notify@;
        let mut i: usize = 0;
        assert(out@.map_values(|e: (String, String)| (e.0@, e.1@)) =~= watched(*self).take(1));
        while i < self.notify.len()
            invariant
                i <= n.len(),
                n == self.notify@,
                out@.map_values(|e: (String, String)| (e.0@, e.1@)) == watched(*self).take(i + 1),
            decreases self.notify.len() - i,
        {
            let ghost before = out@;
            let (name, nc) = &self.notify[i];
            let entry = (name.clone(), nc.maildir.clone());
            assert(entry.0@ == n[i as int].0@ && entry.1@ == n[i as int].1.maildir@);
            out.push(entry);
            proof {
                let w = watched(*self);
                assert(notify_dirs(n)[i as int] == (n[i as int].0@, n[i as int].1.maildir@));
                assert(w[i + 1] == notify_dirs(n)[i as int]);
                assert(out@.map_values(|e: (String, String)| (e.0@, e.1@)) =~= before.map_values(
                    |e: (String, String)| (e.0@, e.1@),
                ).push((entry.0@, entry.1@)));
                assert(w.take(i + 2) =~= w.take(i + 1).push(w[i + 1]));
            }
            i = i + 1;
        }
        assert(watched(*self).take(n.len() + 1 as int) =~= watched(*self));
        out
    }

    /// Which mailbox a new file belongs to, by its path.
    pub fn identify_mailbox(&self, path: &str) -> (r: Option<String>)
        ensures
            r matches Some(s) ==> mailbox_for(path@, *self) == Some(s@),
            r is None ==> mailbox_for(path@, *self) is None,
    {
        if contains_str(path, self.router.maildir.as_str()) {
            return Some(owned("router"));
        }
        let ghost n = self.notify@;
        let mut i: usize = 0;
        assert(n.skip(0) =~= n);
        while i < self.notify.len()
            invariant
                i <= n.len(),
                n == self.notify@,
                !has_sub(path@, self.router.maildir@),
                first_notify_match(path@, n) == first_notify_match(path@, n.skip(i as int)),
            decreases self.notify.len() - i,
        {
            let (name, nc) = &self.notify[i];
            assert(n.skip(i as int)[0] == n[i as int]);
            assert(n.skip(i as int).drop_first() =~= n.skip(i + 1));
            if contains_str(path, nc.maildir.as_str()) {
                return Some(name.clone());
            }
            i = i + 1;
        }
        None
    }

    /// Where a new mail of mailbox `name` goes.
    pub fn dispatch(&self, name: &str) -> (r: Dispatch)
        ensures
            r == dispatch_of(*self, name@),
    {
        if str_eq(name, "router") {
            return Dispatch::Router;
        }
        let ghost n = self.notify@;
        let mut i: usize = 0;
        assert(n.skip(0) =~= n);
        while i < self.notify.len()
            invariant
                i <= n.len(),
                n == self.notify@,
                name@ != "router"@,
                notify_index(n, name@) == match notify_index(n.skip(i as int), name@) {
                    Some(k) => Some(k + i),
                    None => None,
                },
            decreases self.notify.len() - i,
        {
            let (nm, _) = &self.notify[i];
            assert(n.skip(i as int)[0] == n[i as int]);
            assert(n.skip(i as int).drop_first() =~= n.skip(i + 1));
            if str_eq(nm.as_str(), name) {
                return Dispatch::Notify(i);
            }
            i = i + 1;
        }
        Dispatch::Ignore
    }

    /// The identity notifications are sent from: `alerts@` the domain.
    pub fn alerts_from(&self) -> (r: String)
        ensures
            r@ == "alerts@"@ + self.domain.name@,
    {
        let mut s = owned("alerts@");
        append_string(&mut s, &self.domain.name);
        s
    }
}

/// What the file watcher reports of a change, as far as delivery goes.
#[derive(Debug, Clone, Copy, PartialEq, Eq, Structural)]
pub enum WatchEvent {
    /// A file was created.
    Create,
    /// A file was renamed into the directory.
    RenameTo,
    /// A file was renamed, the platform not saying which end this is.
    RenameAny,
    /// Anything else (a removal, a change of content or metadata, ...).
    Other,
}

/// Whether a watcher event may be a delivered mail: Dovecot writes into
/// `tmp/` and renames into `new/`, which shows as a creation or a rename
/// into the directory, depending on the platform.
pub open spec fn is_delivery(e: WatchEvent) -> bool {
    e is Create || e is RenameTo || e is RenameAny
}

/// Whether a watcher event may be a delivered mail.
pub fn delivers(e: WatchEvent) -> (r: bool)
    ensures
        r == is_delivery(e),
{
    match e {
        WatchEvent::Create => true,
        WatchEvent::RenameTo => true,
        WatchEvent::RenameAny => true,
        WatchEvent::Other => false,
    }
}

/// Whether a new file is left alone: one without a name, or a dotfile.
pub open spec fn skips_name(name: Option<Seq<char>>) -> bool {
    match name {
        None => true,
        Some(n) => n.len() > 0 && n[0] == '.',
    }
}

/// Whether a new file is left alone, by its file name.
pub fn skipped_file_name(name: Option<&str>) -> (r: bool)
    ensures
        r == skips_name(
            match name {
                Some(n) => Some(n@),
                None => None,
            },
        ),
{
    match name {
        None => true,
        Some(n) => {
            let v = crate::text::chars_of(n);
            v.len() > 0 && v[0] == '.'
        },
    }
}


/// Whether no two notification mailboxes share a name (as the keys of the
/// configuration file's table cannot).
pub open spec fn notify_names_distinct(n: Seq<(String, NotifyConfig)>) -> bool {
    forall|i: int, j: int| 0 <= i < j < n.len() ==> #[trigger] n[i].0@ != #[trigger] n[j].0@
}

proof fn lemma_notify_index(n: Seq<(String, NotifyConfig)>, name: Seq<char>, k: int)
    requires
        notify_names_distinct(n),
        0 <= k < n.len(),
        n[k].0@ == name,
    ensures
        notify_index(n, name) == Some(k),
    decreases k,
{
    if k > 0 {
        assert(n[0].0@ != n[k].0@);
        let t = n.drop_first();
        assert forall|i: int, j: int| 0 <= i < j < t.len() implies #[trigger] t[i].0@ != #[trigger] t[j].0@ by {
            assert(t[i] == n[i + 1] && t[j] == n[j + 1]);
        }
        assert(t[k - 1] == n[k]);
        lemma_notify_index(t, name, k - 1);
    }
}

/// With distinct names, a mail of a configured notification mailbox goes
/// to that mailbox's entry, whatever the order of the entries.
pub proof fn law_dispatch_finds_the_named_mailbox(c: Config, name: Seq<char>, k: int)
    requires
        notify_names_distinct(c.notify@),
        0 <= k < c.notify@.len(),
        c.notify@[k].0@ == name,
        name != "router"@,
    ensures
        dispatch_of(c, name) == Dispatch::Notify(k as usize),
{
    lemma_notify_index(c.notify@, name, k);
}

} // verus!
