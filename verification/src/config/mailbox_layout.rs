//! The server-wide folder layout every account gets: RFC 6154 special-use
//! folders plus category folders, emitted as Dovecot's `15-mailboxes.conf`.
use vstd::prelude::*;
use crate::seqs::{filter_map, lemma_filter_map_step, lemma_take_full};
use crate::text::{append_string, chars_of, is_whitespace, is_ws, owned};

verus! {

/// RFC 6154 special-use markers plus the `\Important` extension.
#[derive(Debug, Clone, Copy, PartialEq, Eq, Structural)]
pub enum SpecialUse {
    Drafts,
    Sent,
    Trash,
    Junk,
    Archive,
    Important,
    /// No marker: a category folder such as `Updates`.
    Unmarked,
}

/// The IMAP marker of a special use, with its leading backslash.
pub open spec fn marker_of(u: SpecialUse) -> Option<Seq<char>> {
    match u {
        SpecialUse::Drafts => Some("\\Drafts"@),
        SpecialUse::Sent => Some("\\Sent"@),
        SpecialUse::Trash => Some("\\Trash"@),
        SpecialUse::Junk => Some("\\Junk"@),
        SpecialUse::Archive => Some("\\Archive"@),
        SpecialUse::Important => Some("\\Important"@),
        SpecialUse::Unmarked => None,
    }
}

impl SpecialUse {
    /// The Dovecot/IMAP marker string, or `None` for a category folder.
    pub fn marker(self) -> (r: Option<&'static str>)
        ensures
            r matches Some(m) ==> marker_of(self) == Some(m@),
            r is None ==> marker_of(self) is None,
    {
        match self {
            SpecialUse::Drafts => Some("\\Drafts"),
            SpecialUse::Sent => Some("\\Sent"),
            SpecialUse::Trash => Some("\\Trash"),
            SpecialUse::Junk => Some("\\Junk"),
            SpecialUse::Archive => Some("\\Archive"),
            SpecialUse::Important => Some("\\Important"),
            SpecialUse::Unmarked => None,
        }
    }
}

/// One folder of the layout.
#[derive(Debug, Clone)]
pub struct LayoutFolder {
    /// The folder name users see (`Drafts`, `Sent Messages`, `Updates`).
    pub name: String,
    /// Its special-use marker, `SpecialUse::Unmarked` for category folders.
    pub special_use: SpecialUse,
    /// Whether new accounts subscribe to it automatically (`false` for
    /// legacy aliases such as `Sent Messages`).
    pub auto_subscribe: bool,
}

/// A folder as plain values: name, special use, auto-subscribe.
pub open spec fn folder_view(f: LayoutFolder) -> (Seq<char>, SpecialUse, bool) {
    (f.name@, f.special_use, f.auto_subscribe)
}

impl LayoutFolder {
    /// A folder that accounts subscribe to automatically.
    pub fn subscribed(name: &str, special_use: SpecialUse) -> (r: LayoutFolder)
        ensures
            folder_view(r) == (name@, special_use, true),
    {
        LayoutFolder { name: owned(name), special_use, auto_subscribe: true }
    }

    /// An unsubscribed alias folder, kept for legacy clients.
    pub fn alias(name: &str, special_use: SpecialUse) -> (r: LayoutFolder)
        ensures
            folder_view(r) == (name@, special_use, false),
    {
        LayoutFolder { name: owned(name), special_use, auto_subscribe: false }
    }
}

/// The full server-wide layout; folder order is kept in the emitted config.
#[derive(Debug, Clone)]
pub struct MailboxLayout {
    /// Ordered folder list.
    pub folders: Vec<LayoutFolder>,
}

/// The folders of a layout as plain values.
pub open spec fn layout_view(l: MailboxLayout) -> Seq<(Seq<char>, SpecialUse, bool)> {
    l.folders@.map_values(|f: LayoutFolder| folder_view(f))
}

/// The default layout: special-use folders, two legacy aliases, and the
/// category folders.
pub open spec fn default_layout() -> Seq<(Seq<char>, SpecialUse, bool)> {
    seq![
        ("Drafts"@, SpecialUse::Drafts, true),
        ("Sent"@, SpecialUse::Sent, true),
        ("Sent Messages"@, SpecialUse::Sent, false),
        ("Junk"@, SpecialUse::Junk, true),
        ("Spam"@, SpecialUse::Junk, false),
        ("Trash"@, SpecialUse::Trash, true),
        ("Archive"@, SpecialUse::Archive, true),
        ("Important"@, SpecialUse::Important, true),
        ("Updates"@, SpecialUse::Unmarked, true),
        ("Receipts"@, SpecialUse::Unmarked, true),
        ("Social"@, SpecialUse::Unmarked, true),
        ("Promotions"@, SpecialUse::Unmarked, true),
        ("Forums"@, SpecialUse::Unmarked, true),
    ]
}

impl Default for MailboxLayout {
    /// The default layout: IMAP special-use folders and the category folders.
    fn default() -> (r: MailboxLayout)
        ensures
            layout_view(r) == default_layout(),
    {
        let folders = vec![
            LayoutFolder::subscribed("Drafts", SpecialUse::Drafts),
            LayoutFolder::subscribed("Sent", SpecialUse::Sent),
            LayoutFolder::alias("Sent Messages", SpecialUse::Sent),
            LayoutFolder::subscribed("Junk", SpecialUse::Junk),
            LayoutFolder::alias("Spam", SpecialUse::Junk),
            LayoutFolder::subscribed("Trash", SpecialUse::Trash),
            LayoutFolder::subscribed("Archive", SpecialUse::Archive),
            LayoutFolder::subscribed("Important", SpecialUse::Important),
            LayoutFolder::subscribed("Updates", SpecialUse::Unmarked),
            LayoutFolder::subscribed("Receipts", SpecialUse::Unmarked),
            LayoutFolder::subscribed("Social", SpecialUse::Unmarked),
            LayoutFolder::subscribed("Promotions", SpecialUse::Unmarked),
            LayoutFolder::subscribed("Forums", SpecialUse::Unmarked),
        ];
        let r = MailboxLayout { folders };
        assert(layout_view(r) =~= default_layout());
        r
    }
}

/// Whether a name holds whitespace.
pub open spec fn has_ws(s: Seq<char>) -> bool {
    exists|i: int| 0 <= i < s.len() && is_ws(#[trigger] s[i])
}

/// A folder name as written in the config: quoted when it holds whitespace.
pub open spec fn conf_name(name: Seq<char>) -> Seq<char> {
    if has_ws(name) {
        "\""@ + name + "\""@
    } else {
        name
    }
}

/// One `mailbox` block of the config.
pub open spec fn folder_block(f: (Seq<char>, SpecialUse, bool)) -> Seq<char> {
    "  mailbox "@ + conf_name(f.0) + " {\n"@ + (if f.2 {
        "    auto = subscribe\n"@
    } else {
        seq![]
    }) + match marker_of(f.1) {
        Some(m) => "    special_use = "@ + m + "\n"@,
        None => seq![],
    } + "  }\n"@
}

/// The blocks of the given folders, in order.
pub open spec fn folder_blocks(fs: Seq<(Seq<char>, SpecialUse, bool)>) -> Seq<char>
    decreases fs.len(),
{
    if fs.len() == 0 {
        seq![]
    } else {
        folder_blocks(fs.drop_last()) + folder_block(fs.last())
    }
}

/// The Dovecot `15-mailboxes.conf` body of a layout.
pub open spec fn dovecot_conf(fs: Seq<(Seq<char>, SpecialUse, bool)>) -> Seq<char> {
    "namespace inbox {\n"@ + folder_blocks(fs) + "}\n"@
}

/// Whether a string holds a whitespace character.
fn contains_whitespace(s: &str) -> (r: bool)
    ensures
        r == has_ws(s@),
{
    let v = chars_of(s);
    let mut i: usize = 0;
    while i < v.len()
        invariant
            i <= v.len(),
            v@ == s@,
            forall|k: int| 0 <= k < i ==> !is_ws(#[trigger] v@[k]),
        decreases v.len() - i,
    {
        if is_whitespace(v[i]) {
            assert(is_ws(v@[i as int]));
            return true;
        }
        i = i + 1;
    }
    false
}

/// Appends the `mailbox` block of one folder.
fn push_folder_block(out: &mut String, f: &LayoutFolder)
    ensures
        final(out)@ == old(out)@ + folder_block(folder_view(*f)),
{
    out.append("  mailbox ");
    if contains_whitespace(f.name.as_str()) {
        out.append("\"");
        append_string(out, &f.name);
        out.append("\"");
    } else {
        append_string(out, &f.name);
    }
    out.append(" {\n");
    if f.auto_subscribe {
        out.append("    auto = subscribe\n");
    }
    match f.special_use.marker() {
        Some(m) => {
            out.append("    special_use = ");
            out.append(m);
            out.append("\n");
        },
        None => {},
    }
    out.append("  }\n");
}

/// Whether a folder is a category folder: no marker, auto-subscribed.
pub open spec fn is_category(f: (Seq<char>, SpecialUse, bool)) -> bool {
    f.1 == SpecialUse::Unmarked && f.2
}

/// The names of the category folders, in layout order.
pub open spec fn category_names(fs: Seq<(Seq<char>, SpecialUse, bool)>) -> Seq<Seq<char>> {
    filter_map(
        fs,
        |f: (Seq<char>, SpecialUse, bool)|
            if is_category(f) {
                Some(f.0)
            } else {
                None
            },
    )
}

impl MailboxLayout {
    /// The Dovecot 2.4 `15-mailboxes.conf` body; names holding whitespace
    /// are quoted.
    pub fn to_dovecot_conf(&self) -> (r: String)
        ensures
            r@ == dovecot_conf(layout_view(*self)),
    {
        let ghost fs = layout_view(*self);
        let mut out = owned("namespace inbox {\n");
        let mut i: usize = 0;
        while i < self.folders.len()
            invariant
                i <= self.folders@.len(),
                fs == layout_view(*self),
                out@ == "namespace inbox {\n"@ + folder_blocks(fs.take(i as int)),
            decreases self.folders.len() - i,
        {
            push_folder_block(&mut out, &self.folders[i]);
            assert(fs.take(i + 1).drop_last() =~= fs.take(i as int));
            i = i + 1;
        }
        assert(fs.take(fs.len() as int) =~= fs);
        out.append("}\n");
        out
    }

    /// The names of the category folders (no special use, auto-subscribed).
    pub fn category_folders(&self) -> (r: Vec<&str>)
        ensures
            r@.map_values(|s: &str| s@) == category_names(layout_view(*self)),
    {
        let ghost fs = layout_view(*self);
        let ghost f = |f: (Seq<char>, SpecialUse, bool)|
            if is_category(f) {
                Some(f.0)
            } else {
                None
            };
        let mut out: Vec<&str> = Vec::new();
        let mut i: usize = 0;
        while i < self.folders.len()
            invariant
                i <= self.folders@.len(),
                fs == layout_view(*self),
                f == (|f: (Seq<char>, SpecialUse, bool)|
                    if is_category(f) {
                        Some(f.0)
                    } else {
                        None
                    }),
                out@.map_values(|s: &str| s@) == filter_map(fs.take(i as int), f),
            decreases self.folders.len() - i,
        {
            let folder = &self.folders[i];
            proof {
                lemma_filter_map_step(fs, f, i as int);
            }
            let ghost before = out@;
            if folder.special_use == SpecialUse::Unmarked && folder.auto_subscribe {
                out.push(folder.name.as_str());
                assert(out@.map_values(|s: &str| s@) =~= before.map_values(|s: &str| s@).push(
                    folder.name@,
                ));
            }
            i = i + 1;
        }
        proof {
            lemma_take_full(fs);
        }
        out
    }
}

} // verus!
