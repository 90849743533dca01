//! Domains served and the mailboxes they hold.
use vstd::prelude::*;

verus! {

/// A domain served by this mail server.
#[derive(Debug, Clone)]
pub struct Domain {
    /// The domain name (for example `sacred.vote`).
    pub name: String,
    /// Whether DKIM signing is enabled for this domain.
    pub dkim_enabled: bool,
    /// The DKIM selector (for example `default`).
    pub dkim_selector: String,
    /// Mailboxes belonging to this domain.
    pub mailboxes: Vec<Mailbox>,
}

/// A mailbox on the mail server.
#[derive(Debug, Clone)]
pub struct Mailbox {
    /// Local part of the address (`tim` for `tim@sacred.vote`).
    pub local_part: String,
    /// What the mailbox is for; drives Sieve rules and routing.
    pub kind: MailboxKind,
    /// Human-readable display name.
    pub display_name: Option<String>,
}

/// The full address of a local part at a domain.
pub open spec fn address_of(local_part: Seq<char>, domain: Seq<char>) -> Seq<char> {
    local_part + "@"@ + domain
}

impl Mailbox {
    /// The full e-mail address of this mailbox at `domain`.
    pub fn address(&self, domain: &str) -> (r: String)
        ensures
            r@ == address_of(self.local_part@, domain@),
    {
        let mut s = self.local_part.clone();
        s.append("@");
        s.append(domain);
        s
    }
}

/// What a mailbox is for: drives Sieve generation and access decisions.
#[derive(Debug, Clone, Copy, PartialEq, Eq, Structural)]
pub enum MailboxKind {
    /// A person's mailbox (`tim@`, `admin@`).
    User,
    /// An application mailbox (`noreply@`, `alerts@`, `vault@`).
    Service,
    /// A legal or compliance mailbox (`legal@`, `privacy@`, `security@`).
    Legal,
    /// The orchestration mailbox (`router@`).
    Router,
}

} // verus!
