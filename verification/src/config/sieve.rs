//! Per-mailbox Sieve scripts.
use vstd::prelude::*;
use crate::config::domain::{Mailbox, MailboxKind, address_of};
use crate::text::{append_string, owned, str_eq};

verus! {

/// The script that refuses all inbound mail for a no-reply address.
pub open spec fn reject_script(address: Seq<char>, domain: Seq<char>) -> Seq<char> {
    "require [\"reject\"];\n# Auto-reject: "@ + address
        + " does not accept inbound mail.\nif true {\n    reject \"This address ("@ + address
        + ") does not accept incoming messages. Please contact support@"@ + domain
        + " instead.\";\n    stop;\n}\n"@
}

/// The script that files everything into the `Service` folder.
pub open spec fn service_script() -> Seq<char> {
    "require [\"fileinto\", \"mailbox\"];\n# Service mailbox: file all inbound into service-specific folder.\nif true {\n    fileinto :create \"Service\";\n}\n"@
}

/// The script that files everything into the `Processing` queue.
pub open spec fn router_script() -> Seq<char> {
    "require [\"fileinto\", \"mailbox\"];\n# Router mailbox: all mail goes to processing queue.\nif true {\n    fileinto :create \"Processing\";\n}\n"@
}

/// The standard script of a person's or a legal mailbox.
pub open spec fn standard_script(address: Seq<char>) -> Seq<char> {
    "require [\"fileinto\", \"mailbox\"];\n# Standard mailbox filtering for "@ + address
        + ".\n# Additional rules can be added via ManageSieve (port 4190).\n"@
}

/// The Sieve script of a mailbox, by its kind.
pub open spec fn sieve_script(m: Mailbox, domain: Seq<char>) -> Seq<char> {
    let address = address_of(m.local_part@, domain);
    match m.kind {
        MailboxKind::Service => if m.local_part@ == "noreply"@ {
            reject_script(address, domain)
        } else {
            service_script()
        },
        MailboxKind::Router => router_script(),
        MailboxKind::User | MailboxKind::Legal => standard_script(address),
    }
}

/// The Sieve script for a mailbox: `noreply` service mailboxes reject all
/// inbound mail, other service mailboxes file into `Service`, the router
/// files into `Processing`, people and legal mailboxes get the standard
/// header.
pub fn generate_sieve(mailbox: &Mailbox, domain: &str) -> (r: String)
    ensures
        r@ == sieve_script(*mailbox, domain@),
{
    match mailbox.kind {
        MailboxKind::Service => {
            if str_eq(mailbox.local_part.as_str(), "noreply") {
                let address = mailbox.address(domain);
                let mut s = owned("require [\"reject\"];\n# Auto-reject: ");
                append_string(&mut s, &address);
                s.append(" does not accept inbound mail.\nif true {\n    reject \"This address (");
                append_string(&mut s, &address);
                s.append(") does not accept incoming messages. Please contact support@");
                s.append(domain);
                s.append(" instead.\";\n    stop;\n}\n");
                s
            } else {
                owned(
                    "require [\"fileinto\", \"mailbox\"];\n# Service mailbox: file all inbound into service-specific folder.\nif true {\n    fileinto :create \"Service\";\n}\n",
                )
            }
        },
        MailboxKind::Router => owned(
            "require [\"fileinto\", \"mailbox\"];\n# Router mailbox: all mail goes to processing queue.\nif true {\n    fileinto :create \"Processing\";\n}\n",
        ),
        MailboxKind::User | MailboxKind::Legal => {
            let address = mailbox.address(domain);
            let mut s = owned("require [\"fileinto\", \"mailbox\"];\n# Standard mailbox filtering for ");
            append_string(&mut s, &address);
            s.append(".\n# Additional rules can be added via ManageSieve (port 4190).\n");
            s
        },
    }
}

} // verus!
