//! Mail-server configuration: domains and mailboxes, Dovecot, Postfix,
//! OpenDKIM and Sieve text, the server-wide folder layout, and the
//! category classifier.
pub mod error;
pub mod domain;
pub mod dovecot;
pub mod postfix;
pub mod sieve;
pub mod dkim;
pub mod mailbox_layout;
pub mod categories;
pub mod category_defaults;

pub use domain::{Domain, Mailbox, MailboxKind};
pub use error::ConfigError;
pub use mailbox_layout::{LayoutFolder, MailboxLayout, SpecialUse};
