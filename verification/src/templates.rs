//! Branded transactional e-mail: a typed document, rendered to an
//! e-mail-client-safe HTML body (inline styles only, no `<style>`, no
//! scripts, no remote assets) and to a wrapped plain-text alternative,
//! plus builders for the recurring messages.
pub mod escape;
pub mod theme;
pub mod document;
pub mod fragments;
pub mod render_html;
pub mod render_plain;

pub use document::{Block, CodeBlock, Cta, EmailDocument, Field, GroupBody, GroupCard, RecordCard};
pub use theme::Theme;
pub mod prebuilt;
