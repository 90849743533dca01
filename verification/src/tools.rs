//! The operator command lines: the alert sender, the document renderer
//! and the administration tool, as far as they decide and compute.
pub mod alert_cli;
pub mod tpl_cli;
pub mod admin;
