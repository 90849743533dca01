//! Mailroom: typed mail-server configuration, message classification,
//! calendar interchange and transactional e-mail rendering, each stated
//! over mathematical models and proved.
use vstd::prelude::*;

pub mod text;
pub mod seqs;
pub mod config;
pub mod templates;
pub mod calendar;
pub mod orchestrator;
pub mod bounce;
pub mod tools;

verus! {

} // verus!
