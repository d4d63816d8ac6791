//! Commit planning, plan validation and rebase scripting for an AI-assisted
//! git workflow, with the decision logic proved correct.

pub mod text;
pub mod plan;
pub mod plan_laws;
pub mod execute;
pub mod messages;
pub mod rebase;
pub mod prompts;
pub mod services;
pub mod planning;
pub mod cli;
pub mod display;
pub mod status;
