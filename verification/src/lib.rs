//! Verified core of `ncommit`: the decisions behind committing with a
//! message taken from the branch's GitHub issue, creating issue branches
//! from the latest release branch, opening pull requests and moving issues
//! between label stages.

pub mod text;
pub mod pattern;
pub mod config;
pub mod flow;
pub mod version;
pub mod template;
pub mod branch;
pub mod commit;
pub mod pr;
pub mod view;
