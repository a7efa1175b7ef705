//! The verified core of a soul kernel: the decisions, texts and bounded
//! state of a perpetually breathing soul, each stated in a contract and
//! proved, with the laws that hold across them in `laws`.

pub mod agents;
pub mod audit;
pub mod chat;
pub mod context;
pub mod http;
pub mod inbox;
pub mod journal_page;
pub mod laws;
pub mod oracle;
pub mod prompts;
pub mod providers;
pub mod ranking;
pub mod replies;
pub mod requests;
pub mod security;
pub mod skills;
pub mod soul;
pub mod summary;
pub mod tasks;
pub mod text;
pub mod unicode;
pub mod vault;
