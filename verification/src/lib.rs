//! A Mixture-of-Agents fusion engine: the decisions of an OpenAI-compatible
//! gateway that fans one chat-completion request out to a panel of models and
//! synthesizes one hardened answer.

pub mod text;
pub mod error;
pub mod schema;
pub mod usage;
pub mod prompts;
pub mod config;
pub mod router;
pub mod panel;
pub mod judge;
pub mod synthesis;
pub mod pipeline;
pub mod gateway;
