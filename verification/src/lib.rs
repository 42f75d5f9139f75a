//! ClueBot's verified core: the decisions of a trading-signal scanner, with
//! their specifications.

pub mod agent;
pub mod email;
pub mod engine;
pub mod llm;
pub mod okx;
pub mod registry;
pub mod runtime;
pub mod strategy;
pub mod text;
