//! A plan-driven tool orchestration core: structured values, a tool registry,
//! a task executor with a retry policy, an argument resolver, a plan executor,
//! a memory store and an event-driven agent state machine, together with the
//! small standalone text tools that share its string machinery.
pub mod agents;
pub mod assistant;
pub mod builtin;
pub mod commands;
pub mod daily;
pub mod events;
pub mod files;
pub mod grep;
pub mod memory;
pub mod ollama;
pub mod plan;
pub mod planner;
pub mod resolve;
pub mod scanner;
pub mod sed;
pub mod task;
pub mod text;
pub mod tools;
pub mod value;
