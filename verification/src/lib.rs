//! iLL, a scripting language for integration tests of several systems at once. A
//! program declares actors (processes, containers, clients) and drives them in
//! `as` blocks.
//!
//! The library holds everything that is decided: the syntax tree and how it is
//! lowered from a parse, the actor types and what they declare, validation, the
//! evaluation of expressions and assertions, the course of a test run, the
//! requests that each actor makes of the system it drives, and the reports. What
//! reads, writes and waits is outside.
pub mod actor_type;
pub mod ast;
pub mod cli;
pub mod diagnostic;
pub mod lower;
pub mod name_map;
pub mod paths;
pub mod registry;
pub mod render;
pub mod report_format;
pub mod runtime;
pub mod test_util;
pub mod text;
pub mod validate;
