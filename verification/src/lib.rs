//! Evaluation of a container build manifest against declared expectations,
//! reported as a trace of judgement protocol events.
//!
//! - [`protocol`] holds the events of the judgement protocol, [`nesting`] the
//!   discipline by which they open and close levels.
//! - [`config`] holds what a grader expects, [`manifest`] what a manifest
//!   declares.
//! - [`evaluator`] holds one against the other; [`laws`] states what holds of
//!   every evaluation.
//! - [`reader`] reads a manifest from its source text, with [`grammar`] for
//!   the parts that are read from text directly.
//! - [`wire`] writes events as lines of JSON, [`decode`] reads them back, and
//!   [`roundtrip`] shows that nothing is lost on the way.

pub mod config;
pub mod decode;
pub mod evaluator;
pub mod grammar;
pub mod laws;
pub mod manifest;
pub mod nesting;
pub mod protocol;
pub mod reader;
pub mod roundtrip;
pub mod text;
pub mod wire;

pub use config::{Config, From, Port};
pub use protocol::{Command, Message, Permission, Severity, Status, StatusEnum, TestFormat};
