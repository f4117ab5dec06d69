//! Drives a language model through an observe, orient, decide, act loop in which the
//! model acts by invoking tools.
//!
//! - [`context`] keeps the messages that are sent to the model within the token
//!   budget of the model, and never evicts the pinned preamble.
//! - [`tools`] holds the tools in three tiers and resolves a name to a tool: for the
//!   task, advanced tools come first; for an advanced tool, there are no advanced
//!   tools.
//! - [`invocation`] finds the one action that a reply of the model asks for.
//! - [`prompt`] writes the preamble and the messages that are sent to the model.
//! - [`runner`] takes the steps of a task, from the reply of the model to the next
//!   query, until the task ends.
//! - [`value`] holds the structured values that tools take and give.
//! - [`python`], [`hue`] and [`bot`] hold what a tool that runs Python code, a tool
//!   that reports the status of lights and a chat bot decide.
pub mod bot;
pub mod context;
pub mod hue;
pub mod invocation;
pub mod prompt;
pub mod python;
pub mod runner;
pub mod tools;
pub mod value;
