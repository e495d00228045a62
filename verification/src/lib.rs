//! Verified core of a git commit-message helper.
//!
//! The library holds the logic of the tool: building the prompt sent to a
//! local generation service, classifying its failures, trimming its reply,
//! resolving the service endpoint, and driving the interactive
//! generate/confirm/retry loop as an explicit state machine. The surrounding
//! binary performs the process, network and terminal work and feeds the
//! results back in as plain values.

pub mod endpoint;
pub mod machine;
pub mod prompt;
pub mod text;
