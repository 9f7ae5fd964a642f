//! Verified core of a diff-analysis daemon: a unified-diff parser, a prompt
//! builder with size bounding, a resilient extractor that turns free-form
//! model text into a typed analysis result, and the per-line decision logic
//! of the connection protocol.

pub mod backend;
pub mod diff;
pub mod handler;
pub mod impact;
pub mod jsonio;
pub mod protocol;
pub mod text;
pub mod wire;
