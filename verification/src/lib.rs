//! A verified intent-routing library.
//!
//! Free-form user requests are turned into a structured intent payload,
//! routed to a named tool by a deterministic rule engine — with an
//! embedded logic-engine backend that probes an externally authored rule
//! file for agreement — or handed to a bounded, turn-based agent loop
//! that lets a language model choose actions until it produces a final
//! answer.

pub mod actions;
pub mod agent;
pub mod backend;
pub mod dates;
pub mod encode;
pub mod extract;
pub mod json;
pub mod llm;
pub mod memory;
pub mod model;
pub mod notes;
pub mod router;
pub mod semantic_notes;
pub mod summaries;
pub mod text;
pub mod weather;
pub mod wire;
