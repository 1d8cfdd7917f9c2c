//! SmaTelcom core: the deterministic decision logic of a local-first network
//! orchestrator (safety linter, vendor translation, retrieval, conflict
//! resolution and human-in-the-loop bookkeeping), specified and proved with Verus.

use vstd::prelude::*;

pub mod text;
pub mod guardrails;
pub mod adapters;
pub mod drivers;
pub mod ranking;
pub mod rag;
pub mod northbound;
pub mod network_connector;
pub mod error;
pub mod agents;
pub mod hitl;
pub mod roi;
pub mod db;
pub mod commands;
pub mod executor;
pub mod telemetry;
pub mod ollama;
pub mod digital_twin;

verus! {
}
