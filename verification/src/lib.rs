//! Multi-perspective analysis core: retry policy, finding identity, error
//! vocabulary, consensus synthesis and orchestration decisions, each stated
//! and proved with Verus.

pub mod text;
pub mod durations;
pub mod schema;
pub mod backoff;
pub mod finding_id;
pub mod telemetry;
pub mod error;
pub mod consensus;
pub mod prompts;
pub mod agent;
pub mod orchestrator;
pub mod seat;
pub mod join;
pub mod prelude;
