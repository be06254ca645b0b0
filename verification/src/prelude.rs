//! Convenience re-exports of the types most callers need.

pub use crate::error::{MagiError, ProviderError};
pub use crate::schema::{AgentName, AgentOutput, Finding, Mode, Severity, Verdict};
pub use crate::consensus::ConsensusEngine;
pub use crate::agent::{Agent, AgentFactory};
pub use crate::orchestrator::MagiConfig;
