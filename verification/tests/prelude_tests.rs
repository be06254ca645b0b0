use magi_core::prelude::{Agent, AgentFactory, MagiError, Mode};

struct Named;

#[test]
fn test_crate_compiles_with_no_features() {
    let _mode = Mode::Analysis;
    let _err = MagiError::Validation("test".into());
}

#[test]
fn test_feature_flags_gate_provider_modules() {
    let _ = magi_core::prelude::AgentName::Melchior;
}

#[test]
fn test_prelude_reexports_agent_types() {
    let agent: Option<Agent<Named>> = None;
    let factory: Option<AgentFactory<Named>> = None;
    assert!(agent.is_none());
    assert!(factory.is_none());
}
