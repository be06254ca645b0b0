use magi_core::agent::{Agent, AgentFactory, ProviderHandle};
use magi_core::schema::{AgentName, Mode};
use std::sync::Arc;

struct MockProvider {
    response: String,
}

impl MockProvider {
    /// A provider registered as `name`/`model` that answers `response`.
    fn new(name: &str, model: &str, response: &str) -> ProviderHandle<MockProvider> {
        ProviderHandle::new(Arc::new(MockProvider { response: response.to_string() }), name, model)
    }
}

#[test]
fn test_different_modes_produce_distinct_prompts() {
    let provider = MockProvider::new("mock", "m1", "r1");

    let cr = Agent::new(AgentName::Melchior, Mode::CodeReview, provider.share());
    let design = Agent::new(AgentName::Melchior, Mode::Design, provider.share());
    let analysis = Agent::new(AgentName::Melchior, Mode::Analysis, provider.share());

    assert_ne!(cr.system_prompt(), design.system_prompt());
    assert_ne!(cr.system_prompt(), analysis.system_prompt());
    assert_ne!(design.system_prompt(), analysis.system_prompt());
}

#[test]
fn test_agent_new_generates_system_prompt() {
    let provider = MockProvider::new("mock", "m1", "r1");
    let agent = Agent::new(AgentName::Melchior, Mode::CodeReview, provider);
    assert!(!agent.system_prompt().is_empty());
}

#[test]
fn test_agent_with_custom_prompt_uses_provided_prompt() {
    let provider = MockProvider::new("mock", "m1", "r1");
    let agent = Agent::with_custom_prompt(
        AgentName::Melchior,
        Mode::CodeReview,
        provider,
        "Custom prompt".to_string(),
    );
    assert_eq!(agent.system_prompt(), "Custom prompt");
}

#[test]
fn test_agent_accessors() {
    let provider = MockProvider::new("test-provider", "test-model", "r");
    let agent = Agent::new(AgentName::Balthasar, Mode::Design, provider);

    assert_eq!(agent.name(), AgentName::Balthasar);
    assert_eq!(agent.mode(), Mode::Design);
    assert_eq!(agent.provider_name(), "test-provider");
    assert_eq!(agent.provider_model(), "test-model");
    assert_eq!(agent.display_name(), "Balthasar");
    assert_eq!(agent.title(), "Pragmatist");
}

#[test]
fn test_agent_factory_creates_three_agents() {
    let provider = MockProvider::new("mock", "m1", "r1");
    let factory = AgentFactory::new(provider);
    let agents = factory.create_agents(Mode::CodeReview);

    assert_eq!(agents.len(), 3);

    let names: Vec<AgentName> = agents.iter().map(|a| a.name()).collect();
    assert!(names.contains(&AgentName::Melchior));
    assert!(names.contains(&AgentName::Balthasar));
    assert!(names.contains(&AgentName::Caspar));
}

#[test]
fn test_agent_factory_creates_agents_in_order() {
    let provider = MockProvider::new("mock", "m1", "r1");
    let factory = AgentFactory::new(provider);
    let agents = factory.create_agents(Mode::CodeReview);

    assert_eq!(agents[0].name(), AgentName::Melchior);
    assert_eq!(agents[1].name(), AgentName::Balthasar);
    assert_eq!(agents[2].name(), AgentName::Caspar);
}

#[test]
fn test_agent_factory_with_provider_overrides_specific_agent() {
    let default = MockProvider::new("default", "m1", "r1");
    let override_p = MockProvider::new("override", "m2", "r2");

    let factory = AgentFactory::new(default).with_provider(AgentName::Caspar, override_p);
    let agents = factory.create_agents(Mode::CodeReview);

    let caspar = agents
        .iter()
        .find(|a| a.name() == AgentName::Caspar)
        .unwrap();
    assert_eq!(caspar.provider_name(), "override");

    let melchior = agents
        .iter()
        .find(|a| a.name() == AgentName::Melchior)
        .unwrap();
    assert_eq!(melchior.provider_name(), "default");
}

#[test]
fn test_agent_factory_with_custom_prompt_overrides_prompt() {
    let provider = MockProvider::new("mock", "m1", "r1");

    let factory = AgentFactory::new(provider)
        .with_custom_prompt(AgentName::Melchior, "My custom prompt".to_string());
    let agents = factory.create_agents(Mode::CodeReview);

    let melchior = agents
        .iter()
        .find(|a| a.name() == AgentName::Melchior)
        .unwrap();
    assert_eq!(melchior.system_prompt(), "My custom prompt");

    let balthasar = agents
        .iter()
        .find(|a| a.name() == AgentName::Balthasar)
        .unwrap();
    assert_ne!(balthasar.system_prompt(), "My custom prompt");
    assert!(!balthasar.system_prompt().is_empty());
}

#[test]
fn test_agent_factory_creates_three_agents_for_all_modes() {
    let provider = MockProvider::new("mock", "m1", "r1");
    let factory = AgentFactory::new(provider);

    for mode in [Mode::CodeReview, Mode::Design, Mode::Analysis] {
        let agents = factory.create_agents(mode);
        assert_eq!(agents.len(), 3, "Expected 3 agents for mode {mode:?}");
    }
}

#[test]
fn test_default_prompts_contain_json_and_english_constraints() {
    let provider = MockProvider::new("mock", "m1", "r1");

    for name in [AgentName::Melchior, AgentName::Balthasar, AgentName::Caspar] {
        for mode in [Mode::CodeReview, Mode::Design, Mode::Analysis] {
            let agent = Agent::new(name, mode, provider.share());
            let prompt = agent.system_prompt();
            assert!(
                prompt.contains("JSON"),
                "{name:?}/{mode:?} prompt should mention JSON"
            );
            assert!(
                prompt.contains("English"),
                "{name:?}/{mode:?} prompt should mention English"
            );
        }
    }
}

/// A factory with both overrides on one agent leaves the other two on the defaults.
#[test]
fn factory_overrides_touch_only_their_agent() {
    let default = MockProvider::new("default", "m1", "r1");
    let special = MockProvider::new("special", "m9", "r2");
    let factory = AgentFactory::new(default)
        .with_provider(AgentName::Balthasar, special)
        .with_custom_prompt(AgentName::Balthasar, "B".to_string())
        .with_custom_prompt(AgentName::Balthasar, "B2".to_string());
    let agents = factory.create_agents(Mode::Analysis);
    assert_eq!(agents[1].provider_name(), "special");
    assert_eq!(agents[1].provider_model(), "m9");
    assert_eq!(agents[1].system_prompt(), "B2");
    assert_eq!(agents[1].provider().client().response, "r2");
    assert_eq!(agents[0].provider().client().response, "r1");
    assert_eq!(agents[0].provider_name(), "default");
    assert_eq!(agents[2].provider_name(), "default");
    assert_eq!(agents[0].mode(), Mode::Analysis);
    assert_eq!(
        agents[2].system_prompt(),
        Agent::new(AgentName::Caspar, Mode::Analysis, MockProvider::new("x", "y", "z"))
            .system_prompt()
    );
}

#[test]
fn prompt_files_are_named_agent_then_mode_in_reading_order() {
    let files = magi_core::agent::prompt_files();
    assert_eq!(files.len(), 9);
    assert_eq!(files[0], (AgentName::Melchior, Mode::CodeReview, "melchior_code_review.md".to_string()));
    assert_eq!(files[5], (AgentName::Balthasar, Mode::Analysis, "balthasar_analysis.md".to_string()));
    assert_eq!(files[8], (AgentName::Caspar, Mode::Analysis, "caspar_analysis.md".to_string()));
    assert_eq!(
        magi_core::agent::prompt_file_name(AgentName::Caspar, Mode::Design),
        "caspar_design.md"
    );
}

#[test]
fn a_later_prompt_file_replaces_an_earlier_one_for_the_same_agent_and_mode() {
    let provider = MockProvider::new("mock", "m1", "r1");
    let factory = AgentFactory::new(provider).with_custom_prompt(AgentName::Caspar, "kept".to_string());
    let found = vec![
        (AgentName::Melchior, Mode::Design, "first".to_string()),
        (AgentName::Melchior, Mode::Design, "second".to_string()),
    ];
    let agents = factory.with_found_prompts(&found).create_agents(Mode::Design);
    assert_eq!(agents[0].system_prompt(), "second");
    assert_eq!(agents[2].system_prompt(), "kept");
    assert_eq!(
        agents[1].system_prompt(),
        Agent::new(AgentName::Balthasar, Mode::Design, MockProvider::new("x", "y", "z")).system_prompt()
    );
}

#[test]
fn a_prompt_file_sets_only_its_own_mode() {
    let provider = MockProvider::new("mock", "m1", "r1");
    let found = vec![(AgentName::Melchior, Mode::Design, "T".to_string())];
    let factory = AgentFactory::new(provider).with_found_prompts(&found);
    let design = factory.create_agents(Mode::Design);
    let review = factory.create_agents(Mode::CodeReview);
    let analysis = factory.create_agents(Mode::Analysis);
    assert_eq!(design[0].system_prompt(), "T");
    assert_eq!(
        review[0].system_prompt(),
        Agent::new(AgentName::Melchior, Mode::CodeReview, MockProvider::new("x", "y", "z")).system_prompt()
    );
    assert_eq!(
        analysis[0].system_prompt(),
        Agent::new(AgentName::Melchior, Mode::Analysis, MockProvider::new("x", "y", "z")).system_prompt()
    );
}

#[test]
fn a_prompt_file_wins_over_an_agent_wide_prompt_in_its_mode_only() {
    let provider = MockProvider::new("mock", "m1", "r1");
    let found = vec![(AgentName::Balthasar, Mode::Analysis, "file".to_string())];
    let factory = AgentFactory::new(provider)
        .with_custom_prompt(AgentName::Balthasar, "wide".to_string())
        .with_found_prompts(&found);
    assert_eq!(factory.create_agents(Mode::Analysis)[1].system_prompt(), "file");
    assert_eq!(factory.create_agents(Mode::Design)[1].system_prompt(), "wide");
    let replaced = factory.with_custom_prompt(AgentName::Balthasar, "later".to_string());
    assert_eq!(replaced.create_agents(Mode::Analysis)[1].system_prompt(), "later");
}

#[test]
fn a_built_in_prompt_opens_with_its_mode_and_ignores_the_provider() {
    let a = Agent::new(AgentName::Caspar, Mode::Design, MockProvider::new("x", "y", "z"));
    let b = Agent::new(AgentName::Caspar, Mode::Design, MockProvider::new("other", "model", "r"));
    assert!(a.system_prompt().starts_with("Mode: design\n\n"));
    assert_eq!(a.system_prompt(), b.system_prompt());
}
