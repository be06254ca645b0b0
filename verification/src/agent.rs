//! Agents (a mage, a mode, a system prompt and a provider) and the factory
//! that builds the three of them.

use std::sync::Arc;
use vstd::prelude::*;
use crate::schema::{AgentName, Mode, agent_display, agent_title};
use crate::prompts::{PromptOverrides, default_prompt, default_prompt_text};
use crate::text::{push_str, string_of};

verus! {

/// An LLM backend as an agent holds it: the client that sends completions
/// (opaque here; the dispatch layer drives it) together with the provider
/// name and model identifier it reported when it was registered.
pub struct ProviderHandle<P> {
    client: Arc<P>,
    name: String,
    model: String,
}

impl<P> ProviderHandle<P> {
    pub closed spec fn spec_client(&self) -> Arc<P> {
        self.client
    }

    pub closed spec fn spec_name(&self) -> Seq<char> {
        self.name@
    }

    pub closed spec fn spec_model(&self) -> Seq<char> {
        self.model@
    }

    /// A handle on `client`, which reports provider `name` and model `model`.
    pub fn new(client: Arc<P>, name: &str, model: &str) -> (h: Self)
        ensures
            h.spec_client() == client,
            h.spec_name() == name@,
            h.spec_model() == model@,
    {
        ProviderHandle { client, name: name.to_string(), model: model.to_string() }
    }

    /// The provider's name (e.g. `"openai"`).
    pub fn name(&self) -> (r: &str)
        ensures
            r@ == self.spec_name(),
    {
        self.name.as_str()
    }

    /// The provider's model identifier.
    pub fn model(&self) -> (r: &str)
        ensures
            r@ == self.spec_model(),
    {
        self.model.as_str()
    }

    /// The client that sends this provider's completions.
    pub fn client(&self) -> (r: &Arc<P>)
        ensures
            *r == self.spec_client(),
    {
        &self.client
    }

    /// Whether two handles are on the same client, with the same name and model.
    pub open spec fn same_as(&self, other: ProviderHandle<P>) -> bool {
        &&& self.spec_client() == other.spec_client()
        &&& self.spec_name() == other.spec_name()
        &&& self.spec_model() == other.spec_model()
    }

    /// Another handle on the same client, with the same name and model.
    pub fn share(&self) -> (h: Self)
        ensures
            h.same_as(*self),
    {
        ProviderHandle {
            client: share_arc(&self.client),
            name: self.name.as_str().to_string(),
            model: self.model.as_str().to_string(),
        }
    }
}

/// std's `Arc::clone`: another handle on the same provider.
#[verifier::external_body]
fn share_arc<P>(p: &Arc<P>) -> (r: Arc<P>)
    ensures
        r == *p,
{
    Arc::clone(p)
}

/// An autonomous MAGI agent: an identity, a mode-specific system prompt, and
/// a provider.
pub struct Agent<P> {
    name: AgentName,
    mode: Mode,
    system_prompt: String,
    provider: ProviderHandle<P>,
}

impl<P> Agent<P> {
    pub closed spec fn spec_name(&self) -> AgentName {
        self.name
    }

    pub closed spec fn spec_mode(&self) -> Mode {
        self.mode
    }

    pub closed spec fn spec_prompt(&self) -> Seq<char> {
        self.system_prompt@
    }

    pub closed spec fn spec_provider(&self) -> ProviderHandle<P> {
        self.provider
    }

    /// An agent with the built-in system prompt for its name and mode.
    pub fn new(name: AgentName, mode: Mode, provider: ProviderHandle<P>) -> (a: Self)
        ensures
            a.spec_name() == name,
            a.spec_mode() == mode,
            a.spec_prompt() == default_prompt_text(name, mode),
            a.spec_provider() == provider,
    {
        let system_prompt = default_prompt(name, mode);
        Agent { name, mode, system_prompt, provider }
    }

    /// An agent with a caller-supplied system prompt.
    pub fn with_custom_prompt(
        name: AgentName,
        mode: Mode,
        provider: ProviderHandle<P>,
        prompt: String,
    ) -> (a: Self)
        ensures
            a.spec_name() == name,
            a.spec_mode() == mode,
            a.spec_prompt() == prompt@,
            a.spec_provider() == provider,
    {
        Agent { name, mode, system_prompt: prompt, provider }
    }

    /// The agent's name.
    pub fn name(&self) -> (r: AgentName)
        ensures
            r == self.spec_name(),
    {
        self.name
    }

    /// The agent's analysis mode.
    pub fn mode(&self) -> (r: Mode)
        ensures
            r == self.spec_mode(),
    {
        self.mode
    }

    /// The agent's system prompt.
    pub fn system_prompt(&self) -> (r: &str)
        ensures
            r@ == self.spec_prompt(),
    {
        self.system_prompt.as_str()
    }

    /// The provider's name.
    pub fn provider_name(&self) -> (r: &str)
        ensures
            r@ == self.spec_provider().spec_name(),
    {
        self.provider.name()
    }

    /// The provider's model identifier.
    pub fn provider_model(&self) -> (r: &str)
        ensures
            r@ == self.spec_provider().spec_model(),
    {
        self.provider.model()
    }

    /// The agent's display name (e.g. `"Melchior"`).
    pub fn display_name(&self) -> (r: &'static str)
        ensures
            r@ == agent_display(self.spec_name()),
    {
        self.name.display_name()
    }

    /// The agent's analytical role (e.g. `"Scientist"`).
    pub fn title(&self) -> (r: &'static str)
        ensures
            r@ == agent_title(self.spec_name()),
    {
        self.name.title()
    }

    /// The provider this agent sends its prompts to.
    pub fn provider(&self) -> (r: &ProviderHandle<P>)
        ensures
            *r == self.spec_provider(),
    {
        &self.provider
    }
}

/// The mages in the order agents are always created.
pub open spec fn agent_order() -> Seq<AgentName> {
    seq![AgentName::Melchior, AgentName::Balthasar, AgentName::Caspar]
}

/// Builds the three agents: a default provider shared by all, with
/// per-agent provider overrides and per-agent (or per-agent-and-mode) prompt
/// overrides.
pub struct AgentFactory<P> {
    default_provider: ProviderHandle<P>,
    melchior_provider: Option<ProviderHandle<P>>,
    balthasar_provider: Option<ProviderHandle<P>>,
    caspar_provider: Option<ProviderHandle<P>>,
    prompts: PromptOverrides,
}

/// The text of an optional prompt.
pub open spec fn prompt_text_of(p: Option<String>) -> Option<Seq<char>> {
    match p {
        Some(s) => Some(s@),
        None => None,
    }
}

impl<P> AgentFactory<P> {
    pub closed spec fn default_of(&self) -> ProviderHandle<P> {
        self.default_provider
    }

    /// The provider override registered for `name`, if any.
    pub closed spec fn override_of(&self, name: AgentName) -> Option<ProviderHandle<P>> {
        match name {
            AgentName::Melchior => self.melchior_provider,
            AgentName::Balthasar => self.balthasar_provider,
            AgentName::Caspar => self.caspar_provider,
        }
    }

    /// The prompt registered for `name` under `key`: for one mode
    /// (`Some(mode)`, from a prompt file) or for every mode (`None`).
    pub closed spec fn prompt_override(&self, name: AgentName, key: Option<Mode>) -> Option<
        Seq<char>,
    > {
        prompt_text_of(self.prompts.stored(name, key))
    }

    /// The provider `name` is created with: its override, else the default.
    pub open spec fn provider_for(&self, name: AgentName) -> ProviderHandle<P> {
        match self.override_of(name) {
            Some(p) => p,
            None => self.default_of(),
        }
    }

    /// The prompt `name` is created with in `mode`: the one registered for
    /// that mode, else the one registered for every mode, else the built-in one.
    pub open spec fn prompt_for(&self, name: AgentName, mode: Mode) -> Seq<char> {
        match self.prompt_override(name, Some(mode)) {
            Some(p) => p,
            None => match self.prompt_override(name, None) {
                Some(p) => p,
                None => default_prompt_text(name, mode),
            },
        }
    }

    /// A factory whose three agents share `default_provider`.
    pub fn new(default_provider: ProviderHandle<P>) -> (f: Self)
        ensures
            f.default_of() == default_provider,
            forall|n: AgentName| #[trigger] f.override_of(n) is None,
            forall|n: AgentName, k: Option<Mode>| #[trigger] f.prompt_override(n, k) is None,
    {
        let prompts = PromptOverrides::new();
        AgentFactory {
            default_provider,
            melchior_provider: None,
            balthasar_provider: None,
            caspar_provider: None,
            prompts,
        }
    }

    /// Registers a provider override for one agent (replacing an earlier one).
    pub fn with_provider(self, name: AgentName, provider: ProviderHandle<P>) -> (f: Self)
        ensures
            f.default_of() == self.default_of(),
            f.override_of(name) == Some(provider),
            forall|n: AgentName| n != name ==> f.override_of(n) == self.override_of(n),
            forall|n: AgentName, k: Option<Mode>|
                #[trigger] f.prompt_override(n, k) == self.prompt_override(n, k),
    {
        let mut f = self;
        match name {
            AgentName::Melchior => f.melchior_provider = Some(provider),
            AgentName::Balthasar => f.balthasar_provider = Some(provider),
            AgentName::Caspar => f.caspar_provider = Some(provider),
        }
        f
    }

    /// Registers a custom prompt for one agent in every mode, replacing every
    /// prompt registered for that agent before.
    pub fn with_custom_prompt(self, name: AgentName, prompt: String) -> (f: Self)
        ensures
            f.default_of() == self.default_of(),
            f.prompt_override(name, None) == Some(prompt@),
            forall|m: Mode| #[trigger] f.prompt_override(name, Some(m)) is None,
            forall|n: AgentName, k: Option<Mode>|
                n != name ==> #[trigger] f.prompt_override(n, k) == self.prompt_override(n, k),
            forall|n: AgentName| #[trigger] f.override_of(n) == self.override_of(n),
    {
        let mut f = self;
        f.prompts.replace_agent(name, prompt);
        f
    }

    fn create_one(&self, name: AgentName, mode: Mode) -> (a: Agent<P>)
        ensures
            a.spec_name() == name,
            a.spec_mode() == mode,
            a.spec_provider().same_as(self.provider_for(name)),
            a.spec_prompt() == self.prompt_for(name, mode),
    {
        let provider = match name {
            AgentName::Melchior => &self.melchior_provider,
            AgentName::Balthasar => &self.balthasar_provider,
            AgentName::Caspar => &self.caspar_provider,
        };
        let prompt = self.prompts.lookup(name, mode);
        let p = match provider {
            Some(p) => p.share(),
            None => self.default_provider.share(),
        };
        match prompt {
            Some(text) => Agent::with_custom_prompt(name, mode, p, text.clone()),
            None => Agent::new(name, mode, p),
        }
    }

    /// Creates exactly three agents for `mode`, in the order Melchior,
    /// Balthasar, Caspar. Each uses its provider override or the default, and
    /// the prompt registered for it in `mode`, else for every mode, else the
    /// built-in one.
    pub fn create_agents(&self, mode: Mode) -> (agents: Vec<Agent<P>>)
        ensures
            agents.len() == 3,
            forall|i: int|
                0 <= i < 3 ==> {
                    &&& (#[trigger] agents@[i]).spec_name() == agent_order()[i]
                    &&& agents@[i].spec_mode() == mode
                    &&& agents@[i].spec_provider().same_as(self.provider_for(agent_order()[i]))
                    &&& agents@[i].spec_prompt() == self.prompt_for(agent_order()[i], mode)
                },
    {
        let mut agents: Vec<Agent<P>> = Vec::new();
        agents.push(self.create_one(AgentName::Melchior, mode));
        agents.push(self.create_one(AgentName::Balthasar, mode));
        agents.push(self.create_one(AgentName::Caspar, mode));
        agents
    }
}


// ---------------------------------------------------------------------------
// Prompt files
// ---------------------------------------------------------------------------

/// The file-name stem of a mage.
pub open spec fn agent_file_slug(a: AgentName) -> Seq<char> {
    match a {
        AgentName::Melchior => "melchior"@,
        AgentName::Balthasar => "balthasar"@,
        AgentName::Caspar => "caspar"@,
    }
}

/// The file-name stem of a mode.
pub open spec fn mode_file_slug(m: Mode) -> Seq<char> {
    match m {
        Mode::CodeReview => "code_review"@,
        Mode::Design => "design"@,
        Mode::Analysis => "analysis"@,
    }
}

/// The name of the file a prompts directory holds for `agent` in `mode`:
/// `<agent>_<mode>.md`, e.g. `melchior_code_review.md`.
pub open spec fn prompt_file_text(agent: AgentName, mode: Mode) -> Seq<char> {
    agent_file_slug(agent) + "_"@ + mode_file_slug(mode) + ".md"@
}

/// The order in which a prompts directory is read: agent by agent
/// (Melchior, Balthasar, Caspar), and for each agent its code-review,
/// design and analysis files.
pub open spec fn prompt_file_order() -> Seq<(AgentName, Mode)> {
    seq![
        (AgentName::Melchior, Mode::CodeReview),
        (AgentName::Melchior, Mode::Design),
        (AgentName::Melchior, Mode::Analysis),
        (AgentName::Balthasar, Mode::CodeReview),
        (AgentName::Balthasar, Mode::Design),
        (AgentName::Balthasar, Mode::Analysis),
        (AgentName::Caspar, Mode::CodeReview),
        (AgentName::Caspar, Mode::Design),
        (AgentName::Caspar, Mode::Analysis),
    ]
}

/// The file a prompts directory holds for `agent` in `mode`.
pub fn prompt_file_name(agent: AgentName, mode: Mode) -> (r: String)
    ensures
        r@ == prompt_file_text(agent, mode),
{
    let mut out: Vec<char> = Vec::new();
    let a = match agent {
        AgentName::Melchior => "melchior",
        AgentName::Balthasar => "balthasar",
        AgentName::Caspar => "caspar",
    };
    let m = match mode {
        Mode::CodeReview => "code_review",
        Mode::Design => "design",
        Mode::Analysis => "analysis",
    };
    push_str(&mut out, a);
    push_str(&mut out, "_");
    push_str(&mut out, m);
    push_str(&mut out, ".md");
    assert(out@ =~= prompt_file_text(agent, mode));
    string_of(&out)
}

/// Every prompt file a directory may hold, in the order it is read.
pub fn prompt_files() -> (r: Vec<(AgentName, Mode, String)>)
    ensures
        r.len() == 9,
        forall|i: int|
            0 <= i < 9 ==> (#[trigger] r@[i]).0 == prompt_file_order()[i].0 && r@[i].1
                == prompt_file_order()[i].1 && r@[i].2@ == prompt_file_text(r@[i].0, r@[i].1),
{
    let mut r: Vec<(AgentName, Mode, String)> = Vec::new();
    let agents = [AgentName::Melchior, AgentName::Balthasar, AgentName::Caspar];
    let modes = [Mode::CodeReview, Mode::Design, Mode::Analysis];
    let mut i: usize = 0;
    while i < 3
        invariant
            i <= 3,
            agents@ == seq![AgentName::Melchior, AgentName::Balthasar, AgentName::Caspar],
            modes@ == seq![Mode::CodeReview, Mode::Design, Mode::Analysis],
            r.len() == 3 * i,
            forall|k: int|
                0 <= k < r.len() ==> (#[trigger] r@[k]).0 == prompt_file_order()[k].0 && r@[k].1
                    == prompt_file_order()[k].1 && r@[k].2@ == prompt_file_text(r@[k].0, r@[k].1),
        decreases 3 - i,
    {
        let mut j: usize = 0;
        while j < 3
            invariant
                i < 3,
                j <= 3,
                agents@ == seq![AgentName::Melchior, AgentName::Balthasar, AgentName::Caspar],
                modes@ == seq![Mode::CodeReview, Mode::Design, Mode::Analysis],
                r.len() == 3 * i + j,
                forall|k: int|
                    0 <= k < r.len() ==> (#[trigger] r@[k]).0 == prompt_file_order()[k].0 && r@[k].1
                        == prompt_file_order()[k].1 && r@[k].2@ == prompt_file_text(
                        r@[k].0,
                        r@[k].1,
                    ),
            decreases 3 - j,
        {
            let a = agents[i];
            let m = modes[j];
            r.push((a, m, prompt_file_name(a, m)));
            j = j + 1;
        }
        i = i + 1;
    }
    r
}

/// The prompt a sequence of found files leaves for `agent` in `mode`: the
/// last one found for that pair, if any.
pub open spec fn last_found(
    found: Seq<(AgentName, Mode, Seq<char>)>,
    agent: AgentName,
    mode: Mode,
) -> Option<Seq<char>>
    decreases found.len(),
{
    if found.len() == 0 {
        None
    } else if found.last().0 == agent && found.last().1 == mode {
        Some(found.last().2)
    } else {
        last_found(found.drop_last(), agent, mode)
    }
}

/// The found prompts as plain values.
pub open spec fn found_view(found: Seq<(AgentName, Mode, String)>) -> Seq<
    (AgentName, Mode, Seq<char>),
> {
    found.map_values(|p: (AgentName, Mode, String)| (p.0, p.1, p.2@))
}

impl<P> AgentFactory<P> {
    fn with_mode_prompt(self, name: AgentName, mode: Mode, prompt: String) -> (f: Self)
        ensures
            f.default_of() == self.default_of(),
            forall|n: AgentName| #[trigger] f.override_of(n) == self.override_of(n),
            f.prompt_override(name, Some(mode)) == Some(prompt@),
            forall|n: AgentName, k: Option<Mode>|
                !(n == name && k == Some(mode)) ==> #[trigger] f.prompt_override(n, k)
                    == self.prompt_override(n, k),
    {
        let mut f = self;
        f.prompts.insert(name, Some(mode), prompt);
        f
    }

    /// Registers the prompts read from a prompts directory, in reading order.
    /// Each file sets the prompt of one agent in one mode (a later file for
    /// the same pair replaces an earlier one); every pair with no file keeps
    /// what it had, and so does each agent's prompt for every mode.
    pub fn with_found_prompts(self, found: &[(AgentName, Mode, String)]) -> (f: Self)
        ensures
            f.default_of() == self.default_of(),
            forall|n: AgentName| #[trigger] f.override_of(n) == self.override_of(n),
            forall|n: AgentName| #[trigger] f.prompt_override(n, None) == self.prompt_override(n, None),
            forall|n: AgentName, m: Mode|
                #[trigger] f.prompt_override(n, Some(m)) == match last_found(found_view(found@), n, m) {
                    Some(p) => Some(p),
                    None => self.prompt_override(n, Some(m)),
                },
    {
        let ghost start = self;
        let mut f = self;
        let mut i: usize = 0;
        assert(found_view(found@.take(0)) =~= Seq::<(AgentName, Mode, Seq<char>)>::empty());
        while i < found.len()
            invariant
                i <= found.len(),
                f.default_of() == start.default_of(),
                forall|n: AgentName| #[trigger] f.override_of(n) == start.override_of(n),
                forall|n: AgentName|
                    #[trigger] f.prompt_override(n, None) == start.prompt_override(n, None),
                forall|n: AgentName, m: Mode|
                    #[trigger] f.prompt_override(n, Some(m)) == match last_found(
                        found_view(found@.take(i as int)),
                        n,
                        m,
                    ) {
                        Some(p) => Some(p),
                        None => start.prompt_override(n, Some(m)),
                    },
            decreases found.len() - i,
        {
            let ghost next = found_view(found@.take(i + 1));
            assert(next.drop_last() =~= found_view(found@.take(i as int)));
            assert(next.last() == (found@[i as int].0, found@[i as int].1, found@[i as int].2@));
            let name = found[i].0;
            let mode = found[i].1;
            let prompt = found[i].2.clone();
            f = f.with_mode_prompt(name, mode, prompt);
            i = i + 1;
        }
        assert(found@.take(found.len() as int) =~= found@);
        f
    }
}
} // verus!
