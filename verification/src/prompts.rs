//! The built-in system prompts, one per mage and mode.

use vstd::prelude::*;
use crate::schema::{AgentName, Mode};
use crate::text::{push_str, string_of};

verus! {

/// The line every built-in prompt opens with, naming its mode.
pub open spec fn mode_header(mode: Mode) -> Seq<char> {
    match mode {
        Mode::CodeReview => "Mode: code-review\n\n"@,
        Mode::Design => "Mode: design\n\n"@,
        Mode::Analysis => "Mode: analysis\n\n"@,
    }
}

fn mode_header_str(mode: Mode) -> (r: &'static str)
    ensures
        r@ == mode_header(mode),
{
    match mode {
        Mode::CodeReview => "Mode: code-review\n\n",
        Mode::Design => "Mode: design\n\n",
        Mode::Analysis => "Mode: analysis\n\n",
    }
}

/// The role text of `name` in `mode`: who the mage is and what it is asked.
pub open spec fn role_text(name: AgentName, mode: Mode) -> Seq<char> {
    match (name, mode) {
        (AgentName::Melchior, Mode::CodeReview) => MELCHIOR_CODE_REVIEW@,
        (AgentName::Melchior, Mode::Design) => MELCHIOR_DESIGN@,
        (AgentName::Melchior, Mode::Analysis) => MELCHIOR_ANALYSIS@,
        (AgentName::Balthasar, Mode::CodeReview) => BALTHASAR_CODE_REVIEW@,
        (AgentName::Balthasar, Mode::Design) => BALTHASAR_DESIGN@,
        (AgentName::Balthasar, Mode::Analysis) => BALTHASAR_ANALYSIS@,
        (AgentName::Caspar, Mode::CodeReview) => CASPAR_CODE_REVIEW@,
        (AgentName::Caspar, Mode::Design) => CASPAR_DESIGN@,
        (AgentName::Caspar, Mode::Analysis) => CASPAR_ANALYSIS@,
    }
}

fn role_str(name: AgentName, mode: Mode) -> (r: &'static str)
    ensures
        r@ == role_text(name, mode),
{
    match (name, mode) {
        (AgentName::Melchior, Mode::CodeReview) => MELCHIOR_CODE_REVIEW,
        (AgentName::Melchior, Mode::Design) => MELCHIOR_DESIGN,
        (AgentName::Melchior, Mode::Analysis) => MELCHIOR_ANALYSIS,
        (AgentName::Balthasar, Mode::CodeReview) => BALTHASAR_CODE_REVIEW,
        (AgentName::Balthasar, Mode::Design) => BALTHASAR_DESIGN,
        (AgentName::Balthasar, Mode::Analysis) => BALTHASAR_ANALYSIS,
        (AgentName::Caspar, Mode::CodeReview) => CASPAR_CODE_REVIEW,
        (AgentName::Caspar, Mode::Design) => CASPAR_DESIGN,
        (AgentName::Caspar, Mode::Analysis) => CASPAR_ANALYSIS,
    }
}

/// The built-in system prompt of `name` in `mode`: the mode line, then the
/// mage's role text for that mode.
pub open spec fn default_prompt_text(name: AgentName, mode: Mode) -> Seq<char> {
    mode_header(mode) + role_text(name, mode)
}

/// The built-in system prompt of `name` in `mode`.
pub fn default_prompt(name: AgentName, mode: Mode) -> (r: String)
    ensures
        r@ == default_prompt_text(name, mode),
{
    let mut out: Vec<char> = Vec::new();
    push_str(&mut out, mode_header_str(mode));
    push_str(&mut out, role_str(name, mode));
    string_of(&out)
}

/// The built-in prompts of one mage differ from mode to mode: each opens
/// with a line naming its own mode.
pub proof fn law_modes_have_distinct_prompts(name: AgentName, m1: Mode, m2: Mode)
    requires
        m1 != m2,
    ensures
        default_prompt_text(name, m1) != default_prompt_text(name, m2),
{
    reveal_strlit("Mode: code-review\n\n");
    reveal_strlit("Mode: design\n\n");
    reveal_strlit("Mode: analysis\n\n");
    let p1 = default_prompt_text(name, m1);
    let p2 = default_prompt_text(name, m2);
    assert(p1[6] == mode_header(m1)[6]);
    assert(p2[6] == mode_header(m2)[6]);
}

pub const MELCHIOR_CODE_REVIEW: &'static str = "You are Melchior, the Scientist of the MAGI system. Review the submitted code for correctness: logic errors, unsound assumptions, undefined behaviour and missing edge cases. Reason from evidence in the code, not from style. Write in English. End your answer with a single JSON object with the fields agent, verdict (approve, reject or conditional), confidence, summary, reasoning, findings and recommendation.";

pub const MELCHIOR_DESIGN: &'static str = "You are Melchior, the Scientist of the MAGI system. Evaluate the proposed design for technical soundness: consistency of its invariants, failure modes and whether it can meet its stated requirements. Write in English. End your answer with a single JSON object with the fields agent, verdict (approve, reject or conditional), confidence, summary, reasoning, findings and recommendation.";

pub const MELCHIOR_ANALYSIS: &'static str = "You are Melchior, the Scientist of the MAGI system. Analyse the submitted material rigorously: separate what is established from what is assumed, and test each claim against the evidence given. Write in English. End your answer with a single JSON object with the fields agent, verdict (approve, reject or conditional), confidence, summary, reasoning, findings and recommendation.";

pub const BALTHASAR_CODE_REVIEW: &'static str = "You are Balthasar, the Pragmatist of the MAGI system. Review the submitted code for maintainability, operability and the cost of living with it: clarity, error handling, tests and deployment risk. Write in English. End your answer with a single JSON object with the fields agent, verdict (approve, reject or conditional), confidence, summary, reasoning, findings and recommendation.";

pub const BALTHASAR_DESIGN: &'static str = "You are Balthasar, the Pragmatist of the MAGI system. Evaluate the proposed design for feasibility: effort, migration path, operational burden and whether a simpler design would serve. Write in English. End your answer with a single JSON object with the fields agent, verdict (approve, reject or conditional), confidence, summary, reasoning, findings and recommendation.";

pub const BALTHASAR_ANALYSIS: &'static str = "You are Balthasar, the Pragmatist of the MAGI system. Analyse the submitted material for practical consequences: what it would take to act on it, what it costs, and what can go wrong in practice. Write in English. End your answer with a single JSON object with the fields agent, verdict (approve, reject or conditional), confidence, summary, reasoning, findings and recommendation.";

pub const CASPAR_CODE_REVIEW: &'static str = "You are Caspar, the Critic of the MAGI system. Review the submitted code adversarially: look for security flaws, injection, abuse of trust boundaries and the failure the authors did not consider. Write in English. End your answer with a single JSON object with the fields agent, verdict (approve, reject or conditional), confidence, summary, reasoning, findings and recommendation.";

pub const CASPAR_DESIGN: &'static str = "You are Caspar, the Critic of the MAGI system. Challenge the proposed design: attack its assumptions, find the scenarios it breaks under and the risks it hides. Write in English. End your answer with a single JSON object with the fields agent, verdict (approve, reject or conditional), confidence, summary, reasoning, findings and recommendation.";

pub const CASPAR_ANALYSIS: &'static str = "You are Caspar, the Critic of the MAGI system. Scrutinise the submitted material: find the weakest claim, the missing counter-evidence and the conclusion that does not follow. Write in English. End your answer with a single JSON object with the fields agent, verdict (approve, reject or conditional), confidence, summary, reasoning, findings and recommendation.";


// ---------------------------------------------------------------------------
// Custom prompt overrides
// ---------------------------------------------------------------------------

/// One agent's overrides: one for every mode, and one per mode.
struct AgentPrompts {
    any_mode: Option<String>,
    code_review: Option<String>,
    design: Option<String>,
    analysis: Option<String>,
}

impl AgentPrompts {
    spec fn slot(&self, key: Option<Mode>) -> Option<String> {
        match key {
            None => self.any_mode,
            Some(Mode::CodeReview) => self.code_review,
            Some(Mode::Design) => self.design,
            Some(Mode::Analysis) => self.analysis,
        }
    }

    fn empty() -> (r: Self)
        ensures
            forall|k: Option<Mode>| #[trigger] r.slot(k) is None,
    {
        AgentPrompts { any_mode: None, code_review: None, design: None, analysis: None }
    }

    fn only_any_mode(prompt: String) -> (r: Self)
        ensures
            r.slot(None) == Some(prompt),
            forall|m: Mode| #[trigger] r.slot(Some(m)) is None,
    {
        AgentPrompts { any_mode: Some(prompt), code_review: None, design: None, analysis: None }
    }

    fn get(&self, key: Option<Mode>) -> (r: Option<&String>)
        ensures
            r == match self.slot(key) {
                Some(p) => Some(&p),
                None => None::<&String>,
            },
    {
        let slot = match key {
            None => &self.any_mode,
            Some(Mode::CodeReview) => &self.code_review,
            Some(Mode::Design) => &self.design,
            Some(Mode::Analysis) => &self.analysis,
        };
        match slot {
            Some(p) => Some(p),
            None => None,
        }
    }

    fn set(&mut self, key: Option<Mode>, prompt: String)
        ensures
            final(self).slot(key) == Some(prompt),
            forall|k: Option<Mode>| k != key ==> #[trigger] final(self).slot(k) == old(self).slot(k),
    {
        match key {
            None => self.any_mode = Some(prompt),
            Some(Mode::CodeReview) => self.code_review = Some(prompt),
            Some(Mode::Design) => self.design = Some(prompt),
            Some(Mode::Analysis) => self.analysis = Some(prompt),
        }
    }
}

/// Custom system prompts keyed by agent and by mode, where no mode means
/// "every mode": a mode-specific prompt wins over a mode-agnostic one, which
/// wins over the built-in prompt.
pub struct PromptOverrides {
    balthasar: AgentPrompts,
    caspar: AgentPrompts,
    melchior: AgentPrompts,
}

impl PromptOverrides {
    /// The prompt stored under `(agent, key)`.
    pub closed spec fn stored(&self, agent: AgentName, key: Option<Mode>) -> Option<String> {
        match agent {
            AgentName::Balthasar => self.balthasar.slot(key),
            AgentName::Caspar => self.caspar.slot(key),
            AgentName::Melchior => self.melchior.slot(key),
        }
    }

    /// The override that applies to `agent` in `mode`: its mode-specific one,
    /// else its mode-agnostic one, else none (the built-in prompt applies).
    pub open spec fn resolved(&self, agent: AgentName, mode: Mode) -> Option<String> {
        match self.stored(agent, Some(mode)) {
            Some(p) => Some(p),
            None => self.stored(agent, None),
        }
    }

    /// No overrides.
    pub fn new() -> (r: Self)
        ensures
            forall|a: AgentName, k: Option<Mode>| #[trigger] r.stored(a, k) is None,
    {
        PromptOverrides {
            balthasar: AgentPrompts::empty(),
            caspar: AgentPrompts::empty(),
            melchior: AgentPrompts::empty(),
        }
    }

    fn slots_mut(&mut self, agent: AgentName) -> (r: &mut AgentPrompts)
        ensures
            *r == match agent {
                AgentName::Balthasar => old(self).balthasar,
                AgentName::Caspar => old(self).caspar,
                AgentName::Melchior => old(self).melchior,
            },
            *final(self) == (match agent {
                AgentName::Balthasar => PromptOverrides { balthasar: *final(r), ..*old(self) },
                AgentName::Caspar => PromptOverrides { caspar: *final(r), ..*old(self) },
                AgentName::Melchior => PromptOverrides { melchior: *final(r), ..*old(self) },
            }),
    {
        match agent {
            AgentName::Balthasar => &mut self.balthasar,
            AgentName::Caspar => &mut self.caspar,
            AgentName::Melchior => &mut self.melchior,
        }
    }

    /// Stores `prompt` under `(agent, key)`, replacing what was there.
    pub fn insert(&mut self, agent: AgentName, key: Option<Mode>, prompt: String)
        ensures
            final(self).stored(agent, key) == Some(prompt),
            forall|a: AgentName, k: Option<Mode>|
                !(a == agent && k == key) ==> #[trigger] final(self).stored(a, k) == old(
                    self,
                ).stored(a, k),
    {
        let slots = self.slots_mut(agent);
        slots.set(key, prompt);
    }

    /// Makes `prompt` the one override of `agent`: stored for every mode, with
    /// the agent's mode-specific prompts dropped.
    pub fn replace_agent(&mut self, agent: AgentName, prompt: String)
        ensures
            final(self).stored(agent, None) == Some(prompt),
            forall|m: Mode| #[trigger] final(self).stored(agent, Some(m)) is None,
            forall|a: AgentName, k: Option<Mode>|
                a != agent ==> #[trigger] final(self).stored(a, k) == old(self).stored(a, k),
    {
        let slots = self.slots_mut(agent);
        *slots = AgentPrompts::only_any_mode(prompt);
    }

    /// Stores `prompt` under `(agent, key)` only if nothing is stored there.
    pub fn insert_if_absent(&mut self, agent: AgentName, key: Option<Mode>, prompt: String)
        ensures
            final(self).stored(agent, key) == match old(self).stored(agent, key) {
                Some(p) => Some(p),
                None => Some(prompt),
            },
            forall|a: AgentName, k: Option<Mode>|
                !(a == agent && k == key) ==> #[trigger] final(self).stored(a, k) == old(
                    self,
                ).stored(a, k),
    {
        if self.get(agent, key).is_none() {
            self.insert(agent, key, prompt);
        }
    }

    /// The prompt stored under `(agent, key)`, if any.
    pub fn get(&self, agent: AgentName, key: Option<Mode>) -> (r: Option<&String>)
        ensures
            r == match self.stored(agent, key) {
                Some(p) => Some(&p),
                None => None::<&String>,
            },
    {
        match agent {
            AgentName::Balthasar => self.balthasar.get(key),
            AgentName::Caspar => self.caspar.get(key),
            AgentName::Melchior => self.melchior.get(key),
        }
    }

    /// The override that applies to `agent` in `mode`, if any.
    pub fn lookup(&self, agent: AgentName, mode: Mode) -> (r: Option<&String>)
        ensures
            r == match self.resolved(agent, mode) {
                Some(p) => Some(&p),
                None => None::<&String>,
            },
    {
        match self.get(agent, Some(mode)) {
            Some(p) => Some(p),
            None => self.get(agent, None),
        }
    }
}
} // verus!
