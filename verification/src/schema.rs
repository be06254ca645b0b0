//! The domain vocabulary: the three mages, analysis modes, verdicts, severities,
//! finding categories, findings and agent outputs.

use vstd::prelude::*;

verus! {

/// One of the three MAGI agents.
#[derive(Clone, Copy, Debug, PartialEq, Eq, Structural, PartialOrd, Ord, Hash)]
pub enum AgentName {
    Balthasar,
    Caspar,
    Melchior,
}

/// The position of a mage in the canonical order (alphabetical by name, the
/// order `Ord` compares them in), used for tie-breaking and for sorted sets.
pub open spec fn agent_rank(a: AgentName) -> int {
    match a {
        AgentName::Balthasar => 0,
        AgentName::Caspar => 1,
        AgentName::Melchior => 2,
    }
}

/// A mage's display name.
pub open spec fn agent_display(a: AgentName) -> Seq<char> {
    match a {
        AgentName::Melchior => "Melchior"@,
        AgentName::Balthasar => "Balthasar"@,
        AgentName::Caspar => "Caspar"@,
    }
}

/// A mage's analytical role.
pub open spec fn agent_title(a: AgentName) -> Seq<char> {
    match a {
        AgentName::Melchior => "Scientist"@,
        AgentName::Balthasar => "Pragmatist"@,
        AgentName::Caspar => "Critic"@,
    }
}

impl AgentName {
    /// Display name (`"Melchior"`, `"Balthasar"`, `"Caspar"`).
    pub fn display_name(&self) -> (r: &'static str)
        ensures
            r@ == agent_display(*self),
    {
        match self {
            AgentName::Melchior => "Melchior",
            AgentName::Balthasar => "Balthasar",
            AgentName::Caspar => "Caspar",
        }
    }

    /// Analytical role (`"Scientist"`, `"Pragmatist"`, `"Critic"`).
    pub fn title(&self) -> (r: &'static str)
        ensures
            r@ == agent_title(*self),
    {
        match self {
            AgentName::Melchior => "Scientist",
            AgentName::Balthasar => "Pragmatist",
            AgentName::Caspar => "Critic",
        }
    }

    /// The canonical order position.
    pub fn rank(&self) -> (r: u8)
        ensures
            r as int == agent_rank(*self),
    {
        match self {
            AgentName::Balthasar => 0,
            AgentName::Caspar => 1,
            AgentName::Melchior => 2,
        }
    }
}

/// The analysis mode.
#[derive(Clone, Copy, Debug, PartialEq, Eq, Structural, PartialOrd, Ord, Hash)]
pub enum Mode {
    CodeReview,
    Design,
    Analysis,
}

/// The `Debug` rendering of a mode (its variant name).
pub open spec fn mode_debug(m: Mode) -> Seq<char> {
    match m {
        Mode::CodeReview => "CodeReview"@,
        Mode::Design => "Design"@,
        Mode::Analysis => "Analysis"@,
    }
}

/// How a mode is shown to people and in the user prompt (`MODE: code-review`).
pub open spec fn mode_display(m: Mode) -> Seq<char> {
    match m {
        Mode::CodeReview => "code-review"@,
        Mode::Design => "design"@,
        Mode::Analysis => "analysis"@,
    }
}

impl Mode {
    /// The mode as it is shown to people: `code-review`, `design`, `analysis`.
    pub fn display_name(&self) -> (r: &'static str)
        ensures
            r@ == mode_display(*self),
    {
        match self {
            Mode::CodeReview => "code-review",
            Mode::Design => "design",
            Mode::Analysis => "analysis",
        }
    }

    /// The variant name, as `{:?}` prints it.
    pub fn debug_name(&self) -> (r: &'static str)
        ensures
            r@ == mode_debug(*self),
    {
        match self {
            Mode::CodeReview => "CodeReview",
            Mode::Design => "Design",
            Mode::Analysis => "Analysis",
        }
    }
}

/// An agent's verdict.
#[derive(Clone, Copy, Debug, PartialEq, Eq, Structural, PartialOrd, Ord, Hash)]
pub enum Verdict {
    Approve,
    Reject,
    Conditional,
}

/// A conditional approval counts on the approving side.
pub open spec fn effective_verdict(v: Verdict) -> Verdict {
    match v {
        Verdict::Reject => Verdict::Reject,
        _ => Verdict::Approve,
    }
}

impl Verdict {
    /// The side this verdict counts on: `Conditional` approves.
    pub fn effective(&self) -> (r: Verdict)
        ensures
            r == effective_verdict(*self),
    {
        match self {
            Verdict::Reject => Verdict::Reject,
            _ => Verdict::Approve,
        }
    }
}

/// How serious a finding is; `Critical` ranks highest.
#[derive(Clone, Copy, Debug, PartialEq, Eq, Structural, PartialOrd, Ord, Hash)]
pub enum Severity {
    Info,
    Warning,
    Critical,
}

/// The severity order: `Info < Warning < Critical`.
pub open spec fn severity_rank(s: Severity) -> int {
    match s {
        Severity::Info => 0,
        Severity::Warning => 1,
        Severity::Critical => 2,
    }
}

impl Severity {
    pub fn rank(&self) -> (r: u8)
        ensures
            r as int == severity_rank(*self),
    {
        match self {
            Severity::Info => 0,
            Severity::Warning => 1,
            Severity::Critical => 2,
        }
    }
}

/// The kind of problem a finding reports.
#[derive(Clone, Copy, Debug, PartialEq, Eq, Structural, PartialOrd, Ord, Hash)]
pub enum Category {
    Security,
    Injection,
    LogicError,
    Performance,
    ErrorHandling,
    Maintainability,
    Other,
}

/// The wire name of a category (kebab-case).
pub open spec fn category_slug(c: Category) -> Seq<char> {
    match c {
        Category::Security => "security"@,
        Category::Injection => "injection"@,
        Category::LogicError => "logic-error"@,
        Category::Performance => "performance"@,
        Category::ErrorHandling => "error-handling"@,
        Category::Maintainability => "maintainability"@,
        Category::Other => "other"@,
    }
}

impl Category {
    /// The wire name (`"logic-error"`, `"injection"`, ...).
    pub fn slug(&self) -> (r: &'static str)
        ensures
            r@ == category_slug(*self),
    {
        match self {
            Category::Security => "security",
            Category::Injection => "injection",
            Category::LogicError => "logic-error",
            Category::Performance => "performance",
            Category::ErrorHandling => "error-handling",
            Category::Maintainability => "maintainability",
            Category::Other => "other",
        }
    }
}

/// One issue reported by an agent.
#[derive(Clone, Debug)]
pub struct Finding {
    pub severity: Severity,
    pub title: String,
    pub detail: String,
    /// Agent-reported, unverified.
    pub file: Option<String>,
    /// 1-based line number; agent-reported, unverified.
    pub line: Option<u32>,
    pub category: Category,
}

impl Finding {
    /// An unlocated finding of category `Other`.
    pub fn new(severity: Severity, title: &str, detail: &str) -> (f: Finding)
        ensures
            f.severity == severity,
            f.title@ == title@,
            f.detail@ == detail@,
            f.file is None,
            f.line is None,
            f.category == Category::Other,
    {
        Finding {
            severity,
            title: title.to_string(),
            detail: detail.to_string(),
            file: None,
            line: None,
            category: Category::Other,
        }
    }

    /// The same finding, located at `file:line`.
    pub fn with_location(self, file: &str, line: u32) -> (f: Finding)
        ensures
            f.severity == self.severity,
            f.title == self.title,
            f.detail == self.detail,
            f.file matches Some(x) && x@ == file@,
            f.line == Some(line),
            f.category == self.category,
    {
        Finding { file: Some(file.to_string()), line: Some(line), ..self }
    }

    /// The same finding, in category `category`.
    pub fn with_category(self, category: Category) -> (f: Finding)
        ensures
            f.severity == self.severity,
            f.title == self.title,
            f.detail == self.detail,
            f.file == self.file,
            f.line == self.line,
            f.category == category,
    {
        Finding { category, ..self }
    }
}

/// A validated agent response, as consensus reads it. The agent's
/// confidence is a float and travels beside this value, outside the library.
#[derive(Clone, Debug)]
pub struct AgentOutput {
    pub agent: AgentName,
    pub verdict: Verdict,
    pub summary: String,
    pub reasoning: String,
    pub findings: Vec<Finding>,
    pub recommendation: String,
}

} // verus!
