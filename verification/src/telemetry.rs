//! What a provider reports about one completion: why it stopped and how much
//! of the prompt it measured.

use vstd::prelude::*;
use crate::text::{chars_of, push_chars, push_str};

verus! {

/// Why the model stopped generating, as the backend reported it.
#[derive(Debug, Clone, PartialEq, Eq)]
pub enum FinishReason {
    /// The model finished on its own.
    Stop,
    /// The output budget (or the context window) ran out.
    Length,
    /// The backend reported that the model was loading.
    Load,
    /// A reason this crate does not interpret, carried verbatim.
    Other(String),
}

/// What `{:?}` yields for a string (std's `Debug` for `str`: quoted, escaped).
pub uninterp spec fn debug_str_text(s: Seq<char>) -> Seq<char>;

/// std's `Debug` formatting of a `str`.
#[verifier::external_body]
pub(crate) fn debug_str(s: &str) -> (r: String)
    ensures
        r@ == debug_str_text(s@),
{
    format!("{:?}", s)
}

/// The `Debug` rendering of a finish reason.
pub open spec fn finish_debug(f: FinishReason) -> Seq<char> {
    match f {
        FinishReason::Stop => "Stop"@,
        FinishReason::Length => "Length"@,
        FinishReason::Load => "Load"@,
        FinishReason::Other(s) => "Other("@ + debug_str_text(s@) + ")"@,
    }
}

/// The `Debug` rendering of an optional finish reason.
pub open spec fn finish_opt_debug(f: Option<FinishReason>) -> Seq<char> {
    match f {
        None => "None"@,
        Some(r) => "Some("@ + finish_debug(r) + ")"@,
    }
}

/// Appends the `Debug` rendering of an optional finish reason.
pub fn push_finish_opt_debug(out: &mut Vec<char>, f: &Option<FinishReason>)
    ensures
        final(out)@ == old(out)@ + finish_opt_debug(*f),
{
    match f {
        None => push_str(out, "None"),
        Some(r) => {
            push_str(out, "Some(");
            match r {
                FinishReason::Stop => push_str(out, "Stop"),
                FinishReason::Length => push_str(out, "Length"),
                FinishReason::Load => push_str(out, "Load"),
                FinishReason::Other(s) => {
                    push_str(out, "Other(");
                    let d = debug_str(s.as_str());
                    let dc = chars_of(d.as_str());
                    push_chars(out, &dc);
                    push_str(out, ")");
                },
            }
            push_str(out, ")");
        },
    }
    assert(final(out)@ =~= old(out)@ + finish_opt_debug(*f));
}

/// Whether the output budget can explain an empty completion.
#[derive(Debug, Clone, Copy, PartialEq, Eq, Structural)]
pub enum BudgetBearing {
    /// The termination is the budget's (or the context window's): raising the cap may help.
    MayExplain,
    /// The backend named a reason that is not the budget.
    RuledOut,
    /// The backend named a reason this crate does not interpret.
    Unknown,
}

/// Telemetry of one completion.
#[derive(Debug, Clone, PartialEq, Eq)]
pub struct CompletionTelemetry {
    /// Why generation stopped, when the backend said.
    pub finish: Option<FinishReason>,
    /// Prompt size the backend measured, when it did.
    pub prompt_tokens: Option<u32>,
}

/// How a termination bears on the budget: an unreported one or a `Length`
/// may be the budget; `Stop` and `Load` rule it out; anything else is unknown.
pub open spec fn budget_bearing_of(finish: Option<FinishReason>) -> BudgetBearing {
    match finish {
        None => BudgetBearing::MayExplain,
        Some(FinishReason::Length) => BudgetBearing::MayExplain,
        Some(FinishReason::Stop) => BudgetBearing::RuledOut,
        Some(FinishReason::Load) => BudgetBearing::RuledOut,
        Some(FinishReason::Other(_)) => BudgetBearing::Unknown,
    }
}

impl CompletionTelemetry {
    /// Nothing measured.
    pub fn unmeasured() -> (t: Self)
        ensures
            t.finish is None,
            t.prompt_tokens is None,
    {
        CompletionTelemetry { finish: None, prompt_tokens: None }
    }

    /// The same telemetry with a termination reason.
    pub fn with_finish(self, finish: FinishReason) -> (t: Self)
        ensures
            t.finish == Some(finish),
            t.prompt_tokens == self.prompt_tokens,
    {
        CompletionTelemetry { finish: Some(finish), ..self }
    }

    /// The same telemetry with a prompt measurement.
    pub fn with_prompt_tokens(self, n: u32) -> (t: Self)
        ensures
            t.finish == self.finish,
            t.prompt_tokens == Some(n),
    {
        CompletionTelemetry { prompt_tokens: Some(n), ..self }
    }

    /// How the reported termination bears on the output budget.
    pub fn budget_bearing(&self) -> (b: BudgetBearing)
        ensures
            b == budget_bearing_of(self.finish),
    {
        match &self.finish {
            None => BudgetBearing::MayExplain,
            Some(FinishReason::Length) => BudgetBearing::MayExplain,
            Some(FinishReason::Stop) => BudgetBearing::RuledOut,
            Some(FinishReason::Load) => BudgetBearing::RuledOut,
            Some(FinishReason::Other(_)) => BudgetBearing::Unknown,
        }
    }
}

fn duplicate_finish(f: &FinishReason) -> (r: FinishReason)
    ensures
        r == *f,
{
    match f {
        FinishReason::Stop => FinishReason::Stop,
        FinishReason::Length => FinishReason::Length,
        FinishReason::Load => FinishReason::Load,
        FinishReason::Other(s) => FinishReason::Other(s.clone()),
    }
}

/// What one completion attempt leaves in the report: the model that ran and
/// the output budget it was given (both from the caller, since a response
/// carries neither), and what the backend measured, where it did.
#[derive(Debug, Clone, PartialEq, Eq)]
pub struct CompletionRecord {
    pub model: String,
    pub cap: u32,
    /// Why generation stopped; `None` when nothing was measured.
    pub finish: Option<FinishReason>,
    /// The prompt size the backend measured; `None` when it did not.
    pub prompt_tokens: Option<u32>,
}

impl View for CompletionRecord {
    type V = (Seq<char>, u32, Option<FinishReason>, Option<u32>);

    open spec fn view(&self) -> (Seq<char>, u32, Option<FinishReason>, Option<u32>) {
        (self.model@, self.cap, self.finish, self.prompt_tokens)
    }
}

impl CompletionRecord {
    /// An attempt on `model` with budget `cap` of which nothing was measured.
    pub fn new(model: String, cap: u32) -> (r: Self)
        ensures
            r@ == (model@, cap, None::<FinishReason>, None::<u32>),
    {
        CompletionRecord { model, cap, finish: None, prompt_tokens: None }
    }

    /// An attempt on `model` with budget `cap`, filled from its telemetry.
    pub fn from_telemetry(model: String, cap: u32, t: &CompletionTelemetry) -> (r: Self)
        ensures
            r@ == (model@, cap, t.finish, t.prompt_tokens),
    {
        let finish = match &t.finish {
            Some(f) => Some(duplicate_finish(f)),
            None => None,
        };
        CompletionRecord { model, cap, finish, prompt_tokens: t.prompt_tokens }
    }
}

} // verus!
