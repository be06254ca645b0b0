//! Consensus synthesis over the agents' outputs: vote counting, the majority
//! and its tie-break, labels, dissent, conditions and cross-agent finding
//! deduplication.
//!
//! The weighted score and the confidence are floating point and are computed
//! outside the library; they enter here only as the `ScoreClass` they select.

use vstd::prelude::*;
use crate::error::MagiError;
use crate::finding_id::{finding_id_spec, generate_finding_id};
use crate::schema::{
    AgentName, AgentOutput, Category, Finding, Severity, Verdict, agent_display, agent_rank,
    effective_verdict, severity_rank,
};
use crate::backoff::join_spec;
use crate::text::{
    chars_eq, chars_of, is_white_space, push_chars, push_decimal, push_str, string_of, trim,
    trim_spec,
};
use caseless::default_case_fold_str;
use unicode_normalization::UnicodeNormalization;

verus! {

broadcast use vstd::std_specs::vec::group_vec_axioms;

/// A finding after cross-agent deduplication.
#[derive(Debug, Clone, PartialEq)]
#[non_exhaustive]
pub struct DedupFinding {
    /// Severity (promoted to the highest across duplicates).
    pub severity: Severity,
    /// Finding title (first-seen form).
    pub title: String,
    /// Finding detail (from the first highest-severity contributor).
    pub detail: String,
    /// Agents that reported this finding, in first-seen order.
    pub sources: Vec<AgentName>,
    /// Agent-reported, unverified.
    pub file: Option<String>,
    /// 1-based line number; agent-reported, unverified.
    pub line: Option<u32>,
    /// Category (from the first-seen finding).
    pub category: Category,
    /// Stable id; `Some` only for located findings (file + line present).
    pub id: Option<String>,
}

/// A dissenting agent's summary and reasoning.
#[derive(Debug, Clone, PartialEq)]
pub struct Dissent {
    pub agent: AgentName,
    pub summary: String,
    pub reasoning: String,
}

/// A condition extracted from a Conditional-verdict agent.
#[derive(Debug, Clone, PartialEq)]
pub struct Condition {
    pub agent: AgentName,
    /// The condition text (the agent's summary).
    pub condition: String,
}

/// The plain content of a deduplicated finding.
pub struct DedupView {
    pub severity: Severity,
    pub title: Seq<char>,
    pub detail: Seq<char>,
    pub sources: Seq<AgentName>,
    pub file: Option<Seq<char>>,
    pub line: Option<u32>,
    pub category: Category,
    pub id: Option<Seq<char>>,
}

pub open spec fn opt_view(o: Option<String>) -> Option<Seq<char>> {
    match o {
        Some(s) => Some(s@),
        None => None,
    }
}

impl View for DedupFinding {
    type V = DedupView;

    open spec fn view(&self) -> DedupView {
        DedupView {
            severity: self.severity,
            title: self.title@,
            detail: self.detail@,
            sources: self.sources@,
            file: opt_view(self.file),
            line: self.line,
            category: self.category,
            id: opt_view(self.id),
        }
    }
}

// ---------------------------------------------------------------------------
// Dedup keys
// ---------------------------------------------------------------------------

/// Zero-width characters that carry no visible text.
pub open spec fn is_zero_width(c: char) -> bool {
    let u = c as u32;
    u == 0x200B || u == 0x200C || u == 0x200D || u == 0x2060 || u == 0xFEFF
}

/// Unicode control characters (general category Cc).
pub open spec fn is_control(c: char) -> bool {
    let u = c as u32;
    u < 0x20 || (0x7F <= u && u <= 0x9F)
}

/// Zero-width characters dropped; a CRLF pair or any control character becomes one space.
pub open spec fn strip_controls(s: Seq<char>) -> Seq<char>
    decreases s.len(),
{
    if s.len() == 0 {
        s
    } else if s.len() >= 2 && s[0] == '\r' && s[1] == '\n' {
        seq![' '] + strip_controls(s.subrange(2, s.len() as int))
    } else if is_zero_width(s[0]) {
        strip_controls(s.drop_first())
    } else if is_control(s[0]) {
        seq![' '] + strip_controls(s.drop_first())
    } else {
        seq![s[0]] + strip_controls(s.drop_first())
    }
}

/// A title cleaned for comparison: controls normalized, zero-width dropped,
/// trimmed. Interior runs of spaces are kept.
pub open spec fn clean_title_text(s: Seq<char>) -> Seq<char> {
    trim_spec(strip_controls(s))
}

/// Cleans a finding title for comparison.
pub fn clean_title(title: &str) -> (r: Vec<char>)
    ensures
        r@ == clean_title_text(title@),
{
    let s = chars_of(title);
    let mut out: Vec<char> = Vec::new();
    let mut i: usize = 0;
    assert(s@.skip(0) =~= s@);
    while i < s.len()
        invariant
            i <= s.len(),
            strip_controls(s@) == out@ + strip_controls(s@.skip(i as int)),
        decreases s.len() - i,
    {
        let ghost rest = s@.skip(i as int);
        let c = s[i];
        let u = c as u32;
        if c == '\r' && i + 1 < s.len() && s[i + 1] == '\n' {
            assert(rest.subrange(2, rest.len() as int) =~= s@.skip(i + 2));
            out.push(' ');
            i = i + 2;
            assert(strip_controls(s@) =~= out@ + strip_controls(s@.skip(i as int)));
        } else {
            assert(rest.drop_first() =~= s@.skip(i + 1));
            if u == 0x200B || u == 0x200C || u == 0x200D || u == 0x2060 || u == 0xFEFF {
            } else if u < 0x20 || (0x7F <= u && u <= 0x9F) {
                out.push(' ');
            } else {
                out.push(c);
            }
            i = i + 1;
            assert(strip_controls(s@) =~= out@ + strip_controls(s@.skip(i as int)));
        }
    }
    assert(s@.skip(s.len() as int) =~= Seq::<char>::empty());
    assert(out@ =~= strip_controls(s@));
    trim(&out)
}

/// What `unicode-normalization`'s NFKC yields for `s`.
pub uninterp spec fn nfkc_text(s: Seq<char>) -> Seq<char>;

/// What `caseless::default_case_fold_str` yields for `s`.
pub uninterp spec fn casefold_text(s: Seq<char>) -> Seq<char>;

/// `unicode-normalization`'s `nfkc` over `s`, collected.
#[verifier::external_body]
fn nfkc(s: &str) -> (r: String)
    ensures
        r@ == nfkc_text(s@),
{
    s.nfkc().collect::<String>()
}

/// `caseless::default_case_fold_str`: Unicode default case folding.
#[verifier::external_body]
fn case_fold(s: &str) -> (r: String)
    ensures
        r@ == casefold_text(s@),
{
    default_case_fold_str(s)
}

/// The comparison key of an unlocated finding's title: cleaned, NFKC, case-folded.
pub open spec fn dedup_key_text(title: Seq<char>) -> Seq<char> {
    casefold_text(nfkc_text(clean_title_text(title)))
}

/// The comparison key of an unlocated finding's title: the cleaned title,
/// NFKC-normalized, then Unicode default case-folded. Interior white space
/// is kept, so `"foo  bar"` and `"foo bar"` stay distinct.
pub fn dedup_key(title: &str) -> (r: String)
    ensures
        r@ == dedup_key_text(title@),
{
    let cleaned = string_of(&clean_title(title));
    let normalized = nfkc(cleaned.as_str());
    case_fold(normalized.as_str())
}

/// A finding is located when it names a non-empty file and a positive line.
pub open spec fn is_located(f: Finding) -> bool {
    &&& f.file matches Some(file) && file@.len() > 0
    &&& f.line matches Some(line) && line > 0
}

/// The grouping key of a finding: its stable id when located, its cleaned
/// title otherwise. The flag keeps the two kinds from ever colliding.
pub open spec fn finding_key_spec(f: Finding) -> (bool, Seq<char>) {
    if is_located(f) {
        (true, finding_id_spec(f.file->0@, f.line->0, f.category))
    } else {
        (false, dedup_key_text(f.title@))
    }
}

/// Discriminated key: stable id for located findings, normalized title otherwise.
pub enum DedupKey {
    Id(String),
    Title(String),
}

/// The key a finding is grouped by.
pub fn finding_key(f: &Finding) -> (r: DedupKey)
    ensures
        match r {
            DedupKey::Id(h) => finding_key_spec(*f) == (true, h@),
            DedupKey::Title(t) => finding_key_spec(*f) == (false, t@),
        },
{
    match (&f.file, f.line) {
        (Some(file), Some(line)) => {
            if file.as_str().unicode_len() > 0 && line > 0 {
                return DedupKey::Id(generate_finding_id(file.as_str(), line, f.category));
            }
        },
        _ => {},
    }
    DedupKey::Title(dedup_key(f.title.as_str()))
}

// ---------------------------------------------------------------------------
// Grouping
// ---------------------------------------------------------------------------

/// A group under construction: its key and its content so far.
pub struct GroupView {
    pub is_id: bool,
    pub key: Seq<char>,
    pub d: DedupView,
}

/// Every finding paired with the agent that reported it, agent by agent.
pub open spec fn agent_items(a: AgentOutput) -> Seq<(AgentName, Finding)> {
    a.findings@.map_values(|f: Finding| (a.agent, f))
}

pub open spec fn flat_items(agents: Seq<AgentOutput>) -> Seq<(AgentName, Finding)>
    decreases agents.len(),
{
    if agents.len() == 0 {
        Seq::<(AgentName, Finding)>::empty()
    } else {
        flat_items(agents.drop_last()) + agent_items(agents.last())
    }
}

/// The first group whose key is `k`, or -1.
pub open spec fn find_group(p: Seq<GroupView>, is_id: bool, key: Seq<char>) -> int
    decreases p.len(),
{
    if p.len() == 0 {
        -1
    } else if p[0].is_id == is_id && p[0].key == key {
        0
    } else {
        let r = find_group(p.drop_first(), is_id, key);
        if r < 0 {
            -1
        } else {
            r + 1
        }
    }
}

/// A new group opened by `f` from `agent`.
pub open spec fn fresh_group(agent: AgentName, f: Finding) -> GroupView {
    let k = finding_key_spec(f);
    GroupView {
        is_id: k.0,
        key: k.1,
        d: DedupView {
            severity: f.severity,
            title: f.title@,
            detail: f.detail@,
            sources: seq![agent],
            file: opt_view(f.file),
            line: f.line,
            category: f.category,
            id: if k.0 {
                Some(k.1)
            } else {
                None
            },
        },
    }
}

/// A duplicate joins its group: a strictly higher severity is promoted
/// together with its detail, and the agent is added to the sources.
pub open spec fn merge_into(g: GroupView, agent: AgentName, f: Finding) -> GroupView {
    let promoted = severity_rank(f.severity) > severity_rank(g.d.severity);
    GroupView {
        is_id: g.is_id,
        key: g.key,
        d: DedupView {
            severity: if promoted {
                f.severity
            } else {
                g.d.severity
            },
            detail: if promoted {
                f.detail@
            } else {
                g.d.detail
            },
            sources: g.d.sources.push(agent),
            ..g.d
        },
    }
}

pub open spec fn group_step(p: Seq<GroupView>, agent: AgentName, f: Finding) -> Seq<GroupView> {
    let k = finding_key_spec(f);
    let j = find_group(p, k.0, k.1);
    if j >= 0 {
        p.update(j, merge_into(p[j], agent, f))
    } else {
        p.push(fresh_group(agent, f))
    }
}

/// The groups, in first-seen order, that the findings fall into.
pub open spec fn group_items(items: Seq<(AgentName, Finding)>) -> Seq<GroupView>
    decreases items.len(),
{
    if items.len() == 0 {
        Seq::<GroupView>::empty()
    } else {
        group_step(group_items(items.drop_last()), items.last().0, items.last().1)
    }
}

/// The groups of one severity, in order.
pub open spec fn with_severity(gs: Seq<GroupView>, s: Severity) -> Seq<DedupView>
    decreases gs.len(),
{
    if gs.len() == 0 {
        Seq::<DedupView>::empty()
    } else if gs.last().d.severity == s {
        with_severity(gs.drop_last(), s).push(gs.last().d)
    } else {
        with_severity(gs.drop_last(), s)
    }
}

/// The deduplicated findings: grouped in first-seen order, then stably sorted
/// by severity, Critical first.
pub open spec fn dedup_spec(agents: Seq<AgentOutput>) -> Seq<DedupView> {
    let gs = group_items(flat_items(agents));
    with_severity(gs, Severity::Critical) + with_severity(gs, Severity::Warning) + with_severity(
        gs,
        Severity::Info,
    )
}

struct Group {
    is_id: bool,
    key: Vec<char>,
    finding: DedupFinding,
}

impl View for Group {
    type V = GroupView;

    closed spec fn view(&self) -> GroupView {
        GroupView { is_id: self.is_id, key: self.key@, d: self.finding@ }
    }
}

fn clone_opt_string(o: &Option<String>) -> (r: Option<String>)
    ensures
        opt_view(r) == opt_view(*o),
{
    match o {
        Some(s) => Some(s.clone()),
        None => None,
    }
}

fn copy_agents(v: &Vec<AgentName>) -> (r: Vec<AgentName>)
    ensures
        r@ == v@,
{
    let mut r: Vec<AgentName> = Vec::new();
    let mut i: usize = 0;
    while i < v.len()
        invariant
            i <= v.len(),
            r@ =~= v@.take(i as int),
        decreases v.len() - i,
    {
        r.push(v[i]);
        i = i + 1;
    }
    assert(v@.take(v.len() as int) =~= v@);
    r
}

fn copy_dedup(d: &DedupFinding) -> (r: DedupFinding)
    ensures
        r@ == d@,
{
    DedupFinding {
        severity: d.severity,
        title: d.title.clone(),
        detail: d.detail.clone(),
        sources: copy_agents(&d.sources),
        file: clone_opt_string(&d.file),
        line: d.line,
        category: d.category,
        id: clone_opt_string(&d.id),
    }
}

proof fn lemma_find_group_none(p: Seq<GroupView>, is_id: bool, key: Seq<char>)
    requires
        forall|i: int| 0 <= i < p.len() ==> !(#[trigger] p[i].is_id == is_id && p[i].key == key),
    ensures
        find_group(p, is_id, key) == -1,
    decreases p.len(),
{
    if p.len() > 0 {
        let t = p.drop_first();
        assert forall|i: int| 0 <= i < t.len() implies !(#[trigger] t[i].is_id == is_id && t[i].key
            == key) by {
            assert(t[i] == p[i + 1]);
        }
        lemma_find_group_none(t, is_id, key);
    }
}

proof fn lemma_find_group_at(p: Seq<GroupView>, is_id: bool, key: Seq<char>, j: int)
    requires
        0 <= j < p.len(),
        p[j].is_id == is_id && p[j].key == key,
        forall|i: int| 0 <= i < j ==> !(#[trigger] p[i].is_id == is_id && p[i].key == key),
    ensures
        find_group(p, is_id, key) == j,
    decreases j,
{
    if j > 0 {
        let t = p.drop_first();
        assert forall|i: int| 0 <= i < j - 1 implies !(#[trigger] t[i].is_id == is_id && t[i].key
            == key) by {
            assert(t[i] == p[i + 1]);
        }
        lemma_find_group_at(t, is_id, key, j - 1);
    }
}

/// Folds one finding into the groups.
fn add_finding(groups: &mut Vec<Group>, agent: AgentName, f: &Finding)
    ensures
        final(groups)@.map_values(|g: Group| g@) == group_step(
            old(groups)@.map_values(|g: Group| g@),
            agent,
            *f,
        ),
{
    let ghost before = old(groups)@.map_values(|g: Group| g@);
    let key = finding_key(f);
    let (is_id, key_chars, id) = match key {
        DedupKey::Id(h) => {
            let kc = chars_of(h.as_str());
            (true, kc, Some(h))
        },
        DedupKey::Title(t) => {
            let kc = chars_of(t.as_str());
            (false, kc, None)
        },
    };
    assert(finding_key_spec(*f) == (is_id, key_chars@));
    let mut j: usize = 0;
    while j < groups.len()
        invariant
            j <= groups.len(),
            groups@ == old(groups)@,
            before == old(groups)@.map_values(|g: Group| g@),
            forall|i: int|
                0 <= i < j ==> !(#[trigger] before[i].is_id == is_id && before[i].key
                    == key_chars@),
        ensures
            j < groups.len() ==> before[j as int].is_id == is_id && before[j as int].key
                == key_chars@,
        decreases groups.len() - j,
    {
        if groups[j].is_id == is_id && chars_eq(&groups[j].key, &key_chars) {
            assert(before[j as int] == groups@[j as int]@);
            break;
        }
        assert(before[j as int] == groups@[j as int]@);
        j = j + 1;
    }
    if j < groups.len() {
        assert(before[j as int] == groups@[j as int]@);
        proof {
            lemma_find_group_at(before, is_id, key_chars@, j as int);
        }
        let mut g = groups.remove(j);
        if f.severity.rank() > g.finding.severity.rank() {
            g.finding.severity = f.severity;
            g.finding.detail = f.detail.clone();
        }
        g.finding.sources.push(agent);
        groups.insert(j, g);
        assert(groups@.map_values(|g: Group| g@) =~= before.update(
            j as int,
            merge_into(before[j as int], agent, *f),
        ));
    } else {
        proof {
            lemma_find_group_none(before, is_id, key_chars@);
        }
        let d = DedupFinding {
            severity: f.severity,
            title: f.title.clone(),
            detail: f.detail.clone(),
            sources: vec![agent],
            file: clone_opt_string(&f.file),
            line: f.line,
            category: f.category,
            id,
        };
        assert(d.sources@ =~= seq![agent]);
        groups.push(Group { is_id, key: key_chars, finding: d });
        assert(groups@.map_values(|g: Group| g@) =~= before.push(fresh_group(agent, *f)));
    }
}

proof fn lemma_flat_items_step(agents: Seq<AgentOutput>, n: int)
    requires
        0 <= n < agents.len(),
    ensures
        flat_items(agents.take(n + 1)) == flat_items(agents.take(n)) + agent_items(agents[n]),
{
    let t = agents.take(n + 1);
    assert(t.drop_last() =~= agents.take(n));
}

impl ConsensusEngine {

/// Deduplicates findings across agents. Located findings (non-empty file and
/// positive line) are keyed by their stable id, the others by their cleaned,
/// normalized, case-folded title; the two kinds never share a group. Groups
/// keep first-seen order, then are stably sorted by severity, Critical first.
pub fn deduplicate_findings(&self, agents: &[AgentOutput]) -> (r: Vec<DedupFinding>)
    ensures
        r.len() == dedup_spec(agents@).len(),
        forall|k: int| 0 <= k < r.len() ==> (#[trigger] r@[k])@ == dedup_spec(agents@)[k],
        forall|k: int|
            #![trigger r@[k]]
            0 <= k < r.len() ==> exists|a: int, m: int|
                0 <= a < agents@.len() && 0 <= m < agents@[a].findings@.len() && finding_key_spec(
                    #[trigger] agents@[a].findings@[m],
                ) == output_key(r@[k]@) && agents@[a].findings@[m].severity == r@[k].severity,
{
    proof {
        law_deduplicated_severity_is_the_highest_reported(agents@);
    }
    let mut groups: Vec<Group> = Vec::new();
    let mut ai: usize = 0;
    assert(agents@.take(0) =~= Seq::<AgentOutput>::empty());
    assert(groups@.map_values(|g: Group| g@) =~= Seq::<GroupView>::empty());
    while ai < agents.len()
        invariant
            ai <= agents.len(),
            groups@.map_values(|g: Group| g@) == group_items(flat_items(agents@.take(ai as int))),
        decreases agents.len() - ai,
    {
        let a = &agents[ai];
        let ghost prefix = flat_items(agents@.take(ai as int));
        let mut fi: usize = 0;
        assert(prefix + agent_items(*a).take(0) =~= prefix);
        while fi < a.findings.len()
            invariant
                fi <= a.findings.len(),
                a == agents@[ai as int],
                groups@.map_values(|g: Group| g@) == group_items(
                    prefix + agent_items(*a).take(fi as int),
                ),
            decreases a.findings.len() - fi,
        {
            let ghost items = prefix + agent_items(*a).take(fi + 1);
            assert(items.drop_last() =~= prefix + agent_items(*a).take(fi as int));
            assert(items.last() == (a.agent, a.findings@[fi as int]));
            add_finding(&mut groups, a.agent, &a.findings[fi]);
            fi = fi + 1;
        }
        proof {
            lemma_flat_items_step(agents@, ai as int);
            assert(agent_items(*a).take(a.findings.len() as int) =~= agent_items(*a));
        }
        ai = ai + 1;
    }
    assert(agents@.take(agents.len() as int) =~= agents@);
    let ghost gs = groups@.map_values(|g: Group| g@);
    let mut out: Vec<DedupFinding> = Vec::new();
    let mut pass: usize = 0;
    while pass < 3
        invariant
            pass <= 3,
            gs == groups@.map_values(|g: Group| g@),
            gs == group_items(flat_items(agents@)),
            out.len() == (if pass == 0 {
                Seq::<DedupView>::empty()
            } else if pass == 1 {
                with_severity(gs, Severity::Critical)
            } else if pass == 2 {
                with_severity(gs, Severity::Critical) + with_severity(gs, Severity::Warning)
            } else {
                dedup_spec(agents@)
            }).len(),
            forall|k: int|
                0 <= k < out.len() ==> (#[trigger] out@[k])@ == (if pass == 0 {
                    Seq::<DedupView>::empty()
                } else if pass == 1 {
                    with_severity(gs, Severity::Critical)
                } else if pass == 2 {
                    with_severity(gs, Severity::Critical) + with_severity(gs, Severity::Warning)
                } else {
                    dedup_spec(agents@)
                })[k],
        decreases 3 - pass,
    {
        let sev = if pass == 0 {
            Severity::Critical
        } else if pass == 1 {
            Severity::Warning
        } else {
            Severity::Info
        };
        let ghost base = out@.map_values(|d: DedupFinding| d@);
        let ghost base_len = out.len();
        let mut i: usize = 0;
        assert(gs.take(0) =~= Seq::<GroupView>::empty());
        while i < groups.len()
            invariant
                i <= groups.len(),
                gs == groups@.map_values(|g: Group| g@),
                base_len <= out.len(),
                out.len() == base_len + with_severity(gs.take(i as int), sev).len(),
                forall|k: int| 0 <= k < base_len ==> (#[trigger] out@[k])@ == base[k],
                base.len() == base_len,
                forall|k: int|
                    base_len <= k < out.len() ==> (#[trigger] out@[k])@ == with_severity(
                        gs.take(i as int),
                        sev,
                    )[k - base_len],
            decreases groups.len() - i,
        {
            let ghost t = gs.take(i + 1);
            assert(t.drop_last() =~= gs.take(i as int));
            assert(t.last() == groups@[i as int]@);
            if groups[i].finding.severity == sev {
                let d = copy_dedup(&groups[i].finding);
                out.push(d);
            }
            i = i + 1;
        }
        assert(gs.take(groups.len() as int) =~= gs);
        pass = pass + 1;
    }
    out
}

}


// ---------------------------------------------------------------------------
// Votes, majority, dissent, conditions
// ---------------------------------------------------------------------------

impl View for Dissent {
    type V = (AgentName, Seq<char>, Seq<char>);

    open spec fn view(&self) -> (AgentName, Seq<char>, Seq<char>) {
        (self.agent, self.summary@, self.reasoning@)
    }
}

impl View for Condition {
    type V = (AgentName, Seq<char>);

    open spec fn view(&self) -> (AgentName, Seq<char>) {
        (self.agent, self.condition@)
    }
}

/// How many agents count on the approving side.
pub open spec fn count_approving(s: Seq<AgentOutput>) -> nat
    decreases s.len(),
{
    if s.len() == 0 {
        0
    } else {
        count_approving(s.drop_last()) + (if effective_verdict(s.last().verdict)
            == Verdict::Approve {
            1nat
        } else {
            0nat
        })
    }
}

/// On a tie, the side of the lowest-ranked agent wins: approving wins when
/// some approving agent ranks below every rejecting one.
pub open spec fn tie_goes_to_approve(s: Seq<AgentOutput>) -> bool {
    exists|i: int|
        0 <= i < s.len() && effective_verdict(#[trigger] s[i].verdict) == Verdict::Approve && (
        forall|j: int|
            0 <= j < s.len() && effective_verdict(#[trigger] s[j].verdict) == Verdict::Reject
                ==> agent_rank(s[i].agent) < agent_rank(s[j].agent))
}

/// The majority side: more approving than rejecting agents approves, fewer
/// rejects, a tie goes to the side of the lowest-ranked agent.
pub open spec fn majority_spec(s: Seq<AgentOutput>) -> Verdict {
    let a = count_approving(s);
    let r = s.len() - a;
    if a > r {
        Verdict::Approve
    } else if a < r {
        Verdict::Reject
    } else if tie_goes_to_approve(s) {
        Verdict::Approve
    } else {
        Verdict::Reject
    }
}

/// Whether the agent at `i` approves and every agent ranked at or below it
/// approves too: the lowest-ranked agent is on the approving side.
pub open spec fn lowest_ranked_approves(s: Seq<AgentOutput>, i: int) -> bool {
    &&& 0 <= i < s.len()
    &&& effective_verdict(s[i].verdict) == Verdict::Approve
    &&& forall|j: int|
        0 <= j < s.len() && agent_rank(#[trigger] s[j].agent) <= agent_rank(s[i].agent)
            ==> effective_verdict(s[j].verdict) == Verdict::Approve
}

proof fn lemma_tie_by_rank(s: Seq<AgentOutput>)
    ensures
        tie_goes_to_approve(s) <==> exists|i: int| #[trigger] lowest_ranked_approves(s, i),
{
    if tie_goes_to_approve(s) {
        let i = choose|i: int|
            0 <= i < s.len() && effective_verdict(#[trigger] s[i].verdict) == Verdict::Approve && (
            forall|j: int|
                0 <= j < s.len() && effective_verdict(#[trigger] s[j].verdict) == Verdict::Reject
                    ==> agent_rank(s[i].agent) < agent_rank(s[j].agent));
        assert forall|j: int|
            0 <= j < s.len() && agent_rank(#[trigger] s[j].agent) <= agent_rank(s[i].agent)
                implies effective_verdict(s[j].verdict) == Verdict::Approve by {
            if effective_verdict(s[j].verdict) != Verdict::Approve {
                assert(effective_verdict(s[j].verdict) == Verdict::Reject);
            }
        }
        assert(lowest_ranked_approves(s, i));
    }
    if exists|i: int| #[trigger] lowest_ranked_approves(s, i) {
        let i = choose|i: int| #[trigger] lowest_ranked_approves(s, i);
        assert forall|j: int|
            0 <= j < s.len() && effective_verdict(#[trigger] s[j].verdict) == Verdict::Reject
                implies agent_rank(s[i].agent) < agent_rank(s[j].agent) by {
            if agent_rank(s[j].agent) <= agent_rank(s[i].agent) {
                assert(effective_verdict(s[j].verdict) == Verdict::Approve);
            }
        }
        assert(effective_verdict(s[i].verdict) == Verdict::Approve);
    }
}

/// A tie is broken by rank: when as many agents approve as reject, the
/// majority approves exactly when some approving agent has no rejecting
/// agent at or below its rank, i.e. the lowest-ranked approving agent ranks
/// below the lowest-ranked rejecting one.
pub proof fn law_tie_goes_to_the_lowest_ranked_side(s: Seq<AgentOutput>)
    requires
        s.len() > 0,
        count_approving(s) * 2 == s.len(),
    ensures
        majority_spec(s) == Verdict::Approve <==> exists|i: int| #[trigger]
            lowest_ranked_approves(s, i),
{
    lemma_tie_by_rank(s);
    let a = count_approving(s);
    assert(!(a > s.len() - a) && !(a < s.len() - a));
}

/// The agents off the majority side, in order.
pub open spec fn dissent_spec(s: Seq<AgentOutput>, majority: Verdict) -> Seq<
    (AgentName, Seq<char>, Seq<char>),
>
    decreases s.len(),
{
    if s.len() == 0 {
        Seq::empty()
    } else if effective_verdict(s.last().verdict) != majority {
        dissent_spec(s.drop_last(), majority).push(
            (s.last().agent, s.last().summary@, s.last().reasoning@),
        )
    } else {
        dissent_spec(s.drop_last(), majority)
    }
}

/// The conditions of the Conditional agents, in order.
pub open spec fn conditions_spec(s: Seq<AgentOutput>) -> Seq<(AgentName, Seq<char>)>
    decreases s.len(),
{
    if s.len() == 0 {
        Seq::empty()
    } else if s.last().verdict == Verdict::Conditional {
        conditions_spec(s.drop_last()).push((s.last().agent, s.last().summary@))
    } else {
        conditions_spec(s.drop_last())
    }
}

/// `"Name: summary"` for each majority-side agent, in order.
pub open spec fn summary_parts(s: Seq<AgentOutput>, majority: Verdict) -> Seq<Seq<char>>
    decreases s.len(),
{
    if s.len() == 0 {
        Seq::empty()
    } else if effective_verdict(s.last().verdict) == majority {
        summary_parts(s.drop_last(), majority).push(
            agent_display(s.last().agent) + ": "@ + s.last().summary@,
        )
    } else {
        summary_parts(s.drop_last(), majority)
    }
}

/// The index of the first agent whose name already appeared earlier, or -1.
pub open spec fn first_duplicate(s: Seq<AgentOutput>) -> int
    decreases s.len(),
{
    if s.len() == 0 {
        -1
    } else if first_duplicate(s.drop_last()) >= 0 {
        first_duplicate(s.drop_last())
    } else if repeats_earlier(s, s.len() - 1) {
        s.len() - 1
    } else {
        -1
    }
}

/// Whether the agent at `i` repeats a name seen before it.
pub open spec fn repeats_earlier(s: Seq<AgentOutput>, i: int) -> bool {
    exists|j: int| 0 <= j < i && s[j].agent == #[trigger] s[i].agent
}

proof fn lemma_first_duplicate_prefix(s: Seq<AgentOutput>, m: int)
    requires
        0 <= m <= s.len(),
        first_duplicate(s.take(m)) >= 0,
    ensures
        first_duplicate(s) == first_duplicate(s.take(m)),
    decreases s.len() - m,
{
    if m < s.len() {
        let t = s.take(m + 1);
        assert(t.drop_last() =~= s.take(m));
        lemma_first_duplicate_prefix(s, m + 1);
    } else {
        assert(s.take(m) =~= s);
    }
}

/// The index of the first agent whose name already appeared earlier.
fn find_duplicate(agents: &[AgentOutput]) -> (r: Option<usize>)
    ensures
        r matches Some(i) ==> i as int == first_duplicate(agents@) && 0 <= i < agents@.len(),
        r is None ==> first_duplicate(agents@) < 0,
{
    let ghost s = agents@;
    let n = agents.len();
    let mut i: usize = 0;
    assert(s.take(0).len() == 0);
    while i < n
        invariant
            i <= n == s.len(),
            s == agents@,
            first_duplicate(s.take(i as int)) < 0,
        decreases n - i,
    {
        let ghost t = s.take(i + 1);
        assert(t.drop_last() =~= s.take(i as int));
        let mut j: usize = 0;
        while j < i
            invariant
                j <= i < n == s.len(),
                s == agents@,
                t == s.take(i + 1),
                t.drop_last() == s.take(i as int),
                first_duplicate(s.take(i as int)) < 0,
                forall|j2: int| 0 <= j2 < j ==> s[j2].agent != s[i as int].agent,
            decreases i - j,
        {
            if agents[j].agent == agents[i].agent {
                proof {
                    assert(t[j as int].agent == t[i as int].agent);
                    assert(repeats_earlier(t, i as int));
                    assert(first_duplicate(t) == i);
                    lemma_first_duplicate_prefix(s, i + 1);
                }
                return Some(i);
            }
            j = j + 1;
        }
        proof {
            if repeats_earlier(t, i as int) {
                let j3 = choose|j: int| 0 <= j < i && t[j].agent == #[trigger] t[i as int].agent;
                assert(s[j3].agent != s[i as int].agent);
            }
        }
        i = i + 1;
    }
    assert(s.take(n as int) =~= s);
    None
}

/// The side counts, whether any agent was Conditional, and the majority.
fn count_sides(agents: &[AgentOutput]) -> (r: (usize, bool, Verdict))
    ensures
        r.0 as nat == count_approving(agents@),
        r.0 <= agents@.len(),
        r.1 == (exists|i: int| 0 <= i < agents@.len() && #[trigger] agents@[i].verdict == Verdict::Conditional),
        r.2 == majority_spec(agents@),
{
    let ghost s = agents@;
    let n = agents.len();
    let mut approve: usize = 0;
    let mut has_conditional = false;
    let mut min_a: Option<(u8, usize)> = None;
    let mut min_r: Option<(u8, usize)> = None;
    let mut k: usize = 0;
    while k < n
        invariant
            k <= n == s.len(),
            s == agents@,
            approve as nat == count_approving(s.take(k as int)),
            approve <= k,
            has_conditional == (exists|i: int|
                0 <= i < k && #[trigger] s[i].verdict == Verdict::Conditional),
            match min_a {
                None => forall|i: int|
                    0 <= i < k ==> effective_verdict(#[trigger] s[i].verdict) != Verdict::Approve,
                Some((ra, ia)) => 0 <= ia < k && effective_verdict(s[ia as int].verdict)
                    == Verdict::Approve && ra as int == agent_rank(s[ia as int].agent) && forall|
                    i: int,
                |
                    0 <= i < k && effective_verdict(#[trigger] s[i].verdict) == Verdict::Approve
                        ==> ra as int <= agent_rank(s[i].agent),
            },
            match min_r {
                None => forall|i: int|
                    0 <= i < k ==> effective_verdict(#[trigger] s[i].verdict) != Verdict::Reject,
                Some((rr, ir)) => 0 <= ir < k && effective_verdict(s[ir as int].verdict)
                    == Verdict::Reject && rr as int == agent_rank(s[ir as int].agent) && forall|
                    i: int,
                |
                    0 <= i < k && effective_verdict(#[trigger] s[i].verdict) == Verdict::Reject
                        ==> rr as int <= agent_rank(s[i].agent),
            },
        decreases n - k,
    {
        let ghost t = s.take(k + 1);
        assert(t.drop_last() =~= s.take(k as int));
        let a = &agents[k];
        let rank = a.agent.rank();
        if a.verdict == Verdict::Conditional {
            has_conditional = true;
        }
        if a.verdict.effective() == Verdict::Approve {
            approve = approve + 1;
            min_a = match min_a {
                Some((ra, ia)) => if rank < ra {
                    Some((rank, k))
                } else {
                    Some((ra, ia))
                },
                None => Some((rank, k)),
            };
        } else {
            min_r = match min_r {
                Some((rr, ir)) => if rank < rr {
                    Some((rank, k))
                } else {
                    Some((rr, ir))
                },
                None => Some((rank, k)),
            };
        }
        k = k + 1;
    }
    assert(s.take(n as int) =~= s);
    let reject = n - approve;
    let majority = if approve > reject {
        Verdict::Approve
    } else if approve < reject {
        Verdict::Reject
    } else {
        match (min_a, min_r) {
            (Some((ra, ia)), Some((rr, _))) => {
                if ra < rr {
                    assert(tie_goes_to_approve(s)) by {
                        assert(effective_verdict(s[ia as int].verdict) == Verdict::Approve);
                    }
                    Verdict::Approve
                } else {
                    assert(!tie_goes_to_approve(s));
                    Verdict::Reject
                }
            },
            (Some((_, ia)), None) => {
                assert(tie_goes_to_approve(s)) by {
                    assert(effective_verdict(s[ia as int].verdict) == Verdict::Approve);
                }
                Verdict::Approve
            },
            _ => {
                assert(!tie_goes_to_approve(s));
                Verdict::Reject
            },
        }
    };
    (approve, has_conditional, majority)
}

/// Votes and recommendations, in input order.
fn collect_votes(agents: &[AgentOutput]) -> (r: (Vec<(AgentName, Verdict)>, Vec<(AgentName, String)>))
    ensures
        r.0@ == agents@.map_values(|a: AgentOutput| (a.agent, a.verdict)),
        r.1@.map_values(|p: (AgentName, String)| (p.0, p.1@)) == agents@.map_values(
            |a: AgentOutput| (a.agent, a.recommendation@),
        ),
{
    let ghost s = agents@;
    let mut votes: Vec<(AgentName, Verdict)> = Vec::new();
    let mut recs: Vec<(AgentName, String)> = Vec::new();
    let mut q: usize = 0;
    while q < agents.len()
        invariant
            q <= agents.len() == s.len(),
            s == agents@,
            votes@ =~= s.take(q as int).map_values(|a: AgentOutput| (a.agent, a.verdict)),
            recs@.map_values(|p: (AgentName, String)| (p.0, p.1@)) =~= s.take(q as int).map_values(
                |a: AgentOutput| (a.agent, a.recommendation@),
            ),
        decreases agents.len() - q,
    {
        let a = &agents[q];
        votes.push((a.agent, a.verdict));
        let rec = a.recommendation.clone();
        let ghost before = recs@;
        let ghost rv = rec@;
        recs.push((a.agent, rec));
        proof {
            let f = |p: (AgentName, String)| (p.0, p.1@);
            let g = |a: AgentOutput| (a.agent, a.recommendation@);
            assert(recs@.map_values(f) =~= before.map_values(f).push((a.agent, rv)));
            assert(s.take(q + 1).map_values(g) =~= s.take(q as int).map_values(g).push(
                (a.agent, a.recommendation@),
            ));
        }
        q = q + 1;
    }
    assert(s.take(agents.len() as int) =~= s);
    (votes, recs)
}

/// Dissent, conditions and the majority summary.
fn collect_sides(agents: &[AgentOutput], majority: Verdict) -> (r: (Vec<Dissent>, Vec<Condition>, String))
    ensures
        r.0@.map_values(|d: Dissent| d@) == dissent_spec(agents@, majority),
        r.1@.map_values(|c: Condition| c@) == conditions_spec(agents@),
        r.2@ == join_spec(summary_parts(agents@, majority), " | "@),
{
    let ghost s = agents@;
    let n = agents.len();
    let mut dissent: Vec<Dissent> = Vec::new();
    let mut conditions: Vec<Condition> = Vec::new();
    let mut summary: Vec<char> = Vec::new();
    let mut wrote = false;
    let mut q: usize = 0;
    while q < n
        invariant
            q <= n == s.len(),
            s == agents@,
            dissent@.map_values(|d: Dissent| d@) =~= dissent_spec(s.take(q as int), majority),
            conditions@.map_values(|c: Condition| c@) =~= conditions_spec(s.take(q as int)),
            summary@ == join_spec(summary_parts(s.take(q as int), majority), " | "@),
            wrote == (summary_parts(s.take(q as int), majority).len() > 0),
        decreases n - q,
    {
        let ghost t = s.take(q + 1);
        assert(t.drop_last() =~= s.take(q as int));
        let a = &agents[q];
        if a.verdict.effective() != majority {
            dissent.push(
                Dissent { agent: a.agent, summary: a.summary.clone(), reasoning: a.reasoning.clone() },
            );
        } else {
            let ghost prev = summary_parts(s.take(q as int), majority);
            if wrote {
                push_str(&mut summary, " | ");
            }
            wrote = true;
            push_str(&mut summary, a.agent.display_name());
            push_str(&mut summary, ": ");
            push_str(&mut summary, a.summary.as_str());
            proof {
                let part = agent_display(a.agent) + ": "@ + a.summary@;
                let np = prev.push(part);
                assert(summary_parts(t, majority) == np);
                assert(np.drop_last() =~= prev);
                if prev.len() == 0 {
                    assert(join_spec(np, " | "@) == part);
                    assert(summary@ =~= part);
                } else {
                    assert(summary@ =~= join_spec(prev, " | "@) + " | "@ + part);
                }
            }
        }
        if a.verdict == Verdict::Conditional {
            conditions.push(Condition { agent: a.agent, condition: a.summary.clone() });
        }
        q = q + 1;
    }
    assert(s.take(n as int) =~= s);
    (dissent, conditions, string_of(&summary))
}

/// Everything consensus decides without the floating-point score.
pub struct Tally {
    /// Agents on the approving side (Approve or Conditional).
    pub approve_count: usize,
    /// Agents on the rejecting side.
    pub reject_count: usize,
    /// Whether any agent returned Conditional.
    pub has_conditional: bool,
    /// The majority side.
    pub majority: Verdict,
    /// Each agent's verdict, in input order.
    pub votes: Vec<(AgentName, Verdict)>,
    /// `"Name: summary"` of the majority side, joined with `" | "`.
    pub majority_summary: String,
    /// The agents off the majority side.
    pub dissent: Vec<Dissent>,
    /// The conditions set by Conditional agents.
    pub conditions: Vec<Condition>,
    /// Each agent's recommendation, in input order.
    pub recommendations: Vec<(AgentName, String)>,
    /// Deduplicated findings, Critical first.
    pub findings: Vec<DedupFinding>,
}

/// Stateless consensus engine.
pub struct ConsensusEngine {
    min_agents: usize,
}

impl ConsensusEngine {
    /// The quorum this engine requires.
    pub closed spec fn required(&self) -> usize {
        self.min_agents
    }

    /// An engine requiring `min_agents` outputs; zero is raised to one.
    pub fn new(min_agents: usize) -> (e: Self)
        ensures
            e.required() == if min_agents == 0 {
                1
            } else {
                min_agents
            },
    {
        ConsensusEngine { min_agents: if min_agents == 0 { 1 } else { min_agents } }
    }

    /// The minimum number of agents required.
    pub fn min_agents(&self) -> (n: usize)
        ensures
            n == self.required(),
    {
        self.min_agents
    }

    /// Counts the votes and derives everything that does not need the score.
    ///
    /// # Errors
    /// - `InsufficientAgents` when fewer than the required outputs are given;
    /// - `Validation("duplicate agent name: <Name>")` for the first agent
    ///   whose name already appeared.
    pub fn tally(&self, agents: &[AgentOutput]) -> (r: Result<Tally, MagiError>)
        ensures
            agents@.len() < self.required() ==> (r matches Err(
                MagiError::InsufficientAgents { succeeded, required },
            ) && succeeded == agents@.len() && required == self.required()),
            agents@.len() >= self.required() && first_duplicate(agents@) >= 0 ==> (r matches Err(
                MagiError::Validation(m),
            ) && m@ == "duplicate agent name: "@ + agent_display(
                agents@[first_duplicate(agents@)].agent,
            )),
            agents@.len() >= self.required() && first_duplicate(agents@) < 0 ==> (r matches Ok(t)
                && t.approve_count == count_approving(agents@) && t.reject_count == agents@.len()
                - count_approving(agents@) && t.has_conditional == has_conditional_spec(agents@)
                && t.majority == majority_spec(agents@) && t.votes@ == votes_spec(agents@)
                && t.majority_summary@ == join_spec(summary_parts(agents@, t.majority), " | "@)
                && t.dissent@.map_values(|d: Dissent| d@) == dissent_spec(agents@, t.majority)
                && t.conditions@.map_values(|c: Condition| c@) == conditions_spec(agents@)
                && t.recommendations@.map_values(|p: (AgentName, String)| (p.0, p.1@))
                == recommendations_spec(agents@)
                && t.findings.len() == dedup_spec(agents@).len() && (forall|k: int|
                0 <= k < t.findings.len() ==> (#[trigger] t.findings@[k])@ == dedup_spec(
                    agents@,
                )[k])),
            agents@.len() >= self.required() && first_duplicate(agents@) < 0 && count_approving(
                agents@,
            ) * 2 == agents@.len() ==> (r matches Ok(t) && (t.majority == Verdict::Approve
                <==> exists|i: int| #[trigger] lowest_ranked_approves(agents@, i))),
    {
        let n = agents.len();
        if n < self.min_agents {
            return Err(MagiError::InsufficientAgents { succeeded: n, required: self.min_agents });
        }
        match find_duplicate(agents) {
            Some(i) => {
                let mut m: Vec<char> = Vec::new();
                push_str(&mut m, "duplicate agent name: ");
                push_str(&mut m, agents[i].agent.display_name());
                return Err(MagiError::Validation(string_of(&m)));
            },
            None => {},
        }
        let (approve, has_conditional, majority) = count_sides(agents);
        proof {
            if count_approving(agents@) * 2 == agents@.len() && agents@.len() > 0 {
                law_tie_goes_to_the_lowest_ranked_side(agents@);
            }
        }
        let (votes, recommendations) = collect_votes(agents);
        let (dissent, conditions, majority_summary) = collect_sides(agents, majority);
        let findings = self.deduplicate_findings(agents);
        Ok(
            Tally {
                approve_count: approve,
                reject_count: n - approve,
                has_conditional,
                majority,
                votes,
                majority_summary,
                dissent,
                conditions,
                recommendations,
                findings,
            },
        )
    }
}

impl Default for ConsensusEngine {
    fn default() -> (e: Self)
        ensures
            e.required() == 2,
    {
        ConsensusEngine::new(2)
    }
}


// ---------------------------------------------------------------------------
// Labels
// ---------------------------------------------------------------------------

/// Where the weighted score falls, as decided against the configured
/// tolerance: at +1, at -1, above zero, at zero, or below zero.
#[derive(Debug, Clone, Copy, PartialEq, Eq, Structural)]
pub enum ScoreClass {
    StrongGo,
    StrongNoGo,
    Positive,
    Tie,
    Negative,
}

/// `"(a-b)"` with both counts.
pub open spec fn count_pair(a: nat, b: nat) -> Seq<char> {
    "("@ + crate::text::dec_text(a) + "-"@ + crate::text::dec_text(b) + ")"@
}

/// The consensus label and verdict for a score class, before the cap for a
/// degraded run.
pub open spec fn classify_spec(
    class: ScoreClass,
    approve: nat,
    reject: nat,
    has_conditional: bool,
) -> (Seq<char>, Verdict) {
    match class {
        ScoreClass::StrongGo => ("STRONG GO"@, Verdict::Approve),
        ScoreClass::StrongNoGo => ("STRONG NO-GO"@, Verdict::Reject),
        ScoreClass::Positive => if has_conditional {
            ("GO WITH CAVEATS "@ + count_pair(approve, reject), Verdict::Approve)
        } else {
            ("GO "@ + count_pair(approve, reject), Verdict::Approve)
        },
        ScoreClass::Tie => ("HOLD -- TIE"@, Verdict::Reject),
        ScoreClass::Negative => ("HOLD "@ + count_pair(reject, approve), Verdict::Reject),
    }
}

/// The label after the degraded-run cap: with fewer than three agents a
/// unanimous result is never called strong.
pub open spec fn label_spec(
    class: ScoreClass,
    approve: nat,
    reject: nat,
    has_conditional: bool,
    agent_count: nat,
) -> (Seq<char>, Verdict) {
    let (label, verdict) = classify_spec(class, approve, reject, has_conditional);
    if agent_count < 3 && class == ScoreClass::StrongGo {
        ("GO "@ + count_pair(agent_count, 0), verdict)
    } else if agent_count < 3 && class == ScoreClass::StrongNoGo {
        ("HOLD "@ + count_pair(agent_count, 0), verdict)
    } else {
        (label, verdict)
    }
}

fn push_count_pair(out: &mut Vec<char>, a: usize, b: usize)
    ensures
        final(out)@ == old(out)@ + count_pair(a as nat, b as nat),
{
    push_str(out, "(");
    push_decimal(out, a as u64);
    push_str(out, "-");
    push_decimal(out, b as u64);
    push_str(out, ")");
    assert(final(out)@ =~= old(out)@ + count_pair(a as nat, b as nat));
}

/// The consensus label and verdict for a score class, with the degraded-run
/// cap applied (`"GO (n-0)"` / `"HOLD (n-0)"` in place of a strong label when
/// fewer than three agents contributed).
pub fn consensus_label(
    class: ScoreClass,
    approve_count: usize,
    reject_count: usize,
    has_conditional: bool,
    agent_count: usize,
) -> (r: (String, Verdict))
    ensures
        (r.0@, r.1) == label_spec(
            class,
            approve_count as nat,
            reject_count as nat,
            has_conditional,
            agent_count as nat,
        ),
{
    let mut out: Vec<char> = Vec::new();
    let verdict = match class {
        ScoreClass::StrongGo => {
            if agent_count < 3 {
                push_str(&mut out, "GO ");
                push_count_pair(&mut out, agent_count, 0);
            } else {
                push_str(&mut out, "STRONG GO");
            }
            Verdict::Approve
        },
        ScoreClass::StrongNoGo => {
            if agent_count < 3 {
                push_str(&mut out, "HOLD ");
                push_count_pair(&mut out, agent_count, 0);
            } else {
                push_str(&mut out, "STRONG NO-GO");
            }
            Verdict::Reject
        },
        ScoreClass::Positive => {
            if has_conditional {
                push_str(&mut out, "GO WITH CAVEATS ");
            } else {
                push_str(&mut out, "GO ");
            }
            push_count_pair(&mut out, approve_count, reject_count);
            Verdict::Approve
        },
        ScoreClass::Tie => {
            push_str(&mut out, "HOLD -- TIE");
            Verdict::Reject
        },
        ScoreClass::Negative => {
            push_str(&mut out, "HOLD ");
            push_count_pair(&mut out, reject_count, approve_count);
            Verdict::Reject
        },
    };
    assert((out@, verdict) == label_spec(
        class,
        approve_count as nat,
        reject_count as nat,
        has_conditional,
        agent_count as nat,
    ));
    (string_of(&out), verdict)
}

// ---------------------------------------------------------------------------
// Laws
// ---------------------------------------------------------------------------

/// The label's verdict approves exactly for a score above zero.
pub proof fn law_label_verdict_follows_score(
    class: ScoreClass,
    approve: nat,
    reject: nat,
    has_conditional: bool,
    agent_count: nat,
)
    ensures
        (label_spec(class, approve, reject, has_conditional, agent_count).1 == Verdict::Approve)
            <==> (class == ScoreClass::StrongGo || class == ScoreClass::Positive),
{
}

/// A run with fewer than three agents is never labelled strong.
pub proof fn law_degraded_run_is_never_strong(
    class: ScoreClass,
    approve: nat,
    reject: nat,
    has_conditional: bool,
    agent_count: nat,
)
    requires
        agent_count < 3,
    ensures
        label_spec(class, approve, reject, has_conditional, agent_count).0 != "STRONG GO"@,
        label_spec(class, approve, reject, has_conditional, agent_count).0 != "STRONG NO-GO"@,
{
    reveal_strlit("STRONG GO");
    reveal_strlit("STRONG NO-GO");
    reveal_strlit("GO ");
    reveal_strlit("HOLD ");
    reveal_strlit("GO WITH CAVEATS ");
    reveal_strlit("HOLD -- TIE");
    let l = label_spec(class, approve, reject, has_conditional, agent_count).0;
    if class == ScoreClass::StrongGo {
        assert(l[0] == 'G' && l[1] == 'O' && l[2] == ' ');
        assert(l[1] != "STRONG GO"@[1]);
        assert(l.len() >= 3);
        assert(l[0] != "STRONG NO-GO"@[0]);
    } else if class == ScoreClass::StrongNoGo {
        assert(l[0] == 'H');
        assert(l[0] != "STRONG GO"@[0]);
        assert(l[0] != "STRONG NO-GO"@[0]);
    } else if class == ScoreClass::Positive {
        assert(l[0] == 'G' && l[1] == 'O' && l[2] == ' ');
        assert(l[1] != "STRONG GO"@[1]);
        assert(l[0] != "STRONG NO-GO"@[0]);
    } else {
        assert(l[0] == 'H');
        assert(l[0] != "STRONG GO"@[0]);
        assert(l[0] != "STRONG NO-GO"@[0]);
    }
}

proof fn lemma_dissent_len(s: Seq<AgentOutput>, majority: Verdict)
    ensures
        majority == Verdict::Approve ==> dissent_spec(s, majority).len() == s.len()
            - count_approving(s),
        majority == Verdict::Reject ==> dissent_spec(s, majority).len() == count_approving(s),
        count_approving(s) <= s.len(),
    decreases s.len(),
{
    if s.len() > 0 {
        lemma_dissent_len(s.drop_last(), majority);
    }
}

/// The dissenting agents are never more than half of the run: the majority
/// side is at least as large as the other.
pub proof fn law_dissent_is_a_minority(s: Seq<AgentOutput>)
    ensures
        2 * dissent_spec(s, majority_spec(s)).len() <= s.len(),
{
    lemma_dissent_len(s, Verdict::Approve);
    lemma_dissent_len(s, Verdict::Reject);
}

/// A unanimous approving run has no dissent and approves.
pub proof fn law_unanimous_approval(s: Seq<AgentOutput>)
    requires
        s.len() > 0,
        forall|i: int| 0 <= i < s.len() ==> effective_verdict(#[trigger] s[i].verdict)
            == Verdict::Approve,
    ensures
        majority_spec(s) == Verdict::Approve,
        dissent_spec(s, Verdict::Approve).len() == 0,
    decreases s.len(),
{
    lemma_dissent_len(s, Verdict::Approve);
    lemma_all_approving(s);
}

proof fn lemma_all_approving(s: Seq<AgentOutput>)
    requires
        forall|i: int| 0 <= i < s.len() ==> effective_verdict(#[trigger] s[i].verdict)
            == Verdict::Approve,
    ensures
        count_approving(s) == s.len(),
    decreases s.len(),
{
    if s.len() > 0 {
        let d = s.drop_last();
        assert forall|i: int| 0 <= i < d.len() implies effective_verdict(#[trigger] d[i].verdict)
            == Verdict::Approve by {
            assert(d[i] == s[i]);
        }
        lemma_all_approving(d);
        assert(effective_verdict(s[s.len() - 1].verdict) == Verdict::Approve);
    }
}


// ---------------------------------------------------------------------------
// Laws of deduplication
// ---------------------------------------------------------------------------

/// The key a deduplicated finding was grouped under: its stable id when it
/// has one, else the dedup key of its (first-seen) title.
pub open spec fn output_key(d: DedupView) -> (bool, Seq<char>) {
    match d.id {
        Some(h) => (true, h),
        None => (false, dedup_key_text(d.title)),
    }
}

/// No two groups share a key.
pub open spec fn keys_distinct(gs: Seq<GroupView>) -> bool {
    forall|i: int, j: int|
        0 <= i < j < gs.len() ==> !(#[trigger] gs[i].is_id == #[trigger] gs[j].is_id && gs[i].key
            == gs[j].key)
}

/// A group's key is the one its content reports, and it credits an agent.
pub open spec fn group_wf(g: GroupView) -> bool {
    &&& (g.is_id, g.key) == output_key(g.d)
    &&& g.d.sources.len() >= 1
}

proof fn lemma_find_group(p: Seq<GroupView>, is_id: bool, key: Seq<char>)
    ensures
        -1 <= find_group(p, is_id, key) < p.len(),
        find_group(p, is_id, key) >= 0 ==> p[find_group(p, is_id, key)].is_id == is_id && p[find_group(
            p,
            is_id,
            key,
        )].key == key,
        find_group(p, is_id, key) < 0 ==> forall|i: int|
            0 <= i < p.len() ==> !(#[trigger] p[i].is_id == is_id && p[i].key == key),
    decreases p.len(),
{
    if p.len() > 0 {
        let q = p.drop_first();
        lemma_find_group(q, is_id, key);
        assert forall|i: int| 0 < i < p.len() implies #[trigger] p[i] == q[i - 1] by {}
        if find_group(p, is_id, key) < 0 {
            assert forall|i: int| 0 <= i < p.len() implies !(#[trigger] p[i].is_id == is_id
                && p[i].key == key) by {
                if i > 0 {
                    assert(p[i] == q[i - 1]);
                }
            }
        }
    }
}

proof fn lemma_group_items(items: Seq<(AgentName, Finding)>)
    ensures
        keys_distinct(group_items(items)),
        forall|k: int|
            0 <= k < group_items(items).len() ==> group_wf(#[trigger] group_items(items)[k]),
    decreases items.len(),
{
    if items.len() > 0 {
        let p = group_items(items.drop_last());
        lemma_group_items(items.drop_last());
        let agent = items.last().0;
        let f = items.last().1;
        let k = finding_key_spec(f);
        lemma_find_group(p, k.0, k.1);
        let j = find_group(p, k.0, k.1);
        let g = group_items(items);
        assert(g == group_step(p, agent, f));
        if j >= 0 {
            assert(g == p.update(j, merge_into(p[j], agent, f)));
            assert forall|a: int, b: int| 0 <= a < b < g.len() implies !(#[trigger] g[a].is_id
                == #[trigger] g[b].is_id && g[a].key == g[b].key) by {
                assert(g[a].is_id == p[a].is_id && g[a].key == p[a].key);
                assert(g[b].is_id == p[b].is_id && g[b].key == p[b].key);
            }
            assert forall|m: int| 0 <= m < g.len() implies group_wf(#[trigger] g[m]) by {
                assert(group_wf(p[m]));
            }
        } else {
            assert(g == p.push(fresh_group(agent, f)));
            assert forall|a: int, b: int| 0 <= a < b < g.len() implies !(#[trigger] g[a].is_id
                == #[trigger] g[b].is_id && g[a].key == g[b].key) by {
                if b == p.len() {
                    assert(g[a] == p[a]);
                } else {
                    assert(g[a] == p[a] && g[b] == p[b]);
                }
            }
            assert forall|m: int| 0 <= m < g.len() implies group_wf(#[trigger] g[m]) by {
                if m < p.len() {
                    assert(g[m] == p[m]);
                }
            }
        }
    }
}

/// Where the `k`-th group of severity `s` sits among all the groups.
pub open spec fn ws_index(gs: Seq<GroupView>, s: Severity, k: int) -> int
    decreases gs.len(),
{
    if gs.len() == 0 {
        0
    } else if gs.last().d.severity == s && k == with_severity(gs.drop_last(), s).len() {
        gs.len() - 1
    } else {
        ws_index(gs.drop_last(), s, k)
    }
}

proof fn lemma_with_severity(gs: Seq<GroupView>, s: Severity)
    ensures
        with_severity(gs, s).len() <= gs.len(),
        forall|k: int|
            0 <= k < with_severity(gs, s).len() ==> 0 <= #[trigger] ws_index(gs, s, k) < gs.len()
                && with_severity(gs, s)[k] == gs[ws_index(gs, s, k)].d && gs[ws_index(
                gs,
                s,
                k,
            )].d.severity == s,
        forall|k1: int, k2: int|
            0 <= k1 < k2 < with_severity(gs, s).len() ==> #[trigger] ws_index(gs, s, k1)
                < #[trigger] ws_index(gs, s, k2),
        forall|m: int|
            0 <= m < gs.len() && (#[trigger] gs[m]).d.severity == s ==> exists|k: int|
                0 <= k < with_severity(gs, s).len() && ws_index(gs, s, k) == m,
    decreases gs.len(),
{
    if gs.len() > 0 {
        let q = gs.drop_last();
        lemma_with_severity(q, s);
        let prev0 = with_severity(q, s);
        assert forall|m: int| 0 <= m < gs.len() && (#[trigger] gs[m]).d.severity == s implies exists|
            k: int,
        | 0 <= k < with_severity(gs, s).len() && ws_index(gs, s, k) == m by {
            if m == gs.len() - 1 {
                assert(ws_index(gs, s, prev0.len() as int) == m);
            } else {
                assert(q[m] == gs[m]);
                let k = choose|k: int| 0 <= k < prev0.len() && ws_index(q, s, k) == m;
                assert(ws_index(gs, s, k) == ws_index(q, s, k));
            }
        }
        let prev = with_severity(q, s);
        let ws = with_severity(gs, s);
        assert forall|k: int| 0 <= k < ws.len() implies 0 <= #[trigger] ws_index(gs, s, k)
            < gs.len() && ws[k] == gs[ws_index(gs, s, k)].d && gs[ws_index(gs, s, k)].d.severity
            == s by {
            if k < prev.len() {
                assert(ws_index(gs, s, k) == ws_index(q, s, k));
                assert(q[ws_index(q, s, k)] == gs[ws_index(q, s, k)]);
            }
        }
        assert forall|k1: int, k2: int| 0 <= k1 < k2 < ws.len() implies #[trigger] ws_index(
            gs,
            s,
            k1,
        ) < #[trigger] ws_index(gs, s, k2) by {
            assert(ws_index(gs, s, k1) == ws_index(q, s, k1));
            if k2 < prev.len() {
                assert(ws_index(gs, s, k2) == ws_index(q, s, k2));
            }
        }
    }
}

/// Which group the `i`-th deduplicated finding came from.
pub open spec fn out_group(gs: Seq<GroupView>, i: int) -> int {
    let c = with_severity(gs, Severity::Critical).len() as int;
    let w = with_severity(gs, Severity::Warning).len() as int;
    if i < c {
        ws_index(gs, Severity::Critical, i)
    } else if i < c + w {
        ws_index(gs, Severity::Warning, i - c)
    } else {
        ws_index(gs, Severity::Info, i - c - w)
    }
}

/// Deduplication does what it says: no two findings it returns share a
/// dedup key (the stable id of a located finding, the normalized title of
/// an unlocated one), each credits at least one agent, and they come
/// Critical first, then Warning, then Info.
pub proof fn law_deduplicated_findings_are_distinct_and_sorted(agents: Seq<AgentOutput>)
    ensures
        forall|i: int, j: int|
            0 <= i < j < dedup_spec(agents).len() ==> output_key(#[trigger] dedup_spec(agents)[i])
                != output_key(#[trigger] dedup_spec(agents)[j]),
        forall|i: int|
            0 <= i < dedup_spec(agents).len() ==> (#[trigger] dedup_spec(agents)[i]).sources.len()
                >= 1,
        forall|i: int, j: int|
            0 <= i < j < dedup_spec(agents).len() ==> severity_rank(
                (#[trigger] dedup_spec(agents)[i]).severity,
            ) >= severity_rank((#[trigger] dedup_spec(agents)[j]).severity),
{
    let gs = group_items(flat_items(agents));
    lemma_group_items(flat_items(agents));
    lemma_with_severity(gs, Severity::Critical);
    lemma_with_severity(gs, Severity::Warning);
    lemma_with_severity(gs, Severity::Info);
    let c = with_severity(gs, Severity::Critical);
    let w = with_severity(gs, Severity::Warning);
    let n = with_severity(gs, Severity::Info);
    let out = dedup_spec(agents);
    assert(out == c + w + n);
    assert forall|i: int| 0 <= i < out.len() implies 0 <= #[trigger] out_group(gs, i) < gs.len()
        && out[i] == gs[out_group(gs, i)].d && out[i].severity == (if i < c.len() {
        Severity::Critical
    } else if i < c.len() + w.len() {
        Severity::Warning
    } else {
        Severity::Info
    }) by {
        if i < c.len() {
            assert(out[i] == c[i]);
        } else if i < c.len() + w.len() {
            assert(out[i] == w[i - c.len()]);
        } else {
            assert(out[i] == n[i - c.len() - w.len()]);
        }
    }
    assert forall|i: int, j: int| 0 <= i < j < out.len() implies output_key(#[trigger] out[i])
        != output_key(#[trigger] out[j]) by {
        let gi = out_group(gs, i);
        let gj = out_group(gs, j);
        assert(out[i] == gs[gi].d && out[j] == gs[gj].d);
        assert(gi != gj) by {
            if i < c.len() && j < c.len() {
                assert(ws_index(gs, Severity::Critical, i) < ws_index(gs, Severity::Critical, j));
            } else if c.len() <= i && j < c.len() + w.len() {
                assert(ws_index(gs, Severity::Warning, i - c.len()) < ws_index(
                    gs,
                    Severity::Warning,
                    j - c.len(),
                ));
            } else if c.len() + w.len() <= i {
                assert(ws_index(gs, Severity::Info, i - c.len() - w.len()) < ws_index(
                    gs,
                    Severity::Info,
                    j - c.len() - w.len(),
                ));
            } else {
                assert(out[i].severity != out[j].severity);
            }
        }
        assert(group_wf(gs[gi]) && group_wf(gs[gj]));
        if gi < gj {
            assert(!(gs[gi].is_id == gs[gj].is_id && gs[gi].key == gs[gj].key));
        } else {
            assert(!(gs[gj].is_id == gs[gi].is_id && gs[gj].key == gs[gi].key));
        }
    }
    assert forall|i: int| 0 <= i < out.len() implies (#[trigger] out[i]).sources.len() >= 1 by {
        assert(group_wf(gs[out_group(gs, i)]));
    }
    assert forall|i: int, j: int| 0 <= i < j < out.len() implies severity_rank(
        (#[trigger] out[i]).severity,
    ) >= severity_rank((#[trigger] out[j]).severity) by {
        assert(0 <= out_group(gs, i) < gs.len());
        assert(0 <= out_group(gs, j) < gs.len());
    }
}

/// Whether a group holds what a finding reported: the finding's key, the
/// reporting agent among its sources, and at least its severity.
pub open spec fn group_covers(g: GroupView, agent: AgentName, f: Finding) -> bool {
    &&& (g.is_id, g.key) == finding_key_spec(f)
    &&& g.d.sources.contains(agent)
    &&& severity_rank(g.d.severity) >= severity_rank(f.severity)
}

proof fn lemma_group_items_cover(items: Seq<(AgentName, Finding)>)
    ensures
        forall|m: int|
            0 <= m < items.len() ==> exists|k: int|
                0 <= k < group_items(items).len() && group_covers(
                    #[trigger] group_items(items)[k],
                    (#[trigger] items[m]).0,
                    items[m].1,
                ),
    decreases items.len(),
{
    if items.len() > 0 {
        let pre = items.drop_last();
        lemma_group_items_cover(pre);
        let p = group_items(pre);
        let agent = items.last().0;
        let f = items.last().1;
        let key = finding_key_spec(f);
        lemma_find_group(p, key.0, key.1);
        let j = find_group(p, key.0, key.1);
        let g = group_items(items);
        assert(g == group_step(p, agent, f));
        assert forall|m: int| 0 <= m < items.len() implies exists|k: int|
            0 <= k < g.len() && group_covers(#[trigger] g[k], (#[trigger] items[m]).0, items[m].1) by {
            if m < items.len() - 1 {
                assert(items[m] == pre[m]);
                let k = choose|k: int|
                    0 <= k < p.len() && group_covers(#[trigger] p[k], pre[m].0, pre[m].1);
                if j >= 0 && k == j {
                    let merged = merge_into(p[j], agent, f);
                    assert(merged.d.sources == p[j].d.sources.push(agent));
                    assert(p[j].d.sources.contains(pre[m].0));
                    let w = choose|w: int| 0 <= w < p[j].d.sources.len() && p[j].d.sources[w] == pre[m].0;
                    assert(merged.d.sources[w] == pre[m].0);
                    assert(g[k] == merged);
                    assert(group_covers(g[k], items[m].0, items[m].1));
                } else if j >= 0 {
                    assert(g[k] == p[k]);
                    assert(group_covers(g[k], items[m].0, items[m].1));
                } else {
                    assert(g[k] == p[k]);
                    assert(group_covers(g[k], items[m].0, items[m].1));
                }
            } else {
                assert(items[m] == (agent, f));
                if j >= 0 {
                    let merged = merge_into(p[j], agent, f);
                    assert(g[j] == merged);
                    assert(merged.d.sources[merged.d.sources.len() - 1] == agent);
                    assert(group_covers(g[j], items[m].0, items[m].1));
                } else {
                    let fresh = fresh_group(agent, f);
                    assert(g[p.len() as int] == fresh);
                    assert(fresh.d.sources[0] == agent);
                    assert(group_covers(g[p.len() as int], items[m].0, items[m].1));
                }
            }
        }
    }
}

/// Deduplication loses nothing: every finding any agent reported is
/// represented by a returned finding with its key, crediting that agent, at
/// a severity no lower than the one reported.
pub proof fn law_deduplication_loses_no_finding(agents: Seq<AgentOutput>, a: int, m: int)
    requires
        0 <= a < agents.len(),
        0 <= m < agents[a].findings@.len(),
    ensures
        exists|i: int|
            0 <= i < dedup_spec(agents).len() && output_key(#[trigger] dedup_spec(agents)[i])
                == finding_key_spec(agents[a].findings@[m]) && dedup_spec(agents)[i].sources.contains(
                agents[a].agent,
            ) && severity_rank(dedup_spec(agents)[i].severity) >= severity_rank(
                agents[a].findings@[m].severity,
            ),
{
    let items = flat_items(agents);
    lemma_flat_items_contains(agents, a, m);
    let t = choose|t: int| 0 <= t < items.len() && items[t] == (agents[a].agent, agents[a].findings@[m]);
    lemma_group_items_cover(items);
    lemma_group_items(items);
    let gs = group_items(items);
    let k = choose|k: int| 0 <= k < gs.len() && group_covers(#[trigger] gs[k], items[t].0, items[t].1);
    assert(group_covers(gs[k], items[t].0, items[t].1));
    let s = gs[k].d.severity;
    lemma_with_severity(gs, Severity::Critical);
    lemma_with_severity(gs, Severity::Warning);
    lemma_with_severity(gs, Severity::Info);
    let c = with_severity(gs, Severity::Critical);
    let w = with_severity(gs, Severity::Warning);
    let n = with_severity(gs, Severity::Info);
    let out = dedup_spec(agents);
    assert(out == c + w + n);
    let kk = choose|kk: int| 0 <= kk < with_severity(gs, s).len() && ws_index(gs, s, kk) == k;
    let i = if s == Severity::Critical {
        kk
    } else if s == Severity::Warning {
        c.len() + kk
    } else {
        c.len() + w.len() + kk
    };
    assert(out[i] == gs[k].d);
    assert(group_wf(gs[k]));
    assert(output_key(out[i]) == finding_key_spec(agents[a].findings@[m]));
}

/// Whether a group's severity is that of some finding with its key.
pub open spec fn group_witnessed(g: GroupView, items: Seq<(AgentName, Finding)>) -> bool {
    exists|t: int|
        0 <= t < items.len() && finding_key_spec(#[trigger] items[t].1) == (g.is_id, g.key)
            && items[t].1.severity == g.d.severity
}

proof fn lemma_group_items_witnessed(items: Seq<(AgentName, Finding)>)
    ensures
        forall|k: int|
            0 <= k < group_items(items).len() ==> group_witnessed(
                #[trigger] group_items(items)[k],
                items,
            ),
    decreases items.len(),
{
    if items.len() > 0 {
        let pre = items.drop_last();
        lemma_group_items_witnessed(pre);
        let p = group_items(pre);
        let agent = items.last().0;
        let f = items.last().1;
        let key = finding_key_spec(f);
        lemma_find_group(p, key.0, key.1);
        let j = find_group(p, key.0, key.1);
        let g = group_items(items);
        let last = items.len() - 1;
        assert(items[last] == (agent, f));
        assert(g == group_step(p, agent, f));
        assert forall|k: int| 0 <= k < g.len() implies group_witnessed(#[trigger] g[k], items) by {
            if j >= 0 && k == j {
                let merged = merge_into(p[j], agent, f);
                assert(g[k] == merged);
                if severity_rank(f.severity) > severity_rank(p[j].d.severity) {
                    assert(finding_key_spec(items[last].1) == (g[k].is_id, g[k].key));
                } else {
                    assert(group_witnessed(p[j], pre));
                    let t = choose|t: int|
                        0 <= t < pre.len() && finding_key_spec(#[trigger] pre[t].1) == (
                            p[j].is_id,
                            p[j].key,
                        ) && pre[t].1.severity == p[j].d.severity;
                    assert(items[t] == pre[t]);
                }
            } else if k < p.len() {
                assert(g[k] == p[k]);
                assert(group_witnessed(p[k], pre));
                let t = choose|t: int|
                    0 <= t < pre.len() && finding_key_spec(#[trigger] pre[t].1) == (
                        p[k].is_id,
                        p[k].key,
                    ) && pre[t].1.severity == p[k].d.severity;
                assert(items[t] == pre[t]);
            } else {
                assert(g[k] == fresh_group(agent, f));
                assert(finding_key_spec(items[last].1) == (g[k].is_id, g[k].key));
            }
        }
    }
}

proof fn lemma_flat_items_origin(agents: Seq<AgentOutput>, t: int)
    requires
        0 <= t < flat_items(agents).len(),
    ensures
        exists|a: int, m: int|
            0 <= a < agents.len() && 0 <= m < agents[a].findings@.len() && flat_items(agents)[t]
                == (agents[a].agent, #[trigger] agents[a].findings@[m]),
    decreases agents.len(),
{
    let pre = agents.drop_last();
    assert(flat_items(agents) == flat_items(pre) + agent_items(agents.last()));
    if t < flat_items(pre).len() {
        lemma_flat_items_origin(pre, t);
        let (a, m) = choose|a: int, m: int|
            0 <= a < pre.len() && 0 <= m < pre[a].findings@.len() && flat_items(pre)[t] == (
                pre[a].agent,
                #[trigger] pre[a].findings@[m],
            );
        assert(pre[a] == agents[a]);
        assert(flat_items(agents)[t] == flat_items(pre)[t]);
    } else {
        let a = agents.len() - 1;
        let m = t - flat_items(pre).len();
        assert(flat_items(agents)[t] == agent_items(agents.last())[m]);
        assert(agents[a] == agents.last());
        assert(flat_items(agents)[t] == (agents[a].agent, agents[a].findings@[m]));
    }
}

/// A deduplicated finding carries the highest severity reported for it: its
/// severity is the severity some agent reported for a finding with its key,
/// and no agent reported a finding with its key at a higher severity. Two
/// agents agreeing on a finding never escalate it.
pub proof fn law_deduplicated_severity_is_the_highest_reported(agents: Seq<AgentOutput>)
    ensures
        forall|i: int|
            #![trigger dedup_spec(agents)[i]]
            0 <= i < dedup_spec(agents).len() ==> exists|a: int, m: int|
                0 <= a < agents.len() && 0 <= m < agents[a].findings@.len() && finding_key_spec(
                    #[trigger] agents[a].findings@[m],
                ) == output_key(dedup_spec(agents)[i]) && agents[a].findings@[m].severity
                    == dedup_spec(agents)[i].severity,
        forall|i: int, a: int, m: int|
            0 <= i < dedup_spec(agents).len() && 0 <= a < agents.len() && 0 <= m
                < agents[a].findings@.len() && finding_key_spec(
                #[trigger] agents[a].findings@[m],
            ) == output_key(#[trigger] dedup_spec(agents)[i]) ==> severity_rank(
                agents[a].findings@[m].severity,
            ) <= severity_rank(dedup_spec(agents)[i].severity),
{
    let items = flat_items(agents);
    let gs = group_items(items);
    lemma_group_items(items);
    lemma_group_items_witnessed(items);
    lemma_with_severity(gs, Severity::Critical);
    lemma_with_severity(gs, Severity::Warning);
    lemma_with_severity(gs, Severity::Info);
    law_deduplicated_findings_are_distinct_and_sorted(agents);
    let c = with_severity(gs, Severity::Critical);
    let w = with_severity(gs, Severity::Warning);
    let n = with_severity(gs, Severity::Info);
    let out = dedup_spec(agents);
    assert(out == c + w + n);
    assert forall|i: int| #![trigger out[i]] 0 <= i < out.len() implies exists|a: int, m: int|
        0 <= a < agents.len() && 0 <= m < agents[a].findings@.len() && finding_key_spec(
            #[trigger] agents[a].findings@[m],
        ) == output_key(out[i]) && agents[a].findings@[m].severity == out[i].severity by {
        let k = out_group(gs, i);
        if i < c.len() {
            assert(out[i] == c[i]);
        } else if i < c.len() + w.len() {
            assert(out[i] == w[i - c.len()]);
        } else {
            assert(out[i] == n[i - c.len() - w.len()]);
        }
        assert(0 <= k < gs.len() && out[i] == gs[k].d);
        assert(group_wf(gs[k]));
        assert(group_witnessed(gs[k], items));
        let t = choose|t: int|
            0 <= t < items.len() && finding_key_spec(#[trigger] items[t].1) == (gs[k].is_id, gs[k].key)
                && items[t].1.severity == gs[k].d.severity;
        lemma_flat_items_origin(agents, t);
        let (a, m) = choose|a: int, m: int|
            0 <= a < agents.len() && 0 <= m < agents[a].findings@.len() && items[t] == (
                agents[a].agent,
                #[trigger] agents[a].findings@[m],
            );
        assert(agents[a].findings@[m] == items[t].1);
    }
    assert forall|i: int, a: int, m: int|
        0 <= i < out.len() && 0 <= a < agents.len() && 0 <= m < agents[a].findings@.len()
            && finding_key_spec(#[trigger] agents[a].findings@[m]) == output_key(#[trigger] out[i])
            implies severity_rank(agents[a].findings@[m].severity) <= severity_rank(out[i].severity) by {
        law_deduplication_loses_no_finding(agents, a, m);
        let i2 = choose|i2: int|
            0 <= i2 < out.len() && output_key(#[trigger] out[i2]) == finding_key_spec(
                agents[a].findings@[m],
            ) && out[i2].sources.contains(agents[a].agent) && severity_rank(out[i2].severity)
                >= severity_rank(agents[a].findings@[m].severity);
        if i2 != i {
            if i < i2 {
                assert(output_key(out[i]) != output_key(out[i2]));
            } else {
                assert(output_key(out[i2]) != output_key(out[i]));
            }
        }
    }
}

proof fn lemma_flat_items_contains(agents: Seq<AgentOutput>, a: int, m: int)
    requires
        0 <= a < agents.len(),
        0 <= m < agents[a].findings@.len(),
    ensures
        exists|t: int|
            0 <= t < flat_items(agents).len() && flat_items(agents)[t] == (
                agents[a].agent,
                agents[a].findings@[m],
            ),
    decreases agents.len(),
{
    let pre = agents.drop_last();
    if a == agents.len() - 1 {
        let base = flat_items(pre).len();
        let t = base + m;
        assert(flat_items(agents) == flat_items(pre) + agent_items(agents.last()));
        assert(flat_items(agents)[t] == agent_items(agents.last())[m]);
    } else {
        assert(pre[a] == agents[a]);
        lemma_flat_items_contains(pre, a, m);
        let t = choose|t: int| 0 <= t < flat_items(pre).len() && flat_items(pre)[t] == (
            pre[a].agent,
            pre[a].findings@[m],
        );
        assert(flat_items(agents) == flat_items(pre) + agent_items(agents.last()));
        assert(flat_items(agents)[t] == flat_items(pre)[t]);
    }
}

// ---------------------------------------------------------------------------
// Independence of input order
// ---------------------------------------------------------------------------

/// Each agent's vote, in input order.
pub open spec fn votes_spec(s: Seq<AgentOutput>) -> Seq<(AgentName, Verdict)> {
    s.map_values(|a: AgentOutput| (a.agent, a.verdict))
}

/// Each agent's recommendation, in input order.
pub open spec fn recommendations_spec(s: Seq<AgentOutput>) -> Seq<(AgentName, Seq<char>)> {
    s.map_values(|a: AgentOutput| (a.agent, a.recommendation@))
}

/// Whether some agent returned Conditional.
pub open spec fn has_conditional_spec(s: Seq<AgentOutput>) -> bool {
    exists|i: int| 0 <= i < s.len() && #[trigger] s[i].verdict == Verdict::Conditional
}

/// The agents' names, in input order.
pub open spec fn agent_names(s: Seq<AgentOutput>) -> Seq<AgentName> {
    s.map_values(|a: AgentOutput| a.agent)
}

/// Whether each agent counts on the approving side, in input order.
pub open spec fn approving_flags(s: Seq<AgentOutput>) -> Seq<bool> {
    s.map_values(|a: AgentOutput| effective_verdict(a.verdict) == Verdict::Approve)
}

proof fn lemma_map_values_to_multiset<A, B>(s: Seq<A>, t: Seq<A>, f: spec_fn(A) -> B)
    requires
        s.to_multiset() == t.to_multiset(),
    ensures
        s.map_values(f).to_multiset() == t.map_values(f).to_multiset(),
    decreases s.len(),
{
    broadcast use vstd::seq_lib::group_to_multiset_ensures, vstd::multiset::group_multiset_axioms;

    assert(s.to_multiset().len() == s.len() && t.to_multiset().len() == t.len());
    if s.len() == 0 {
        assert(s.map_values(f) =~= Seq::<B>::empty());
        assert(t.map_values(f) =~= Seq::<B>::empty());
    } else {
        let x = s.last();
        let d = s.drop_last();
        assert(d.push(x) =~= s);
        assert(d.push(x).to_multiset() =~= d.to_multiset().insert(x));
        assert(t.to_multiset().count(x) > 0);
        assert(t.contains(x));
        let j = choose|j: int| 0 <= j < t.len() && t[j] == x;
        let t2 = t.remove(j);
        assert(t2.to_multiset() =~= t.to_multiset().remove(x));
        assert(t2.to_multiset() =~= d.to_multiset());
        lemma_map_values_to_multiset(d, t2, f);
        let ms = s.map_values(f);
        let mt = t.map_values(f);
        assert(d.map_values(f).push(f(x)) =~= ms);
        assert(d.map_values(f).push(f(x)).to_multiset() =~= d.map_values(f).to_multiset().insert(
            f(x),
        ));
        assert(t2.map_values(f) =~= mt.remove(j));
        assert(mt[j] == f(x));
        assert(mt.remove(j).to_multiset() =~= mt.to_multiset().remove(f(x)));
        assert(mt.contains(f(x)));
        assert(mt.to_multiset().count(f(x)) > 0);
        assert(ms.to_multiset() =~= mt.to_multiset());
    }
}

proof fn lemma_count_approving_flags(s: Seq<AgentOutput>)
    ensures
        count_approving(s) == approving_flags(s).to_multiset().count(true),
    decreases s.len(),
{
    broadcast use vstd::seq_lib::group_to_multiset_ensures, vstd::multiset::group_multiset_axioms;

    if s.len() == 0 {
        assert(approving_flags(s) =~= Seq::<bool>::empty());
    } else {
        let d = s.drop_last();
        lemma_count_approving_flags(d);
        let b = effective_verdict(s.last().verdict) == Verdict::Approve;
        assert(approving_flags(s) =~= approving_flags(d).push(b));
        assert(approving_flags(d).push(b).to_multiset() =~= approving_flags(d).to_multiset().insert(
            b,
        ));
    }
}

proof fn lemma_same_elements(s: Seq<AgentOutput>, t: Seq<AgentOutput>)
    requires
        s.to_multiset() == t.to_multiset(),
    ensures
        s.len() == t.len(),
        forall|x: AgentOutput| s.contains(x) <==> t.contains(x),
{
    broadcast use vstd::seq_lib::group_to_multiset_ensures;

    assert(s.to_multiset().len() == s.len() && t.to_multiset().len() == t.len());
    assert forall|x: AgentOutput| s.contains(x) <==> t.contains(x) by {
        assert(s.contains(x) <==> s.to_multiset().count(x) > 0);
        assert(t.contains(x) <==> t.to_multiset().count(x) > 0);
    }
}

proof fn lemma_tie_transfers(s: Seq<AgentOutput>, t: Seq<AgentOutput>)
    requires
        forall|x: AgentOutput| s.contains(x) <==> t.contains(x),
        tie_goes_to_approve(s),
    ensures
        tie_goes_to_approve(t),
{
    let i = choose|i: int|
        0 <= i < s.len() && effective_verdict(#[trigger] s[i].verdict) == Verdict::Approve && (
        forall|j: int|
            0 <= j < s.len() && effective_verdict(#[trigger] s[j].verdict) == Verdict::Reject
                ==> agent_rank(s[i].agent) < agent_rank(s[j].agent));
    assert(s.contains(s[i]));
    let i2 = choose|i2: int| 0 <= i2 < t.len() && t[i2] == s[i];
    assert forall|j: int|
        0 <= j < t.len() && effective_verdict(#[trigger] t[j].verdict) == Verdict::Reject
            implies agent_rank(t[i2].agent) < agent_rank(t[j].agent) by {
        assert(t.contains(t[j]));
        let j1 = choose|j1: int| 0 <= j1 < s.len() && s[j1] == t[j];
        assert(effective_verdict(s[j1].verdict) == Verdict::Reject);
    }
    assert(effective_verdict(t[i2].verdict) == Verdict::Approve);
}

proof fn lemma_conditional_transfers(s: Seq<AgentOutput>, t: Seq<AgentOutput>)
    requires
        forall|x: AgentOutput| s.contains(x) <==> t.contains(x),
        has_conditional_spec(s),
    ensures
        has_conditional_spec(t),
{
    let i = choose|i: int| 0 <= i < s.len() && #[trigger] s[i].verdict == Verdict::Conditional;
    assert(s.contains(s[i]));
    let i2 = choose|i2: int| 0 <= i2 < t.len() && t[i2] == s[i];
    assert(t[i2].verdict == Verdict::Conditional);
}

proof fn lemma_no_duplicate_names(s: Seq<AgentOutput>)
    ensures
        (first_duplicate(s) < 0) == agent_names(s).no_duplicates(),
    decreases s.len(),
{
    if s.len() > 0 {
        let d = s.drop_last();
        let n = s.len() - 1;
        let x = s.last().agent;
        lemma_no_duplicate_names(d);
        assert(agent_names(s) =~= agent_names(d).push(x));
        assert(d =~= s.take(n));
        if repeats_earlier(s, n) {
            let j = choose|j: int| 0 <= j < n && s[j].agent == #[trigger] s[n].agent;
            assert(agent_names(s)[j] == agent_names(s)[n]);
        }
        if agent_names(d).contains(x) {
            let j = choose|j: int| 0 <= j < agent_names(d).len() && agent_names(d)[j] == x;
            assert(s[j].agent == s[n].agent);
            assert(repeats_earlier(s, n));
        }
        if agent_names(s).no_duplicates() {
            assert forall|i: int, k: int|
                0 <= i < agent_names(d).len() && 0 <= k < agent_names(d).len() && i != k implies
                agent_names(d)[i] != agent_names(d)[k] by {
                assert(agent_names(s)[i] == agent_names(d)[i]);
                assert(agent_names(s)[k] == agent_names(d)[k]);
            }
        }
        if agent_names(d).no_duplicates() && !agent_names(d).contains(x) {
            assert forall|i: int, k: int|
                0 <= i < agent_names(s).len() && 0 <= k < agent_names(s).len() && i != k implies
                agent_names(s)[i] != agent_names(s)[k] by {
                if i < n && k < n {
                    assert(agent_names(s)[i] == agent_names(d)[i]);
                    assert(agent_names(s)[k] == agent_names(d)[k]);
                } else if i < n {
                    assert(agent_names(s)[i] == agent_names(d)[i]);
                } else if k < n {
                    assert(agent_names(s)[k] == agent_names(d)[k]);
                }
            }
        }
    } else {
        assert(agent_names(s) =~= Seq::<AgentName>::empty());
    }
}

proof fn lemma_no_duplicates_transfers(s: Seq<AgentName>, t: Seq<AgentName>)
    requires
        s.to_multiset() == t.to_multiset(),
        s.no_duplicates(),
    ensures
        t.no_duplicates(),
{
    s.lemma_multiset_has_no_duplicates();
    t.lemma_multiset_has_no_duplicates_conv();
}

/// Consensus does not depend on the order in which the agents' outputs
/// arrive: any reordering of the same outputs is accepted or refused alike
/// (same count, same duplicate verdict), and yields the same approving count,
/// the same majority, the same Conditional flag, and the same
/// (agent, verdict) and (agent, recommendation) pairs.
pub proof fn law_tally_ignores_input_order(s: Seq<AgentOutput>, t: Seq<AgentOutput>)
    requires
        t.to_multiset() == s.to_multiset(),
    ensures
        t.len() == s.len(),
        (first_duplicate(t) < 0) == (first_duplicate(s) < 0),
        count_approving(t) == count_approving(s),
        majority_spec(t) == majority_spec(s),
        has_conditional_spec(t) == has_conditional_spec(s),
        votes_spec(t).to_multiset() == votes_spec(s).to_multiset(),
        recommendations_spec(t).to_multiset() == recommendations_spec(s).to_multiset(),
{
    lemma_same_elements(s, t);
    let fa = |a: AgentOutput| effective_verdict(a.verdict) == Verdict::Approve;
    lemma_map_values_to_multiset(s, t, fa);
    assert(approving_flags(s) =~= s.map_values(fa));
    assert(approving_flags(t) =~= t.map_values(fa));
    lemma_count_approving_flags(s);
    lemma_count_approving_flags(t);
    if tie_goes_to_approve(s) {
        lemma_tie_transfers(s, t);
    }
    if tie_goes_to_approve(t) {
        lemma_tie_transfers(t, s);
    }
    if has_conditional_spec(s) {
        lemma_conditional_transfers(s, t);
    }
    if has_conditional_spec(t) {
        lemma_conditional_transfers(t, s);
    }
    let fv = |a: AgentOutput| (a.agent, a.verdict);
    lemma_map_values_to_multiset(s, t, fv);
    assert(votes_spec(s) =~= s.map_values(fv));
    assert(votes_spec(t) =~= t.map_values(fv));
    let fr = |a: AgentOutput| (a.agent, a.recommendation@);
    lemma_map_values_to_multiset(s, t, fr);
    assert(recommendations_spec(s) =~= s.map_values(fr));
    assert(recommendations_spec(t) =~= t.map_values(fr));
    let fnm = |a: AgentOutput| a.agent;
    lemma_map_values_to_multiset(s, t, fnm);
    assert(agent_names(s) =~= s.map_values(fnm));
    assert(agent_names(t) =~= t.map_values(fnm));
    lemma_no_duplicate_names(s);
    lemma_no_duplicate_names(t);
    if agent_names(s).no_duplicates() {
        lemma_no_duplicates_transfers(agent_names(s), agent_names(t));
    }
    if agent_names(t).no_duplicates() {
        lemma_no_duplicates_transfers(agent_names(t), agent_names(s));
    }
}
} // verus!
