//! The bookkeeping of the join loop on the path without rotation: which
//! seats were dispatched, what each one that came back reported, when a
//! defect of this crate ends the run, and what the run hands on to
//! consensus.

use vstd::prelude::*;
use crate::error::MagiError;
use crate::orchestrator::{
    CrateDefectRecord, JoinState, JoinedSeat, check_quorum, crate_defect_error, default_rotations,
    is_agent_set, is_not, joined_so_far, model_for, models_view, others,
};
use crate::schema::{AgentName, AgentOutput};
use crate::seat::{AgentRotation, ExtractionFailure};
use crate::telemetry::CompletionRecord;

verus! {

/// One optional value per mage.
pub struct AgentSlots<X> {
    balthasar: Option<X>,
    caspar: Option<X>,
    melchior: Option<X>,
}

/// The entry a slot contributes to the canonical list: none, or one.
pub open spec fn slot_entry<X>(a: AgentName, v: Option<X>) -> Seq<(AgentName, X)> {
    match v {
        Some(x) => seq![(a, x)],
        None => Seq::empty(),
    }
}

impl<X> AgentSlots<X> {
    /// What is held for `a`.
    pub closed spec fn get(&self, a: AgentName) -> Option<X> {
        match a {
            AgentName::Balthasar => self.balthasar,
            AgentName::Caspar => self.caspar,
            AgentName::Melchior => self.melchior,
        }
    }

    /// The held values keyed by their mage, in canonical order.
    pub open spec fn entries(&self) -> Seq<(AgentName, X)> {
        slot_entry(AgentName::Balthasar, self.get(AgentName::Balthasar)) + slot_entry(
            AgentName::Caspar,
            self.get(AgentName::Caspar),
        ) + slot_entry(AgentName::Melchior, self.get(AgentName::Melchior))
    }

    /// Nothing held.
    pub fn empty() -> (r: Self)
        ensures
            forall|a: AgentName| #[trigger] r.get(a) is None,
    {
        AgentSlots { balthasar: None, caspar: None, melchior: None }
    }

    /// Holds `x` for `a`, replacing what was held.
    pub fn set(&mut self, a: AgentName, x: X)
        ensures
            final(self).get(a) == Some(x),
            forall|b: AgentName| b != a ==> #[trigger] final(self).get(b) == old(self).get(b),
    {
        match a {
            AgentName::Balthasar => self.balthasar = Some(x),
            AgentName::Caspar => self.caspar = Some(x),
            AgentName::Melchior => self.melchior = Some(x),
        }
    }

    /// Whether something is held for `a`.
    pub fn has(&self, a: AgentName) -> (b: bool)
        ensures
            b == self.get(a) is Some,
    {
        match a {
            AgentName::Balthasar => self.balthasar.is_some(),
            AgentName::Caspar => self.caspar.is_some(),
            AgentName::Melchior => self.melchior.is_some(),
        }
    }

    /// The held values keyed by their mage, in canonical order.
    pub fn into_entries(self) -> (r: Vec<(AgentName, X)>)
        ensures
            r@ == self.entries(),
    {
        let ghost e = self.entries();
        let mut r: Vec<(AgentName, X)> = Vec::new();
        match self.balthasar {
            Some(x) => r.push((AgentName::Balthasar, x)),
            None => {},
        }
        match self.caspar {
            Some(x) => r.push((AgentName::Caspar, x)),
            None => {},
        }
        match self.melchior {
            Some(x) => r.push((AgentName::Melchior, x)),
            None => {},
        }
        assert(r@ =~= e);
        r
    }
}

/// The mages something is held for, in canonical order.
pub open spec fn slot_keys<X>(s: AgentSlots<X>) -> Seq<AgentName> {
    s.entries().map_values(|p: (AgentName, X)| p.0)
}

/// How a seat dispatched without rotation came back to the join loop.
pub enum SeatReturn {
    /// Its task finished: the seat's result, whether its corrective retry
    /// fired, the extraction failures and completion records it accumulated,
    /// and the defect of this crate it hit, if any.
    Finished {
        result: Result<AgentOutput, String>,
        retried: bool,
        failures: Vec<ExtractionFailure>,
        records: Vec<CompletionRecord>,
        defect: Option<CrateDefectRecord>,
    },
    /// Its task ended abnormally; the text says how. Whatever it had
    /// accumulated is lost.
    Panicked(String),
}

/// What a run without rotation hands on to consensus.
pub struct DispatchOutcome<R> {
    pub successful: Vec<AgentOutput>,
    pub failed: Vec<(AgentName, String)>,
    pub retried: Vec<AgentName>,
    pub rotations: Vec<(AgentName, AgentRotation)>,
    pub extraction_failures: Vec<(AgentName, Vec<ExtractionFailure>)>,
    pub completions: Vec<(AgentName, Vec<CompletionRecord>)>,
    pub pool_eligibility: Vec<(AgentName, Vec<R>)>,
}

/// The join loop's state on the path without rotation.
pub struct NoRotationJoin {
    /// Verdicts, failures and the retried set.
    pub join: JoinState,
    /// The dispatched seats and the model each was configured with.
    pub models: AgentSlots<String>,
    /// The seats joined so far, in join order.
    pub joined: Vec<AgentName>,
    /// Extraction failures per seat: seeded empty for every dispatched seat,
    /// so a clean seat says so instead of vanishing.
    pub extraction_failures: AgentSlots<Vec<ExtractionFailure>>,
    /// Completion records per seat whose task finished (not seeded: an
    /// absent entry means the seat left no attempt to report).
    pub completions: AgentSlots<Vec<CompletionRecord>>,
    /// The defect of this crate a seat reported, until it ends the run.
    pub crate_defect: Option<CrateDefectRecord>,
}

impl NoRotationJoin {
    /// The extraction failures are keyed by exactly the dispatched seats.
    pub open spec fn keyed_by_dispatched(&self) -> bool {
        forall|a: AgentName| #[trigger] self.extraction_failures.get(a) is Some
            <==> self.models.get(a) is Some
    }

    /// Each joined seat has landed in exactly one of the two lists.
    pub open spec fn counts_match(&self) -> bool {
        self.join.successful@.len() + self.join.failed@.len() == self.joined@.len()
    }

    /// Nothing joined yet; `models` pairs each dispatched seat with its
    /// configured model (a later pair for the same seat wins, as in a map).
    pub fn new(models: &[(AgentName, String)]) -> (j: Self)
        ensures
            forall|a: AgentName| #![trigger j.models.get(a)]
                match j.models.get(a) {
                    Some(m) => model_for(models_view(models@), a) == Some(m@),
                    None => model_for(models_view(models@), a) is None,
                },
            j.keyed_by_dispatched(),
            forall|a: AgentName|
                #[trigger] j.extraction_failures.get(a) matches Some(v) ==> v@.len() == 0,
            forall|a: AgentName| #[trigger] j.completions.get(a) is None,
            j.joined@.len() == 0,
            j.join.successful@.len() == 0,
            j.join.failed@.len() == 0,
            j.join.retried@.len() == 0,
            j.crate_defect is None,
            j.counts_match(),
    {
        let mut slots: AgentSlots<String> = AgentSlots::empty();
        let mut ef: AgentSlots<Vec<ExtractionFailure>> = AgentSlots::empty();
        let ghost mv = models_view(models@);
        let mut i: usize = 0;
        assert(mv.take(0) =~= Seq::<(AgentName, Seq<char>)>::empty());
        while i < models.len()
            invariant
                i <= models.len(),
                mv == models_view(models@),
                forall|a: AgentName| #![trigger slots.get(a)]
                    match slots.get(a) {
                        Some(m) => model_for(mv.take(i as int), a) == Some(m@),
                        None => model_for(mv.take(i as int), a) is None,
                    },
                forall|a: AgentName| #[trigger] ef.get(a) is Some <==> slots.get(a) is Some,
                forall|a: AgentName| #[trigger] ef.get(a) matches Some(v) ==> v@.len() == 0,
            decreases models.len() - i,
        {
            assert(mv.take(i + 1).drop_last() =~= mv.take(i as int));
            let name = models[i].0;
            slots.set(name, models[i].1.clone());
            ef.set(name, Vec::new());
            i = i + 1;
        }
        assert(mv.take(models.len() as int) =~= mv);
        NoRotationJoin {
            join: JoinState::new(),
            models: slots,
            joined: Vec::new(),
            extraction_failures: ef,
            completions: AgentSlots::empty(),
            crate_defect: None,
        }
    }

    /// Records one joined seat, then consults the defect latch. A finished
    /// seat's verdict or reason goes to the join state (with its retried
    /// flag), its extraction failures replace its seeded entry, and its
    /// completion records are filed under it; a defect it reports is latched
    /// unless one already is. An abnormal exit is filed as a failure and
    /// leaves nothing else. When a defect is latched, it ends the run: the
    /// returned error names it and the seats joined so far, and the latch is
    /// spent.
    pub fn record(&mut self, name: AgentName, ret: SeatReturn) -> (abort: Option<MagiError>)
        requires
            is_agent_set(old(self).join.retried@),
        ensures
            is_agent_set(final(self).join.retried@),
            final(self).models == old(self).models,
            final(self).joined@ == old(self).joined@.push(name),
            old(self).counts_match() ==> final(self).counts_match(),
            old(self).keyed_by_dispatched() && old(self).models.get(name) is Some
                ==> final(self).keyed_by_dispatched(),
            forall|a: AgentName|
                #![trigger final(self).extraction_failures.get(a)]
                a != name ==> final(self).extraction_failures.get(a) == old(
                    self,
                ).extraction_failures.get(a),
            forall|a: AgentName|
                #![trigger final(self).completions.get(a)]
                a != name ==> final(self).completions.get(a) == old(self).completions.get(a),
            match ret {
                SeatReturn::Finished { result, retried, failures, records, defect } => {
                    &&& final(self).extraction_failures.get(name) == Some(failures)
                    &&& final(self).completions.get(name) == Some(records)
                    &&& match result {
                        Ok(o) => final(self).join.successful@ == old(self).join.successful@.push(o)
                            && final(self).join.failed@ == old(self).join.failed@,
                        Err(r) => final(self).join.failed@ == old(self).join.failed@.push(
                            (name, r),
                        ) && final(self).join.successful@ == old(self).join.successful@,
                    }
                    &&& forall|x: AgentName|
                        final(self).join.retried@.contains(x) <==> (old(
                            self,
                        ).join.retried@.contains(x) || (retried && x == name))
                    &&& (abort is Some <==> (old(self).crate_defect is Some || defect is Some))
                },
                SeatReturn::Panicked(t) => {
                    &&& final(self).extraction_failures.get(name) == old(
                        self,
                    ).extraction_failures.get(name)
                    &&& final(self).completions.get(name) == old(self).completions.get(name)
                    &&& final(self).join.successful@ == old(self).join.successful@
                    &&& final(self).join.failed@.len() == old(self).join.failed@.len() + 1
                    &&& final(self).join.failed@.last().0 == name
                    &&& final(self).join.failed@.last().1@ == "panic: "@ + t@
                    &&& forall|x: AgentName|
                        final(self).join.retried@.contains(x) <==> old(
                            self,
                        ).join.retried@.contains(x)
                    &&& (abort is Some <==> old(self).crate_defect is Some)
                },
            },
            final(self).crate_defect is None,
            abort matches Some(e) ==> (e matches MagiError::CrateDefect { agent, model, .. } && (
            match (old(self).crate_defect, ret) {
                (Some(d), _) => agent == d.agent && model == d.model,
                (None, SeatReturn::Finished { defect: Some(d), .. }) => agent == d.agent && model
                    == d.model,
                _ => false,
            })),
            abort matches Some(e) ==> (e matches MagiError::CrateDefect {
                agent,
                joined_before_abort,
                ..
            } && forall|x: AgentName|
                joined_before_abort@.contains(x) <==> (x != agent && ((exists|i: int|
                    0 <= i < final(self).join.successful@.len()
                        && #[trigger] final(self).join.successful@[i].agent == x) || (exists|
                    j: int,
                | 0 <= j < final(self).join.failed@.len() && #[trigger] final(self).join.failed@[j].0
                    == x)))),
    {
        let ghost pre_failed = self.join.failed@;
        match ret {
            SeatReturn::Finished { result, retried, failures, records, defect } => {
                match result {
                    Ok(o) => self.join.record(name, JoinedSeat::Answered(o), retried),
                    Err(r) => self.join.record(name, JoinedSeat::Failed(r), retried),
                }
                self.extraction_failures.set(name, failures);
                self.completions.set(name, records);
                if self.crate_defect.is_none() {
                    self.crate_defect = defect;
                }
            },
            SeatReturn::Panicked(t) => {
                self.join.record(name, JoinedSeat::Panicked(t), false);
            },
        }
        self.joined.push(name);
        let mut latched: Option<CrateDefectRecord> = None;
        std::mem::swap(&mut latched, &mut self.crate_defect);
        match latched {
            Some(d) => {
                let joined = joined_so_far(self.join.successful.as_slice(), self.join.failed.as_slice());
                let ghost dagent = d.agent;
                let e = crate_defect_error(d, &joined);
                proof {
                    let pred = is_not(dagent);
                    assert(others(joined@, dagent) == joined@.filter(pred));
                    assert forall|x: AgentName| others(joined@, dagent).contains(x) <==> (x != dagent
                        && joined@.contains(x)) by {
                        let f = joined@.filter(pred);
                        if f.contains(x) {
                            joined@.lemma_filter_contains_rev(pred, x);
                            let k = choose|k: int| 0 <= k < f.len() && f[k] == x;
                            joined@.lemma_filter_pred(pred, k);
                        }
                        if joined@.contains(x) && x != dagent {
                            let k = choose|k: int| 0 <= k < joined@.len() && joined@[k] == x;
                            joined@.lemma_filter_contains(pred, k);
                        }
                    }
                    assert(e matches MagiError::CrateDefect { agent, .. } && agent == dagent);
                    assert(e matches MagiError::CrateDefect { joined_before_abort, .. }
                        && joined_before_abort@ == others(joined@, dagent));
                    assert forall|x: AgentName| others(joined@, dagent).contains(x) <==> (x != dagent
                        && ((exists|i: int|
                        0 <= i < self.join.successful@.len() && #[trigger] self.join.successful@[i].agent
                            == x) || (exists|j: int|
                        0 <= j < self.join.failed@.len() && #[trigger] self.join.failed@[j].0 == x))) by {
                        assert(joined@.contains(x) <==> ((exists|i: int|
                            0 <= i < self.join.successful@.len()
                                && #[trigger] self.join.successful@[i].agent == x) || (exists|j: int|
                            0 <= j < self.join.failed@.len() && #[trigger] self.join.failed@[j].0
                                == x)));
                    }
                }
                Some(e)
            },
            None => None,
        }
    }

    /// Ends the join loop: fewer verdicts than `min_agents` is
    /// `InsufficientAgents`; otherwise the outcome carries the verdicts,
    /// failures and retried set, a rotation entry per dispatched seat (its
    /// configured model, no hops), the extraction failures and completion
    /// records per seat, and an empty pool-eligibility list per dispatched
    /// seat (there is no pool on this path).
    pub fn finish<R>(self, min_agents: usize) -> (r: Result<DispatchOutcome<R>, MagiError>)
        ensures
            self.join.successful@.len() < min_agents ==> r == Err::<DispatchOutcome<R>, MagiError>(
                MagiError::InsufficientAgents {
                    succeeded: self.join.successful@.len() as usize,
                    required: min_agents,
                },
            ),
            self.join.successful@.len() >= min_agents ==> (r matches Ok(o) && {
                &&& o.successful@ == self.join.successful@
                &&& o.failed@ == self.join.failed@
                &&& o.retried@ == self.join.retried@
                &&& o.extraction_failures@ == self.extraction_failures.entries()
                &&& o.completions@ == self.completions.entries()
                &&& o.rotations@.len() == slot_keys(self.models).len()
                &&& forall|i: int| 0 <= i < o.rotations@.len() ==> {
                    &&& (#[trigger] o.rotations@[i]).0 == slot_keys(self.models)[i]
                    &&& Some(o.rotations@[i].1.model_configured@) == match self.models.get(
                        o.rotations@[i].0,
                    ) {
                        Some(m) => Some(m@),
                        None => None,
                    }
                    &&& o.rotations@[i].1.model_used@ == o.rotations@[i].1.model_configured@
                    &&& o.rotations@[i].1.chain@.len() == 0
                    &&& !o.rotations@[i].1.ran_unmeasured
                }
                &&& o.pool_eligibility@.len() == slot_keys(self.models).len()
                &&& forall|i: int| 0 <= i < o.pool_eligibility@.len() ==> (
                #[trigger] o.pool_eligibility@[i]).0 == slot_keys(self.models)[i]
                    && o.pool_eligibility@[i].1@.len() == 0
            }),
    {
        match check_quorum(self.join.successful.len(), min_agents) {
            Err(e) => return Err(e),
            Ok(()) => {},
        }
        let ghost keys = slot_keys(self.models);
        let ghost model_slots = self.models;
        let models = self.models.into_entries();
        assert(models@.map_values(|p: (AgentName, String)| p.0) =~= keys);
        let mut pool: Vec<(AgentName, Vec<R>)> = Vec::new();
        let mut i: usize = 0;
        while i < models.len()
            invariant
                i <= models.len(),
                models@ == model_slots.entries(),
                keys == models@.map_values(|p: (AgentName, String)| p.0),
                pool.len() == i,
                forall|k: int| 0 <= k < i ==> (#[trigger] pool@[k]).0 == keys[k] && pool@[k].1@.len()
                    == 0,
            decreases models.len() - i,
        {
            pool.push((models[i].0, Vec::new()));
            i = i + 1;
        }
        let rotations = default_rotations(models);
        Ok(
            DispatchOutcome {
                successful: self.join.successful,
                failed: self.join.failed,
                retried: self.join.retried,
                rotations,
                extraction_failures: self.extraction_failures.into_entries(),
                completions: self.completions.into_entries(),
                pool_eligibility: pool,
            },
        )
    }
}

} // verus!
