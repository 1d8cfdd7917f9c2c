//! Return-on-investment counters: intents handled, risks mitigated, auto-approvals and the
//! engineering time they saved. Time is kept in milliseconds; counters saturate at
//! `u64::MAX` instead of wrapping.

use vstd::prelude::*;

verus! {

/// Assumed human handling time per network intent, in milliseconds (45 minutes).
pub const HUMAN_BASELINE_MS: u64 = 2_700_000;

/// Time saved by one Low-risk auto-approval, in milliseconds (15 minutes).
pub const AUTO_APPROVE_SAVED_MS: u64 = 900_000;

/// A snapshot of the counters.
#[derive(Debug, Clone, Copy, PartialEq, Eq, Structural)]
pub struct RoiCounters {
    pub risks_mitigated: u64,
    pub intents_processed: u64,
    pub total_ai_ms: u64,
    pub auto_approved: u64,
    pub critical_risks_averted: u64,
    /// Engineering time saved, in milliseconds.
    pub saved_ms: u64,
}

/// `a + b`, or `u64::MAX` when that does not fit.
pub open spec fn sat_add(a: u64, b: int) -> u64 {
    if a + b > u64::MAX {
        u64::MAX
    } else {
        (a + b) as u64
    }
}

/// Time saved on one intent that the pipeline handled in `ai_ms` milliseconds.
pub open spec fn intent_saving(ai_ms: u64) -> int {
    if ai_ms < HUMAN_BASELINE_MS {
        HUMAN_BASELINE_MS - ai_ms
    } else {
        0
    }
}

/// The counters after one processed intent.
pub open spec fn after_intent(c: RoiCounters, ai_ms: u64, blocked: bool) -> RoiCounters {
    RoiCounters {
        intents_processed: sat_add(c.intents_processed, 1),
        total_ai_ms: sat_add(c.total_ai_ms, ai_ms as int),
        risks_mitigated: if blocked { sat_add(c.risks_mitigated, 1) } else { c.risks_mitigated },
        saved_ms: sat_add(c.saved_ms, intent_saving(ai_ms)),
        ..c
    }
}

/// The counters after one auto-approval.
pub open spec fn after_auto_approve(c: RoiCounters) -> RoiCounters {
    RoiCounters {
        auto_approved: sat_add(c.auto_approved, 1),
        saved_ms: sat_add(c.saved_ms, AUTO_APPROVE_SAVED_MS as int),
        ..c
    }
}

/// The counters after a blocked command.
pub open spec fn after_block(c: RoiCounters) -> RoiCounters {
    RoiCounters { risks_mitigated: sat_add(c.risks_mitigated, 1), ..c }
}

/// The counters after a blocked High or Critical command.
pub open spec fn after_critical_block(c: RoiCounters) -> RoiCounters {
    RoiCounters {
        risks_mitigated: sat_add(c.risks_mitigated, 1),
        critical_risks_averted: sat_add(c.critical_risks_averted, 1),
        ..c
    }
}

/// The live ROI counters.
pub struct RoiTracker {
    pub counters: RoiCounters,
}

impl RoiTracker {
    /// All counters at zero.
    pub fn new() -> (r: Self)
        ensures
            r.counters == (RoiCounters {
                risks_mitigated: 0,
                intents_processed: 0,
                total_ai_ms: 0,
                auto_approved: 0,
                critical_risks_averted: 0,
                saved_ms: 0,
            }),
    {
        RoiTracker {
            counters: RoiCounters {
                risks_mitigated: 0,
                intents_processed: 0,
                total_ai_ms: 0,
                auto_approved: 0,
                critical_risks_averted: 0,
                saved_ms: 0,
            },
        }
    }

    /// Records one processed intent, its pipeline time, and whether it was blocked.
    pub fn record_intent(&mut self, ai_duration_ms: u64, blocked: bool)
        ensures
            final(self).counters == after_intent(old(self).counters, ai_duration_ms, blocked),
    {
        let c = self.counters;
        let saving: u64 = if ai_duration_ms < HUMAN_BASELINE_MS { HUMAN_BASELINE_MS - ai_duration_ms } else { 0 };
        self.counters = RoiCounters {
            intents_processed: c.intents_processed.saturating_add(1),
            total_ai_ms: c.total_ai_ms.saturating_add(ai_duration_ms),
            risks_mitigated: if blocked { c.risks_mitigated.saturating_add(1) } else { c.risks_mitigated },
            saved_ms: c.saved_ms.saturating_add(saving),
            ..c
        };
    }

    /// Records one Low-risk auto-approval.
    pub fn record_auto_approve(&mut self)
        ensures
            final(self).counters == after_auto_approve(old(self).counters),
    {
        let c = self.counters;
        self.counters = RoiCounters {
            auto_approved: c.auto_approved.saturating_add(1),
            saved_ms: c.saved_ms.saturating_add(AUTO_APPROVE_SAVED_MS),
            ..c
        };
    }

    /// Records a command refused by the linter.
    pub fn record_block(&mut self)
        ensures
            final(self).counters == after_block(old(self).counters),
    {
        let c = self.counters;
        self.counters = RoiCounters { risks_mitigated: c.risks_mitigated.saturating_add(1), ..c };
    }

    /// Records a refused High or Critical command.
    pub fn record_critical_block(&mut self)
        ensures
            final(self).counters == after_critical_block(old(self).counters),
    {
        let c = self.counters;
        self.counters = RoiCounters {
            risks_mitigated: c.risks_mitigated.saturating_add(1),
            critical_risks_averted: c.critical_risks_averted.saturating_add(1),
            ..c
        };
    }

    /// The current counters.
    pub fn snapshot(&self) -> (r: RoiCounters)
        ensures
            r == self.counters,
    {
        self.counters
    }
}

/// Every averted critical risk is also a mitigated risk: no recording step lets the
/// critical count overtake the mitigated count.
pub proof fn law_critical_within_mitigated(c: RoiCounters, ai_ms: u64, blocked: bool)
    requires
        c.critical_risks_averted <= c.risks_mitigated,
    ensures
        after_intent(c, ai_ms, blocked).critical_risks_averted <= after_intent(c, ai_ms, blocked).risks_mitigated,
        after_auto_approve(c).critical_risks_averted <= after_auto_approve(c).risks_mitigated,
        after_block(c).critical_risks_averted <= after_block(c).risks_mitigated,
        after_critical_block(c).critical_risks_averted <= after_critical_block(c).risks_mitigated,
{
}

/// Counters never go down, and each recording step adds exactly one to its own counter
/// (below saturation).
pub proof fn law_counters_monotone(c: RoiCounters, ai_ms: u64, blocked: bool)
    ensures
        after_intent(c, ai_ms, blocked).intents_processed >= c.intents_processed,
        after_intent(c, ai_ms, blocked).saved_ms >= c.saved_ms,
        after_auto_approve(c).saved_ms >= c.saved_ms,
        after_block(c).risks_mitigated >= c.risks_mitigated,
        c.intents_processed < u64::MAX ==> after_intent(c, ai_ms, blocked).intents_processed == c.intents_processed + 1,
        c.auto_approved < u64::MAX ==> after_auto_approve(c).auto_approved == c.auto_approved + 1,
        c.risks_mitigated < u64::MAX ==> after_block(c).risks_mitigated == c.risks_mitigated + 1,
        c.critical_risks_averted < u64::MAX ==> after_critical_block(c).critical_risks_averted
            == c.critical_risks_averted + 1,
{
}

/// One recording step.
pub enum RoiEvent {
    /// A processed intent: its pipeline time and whether it was blocked.
    Intent(u64, bool),
    AutoApprove,
    Block,
    CriticalBlock,
}

/// The counters after one recording step.
pub open spec fn after_event(c: RoiCounters, e: RoiEvent) -> RoiCounters {
    match e {
        RoiEvent::Intent(ms, blocked) => after_intent(c, ms, blocked),
        RoiEvent::AutoApprove => after_auto_approve(c),
        RoiEvent::Block => after_block(c),
        RoiEvent::CriticalBlock => after_critical_block(c),
    }
}

/// The counters after a sequence of recording steps.
pub open spec fn replay(c: RoiCounters, evs: Seq<RoiEvent>) -> RoiCounters
    decreases evs.len(),
{
    if evs.len() == 0 {
        c
    } else {
        after_event(replay(c, evs.drop_last()), evs.last())
    }
}

/// All counters at zero.
pub open spec fn zero_counters() -> RoiCounters {
    RoiCounters {
        risks_mitigated: 0,
        intents_processed: 0,
        total_ai_ms: 0,
        auto_approved: 0,
        critical_risks_averted: 0,
        saved_ms: 0,
    }
}

/// How many steps of `evs` satisfy `p`.
pub open spec fn count_steps(evs: Seq<RoiEvent>, p: spec_fn(RoiEvent) -> bool) -> nat
    decreases evs.len(),
{
    if evs.len() == 0 {
        0
    } else {
        count_steps(evs.drop_last(), p) + if p(evs.last()) { 1nat } else { 0nat }
    }
}

/// The sum of `f` over the steps of `evs`.
pub open spec fn sum_steps(evs: Seq<RoiEvent>, f: spec_fn(RoiEvent) -> nat) -> nat
    decreases evs.len(),
{
    if evs.len() == 0 {
        0
    } else {
        sum_steps(evs.drop_last(), f) + f(evs.last())
    }
}

/// A step that mitigates a risk: a block, a critical block, or a blocked intent.
pub open spec fn mitigates(e: RoiEvent) -> bool {
    e matches RoiEvent::Block || e matches RoiEvent::CriticalBlock || e matches RoiEvent::Intent(_, true)
}

/// Pipeline time of a step (zero unless it is an intent).
pub open spec fn step_ms(e: RoiEvent) -> nat {
    match e {
        RoiEvent::Intent(ms, _) => ms as nat,
        _ => 0,
    }
}

/// Engineering time a step saves.
pub open spec fn step_saving(e: RoiEvent) -> nat {
    match e {
        RoiEvent::Intent(ms, _) => intent_saving(ms) as nat,
        RoiEvent::AutoApprove => AUTO_APPROVE_SAVED_MS as nat,
        _ => 0,
    }
}

/// `x`, capped at `u64::MAX`.
pub open spec fn capped(x: nat) -> u64 {
    if x > u64::MAX { u64::MAX } else { x as u64 }
}

/// From zero, the counters after any sequence of recording steps (of fewer than `u64::MAX`
/// steps) count exactly those steps: intents, auto-approvals, critical blocks, and mitigated
/// risks (blocks, critical blocks and blocked intents); the times are the sums of the steps'
/// times, capped at `u64::MAX`; and averted critical risks never exceed mitigated risks.
pub proof fn law_replay_counts(evs: Seq<RoiEvent>)
    requires
        evs.len() < u64::MAX,
    ensures
        replay(zero_counters(), evs).intents_processed == count_steps(evs, |e: RoiEvent| e is Intent),
        replay(zero_counters(), evs).auto_approved == count_steps(evs, |e: RoiEvent| e is AutoApprove),
        replay(zero_counters(), evs).critical_risks_averted == count_steps(evs, |e: RoiEvent| e is CriticalBlock),
        replay(zero_counters(), evs).risks_mitigated == count_steps(evs, |e: RoiEvent| mitigates(e)),
        replay(zero_counters(), evs).total_ai_ms == capped(sum_steps(evs, |e: RoiEvent| step_ms(e))),
        replay(zero_counters(), evs).saved_ms == capped(sum_steps(evs, |e: RoiEvent| step_saving(e))),
        replay(zero_counters(), evs).critical_risks_averted <= replay(zero_counters(), evs).risks_mitigated,
    decreases evs.len(),
{
    lemma_counts_bounded(evs);
    if evs.len() > 0 {
        law_replay_counts(evs.drop_last());
        lemma_counts_bounded(evs.drop_last());
    }
}

proof fn lemma_counts_bounded(evs: Seq<RoiEvent>)
    ensures
        count_steps(evs, |e: RoiEvent| e is Intent) <= evs.len(),
        count_steps(evs, |e: RoiEvent| e is AutoApprove) <= evs.len(),
        count_steps(evs, |e: RoiEvent| e is CriticalBlock) <= count_steps(evs, |e: RoiEvent| mitigates(e)),
        count_steps(evs, |e: RoiEvent| mitigates(e)) <= evs.len(),
    decreases evs.len(),
{
    if evs.len() > 0 {
        lemma_counts_bounded(evs.drop_last());
    }
}

/// Time saved: a processed intent saves the 45-minute human baseline (2 700 000 ms) less the
/// pipeline's own time, nothing when the pipeline took longer; an auto-approval saves 15
/// minutes (900 000 ms); blocks save no time. Below saturation.
pub proof fn law_time_saved(c: RoiCounters, ai_ms: u64, blocked: bool)
    requires
        c.saved_ms <= u64::MAX - 2_700_000,
    ensures
        ai_ms < 2_700_000 ==> after_intent(c, ai_ms, blocked).saved_ms == c.saved_ms + 2_700_000 - ai_ms,
        ai_ms >= 2_700_000 ==> after_intent(c, ai_ms, blocked).saved_ms == c.saved_ms,
        after_auto_approve(c).saved_ms == c.saved_ms + 900_000,
        after_block(c).saved_ms == c.saved_ms,
        after_critical_block(c).saved_ms == c.saved_ms,
        blocked ==> after_intent(c, ai_ms, blocked).risks_mitigated == sat_add(c.risks_mitigated, 1),
        !blocked ==> after_intent(c, ai_ms, blocked).risks_mitigated == c.risks_mitigated,
{
}

} // verus!
