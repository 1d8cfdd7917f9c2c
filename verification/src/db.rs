//! Audit trail records and the decisions taken around the SQLite store (which the
//! application opens and queries): row identifiers, search patterns, update checks,
//! history clearance and the impact report's counters.

use vstd::prelude::*;
use vstd::string::*;
use crate::text::trimmed;
use crate::text::{trim, same_text};
use crate::drivers::{new_uuid, uuid_v4_text};
use crate::roi::RoiCounters;

verus! {

/// One row of the `audit_logs` table.
#[derive(Debug, Clone)]
pub struct AuditLogEntry {
    pub id: String,
    pub timestamp: String,
    pub intent: String,
    pub final_command: String,
    pub risk_level: String,
    /// Auto-Approved | HITL-Approved | Rejected | Blocked | HITL-Pending
    pub decision: String,
    pub conflict_resolution: Option<String>,
    pub payload_preview: Option<String>,
    pub agent_logs: Option<String>,
    pub policy_citation: Option<String>,
    pub ai_duration_ms: i64,
}

/// The fields of a new Judge decision to insert.
#[derive(Debug, Clone)]
pub struct NewAuditLog {
    pub id: String,
    pub intent: String,
    pub final_command: String,
    pub risk_level: String,
    pub decision: String,
    pub conflict_resolution: String,
    pub payload_preview: String,
    pub agent_logs: String,
    pub policy_citation: String,
    pub ai_duration_ms: i64,
}

/// The identifier a new row is stored under: the entry's own id, or a fresh UUID when it
/// has none.
pub fn audit_row_id(entry: &NewAuditLog) -> (r: String)
    ensures
        entry.id@.len() > 0 ==> r@ == entry.id@,
        entry.id@.len() == 0 ==> uuid_v4_text(r@),
{
    if entry.id.as_str().is_empty() {
        new_uuid()
    } else {
        entry.id.clone()
    }
}

/// The `LIKE` pattern for a free-text search, or `None` when the query is blank (the search
/// then returns the plain history).
pub open spec fn search_pattern_of(query: Seq<char>) -> Option<Seq<char>> {
    if trimmed(query).len() == 0 {
        None
    } else {
        Some("%"@ + trimmed(query) + "%"@)
    }
}

/// Builds the `LIKE` pattern for a free-text audit search.
pub fn search_pattern(query: &str) -> (r: Option<String>)
    ensures
        match r {
            Some(p) => search_pattern_of(query@) == Some(p@),
            None => search_pattern_of(query@).is_none(),
        },
{
    let t = trim(query);
    if t.as_str().is_empty() {
        None
    } else {
        let mut p = "%".to_string();
        p.append(t.as_str());
        p.append("%");
        Some(p)
    }
}

/// Checks the outcome of an `UPDATE` on the row `id`: touching no row is an error.
pub fn update_outcome(id: &str, rows_affected: u64) -> (r: Result<u64, String>)
    ensures
        rows_affected == 0 <==> r is Err,
        r matches Ok(n) ==> n == rows_affected,
        r matches Err(m) ==> m@ == "No audit_logs row for id "@ + id@,
{
    if rows_affected == 0 {
        let mut m = "No audit_logs row for id ".to_string();
        m.append(id);
        Err(m)
    } else {
        Ok(rows_affected)
    }
}

/// Whether a history row clears an action for execution: it names the action or the
/// command, and was approved (automatically or by a human).
pub open spec fn row_clears(e: AuditLogEntry, action_id: Seq<char>, command: Seq<char>) -> bool {
    (e.id@ == action_id || e.final_command@ == command) && (e.decision@ == "HITL-Approved"@ || e.decision@
        == "Auto-Approved"@)
}

/// Whether some row of the recent history clears the action or command.
pub fn history_clears(history: &Vec<AuditLogEntry>, action_id: &str, command: &str) -> (r: bool)
    ensures
        r == exists|i: int| 0 <= i < history@.len() && row_clears(#[trigger] history@[i], action_id@, command@),
{
    let mut i: usize = 0;
    while i < history.len()
        invariant
            i <= history@.len(),
            forall|j: int| 0 <= j < i ==> !row_clears(#[trigger] history@[j], action_id@, command@),
        decreases history@.len() - i,
    {
        let e = &history[i];
        if (same_text(e.id.as_str(), action_id) || same_text(e.final_command.as_str(), command)) && (same_text(
            e.decision.as_str(),
            "HITL-Approved",
        ) || same_text(e.decision.as_str(), "Auto-Approved")) {
            proof {
                assert(row_clears(history@[i as int], action_id@, command@));
            }
            return true;
        }
        i = i + 1;
    }
    false
}

/// The counting part of the impact report.
#[derive(Debug, Clone, Copy, PartialEq, Eq, Structural)]
pub struct ImpactCounts {
    pub intents_processed: u64,
    pub auto_approved: u64,
    pub hitl_pending_or_resolved: u64,
    pub blocked: u64,
    pub critical_risks_averted: u64,
}

/// Minutes of engineering time each Low-risk auto-approval saves in the impact report.
pub const MINUTES_PER_AUTO_APPROVE: u64 = 15;

/// Reads the aggregate row of the impact query (SQL counts, `NULL` sums read as zero).
pub fn impact_from_row(
    intents_processed: i64,
    auto_approved: Option<i64>,
    hitl_count: Option<i64>,
    blocked: Option<i64>,
    critical_averted: Option<i64>,
) -> (r: ImpactCounts)
    ensures
        r.intents_processed == intents_processed as u64,
        r.auto_approved == (match auto_approved { Some(n) => n, None => 0 }) as u64,
        r.hitl_pending_or_resolved == (match hitl_count { Some(n) => n, None => 0 }) as u64,
        r.blocked == (match blocked { Some(n) => n, None => 0 }) as u64,
        r.critical_risks_averted == (match critical_averted { Some(n) => n, None => 0 }) as u64,
{
    let a: i64 = match auto_approved { Some(n) => n, None => 0 };
    let h: i64 = match hitl_count { Some(n) => n, None => 0 };
    let b: i64 = match blocked { Some(n) => n, None => 0 };
    let c: i64 = match critical_averted { Some(n) => n, None => 0 };
    ImpactCounts {
        intents_processed: intents_processed as u64,
        auto_approved: a as u64,
        hitl_pending_or_resolved: h as u64,
        blocked: b as u64,
        critical_risks_averted: c as u64,
    }
}

/// The larger of two counts.
pub open spec fn max_u64(a: u64, b: u64) -> u64 {
    if a >= b { a } else { b }
}

/// The report's counters reconciled with the live ROI counters: each shared counter is
/// the larger of the two.
pub fn merge_with_roi(report: ImpactCounts, roi: RoiCounters) -> (r: ImpactCounts)
    ensures
        r.intents_processed == max_u64(report.intents_processed, roi.intents_processed),
        r.auto_approved == max_u64(report.auto_approved, roi.auto_approved),
        r.critical_risks_averted == max_u64(report.critical_risks_averted, roi.critical_risks_averted),
        r.hitl_pending_or_resolved == report.hitl_pending_or_resolved,
        r.blocked == report.blocked,
{
    ImpactCounts {
        intents_processed: if report.intents_processed >= roi.intents_processed {
            report.intents_processed
        } else {
            roi.intents_processed
        },
        auto_approved: if report.auto_approved >= roi.auto_approved {
            report.auto_approved
        } else {
            roi.auto_approved
        },
        critical_risks_averted: if report.critical_risks_averted >= roi.critical_risks_averted {
            report.critical_risks_averted
        } else {
            roi.critical_risks_averted
        },
        ..report
    }
}

/// Engineering minutes saved by the report's auto-approvals.
pub fn minutes_saved(report: ImpactCounts) -> (r: u128)
    ensures
        r == report.auto_approved * MINUTES_PER_AUTO_APPROVE,
{
    report.auto_approved as u128 * MINUTES_PER_AUTO_APPROVE as u128
}

/// Only approved rows clear an execution: a row clears an action or command exactly when it
/// names the action id or the command and its decision is "HITL-Approved" or
/// "Auto-Approved"; a rejected, blocked or pending row never does. Each auto-approval in a
/// report is worth 15 engineering minutes, and a blank search query gives no pattern.
pub proof fn law_history_clearance(e: AuditLogEntry, action_id: Seq<char>, command: Seq<char>, report: ImpactCounts, query: Seq<char>)
    ensures
        row_clears(e, action_id, command) <==> ((e.id@ == action_id || e.final_command@ == command)
            && (e.decision@ == "HITL-Approved"@ || e.decision@ == "Auto-Approved"@)),
        e.decision@ == "Rejected"@ || e.decision@ == "Blocked"@ || e.decision@ == "HITL-Pending"@
            ==> !row_clears(e, action_id, command),
        report.auto_approved * MINUTES_PER_AUTO_APPROVE == report.auto_approved * 15,
        trimmed(query).len() == 0 <==> search_pattern_of(query) is None,
        trimmed(query).len() > 0 ==> search_pattern_of(query) == Some("%"@ + trimmed(query) + "%"@),
{
    reveal_strlit("Rejected");
    reveal_strlit("Blocked");
    reveal_strlit("HITL-Pending");
    reveal_strlit("HITL-Approved");
    reveal_strlit("Auto-Approved");
    if e.decision@ == "Rejected"@ || e.decision@ == "Blocked"@ || e.decision@ == "HITL-Pending"@ {
        assert(e.decision@ != "HITL-Approved"@) by {
            if e.decision@ == "Rejected"@ { assert("Rejected"@.len() != "HITL-Approved"@.len()); }
            if e.decision@ == "Blocked"@ { assert("Blocked"@.len() != "HITL-Approved"@.len()); }
            if e.decision@ == "HITL-Pending"@ { assert("HITL-Pending"@[5] != "HITL-Approved"@[5]); }
        }
        assert(e.decision@ != "Auto-Approved"@) by {
            if e.decision@ == "Rejected"@ { assert("Rejected"@.len() != "Auto-Approved"@.len()); }
            if e.decision@ == "Blocked"@ { assert("Blocked"@.len() != "Auto-Approved"@.len()); }
            if e.decision@ == "HITL-Pending"@ { assert("HITL-Pending"@.len() != "Auto-Approved"@.len()); }
        }
    }
}

} // verus!
