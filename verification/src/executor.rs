//! Mock northbound executor: the decisions of a simulated push and of the closed-loop
//! verification that follows it. The staged console feed, its delays and the telemetry
//! readings are driven by the application, which asks this module what to print and what
//! the readings mean.

use vstd::prelude::*;
use vstd::string::*;
use crate::text::{text_lines, views, decimal};
use crate::text::{lines_of, decimal_string};
use crate::adapters::{InventoryDevice, DeviceView, VendorBrand, VendorPayload, inventory, answers_query, first_index,
    target_of, find_device, resolve_target};
use crate::text::lowercase;
use crate::drivers::{now_rfc3339, rfc3339_utc};

verus! {

/// One line of the live console feed.
#[derive(Debug, Clone)]
pub struct ConsoleLine {
    pub ts: String,
    /// info | apply | ok | warn | error
    pub level: String,
    pub message: String,
}

/// A request to execute an approved command.
#[derive(Debug, Clone)]
pub struct ExecutionRequest {
    pub action_id: String,
    pub command: String,
    pub device_id: Option<String>,
}

/// Outcome of the post-execution check.
#[derive(Debug, Clone, Copy, PartialEq, Eq, Structural)]
pub enum ValidationStatus {
    Verified,
    DriftDetected,
    Pending,
    Skipped,
}

/// The post-execution check: device health before and after the push.
#[derive(Debug, Clone)]
pub struct VerificationResult {
    pub status: ValidationStatus,
    pub device_id: String,
    pub before_score: u8,
    pub after_score: u8,
    pub message: String,
    /// Rollback or refinement plan, when the health dropped.
    pub follow_up: Option<String>,
}

/// What an execution did.
#[derive(Debug)]
pub struct ExecutionReport {
    pub execution_id: String,
    pub action_id: String,
    pub device: InventoryDevice,
    pub vendor_payload: VendorPayload,
    pub console: Vec<ConsoleLine>,
    pub success: bool,
    pub verification: VerificationResult,
}

/// A console line stamped with the current time.
pub fn console_line(level: &str, message: String) -> (r: ConsoleLine)
    ensures
        r.level@ == level@,
        r.message@ == message@,
        rfc3339_utc(r.ts@),
{
    ConsoleLine { ts: now_rfc3339(), level: level.to_string(), message }
}

/// The device an execution targets: the device the request names when the inventory knows
/// it, else the one the command itself names (see [`target_of`]).
pub fn execution_device(req: &ExecutionRequest) -> (r: InventoryDevice)
    ensures
        match req.device_id {
            Some(id) => {
                let q = lowercase(id@);
                &&& (exists|i: int| 0 <= i < 6 && answers_query(#[trigger] inventory()[i], q)) ==> exists|i: int|
                    first_index(inventory(), |x: DeviceView| answers_query(x, q), i) && r@ == inventory()[i]
                &&& (forall|i: int| 0 <= i < 6 ==> !answers_query(#[trigger] inventory()[i], q)) ==> r@ == target_of(
                    req.command@,
                )
            },
            None => r@ == target_of(req.command@),
        },
{
    match &req.device_id {
        Some(id) => match find_device(id.as_str()) {
            Some(d) => d,
            None => resolve_target(req.command.as_str()),
        },
        None => resolve_target(req.command.as_str()),
    }
}

/// The transport a vendor's payload is sent over, as the console names it.
pub open spec fn proto_label_of(v: VendorBrand) -> Seq<char> {
    match v {
        VendorBrand::CiscoIosXe => "XML RPC (NETCONF)"@,
        VendorBrand::HuaweiVrp => "XML NETCONF (VRP)"@,
        VendorBrand::NokiaSros => "JSON-RPC / gNMI"@,
    }
}

/// Names the transport of a vendor's payload.
pub fn proto_label(v: VendorBrand) -> (r: &'static str)
    ensures
        r@ == proto_label_of(v),
{
    match v {
        VendorBrand::CiscoIosXe => "XML RPC (NETCONF)",
        VendorBrand::HuaweiVrp => "XML NETCONF (VRP)",
        VendorBrand::NokiaSros => "JSON-RPC / gNMI",
    }
}

/// The console message that opens a session.
pub fn connecting_message(d: &InventoryDevice) -> (r: String)
    ensures
        r@ == "[DEBUG] Connecting to "@ + d.hostname@ + " ("@ + d.mgmt_ip@ + ")…"@,
{
    let mut m = "[DEBUG] Connecting to ".to_string();
    m.append(d.hostname.as_str());
    m.append(" (");
    m.append(d.mgmt_ip.as_str());
    m.append(")…");
    m
}

/// The console message announcing the payload transport.
pub fn sending_message(v: VendorBrand) -> (r: String)
    ensures
        r@ == "[DEBUG] Sending "@ + proto_label_of(v) + "…"@,
{
    let mut m = "[DEBUG] Sending ".to_string();
    m.append(proto_label(v));
    m.append("…");
    m
}

/// The echo of the payload's `i`-th line.
pub open spec fn echo_line(i: nat, line: Seq<char>) -> Seq<char> {
    "  ▸ ["@ + decimal(i) + "] "@ + line
}

/// The echo of the first six lines of a payload body.
pub open spec fn payload_echo_of(body: Seq<char>) -> Seq<Seq<char>> {
    let ls = text_lines(body);
    let n = if ls.len() < 6 { ls.len() } else { 6 };
    Seq::new(n, |i: int| echo_line(i as nat, ls[i]))
}

/// Echoes the first six lines of a payload body, numbered from zero.
pub fn payload_echo(body: &str) -> (r: Vec<String>)
    ensures
        views(r@) == payload_echo_of(body@),
{
    let ls = lines_of(body);
    let ghost lv = views(ls@);
    let n: usize = if ls.len() < 6 { ls.len() } else { 6 };
    let mut out: Vec<String> = Vec::new();
    let mut i: usize = 0;
    while i < n
        invariant
            i <= n <= ls@.len(),
            n == (if ls@.len() < 6 { ls@.len() } else { 6 }),
            lv == views(ls@),
            lv == text_lines(body@),
            views(out@) == Seq::new(i as nat, |k: int| echo_line(k as nat, lv[k])),
        decreases n - i,
    {
        let mut m = "  ▸ [".to_string();
        m.append(decimal_string(i as u64).as_str());
        m.append("] ");
        m.append(ls[i].as_str());
        let ghost before = views(out@);
        let ghost mv = m@;
        out.push(m);
        proof {
            assert(lv[i as int] == ls@[i as int]@);
            assert(views(out@) =~= before.push(mv));
            assert(mv == echo_line(i as nat, lv[i as int]));
            assert(views(out@) =~= Seq::new((i + 1) as nat, |k: int| echo_line(k as nat, lv[k])));
        }
        i = i + 1;
    }
    out
}

/// A transaction number in 1000..=9999 drawn from a random 128-bit value.
pub fn transaction_number(x: u128) -> (r: u32)
    ensures
        r == x % 9000 + 1000,
        1000 <= r <= 9999,
{
    (x % 9000 + 1000) as u32
}

/// Calls `uuid::Uuid::new_v4()` and reads it with `as_u128`. Nothing is stated of the
/// random value.
#[verifier::external_body]
fn random_u128() -> u128 {
    uuid::Uuid::new_v4().as_u128()
}

/// A fresh transaction number for a commit, in 1000..=9999.
pub fn new_transaction_number() -> (r: u32)
    ensures
        1000 <= r <= 9999,
{
    transaction_number(random_u128())
}

/// The console message confirming a commit.
pub fn commit_message(txn: u32) -> (r: String)
    ensures
        r@ == "[SUCCESS] Commit confirmed. Transaction ID: "@ + decimal(txn as nat),
{
    let mut m = "[SUCCESS] Commit confirmed. Transaction ID: ".to_string();
    m.append(decimal_string(txn as u64).as_str());
    m
}

/// The console message closing a session.
pub fn session_closed_message(execution_id: &str) -> (r: String)
    ensures
        r@ == "Session closed · execution_id="@ + execution_id@,
{
    let mut m = "Session closed · execution_id=".to_string();
    m.append(execution_id);
    m
}

/// The follow-up plan after a health drop: a rollback when the drop exceeds five points,
/// else a refinement.
pub open spec fn follow_up_of(d: DeviceView, before: u8, after: u8) -> Seq<char> {
    if after + 5 < before {
        "ROLLBACK: restore prior candidate on "@ + d.hostname + " and re-run Safety Linter"@
    } else {
        "REFINEMENT: retune QoS weights on "@ + d.hostname + " (site="@ + d.site_class + ")"@
    }
}

/// The closed-loop check after a push: verified when health did not drop, otherwise drift
/// with a rollback or refinement plan.
pub open spec fn verification_ok(v: VerificationResult, d: DeviceView, before: u8, after: u8) -> bool {
    &&& v.device_id@ == d.id
    &&& v.before_score == before
    &&& v.after_score == after
    &&& after >= before ==> v.status == ValidationStatus::Verified && v.message@
        == "Telemetry shows expected improvement."@ && v.follow_up.is_none()
    &&& after < before ==> v.status == ValidationStatus::DriftDetected && v.message@
        == "Telemetry did not improve as predicted — closed-loop follow-up required."@ && (v.follow_up matches Some(
        f,
    ) && f@ == follow_up_of(d, before, after))
}

/// Health before and after as the console reports them.
pub open spec fn health_change(before: u8, after: u8) -> Seq<char> {
    decimal(before as nat) + " → "@ + decimal(after as nat)
}

fn health_text(before: u8, after: u8) -> (r: String)
    ensures
        r@ == health_change(before, after),
{
    let mut m = decimal_string(before as u64);
    m.append(" → ");
    m.append(decimal_string(after as u64).as_str());
    m
}

/// Judges a push from the device's health before and after it, with the console lines
/// that report the judgement.
pub fn verify_execution(device: &InventoryDevice, before_score: u8, after_score: u8) -> (r: (
    VerificationResult,
    Vec<ConsoleLine>,
))
    ensures
        verification_ok(r.0, device@, before_score, after_score),
        after_score >= before_score ==> r.1@.len() == 1 && r.1@[0].level@ == "ok"@ && r.1@[0].message@
            == "Post-Execution Validation VERIFIED — health "@ + health_change(before_score, after_score),
        after_score < before_score ==> r.1@.len() == 2 && r.1@[0].level@ == "warn"@ && r.1@[0].message@
            == "Drift detected — health "@ + health_change(before_score, after_score) + ". Generating refinement…"@
            && r.1@[1].level@ == "warn"@ && r.1@[1].message@ == follow_up_of(device@, before_score, after_score),
{
    let mut lines: Vec<ConsoleLine> = Vec::new();
    if after_score >= before_score {
        let mut m = "Post-Execution Validation VERIFIED — health ".to_string();
        m.append(health_text(before_score, after_score).as_str());
        lines.push(console_line("ok", m));
        let v = VerificationResult {
            status: ValidationStatus::Verified,
            device_id: device.id.clone(),
            before_score,
            after_score,
            message: "Telemetry shows expected improvement.".to_string(),
            follow_up: None,
        };
        (v, lines)
    } else {
        let mut m = "Drift detected — health ".to_string();
        m.append(health_text(before_score, after_score).as_str());
        m.append(". Generating refinement…");
        lines.push(console_line("warn", m));
        let follow = if (after_score as u16) + 5 < before_score as u16 {
            let mut f = "ROLLBACK: restore prior candidate on ".to_string();
            f.append(device.hostname.as_str());
            f.append(" and re-run Safety Linter");
            f
        } else {
            let mut f = "REFINEMENT: retune QoS weights on ".to_string();
            f.append(device.hostname.as_str());
            f.append(" (site=");
            f.append(device.site_class.as_str());
            f.append(")");
            f
        };
        lines.push(console_line("warn", follow.clone()));
        let v = VerificationResult {
            status: ValidationStatus::DriftDetected,
            device_id: device.id.clone(),
            before_score,
            after_score,
            message: "Telemetry did not improve as predicted — closed-loop follow-up required.".to_string(),
            follow_up: Some(follow),
        };
        (v, lines)
    }
}

/// A verification-only re-check (no push), from the health before and the health read now.
pub fn verify_only(device: &InventoryDevice, before_score: u8, after_score: u8) -> (r: VerificationResult)
    ensures
        r.device_id@ == device.id@,
        r.before_score == before_score,
        r.after_score == after_score,
        after_score >= before_score ==> r.status == ValidationStatus::Verified && r.message@ == "Re-check OK."@
            && r.follow_up.is_none(),
        after_score < before_score ==> r.status == ValidationStatus::DriftDetected && r.message@
            == "Drift still present."@ && (r.follow_up matches Some(f) && f@
            == "REFINEMENT: schedule Judge re-analysis"@),
{
    if after_score >= before_score {
        VerificationResult {
            status: ValidationStatus::Verified,
            device_id: device.id.clone(),
            before_score,
            after_score,
            message: "Re-check OK.".to_string(),
            follow_up: None,
        }
    } else {
        VerificationResult {
            status: ValidationStatus::DriftDetected,
            device_id: device.id.clone(),
            before_score,
            after_score,
            message: "Drift still present.".to_string(),
            follow_up: Some("REFINEMENT: schedule Judge re-analysis".to_string()),
        }
    }
}

/// The check never calls a health drop verified, and asks for a rollback exactly when the
/// drop exceeds five points.
pub proof fn law_drift_never_verified(v: VerificationResult, d: DeviceView, before: u8, after: u8)
    requires
        verification_ok(v, d, before, after),
    ensures
        v.status == ValidationStatus::Verified <==> after >= before,
        v.follow_up is Some <==> after < before,
        after < before ==> (has_rollback(v) <==> after + 5 < before),
{
    reveal_strlit("ROLLBACK: restore prior candidate on ");
    reveal_strlit("REFINEMENT: retune QoS weights on ");
    reveal_strlit("ROLLBACK:");
    if after < before {
        let f = v.follow_up->0@;
        if after + 5 < before {
            assert(f.subrange(0, 9) =~= "ROLLBACK:"@);
        } else {
            assert(f[1] == 'E');
            assert(f.subrange(0, 9)[1] != "ROLLBACK:"@[1]);
        }
    }
}

/// The follow-up plan is a rollback.
pub open spec fn has_rollback(v: VerificationResult) -> bool {
    v.follow_up matches Some(f) && f@.len() >= 9 && f@.subrange(0, 9) == "ROLLBACK:"@
}

} // verus!
