//! Operator commands: the decisions behind each request the user interface sends, with the
//! linter as a gate in front of every push, translation and execution. The application
//! holds the shared state (ROI counters, HITL registry) and performs the storage and
//! network calls these decisions ask for.

use vstd::prelude::*;
use vstd::string::*;
use crate::text::trimmed;
use crate::text::{trim, same_text};
use crate::guardrails::{RiskLevel, LintResult, LintView, lint_spec, risk_name, rank, lint_command as lint_text,
    lint_with_context, risk_name_string};
use crate::drivers::{uuid_v4_text, rfc3339_utc, NorthboundProtocol, DriverRequest, DriverResult, commit, protocol_payload, protocol_content_type, dry_run_message,
    commit_status, commit_message, commit_id_of, protocol_for, generate_technical_payload};
use crate::network_connector::{CommandTranslator, NetworkConnector, TranslatedCommand, ExecResult, ExecPlan,
    DeviceTarget, Vendor, translation_ok, simulated_output};
use crate::rag::{KnowledgeBase, ChunkView, chunk_views, search_spec};
use crate::network_connector::{vendor_map, rag_blob, translation_query};
use crate::roi::{RoiTracker, RoiCounters, after_block, after_critical_block};
use crate::hitl::{HitlRegistry, PendingHitlAction};
use crate::adapters::{InventoryDevice, VendorPayload, device_views, inventory, payload_views, one_per_vendor};
use crate::db::{AuditLogEntry, NewAuditLog, row_clears, history_clears};
use crate::network_connector::target_is;
use crate::northbound::{ServiceOrder, OrderView};
use crate::agents::{ConflictResolution, ConflictView};
use crate::roi::{after_intent, after_auto_approve};

verus! {

/// What the operator's approve / reject decision did.
#[derive(Debug)]
pub struct HitlOutcome {
    pub action_id: String,
    pub decision: String,
    pub message: String,
    pub command: Option<String>,
    pub lint: Option<LintResult>,
    pub driver: Option<DriverResult>,
}

/// A request to run the multi-agent pipeline on an intent.
#[derive(Debug, Clone)]
pub struct AnalyzeRequest {
    pub intent: String,
    pub model: Option<String>,
}

/// A request to push a command northbound.
#[derive(Debug, Clone)]
pub struct NorthboundRequest {
    pub command: String,
    pub protocol: Option<String>,
    pub target: Option<String>,
    pub dry_run: Option<bool>,
    pub action_id: Option<String>,
}

/// Greeting shown when the console opens.
pub fn greet(name: &str) -> (r: String)
    ensures
        r@ == "SmarTelcom online — welcome, "@ + name@ + "."@,
{
    let mut r = "SmarTelcom online — welcome, ".to_string();
    r.append(name);
    r.append(".");
    r
}

/// The audit decision recorded for a pipeline status.
pub open spec fn decision_label(status: Seq<char>) -> Seq<char> {
    if status == "auto_approved"@ {
        "Auto-Approved"@
    } else if status == "pending_hitl"@ {
        "HITL-Pending"@
    } else if status == "blocked_by_safety"@ {
        "Blocked"@
    } else {
        "Unknown"@
    }
}

/// Maps a pipeline status to the audit decision it is recorded as.
pub fn decision_from_status(status: &str) -> (r: &'static str)
    ensures
        r@ == decision_label(status@),
{
    if same_text(status, "auto_approved") {
        "Auto-Approved"
    } else if same_text(status, "pending_hitl") {
        "HITL-Pending"
    } else if same_text(status, "blocked_by_safety") {
        "Blocked"
    } else {
        "Unknown"
    }
}

/// The audit label of a risk level.
pub fn risk_label(risk: RiskLevel) -> (r: String)
    ensures
        r@ == risk_name(risk),
{
    risk_name_string(risk)
}

/// The protocol an optional request field names: gNMI for `"gnmi"`, NETCONF otherwise.
pub open spec fn protocol_named(s: Option<Seq<char>>) -> NorthboundProtocol {
    match s {
        Some(x) => if x == "gnmi"@ { NorthboundProtocol::Gnmi } else { NorthboundProtocol::Netconf },
        None => NorthboundProtocol::Netconf,
    }
}

/// The view of an optional string.
pub open spec fn opt_str(s: Option<String>) -> Option<Seq<char>> {
    match s {
        Some(x) => Some(x@),
        None => None,
    }
}

/// Reads the protocol field of a request.
pub fn parse_protocol(s: Option<&str>) -> (r: NorthboundProtocol)
    ensures
        r == protocol_named(match s { Some(x) => Some(x@), None => None }),
{
    match s {
        Some(x) => if same_text(x, "gnmi") { NorthboundProtocol::Gnmi } else { NorthboundProtocol::Netconf },
        None => NorthboundProtocol::Netconf,
    }
}

fn protocol_of(s: &Option<String>) -> (r: NorthboundProtocol)
    ensures
        r == protocol_named(opt_str(*s)),
{
    match s {
        Some(x) => parse_protocol(Some(x.as_str())),
        None => NorthboundProtocol::Netconf,
    }
}

/// The default lab target.
pub open spec fn default_target() -> Seq<char> {
    "lab-ne-01"@
}

/// The target a request names, or the default lab target.
pub open spec fn target_named(t: Option<Seq<char>>) -> Seq<char> {
    match t {
        Some(x) => x,
        None => default_target(),
    }
}

fn target_of(t: &Option<String>) -> (r: String)
    ensures
        r@ == target_named(opt_str(*t)),
{
    match t {
        Some(x) => x.clone(),
        None => "lab-ne-01".to_string(),
    }
}

fn message_with(prefix: &str, reason: &str) -> (r: String)
    ensures
        r@ == prefix@ + reason@,
{
    let mut m = prefix.to_string();
    m.append(reason);
    m
}

/// High or Critical.
pub open spec fn severe(r: RiskLevel) -> bool {
    rank(r) >= rank(RiskLevel::High)
}

fn is_severe(r: RiskLevel) -> (b: bool)
    ensures
        b == severe(r),
{
    match r {
        RiskLevel::High | RiskLevel::Critical => true,
        _ => false,
    }
}

/// Whether `r` is the outcome of a simulated push of `command` to `target` under `proto`.
pub open spec fn pushed(
    r: DriverResult,
    command: Seq<char>,
    proto: NorthboundProtocol,
    target: Seq<char>,
    dry_run: bool,
) -> bool {
    &&& r.simulated
    &&& uuid_v4_text(r.payload.id@) && rfc3339_utc(r.payload.created_at@)
    &&& r.payload.protocol == proto
    &&& r.payload.target@ == target
    &&& r.payload.content_type@ == protocol_content_type(proto)
    &&& r.payload.body@ == protocol_payload(proto, target, command)
    &&& r.payload.dry_run == dry_run
    &&& dry_run ==> r.status@ == "dry_run"@ && r.message@ == dry_run_message() && r.commit_id.is_none()
    &&& !dry_run ==> r.status@ == commit_status(proto) && (r.commit_id matches Some(c) && exists|u: Seq<char>|
        #[trigger] commit_id_of(u) == c@ && uuid_v4_text(u) && r.message@ == commit_message(proto, target, commit_id_of(u)))
}

/// Builds the dry-run payload for a command, after the linter has cleared it.
pub fn northbound_dry_run(request: NorthboundRequest) -> (r: Result<DriverResult, String>)
    ensures
        trimmed(request.command@).len() == 0 ==> (r matches Err(m) && m@ == "Command cannot be empty"@),
        trimmed(request.command@).len() > 0 && !lint_spec(trimmed(request.command@), seq![]).allowed ==> (r matches Err(
            m,
        ) && m@ == "Dry-run blocked by Safety Linter: "@ + lint_spec(trimmed(request.command@), seq![]).reason),
        trimmed(request.command@).len() > 0 && lint_spec(trimmed(request.command@), seq![]).allowed ==> (r matches Ok(
            d,
        ) && pushed(
            d,
            trimmed(request.command@),
            protocol_named(opt_str(request.protocol)),
            target_named(opt_str(request.target)),
            true,
        )),
{
    let command = trim(request.command.as_str());
    if command.as_str().is_empty() {
        return Err("Command cannot be empty".to_string());
    }
    let lint = lint_text(command.as_str());
    if !lint.allowed {
        return Err(message_with("Dry-run blocked by Safety Linter: ", lint.reason.as_str()));
    }
    let req = DriverRequest {
        command,
        protocol: protocol_of(&request.protocol),
        target: target_of(&request.target),
        dry_run: true,
        action_id: request.action_id,
    };
    Ok(commit(&req))
}

/// A command that needs a human is cleared only once it has been approved.
pub open spec fn hitl_cleared(l: LintView, approved: Set<Seq<char>>, command: Seq<char>) -> bool {
    !l.requires_hitl || approved.contains(command)
}

/// Pushes a command northbound: refused when blank or blocked by the linter (a blocked
/// High / Critical command counts as an averted critical risk), and, when the linter asks
/// for a human, refused until the command has been approved.
pub fn northbound_commit(roi: &mut RoiTracker, hitl: &HitlRegistry, request: NorthboundRequest) -> (r: Result<
    DriverResult,
    String,
>)
    ensures
        ({
            let c = trimmed(request.command@);
            let l = lint_spec(c, seq![]);
            &&& c.len() == 0 ==> (r matches Err(m) && m@ == "Command cannot be empty"@) && final(roi).counters
                == old(roi).counters
            &&& c.len() > 0 && !l.allowed ==> (r matches Err(m) && m@ == "Commit blocked by Safety Linter: "@
                + l.reason) && final(roi).counters == (if severe(l.risk) {
                after_critical_block(old(roi).counters)
            } else {
                old(roi).counters
            })
            &&& c.len() > 0 && l.allowed && !hitl_cleared(l, hitl.approved_set(), c) ==> (r matches Err(m) && m@
                == "Commit requires HITL Approve first (risk="@ + risk_name(l.risk) + ")"@) && final(roi).counters
                == old(roi).counters
            &&& c.len() > 0 && l.allowed && hitl_cleared(l, hitl.approved_set(), c) ==> (r matches Ok(d) && pushed(
                d,
                c,
                protocol_named(opt_str(request.protocol)),
                target_named(opt_str(request.target)),
                match request.dry_run {
                    Some(b) => b,
                    None => false,
                },
            )) && final(roi).counters == old(roi).counters
            &&& r is Ok ==> c.len() > 0 && l.allowed && (!l.requires_hitl || hitl.approved_set().contains(c))
        }),
{
    let command = trim(request.command.as_str());
    if command.as_str().is_empty() {
        return Err("Command cannot be empty".to_string());
    }
    let lint = lint_text(command.as_str());
    if !lint.allowed {
        if is_severe(lint.risk) {
            roi.record_critical_block();
        }
        return Err(message_with("Commit blocked by Safety Linter: ", lint.reason.as_str()));
    }
    if lint.requires_hitl {
        if !hitl.is_cleared(command.as_str()) {
            let mut m = "Commit requires HITL Approve first (risk=".to_string();
            m.append(risk_name_string(lint.risk).as_str());
            m.append(")");
            return Err(m);
        }
    }
    let dry_run = match request.dry_run {
        Some(b) => b,
        None => false,
    };
    let req = DriverRequest {
        command,
        protocol: protocol_of(&request.protocol),
        target: target_of(&request.target),
        dry_run,
        action_id: request.action_id,
    };
    Ok(commit(&req))
}

/// The ROI counters after the linter refused a command of risk `risk`.
pub open spec fn after_refusal(c: RoiCounters, risk: RiskLevel) -> RoiCounters {
    if severe(risk) {
        after_critical_block(c)
    } else {
        after_block(c)
    }
}

/// Lints a command for the operator; a refusal is counted as a mitigated risk (and as an
/// averted critical risk when it is High or Critical).
pub fn lint_command(roi: &mut RoiTracker, command: &str) -> (r: LintResult)
    ensures
        r@ == lint_spec(command@, seq![]),
        final(roi).counters == (if r@.allowed { old(roi).counters } else { after_refusal(old(roi).counters, r@.risk) }),
{
    let result = lint_text(command);
    if !result.allowed {
        if is_severe(result.risk) {
            roi.record_critical_block();
        } else {
            roi.record_block();
        }
    }
    result
}

/// Lowercase `Debug` name of a vendor.
pub open spec fn vendor_debug_lower(v: Vendor) -> Seq<char> {
    match v {
        Vendor::CiscoIos => "ciscoios"@,
        Vendor::HuaweiVrp => "huaweivrp"@,
        Vendor::Generic => "generic"@,
    }
}

fn vendor_label(v: Vendor) -> (r: String)
    ensures
        r@ == vendor_debug_lower(v),
{
    match v {
        Vendor::CiscoIos => "ciscoios".to_string(),
        Vendor::HuaweiVrp => "huaweivrp".to_string(),
        Vendor::Generic => "generic".to_string(),
    }
}

/// Position of the first translation whose CLI the linter refuses.
pub open spec fn first_blocked(ts: Seq<TranslatedCommand>) -> Option<int> {
    if exists|i: int| 0 <= i < ts.len() && !lint_spec(#[trigger] ts[i].cli@, seq![]).allowed {
        Some(
            choose|i: int|
                0 <= i < ts.len() && !lint_spec(ts[i].cli@, seq![]).allowed && forall|j: int|
                    0 <= j < i ==> lint_spec(#[trigger] ts[j].cli@, seq![]).allowed,
        )
    } else {
        None
    }
}

fn first_refused(ts: &Vec<TranslatedCommand>) -> (r: Option<(usize, LintResult)>)
    ensures
        match r {
            Some((i, l)) => first_blocked(ts@) == Some(i as int) && i < ts@.len() && l@ == lint_spec(ts@[i as int].cli@, seq![]),
            None => first_blocked(ts@).is_none(),
        },
{
    let mut i: usize = 0;
    while i < ts.len()
        invariant
            i <= ts@.len(),
            forall|j: int| 0 <= j < i ==> lint_spec(#[trigger] ts@[j].cli@, seq![]).allowed,
        decreases ts@.len() - i,
    {
        let lint = lint_text(ts[i].cli.as_str());
        if !lint.allowed {
            proof {
                let c = choose|c: int|
                    0 <= c < ts@.len() && !lint_spec(ts@[c].cli@, seq![]).allowed && forall|j: int|
                        0 <= j < c ==> lint_spec(#[trigger] ts@[j].cli@, seq![]).allowed;
                if c < i {
                    assert(lint_spec(ts@[c].cli@, seq![]).allowed);
                } else if c > i {
                    assert(lint_spec(ts@[i as int].cli@, seq![]).allowed);
                }
            }
            return Some((i, lint));
        }
        i = i + 1;
    }
    None
}

/// Translates an intent into vendor CLI for the operator, gating every CLI through the
/// linter: the first refused CLI fails the whole request and counts as a mitigated risk.
pub fn translate_intent(roi: &mut RoiTracker, kb: &KnowledgeBase, intent: &str) -> (r: Result<
    Vec<TranslatedCommand>,
    String,
>)
    ensures
        trimmed(intent@).len() == 0 ==> (r matches Err(m) && m@ == "Intent cannot be empty"@) && final(roi).counters
            == old(roi).counters,
        trimmed(intent@).len() > 0 ==> ({
            let ok = |ts: Seq<TranslatedCommand>|
                ts.len() == 2 && translation_ok(ts[0], trimmed(intent@), Vendor::CiscoIos, chunk_views(kb.chunks@))
                    && translation_ok(ts[1], trimmed(intent@), Vendor::HuaweiVrp, chunk_views(kb.chunks@));
            match r {
                Ok(v) => ok(v@) && first_blocked(v@).is_none() && final(roi).counters == old(roi).counters,
                Err(m) => exists|ts: Seq<TranslatedCommand>|
                    #![trigger first_blocked(ts)]
                    ok(ts) && (first_blocked(ts) matches Some(i) && m@ == "Vendor CLI blocked by Safety Linter ("@
                        + vendor_debug_lower(ts[i].vendor) + "): "@ + lint_spec(ts[i].cli@, seq![]).reason)
                        && final(roi).counters == after_block(old(roi).counters),
            }
        }),
{
    let t = trim(intent);
    if t.as_str().is_empty() {
        return Err("Intent cannot be empty".to_string());
    }
    let maps = CommandTranslator::translate_all(t.as_str(), kb);
    match first_refused(&maps) {
        Some((i, lint)) => {
            roi.record_block();
            let mut m = "Vendor CLI blocked by Safety Linter (".to_string();
            m.append(vendor_label(maps[i].vendor).as_str());
            m.append("): ");
            m.append(lint.reason.as_str());
            proof {
                assert(first_blocked(maps@) == Some(i as int));
            }
            Err(m)
        },
        None => Ok(maps),
    }
}

/// Field-by-field equality of two execution results.
pub open spec fn same_exec(a: ExecResult, b: ExecResult) -> bool {
    &&& a.target_id@ == b.target_id@
    &&& a.vendor == b.vendor
    &&& a.command@ == b.command@
    &&& a.output@ == b.output@
    &&& a.simulated == b.simulated
    &&& a.success == b.success
}

fn copy_exec(e: &ExecResult) -> (r: ExecResult)
    ensures
        same_exec(r, *e),
{
    ExecResult {
        target_id: e.target_id.clone(),
        vendor: e.vendor,
        command: e.command.clone(),
        output: e.output.clone(),
        simulated: e.simulated,
        success: e.success,
    }
}

/// Whether a previewed CLI may run on a lab device without a human: the linter allows it
/// and does not ask for one.
pub open spec fn preview_gate(cli: Seq<char>) -> bool {
    lint_spec(cli, seq![]).allowed && !lint_spec(cli, seq![]).requires_hitl
}

/// The CLI a translation of `intent` for vendor `v` produces.
pub open spec fn preview_cli(intent: Seq<char>, v: Vendor, chunks: Seq<ChunkView>) -> Seq<char> {
    vendor_map(intent, v, rag_blob(search_spec(chunks, translation_query(intent, v), 4))).0
}

/// The Cisco and Huawei CLI of an intent, in that order.
pub open spec fn preview_clis(intent: Seq<char>, chunks: Seq<ChunkView>) -> Seq<Seq<char>> {
    seq![preview_cli(intent, Vendor::CiscoIos, chunks), preview_cli(intent, Vendor::HuaweiVrp, chunks)]
}

/// Position of the first CLI that may not run without a human.
pub open spec fn first_ungated(clis: Seq<Seq<char>>) -> Option<int> {
    if exists|i: int| 0 <= i < clis.len() && !preview_gate(#[trigger] clis[i]) {
        Some(choose|i: int| 0 <= i < clis.len() && !preview_gate(clis[i]) && forall|j: int| 0 <= j < i ==> preview_gate(#[trigger] clis[j]))
    } else {
        None
    }
}

/// Previews an intent's vendor CLI on the simulated lab devices, gating every CLI through
/// the linter in vendor order: the first refused CLI fails the request (and counts as a
/// mitigated risk); the first CLI that needs a human fails it too, with the advice to run the
/// pipeline and approve first.
pub fn simulate_vendor_exec(roi: &mut RoiTracker, kb: &KnowledgeBase, intent: &str) -> (r: Result<
    Vec<ExecResult>,
    String,
>)
    ensures
        trimmed(intent@).len() == 0 ==> (r matches Err(m) && m@ == "Intent cannot be empty"@) && final(roi).counters
            == old(roi).counters,
        trimmed(intent@).len() > 0 ==> ({
            let clis = preview_clis(trimmed(intent@), chunk_views(kb.chunks@));
            match first_ungated(clis) {
                None => (r matches Ok(v) && v@.len() == 2 && forall|k: int|
                    0 <= k < 2 ==> {
                        let e = #[trigger] v@[k];
                        &&& e.simulated && e.success
                        &&& e.vendor == (if k == 0 { Vendor::CiscoIos } else { Vendor::HuaweiVrp })
                        &&& e.target_id@ == (if k == 0 { "pe-cisco-01"@ } else { "agg-huawei-02"@ })
                        &&& e.command@ == clis[k]
                        &&& e.output@ == simulated_output(
                            e.vendor,
                            if k == 0 { "pe-router-01"@ } else { "agg-sw-02"@ },
                            clis[k],
                        )
                    }) && final(roi).counters == old(roi).counters,
                Some(i) => {
                    let l = lint_spec(clis[i], seq![]);
                    if !l.allowed {
                        (r matches Err(m) && m@ == "SSH sim blocked by Safety Linter: "@ + l.reason) && final(roi).counters
                            == after_block(old(roi).counters)
                    } else {
                        (r matches Err(m) && m@ == "SSH sim requires HITL (risk="@ + risk_name(l.risk)
                            + "): run Multi-Agent Pipeline and Approve first. "@ + l.reason) && final(roi).counters
                            == old(roi).counters
                    }
                },
            }
        }),
{
    let t = trim(intent);
    if t.as_str().is_empty() {
        return Err("Intent cannot be empty".to_string());
    }
    let pairs = NetworkConnector::translate_and_preview(t.as_str(), kb);
    let ghost clis = preview_clis(t@, chunk_views(kb.chunks@));
    proof {
        assert forall|k: int| 0 <= k < 2 implies #[trigger] pairs@[k].1.command@ == clis[k] by {
            let (tc, e) = pairs@[k];
            assert(translation_ok(tc, t@, if k == 0 { Vendor::CiscoIos } else { Vendor::HuaweiVrp }, chunk_views(kb.chunks@)));
        }
    }
    let mut out: Vec<ExecResult> = Vec::new();
    let mut i: usize = 0;
    while i < pairs.len()
        invariant
            i <= pairs@.len(),
            pairs@.len() == 2,
            out@.len() == i,
            roi.counters == old(roi).counters,
            t@ == trimmed(intent@),
            t@.len() > 0,
            clis == preview_clis(t@, chunk_views(kb.chunks@)),
            forall|k: int| 0 <= k < 2 ==> (#[trigger] pairs@[k]).1.command@ == clis[k],
            forall|k: int| 0 <= k < 2 ==> {
                let (tc, e) = #[trigger] pairs@[k];
                &&& e.target_id@ == (if k == 0 { "pe-cisco-01"@ } else { "agg-huawei-02"@ })
                &&& e.vendor == tc.vendor
                &&& tc.vendor == (if k == 0 { Vendor::CiscoIos } else { Vendor::HuaweiVrp })
                &&& e.command@ == tc.cli@
                &&& e.output@ == simulated_output(tc.vendor, if k == 0 { "pe-router-01"@ } else { "agg-sw-02"@ }, tc.cli@)
                &&& e.simulated && e.success
            },
            forall|k: int| 0 <= k < out@.len() ==> same_exec(#[trigger] out@[k], pairs@[k].1) && preview_gate(clis[k]),
        decreases pairs@.len() - i,
    {
        let lint = lint_text(pairs[i].1.command.as_str());
        if !lint.allowed || lint.requires_hitl {
            proof {
                assert(!preview_gate(clis[i as int]));
                let c = choose|c: int| 0 <= c < clis.len() && !preview_gate(clis[c]) && forall|j: int| 0 <= j < c ==> preview_gate(#[trigger] clis[j]);
                if c < i {
                    assert(same_exec(out@[c], pairs@[c].1));
                } else if c > i {
                    assert(preview_gate(clis[i as int]));
                }
                assert(first_ungated(clis) == Some(i as int));
            }
            if !lint.allowed {
                roi.record_block();
                return Err(message_with("SSH sim blocked by Safety Linter: ", lint.reason.as_str()));
            }
            let mut m = "SSH sim requires HITL (risk=".to_string();
            m.append(risk_name_string(lint.risk).as_str());
            m.append("): run Multi-Agent Pipeline and Approve first. ");
            m.append(lint.reason.as_str());
            return Err(m);
        }
        let ghost before = out@;
        out.push(copy_exec(&pairs[i].1));
        proof {
            assert(pairs@[i as int].1.command@ == clis[i as int]);
            assert(preview_gate(clis[i as int]));
            assert forall|k: int| 0 <= k < out@.len() implies same_exec(#[trigger] out@[k], pairs@[k].1) && preview_gate(
                clis[k],
            ) by {
                if k < i {
                    assert(out@[k] == before[k]);
                    assert(same_exec(before[k], pairs@[k].1));
                }
            }
        }
        i = i + 1;
    }
    proof {
        assert forall|c: int| 0 <= c < clis.len() implies preview_gate(#[trigger] clis[c]) by {
            assert(same_exec(out@[c], pairs@[c].1));
        }
        assert(first_ungated(clis).is_none());
    }
    Ok(out)
}


/// The lab inventory, for the operator.
pub fn list_inventory() -> (r: Vec<InventoryDevice>)
    ensures
        device_views(r@) == inventory(),
{
    crate::adapters::lab_inventory()
}

/// The lab devices reachable over SSH, for the operator.
pub fn list_lab_devices() -> (r: Vec<DeviceTarget>)
    ensures
        r@.len() == 2,
        target_is(r@[0], "pe-cisco-01"@, "pe-router-01"@, Vendor::CiscoIos, "127.0.0.1"@, 22022, true),
        target_is(r@[1], "agg-huawei-02"@, "agg-sw-02"@, Vendor::HuaweiVrp, "127.0.0.1"@, 22023, true),
{
    NetworkConnector::default_lab_devices()
}

/// The demo service order, for the operator.
pub fn get_demo_service_order() -> (r: ServiceOrder)
    ensures
        r@ == (OrderView {
            id: "ORDER-123"@,
            service_type: "5G_Slicing"@,
            priority: "High"@,
            intent: "Ensure low latency for Dubai Mall"@,
            related_party: Some("ServiceNow / Amdocs OSS"@),
            geographic_site: Some("Downtown"@),
        }),
{
    crate::northbound::demo_service_order()
}

/// Translates a command into every vendor's native payload once the linter has cleared it.
pub fn translate_vendor_payloads(command: &str) -> (r: Result<Vec<VendorPayload>, String>)
    ensures
        trimmed(command@).len() == 0 ==> (r matches Err(m) && m@ == "Command cannot be empty"@),
        trimmed(command@).len() > 0 && !lint_spec(trimmed(command@), seq![]).allowed ==> (r matches Err(m) && m@
            == "Translation blocked by Safety Linter: "@ + lint_spec(trimmed(command@), seq![]).reason),
        trimmed(command@).len() > 0 && lint_spec(trimmed(command@), seq![]).allowed ==> (r matches Ok(v)
            && payload_views(v@) == one_per_vendor(trimmed(command@), inventory(), 6)),
{
    let c = trim(command);
    if c.as_str().is_empty() {
        return Err("Command cannot be empty".to_string());
    }
    let lint = lint_text(c.as_str());
    if !lint.allowed {
        return Err(message_with("Translation blocked by Safety Linter: ", lint.reason.as_str()));
    }
    Ok(crate::adapters::translate_all_vendors(c.as_str()))
}

/// Position of the lab device with id `id`, if any.
pub open spec fn lab_device_index(devs: Seq<DeviceTarget>, id: Seq<char>) -> Option<int> {
    if exists|i: int| 0 <= i < devs.len() && #[trigger] devs[i].id@ == id {
        Some(choose|i: int| 0 <= i < devs.len() && devs[i].id@ == id && forall|j: int| 0 <= j < i ==> #[trigger] devs[j].id@ != id)
    } else {
        None
    }
}

fn find_lab_device(devs: &Vec<DeviceTarget>, id: &str) -> (r: Option<usize>)
    ensures
        match r {
            Some(i) => lab_device_index(devs@, id@) == Some(i as int) && i < devs@.len(),
            None => lab_device_index(devs@, id@).is_none(),
        },
{
    let mut i: usize = 0;
    while i < devs.len()
        invariant
            i <= devs@.len(),
            forall|j: int| 0 <= j < i ==> #[trigger] devs@[j].id@ != id@,
        decreases devs@.len() - i,
    {
        if same_text(devs[i].id.as_str(), id) {
            proof {
                let c = choose|c: int| 0 <= c < devs@.len() && devs@[c].id@ == id@ && forall|j: int| 0 <= j < c ==> #[trigger] devs@[j].id@ != id@;
                if c < i {
                } else if c > i {
                    assert(devs@[i as int].id@ != id@);
                }
            }
            return Some(i);
        }
        i = i + 1;
    }
    None
}

/// Runs a command on a lab device for the operator: the linter refuses blocked commands
/// (counted as a mitigated risk) and holds back those that need a human until they are
/// approved; the device is looked up by id. The result names the device and how to run the
/// command on it.
pub fn ssh_exec_lab(roi: &mut RoiTracker, hitl: &HitlRegistry, target_id: &str, command: &str) -> (r: Result<
    (DeviceTarget, ExecPlan),
    String,
>)
    ensures
        ({
            let l = lint_spec(command@, seq![]);
            &&& !l.allowed ==> (r matches Err(m) && m@ == "SSH blocked by Safety Linter: "@ + l.reason)
                && final(roi).counters == after_block(old(roi).counters)
            &&& l.allowed ==> final(roi).counters == old(roi).counters
            &&& l.allowed && !hitl_cleared(l, hitl.approved_set(), command@) ==> (r matches Err(m) && m@
                == "SSH requires HITL Approve first (risk="@ + risk_name(l.risk) + "): "@ + l.reason)
            &&& l.allowed && hitl_cleared(l, hitl.approved_set(), command@) && !(target_id@ == "pe-cisco-01"@
                || target_id@ == "agg-huawei-02"@) ==> (r matches Err(m) && m@ == "Unknown target "@ + target_id@)
            &&& r matches Ok((t, p)) ==> l.allowed && hitl_cleared(l, hitl.approved_set(), command@) && t.id@ == target_id@
                && t.simulate && (p matches ExecPlan::Done(e) && e.target_id@ == target_id@ && e.command@ == command@
                && e.output@ == simulated_output(t.vendor, t.hostname@, command@) && e.simulated && e.success)
        }),
{
    let lint = lint_text(command);
    if !lint.allowed {
        roi.record_block();
        return Err(message_with("SSH blocked by Safety Linter: ", lint.reason.as_str()));
    }
    if lint.requires_hitl {
        if !hitl.is_cleared(command) {
            let mut m = "SSH requires HITL Approve first (risk=".to_string();
            m.append(risk_name_string(lint.risk).as_str());
            m.append("): ");
            m.append(lint.reason.as_str());
            return Err(m);
        }
    }
    let devices = NetworkConnector::default_lab_devices();
    match find_lab_device(&devices, target_id) {
        Some(i) => {
            let plan = NetworkConnector::exec(&devices[i], command);
            let t = DeviceTarget {
                id: devices[i].id.clone(),
                hostname: devices[i].hostname.clone(),
                vendor: devices[i].vendor,
                host: devices[i].host.clone(),
                port: devices[i].port,
                simulate: devices[i].simulate,
            };
            Ok((t, plan))
        },
        None => {
            proof {
                assert(devices@[0].id@ != target_id@);
                assert(devices@[1].id@ != target_id@);
            }
            Err(message_with("Unknown target ", target_id))
        },
    }
}

/// Why an approval was refused.
#[derive(Debug)]
pub enum ApprovalRefusal {
    /// No action waits under that id (never registered, or already decided).
    UnknownAction(String),
    /// The linter refused the command on re-check.
    DeniedByLinter(String),
}

impl ApprovalRefusal {
    /// The message shown to the operator.
    pub fn message(&self) -> (r: String)
        ensures
            r@ == match self {
                ApprovalRefusal::UnknownAction(m) => m@,
                ApprovalRefusal::DeniedByLinter(m) => m@,
            },
    {
        match self {
            ApprovalRefusal::UnknownAction(m) => m.clone(),
            ApprovalRefusal::DeniedByLinter(m) => m.clone(),
        }
    }
}

/// The message for an action that is not (or no longer) pending.
pub open spec fn unknown_action_message(id: Seq<char>) -> Seq<char> {
    "Unknown or already resolved HITL action "@ + id
}

/// The protocol an approval uses: the one the operator named, else the one the command
/// calls for.
pub open spec fn approval_protocol(named: Option<Seq<char>>, command: Seq<char>) -> NorthboundProtocol {
    match named {
        Some(x) => if x == "gnmi"@ {
            NorthboundProtocol::Gnmi
        } else if x == "netconf"@ {
            NorthboundProtocol::Netconf
        } else {
            protocol_for(command)
        },
        None => protocol_for(command),
    }
}

/// Approves a pending action: it leaves the registry whatever happens next; the linter
/// re-checks the command with its intent, and a refusal counts as a mitigated risk; an
/// allowed command is pushed to the lab target. Recording the decision in the audit trail
/// and clearing the command are left to the caller, after this returns `Ok`.
pub fn approve_action(
    hitl: &mut HitlRegistry,
    roi: &mut RoiTracker,
    action_id: &str,
    protocol: Option<&str>,
    dry_run: Option<bool>,
) -> (r: Result<HitlOutcome, ApprovalRefusal>)
    ensures
        final(hitl).pending_map() == old(hitl).pending_map().remove(action_id@),
        final(hitl).approved_set() == old(hitl).approved_set(),
        !old(hitl).pending_map().dom().contains(action_id@) ==> (r matches Err(ApprovalRefusal::UnknownAction(m))
            && m@ == unknown_action_message(action_id@)) && final(roi).counters == old(roi).counters,
        old(hitl).pending_map().dom().contains(action_id@) ==> ({
            let a = old(hitl).pending_map()[action_id@];
            let l = lint_spec(a.proposed_command, a.intent);
            let proto = approval_protocol(match protocol { Some(x) => Some(x@), None => None }, a.proposed_command);
            &&& !l.allowed ==> (r matches Err(ApprovalRefusal::DeniedByLinter(m)) && m@
                == "Approval denied by Safety Linter: "@ + l.reason) && final(roi).counters == after_refusal(
                old(roi).counters,
                l.risk,
            )
            &&& l.allowed ==> final(roi).counters == old(roi).counters && (r matches Ok(o) && o.action_id@
                == action_id@ && o.decision@ == "approved"@ && (o.command matches Some(c) && c@ == a.proposed_command)
                && (o.lint matches Some(lr) && lr@ == l) && (o.driver matches Some(d) && pushed(
                d,
                a.proposed_command,
                proto,
                default_target(),
                match dry_run { Some(b) => b, None => false },
            ) && o.message@ == "HITL-Approved · "@ + d.message@))
        }),
{
    let pending = match hitl.take(action_id) {
        Some(p) => p,
        None => {
            return Err(ApprovalRefusal::UnknownAction(message_with("Unknown or already resolved HITL action ", action_id)));
        },
    };
    let lint = lint_with_context(pending.proposed_command.as_str(), pending.intent.as_str());
    if !lint.allowed {
        if is_severe(lint.risk) {
            roi.record_critical_block();
        } else {
            roi.record_block();
        }
        return Err(ApprovalRefusal::DeniedByLinter(message_with("Approval denied by Safety Linter: ", lint.reason.as_str())));
    }
    let proto = match protocol {
        Some(x) => if same_text(x, "gnmi") {
            NorthboundProtocol::Gnmi
        } else if same_text(x, "netconf") {
            NorthboundProtocol::Netconf
        } else {
            generate_technical_payload(pending.proposed_command.as_str(), "lab-ne-01").0
        },
        None => generate_technical_payload(pending.proposed_command.as_str(), "lab-ne-01").0,
    };
    let dry = match dry_run {
        Some(b) => b,
        None => false,
    };
    let req = DriverRequest {
        command: pending.proposed_command.clone(),
        protocol: proto,
        target: "lab-ne-01".to_string(),
        dry_run: dry,
        action_id: Some(action_id.to_string()),
    };
    let driver = commit(&req);
    let message = message_with("HITL-Approved · ", driver.message.as_str());
    Ok(HitlOutcome {
        action_id: action_id.to_string(),
        decision: "approved".to_string(),
        message,
        command: Some(pending.proposed_command),
        lint: Some(lint),
        driver: Some(driver),
    })
}

/// Rejects a pending action: it leaves the registry and its command is discarded.
/// Recording the rejection in the audit trail is left to the caller.
pub fn reject_action(hitl: &mut HitlRegistry, action_id: &str) -> (r: Result<HitlOutcome, String>)
    ensures
        final(hitl).pending_map() == old(hitl).pending_map().remove(action_id@),
        final(hitl).approved_set() == old(hitl).approved_set(),
        !old(hitl).pending_map().dom().contains(action_id@) ==> (r matches Err(m) && m@ == unknown_action_message(
            action_id@,
        )),
        old(hitl).pending_map().dom().contains(action_id@) ==> ({
            let a = old(hitl).pending_map()[action_id@];
            r matches Ok(o) && o.action_id@ == action_id@ && o.decision@ == "rejected"@ && o.message@
                == "Rejected — command discarded: "@ + a.proposed_command && (o.command matches Some(c) && c@
                == a.proposed_command) && o.lint is None && o.driver is None
        }),
{
    let pending = match hitl.take(action_id) {
        Some(p) => p,
        None => {
            return Err(message_with("Unknown or already resolved HITL action ", action_id));
        },
    };
    let message = message_with("Rejected — command discarded: ", pending.proposed_command.as_str());
    Ok(HitlOutcome {
        action_id: action_id.to_string(),
        decision: "rejected".to_string(),
        message,
        command: Some(pending.proposed_command),
        lint: None,
        driver: None,
    })
}

/// Whether an approved command may be executed: the linter must allow it, and a command
/// that needs a human must have been cleared in this session or approved in the recent
/// audit history (by action id or by command).
pub fn execution_clearance(
    hitl: &HitlRegistry,
    history: &Vec<AuditLogEntry>,
    action_id: &str,
    command: &str,
) -> (r: Result<LintResult, String>)
    ensures
        ({
            let l = lint_spec(command@, seq![]);
            let by_history = exists|i: int| 0 <= i < history@.len() && row_clears(#[trigger] history@[i], action_id@, command@);
            &&& !l.allowed ==> (r matches Err(m) && m@ == "Execute blocked by Safety Linter: "@ + l.reason)
            &&& l.allowed && l.requires_hitl && !hitl.approved_set().contains(command@) && !by_history ==> (r matches Err(
                m,
            ) && m@ == "Execute requires Auto-Approved or HITL-Approved action first"@)
            &&& l.allowed && (!l.requires_hitl || hitl.approved_set().contains(command@) || by_history) ==> (r matches Ok(
                lr,
            ) && lr@ == l)
        }),
{
    let lint = lint_with_context(command, "");
    proof {
        reveal_strlit("");
        assert(""@ =~= Seq::<char>::empty());
    }
    if !lint.allowed {
        return Err(message_with("Execute blocked by Safety Linter: ", lint.reason.as_str()));
    }
    if lint.requires_hitl {
        let cleared = hitl.is_cleared(command);
        let history_ok = history_clears(history, action_id, command);
        if !cleared && !history_ok {
            return Err("Execute requires Auto-Approved or HITL-Approved action first".to_string());
        }
    }
    Ok(lint)
}

/// One-line summary of the conflict resolution for the audit trail.
pub open spec fn conflict_notes_of(c: ConflictView) -> Seq<char> {
    if c.conflict_detected {
        c.winner + " beat "@ + c.loser + " | "@ + c.rationale + " | "@ + c.policy_citation
    } else {
        c.rationale
    }
}

/// Summarizes the conflict resolution for the audit trail.
pub fn conflict_notes(c: &ConflictResolution) -> (r: String)
    ensures
        r@ == conflict_notes_of(c@),
{
    if c.conflict_detected {
        let mut r = c.winner.clone();
        r.append(" beat ");
        r.append(c.loser.as_str());
        r.append(" | ");
        r.append(c.rationale.as_str());
        r.append(" | ");
        r.append(c.policy_citation.as_str());
        r
    } else {
        c.rationale.clone()
    }
}

/// The audit row recorded for a pipeline run; the technical payload is generated for the
/// default lab target.
pub fn pipeline_audit_log(
    id: &str,
    intent: &str,
    proposed_command: &str,
    risk: RiskLevel,
    status: &str,
    conflict: &ConflictResolution,
    agent_logs: String,
    duration_ms: u64,
) -> (r: NewAuditLog)
    ensures
        r.id@ == id@,
        r.intent@ == intent@,
        r.final_command@ == proposed_command@,
        r.risk_level@ == risk_name(risk),
        r.decision@ == decision_label(status@),
        r.conflict_resolution@ == conflict_notes_of(conflict@),
        r.payload_preview@ == protocol_payload(protocol_for(proposed_command@), default_target(), proposed_command@),
        r.agent_logs@ == agent_logs@,
        r.policy_citation@ == conflict@.policy_citation,
        r.ai_duration_ms == duration_ms as i64,
{
    let (_proto, payload_preview) = generate_technical_payload(proposed_command, "lab-ne-01");
    NewAuditLog {
        id: id.to_string(),
        intent: intent.to_string(),
        final_command: proposed_command.to_string(),
        risk_level: risk_label(risk),
        decision: decision_from_status(status).to_string(),
        conflict_resolution: conflict_notes(conflict),
        payload_preview,
        agent_logs,
        policy_citation: conflict.policy_citation.clone(),
        ai_duration_ms: duration_ms as i64,
    }
}

/// Books a finished pipeline run: it counts as a processed intent (and as a mitigated risk
/// when the linter refused it, an averted critical one when High or Critical); a run left to
/// a human is registered under its id; an auto-approved run counts as an auto-approval and
/// its command is cleared. Returns whether the run was auto-approved.
pub fn settle_run(
    hitl: &mut HitlRegistry,
    roi: &mut RoiTracker,
    action: PendingHitlAction,
    lint: &LintResult,
    status: &str,
    duration_ms: u64,
) -> (auto: bool)
    ensures
        auto == (status@ == "auto_approved"@),
        final(roi).counters == ({
            let c1 = after_intent(old(roi).counters, duration_ms, !lint@.allowed);
            let c2 = if !lint@.allowed && severe(lint@.risk) { after_critical_block(c1) } else { c1 };
            if auto { after_auto_approve(c2) } else { c2 }
        }),
        status@ == "pending_hitl"@ ==> final(hitl).pending_map() == old(hitl).pending_map().insert(action@.id, action@)
            && final(hitl).approved_set() == old(hitl).approved_set(),
        auto ==> final(hitl).pending_map() == old(hitl).pending_map() && final(hitl).approved_set()
            == old(hitl).approved_set().insert(action@.proposed_command),
        status@ != "pending_hitl"@ && !auto ==> final(hitl).pending_map() == old(hitl).pending_map()
            && final(hitl).approved_set() == old(hitl).approved_set(),
{
    let blocked = !lint.allowed;
    roi.record_intent(duration_ms, blocked);
    if blocked && is_severe(lint.risk) {
        roi.record_critical_block();
    }
    if same_text(status, "pending_hitl") {
        proof {
            reveal_strlit("pending_hitl");
            reveal_strlit("auto_approved");
            assert("pending_hitl"@.len() != "auto_approved"@.len());
        }
        hitl.register(action);
        false
    } else if same_text(status, "auto_approved") {
        roi.record_auto_approve();
        hitl.approve_command(action.proposed_command);
        true
    } else {
        false
    }
}

/// How refusals and statuses are recorded: a refused High or Critical command counts as a
/// mitigated and an averted critical risk, a refused Low or Medium one as a mitigated risk
/// only; pipeline statuses map to the audit decisions "Auto-Approved", "HITL-Pending" and
/// "Blocked" ("Unknown" for anything else).
pub proof fn law_refusals_and_audit_labels(c: RoiCounters, risk: RiskLevel, status: Seq<char>)
    ensures
        severe(risk) <==> (risk == RiskLevel::High || risk == RiskLevel::Critical),
        (risk == RiskLevel::High || risk == RiskLevel::Critical) ==> after_refusal(c, risk) == after_critical_block(c),
        (risk == RiskLevel::Low || risk == RiskLevel::Medium) ==> after_refusal(c, risk) == after_block(c),
        decision_label("auto_approved"@) == "Auto-Approved"@,
        decision_label("pending_hitl"@) == "HITL-Pending"@,
        decision_label("blocked_by_safety"@) == "Blocked"@,
        status != "auto_approved"@ && status != "pending_hitl"@ && status != "blocked_by_safety"@
            ==> decision_label(status) == "Unknown"@,
{
    reveal_strlit("auto_approved");
    reveal_strlit("pending_hitl");
    reveal_strlit("blocked_by_safety");
    assert("pending_hitl"@ != "auto_approved"@) by {
        assert("pending_hitl"@.len() != "auto_approved"@.len());
    }
    assert("blocked_by_safety"@ != "auto_approved"@ && "blocked_by_safety"@ != "pending_hitl"@) by {
        assert("blocked_by_safety"@.len() != "auto_approved"@.len());
        assert("blocked_by_safety"@.len() != "pending_hitl"@.len());
    }
}

/// Request fields: the protocol field selects gNMI for "gnmi" and NETCONF otherwise (also when
/// absent), and the target defaults to the lab device "lab-ne-01". On approval, "gnmi" or
/// "netconf" is taken as named, and anything else leaves the choice to the command.
pub proof fn law_request_defaults(named: Seq<char>, command: Seq<char>)
    ensures
        protocol_named(Some("gnmi"@)) == NorthboundProtocol::Gnmi,
        named != "gnmi"@ ==> protocol_named(Some(named)) == NorthboundProtocol::Netconf,
        protocol_named(None) == NorthboundProtocol::Netconf,
        target_named(None) == "lab-ne-01"@,
        target_named(Some(named)) == named,
        approval_protocol(Some("gnmi"@), command) == NorthboundProtocol::Gnmi,
        approval_protocol(Some("netconf"@), command) == NorthboundProtocol::Netconf,
        named != "gnmi"@ && named != "netconf"@ ==> approval_protocol(Some(named), command) == protocol_for(command),
        approval_protocol(None, command) == protocol_for(command),
{
    reveal_strlit("gnmi");
    reveal_strlit("netconf");
    assert("gnmi"@ != "netconf"@) by {
        assert("gnmi"@.len() != "netconf"@.len());
    }
}

} // verus!
