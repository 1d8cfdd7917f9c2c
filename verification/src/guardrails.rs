//! Deterministic Safety Linter.
//!
//! Every AI-proposed command is checked against a fixed blacklist of regular
//! expressions and a blast-radius rule before any human is asked to approve it.
//! Pattern matching is done by the `regex` crate; the decision taken from the
//! match results (risk, blocking, autonomy) is specified and proved here.

use vstd::prelude::*;
use vstd::string::*;
use crate::text::{views, decimal, bool_text, decimal_string, bool_string};

verus! {

/// Graduated risk of a proposed command.
#[derive(Debug, Clone, Copy, PartialEq, Eq, PartialOrd, Ord, Structural)]
pub enum RiskLevel {
    Low,
    Medium,
    High,
    Critical,
}

/// Position of a risk level in the order Low < Medium < High < Critical.
pub open spec fn rank(r: RiskLevel) -> int {
    match r {
        RiskLevel::Low => 0,
        RiskLevel::Medium => 1,
        RiskLevel::High => 2,
        RiskLevel::Critical => 3,
    }
}

/// The higher of two risk levels (the first one on a tie).
pub open spec fn higher_risk(a: RiskLevel, b: RiskLevel) -> RiskLevel {
    if rank(b) > rank(a) {
        b
    } else {
        a
    }
}

/// `Debug` rendering of a risk level.
pub open spec fn risk_name(r: RiskLevel) -> Seq<char> {
    match r {
        RiskLevel::Low => "Low"@,
        RiskLevel::Medium => "Medium"@,
        RiskLevel::High => "High"@,
        RiskLevel::Critical => "Critical"@,
    }
}

/// Outcome of linting one command.
#[derive(Debug, Clone)]
pub struct LintResult {
    pub allowed: bool,
    pub risk: RiskLevel,
    pub matched_rules: Vec<String>,
    pub reason: String,
    pub requires_hitl: bool,
    pub auto_approvable: bool,
}

/// Mathematical model of a [`LintResult`].
pub struct LintView {
    pub allowed: bool,
    pub risk: RiskLevel,
    pub matched_rules: Seq<Seq<char>>,
    pub reason: Seq<char>,
    pub requires_hitl: bool,
    pub auto_approvable: bool,
}

impl View for LintResult {
    type V = LintView;

    open spec fn view(&self) -> LintView {
        LintView {
            allowed: self.allowed,
            risk: self.risk,
            matched_rules: views(self.matched_rules@),
            reason: self.reason@,
            requires_hitl: self.requires_hitl,
            auto_approvable: self.auto_approvable,
        }
    }
}

// ---------------------------------------------------------------------------
// The rule table
// ---------------------------------------------------------------------------

/// Number of blacklist rules.
pub open spec fn rule_count() -> int {
    13
}

/// Identifier of blacklist rule `i`.
pub open spec fn rule_id(i: int) -> Seq<char> {
    if i == 0 { "BL-001"@ } else if i == 1 { "BL-002"@ } else if i == 2 { "BL-003"@ }
    else if i == 3 { "BL-004"@ } else if i == 4 { "BL-005"@ } else if i == 5 { "BL-006"@ }
    else if i == 6 { "BL-007"@ } else if i == 7 { "BL-008"@ } else if i == 8 { "BL-009"@ }
    else if i == 9 { "BL-010"@ } else if i == 10 { "BL-011"@ } else if i == 11 { "BL-012"@ }
    else { "BL-013"@ }
}

/// Regular expression of blacklist rule `i`.
pub open spec fn rule_pattern(i: int) -> Seq<char> {
    if i == 0 {
        r"(?i)\b(shutdown|power[\s_-]?off|halt)\b.*\b(core[_-]?router|core[_-]?switch|bng|mme|amf)\b"@
    } else if i == 1 {
        r"(?i)\b(delete|rm|erase|wipe|purge)\b.*\b(config|configuration|running-config|startup-config)\b"@
    } else if i == 2 {
        r"(?i)\b(format|mkfs|dd\s+if=)\b"@
    } else if i == 3 {
        r"(?i)\b(disable|teardown)\b.*\b(firewall|acl|security[_-]?policy|ips|ids)\b"@
    } else if i == 4 {
        r"(?i)\b(factory[\s_-]?reset|write\s+erase|erase\s+startup)\b"@
    } else if i == 5 {
        r"(?i)\b(clear|flush)\b.*\b(bgp|ospf|isis|mpls)\b.*\b(all|entire|full)\b"@
    } else if i == 6 {
        r"(?i)\b(reload|reboot|restart)\b.*\b(chassis|supervisor|control[_-]?plane)\b"@
    } else if i == 7 {
        r"(?i)\b(open|permit)\b.*\b(any\s+any|0\.0\.0\.0/0)\b"@
    } else if i == 8 {
        r"(?i)\b(qos|traffic[\s_-]?shape|rate[\s_-]?limit|bandwidth)\b"@
    } else if i == 9 {
        r"(?i)\b(optimize|tune|adjust)\b.*\b(threshold|timer|metric|weight)\b"@
    } else if i == 10 {
        r"(?i)\b(no\s+logging|disable\s+logging|logging\s+disable|undebug\s+all|no\s+debug)\b"@
    } else if i == 11 {
        r"(?i)\b(root[\s_-]?cert|trustpoint|crypto\s+pki|ca[\s_-]?certificate|remove\s+certificate)\b"@
    } else {
        r"(?i)\b(bypass\s*2fa|disable\s*(mfa|2fa|two[\s_-]?factor)|skip\s*(mfa|2fa)|authentication\s+bypass|no\s+aaa\s+authentication)\b"@
    }
}

/// Risk assigned by blacklist rule `i`.
pub open spec fn rule_risk(i: int) -> RiskLevel {
    if i == 5 || i == 6 || i == 7 {
        RiskLevel::High
    } else if i == 8 {
        RiskLevel::Medium
    } else if i == 9 {
        RiskLevel::Low
    } else {
        RiskLevel::Critical
    }
}

/// Description of blacklist rule `i`.
pub open spec fn rule_description(i: int) -> Seq<char> {
    if i == 0 {
        "Forbidden: shutting down core network elements"@
    } else if i == 1 {
        "Forbidden: deleting device configuration"@
    } else if i == 2 {
        "Forbidden: destructive filesystem operations"@
    } else if i == 3 {
        "Forbidden: disabling security controls"@
    } else if i == 4 {
        "Forbidden: factory reset / erase startup"@
    } else if i == 5 {
        "High risk: clearing entire routing protocol state"@
    } else if i == 6 {
        "High risk: control-plane reload"@
    } else if i == 7 {
        "High risk: overly permissive ACL"@
    } else if i == 8 {
        "Medium risk: QoS / traffic engineering change"@
    } else if i == 9 {
        "Low risk: optimization / tuning"@
    } else if i == 10 {
        "Forbidden: disabling logging / audit trail"@
    } else if i == 11 {
        "Forbidden: modifying root / PKI certificates"@
    } else {
        "Forbidden: bypassing 2FA / MFA authentication layer"@
    }
}

/// Whether matching blacklist rule `i` hard-blocks the command.
pub open spec fn rule_hard_block(i: int) -> bool {
    !(5 <= i <= 9)
}

/// The matched-rule line reported for blacklist rule `i`.
pub open spec fn rule_message(i: int) -> Seq<char> {
    rule_id(i) + ": "@ + rule_description(i)
}

/// Pattern of critical sites (Core / Downtown / DataCenter) that widens the blast radius.
pub open spec fn critical_site_pattern() -> Seq<char> {
    r"(?i)\b(core|downtown|data[\s_-]?center|datacenter|dc[\s_-]?(east|west|central)|core[\s_-]?peering|bng[\s_-]?core)\b"@
}

/// Pattern of aggressive changes.
pub open spec fn aggressive_change_pattern() -> Seq<char> {
    r"(?i)\b(increase\s+(tx\s*)?power|boost|aggressive|shutdown|reload|clear\s+bgp|permit\s+any)\b"@
}

/// One blacklist rule as the linter consults it.
pub struct BlacklistRule {
    pub id: &'static str,
    pub pattern: &'static str,
    pub risk: RiskLevel,
    pub description: &'static str,
    pub hard_block: bool,
}

/// Rule `i` of the blacklist.
pub fn blacklist_rule(i: usize) -> (r: BlacklistRule)
    requires
        i < 13,
    ensures
        r.id@ == rule_id(i as int),
        r.pattern@ == rule_pattern(i as int),
        r.risk == rule_risk(i as int),
        r.description@ == rule_description(i as int),
        r.hard_block == rule_hard_block(i as int),
{
    if i == 0 {
        rule("BL-001", r"(?i)\b(shutdown|power[\s_-]?off|halt)\b.*\b(core[_-]?router|core[_-]?switch|bng|mme|amf)\b",
            RiskLevel::Critical, "Forbidden: shutting down core network elements", true)
    } else if i == 1 {
        rule("BL-002", r"(?i)\b(delete|rm|erase|wipe|purge)\b.*\b(config|configuration|running-config|startup-config)\b",
            RiskLevel::Critical, "Forbidden: deleting device configuration", true)
    } else if i == 2 {
        rule("BL-003", r"(?i)\b(format|mkfs|dd\s+if=)\b", RiskLevel::Critical,
            "Forbidden: destructive filesystem operations", true)
    } else if i == 3 {
        rule("BL-004", r"(?i)\b(disable|teardown)\b.*\b(firewall|acl|security[_-]?policy|ips|ids)\b",
            RiskLevel::Critical, "Forbidden: disabling security controls", true)
    } else if i == 4 {
        rule("BL-005", r"(?i)\b(factory[\s_-]?reset|write\s+erase|erase\s+startup)\b",
            RiskLevel::Critical, "Forbidden: factory reset / erase startup", true)
    } else if i == 5 {
        rule("BL-006", r"(?i)\b(clear|flush)\b.*\b(bgp|ospf|isis|mpls)\b.*\b(all|entire|full)\b",
            RiskLevel::High, "High risk: clearing entire routing protocol state", false)
    } else if i == 6 {
        rule("BL-007", r"(?i)\b(reload|reboot|restart)\b.*\b(chassis|supervisor|control[_-]?plane)\b",
            RiskLevel::High, "High risk: control-plane reload", false)
    } else if i == 7 {
        rule("BL-008", r"(?i)\b(open|permit)\b.*\b(any\s+any|0\.0\.0\.0/0)\b", RiskLevel::High,
            "High risk: overly permissive ACL", false)
    } else if i == 8 {
        rule("BL-009", r"(?i)\b(qos|traffic[\s_-]?shape|rate[\s_-]?limit|bandwidth)\b",
            RiskLevel::Medium, "Medium risk: QoS / traffic engineering change", false)
    } else if i == 9 {
        rule("BL-010", r"(?i)\b(optimize|tune|adjust)\b.*\b(threshold|timer|metric|weight)\b",
            RiskLevel::Low, "Low risk: optimization / tuning", false)
    } else if i == 10 {
        rule("BL-011", r"(?i)\b(no\s+logging|disable\s+logging|logging\s+disable|undebug\s+all|no\s+debug)\b",
            RiskLevel::Critical, "Forbidden: disabling logging / audit trail", true)
    } else if i == 11 {
        rule("BL-012", r"(?i)\b(root[\s_-]?cert|trustpoint|crypto\s+pki|ca[\s_-]?certificate|remove\s+certificate)\b",
            RiskLevel::Critical, "Forbidden: modifying root / PKI certificates", true)
    } else {
        rule("BL-013", r"(?i)\b(bypass\s*2fa|disable\s*(mfa|2fa|two[\s_-]?factor)|skip\s*(mfa|2fa)|authentication\s+bypass|no\s+aaa\s+authentication)\b",
            RiskLevel::Critical, "Forbidden: bypassing 2FA / MFA authentication layer", true)
    }
}

fn rule(
    id: &'static str,
    pattern: &'static str,
    risk: RiskLevel,
    description: &'static str,
    hard_block: bool,
) -> (r: BlacklistRule)
    ensures
        r.id == id,
        r.pattern == pattern,
        r.risk == risk,
        r.description == description,
        r.hard_block == hard_block,
{
    BlacklistRule { id, pattern, risk, description, hard_block }
}

// ---------------------------------------------------------------------------
// Pattern matching (regex crate)
// ---------------------------------------------------------------------------

/// Name for what `regex::Regex::new(pattern)` and then `Regex::is_match(text)` give:
/// `None` when the pattern does not compile, otherwise whether it matches anywhere in `text`.
pub uninterp spec fn regex_search(pattern: Seq<char>, text: Seq<char>) -> Option<bool>;

/// The pattern holds no `$`, no `^` and no `\z`: none of the assertions that look at where
/// the haystack ends (or, in CRLF mode, at a `\r` before a `\n`).
pub open spec fn ends_unanchored(p: Seq<char>) -> bool {
    forall|i: int| #![trigger p[i]]
        0 <= i < p.len() ==> {
            &&& p[i] != '$'
            &&& p[i] != '^'
            &&& !(p[i] == '\\' && i + 1 < p.len() && p[i + 1] == 'z')
        }
}

/// Calls `regex::Regex::new` on `pattern` and, when it compiles, `Regex::is_match` on `text`.
/// Claimed: the outcome is the named `regex_search` of the two arguments (regex matching is
/// a deterministic function of pattern and haystack). Two facts beside it: whether the
/// pattern compiles does not depend on the text (`Regex::new` sees only the pattern); and
/// `is_match` is true exactly when some span of the haystack matches, so a match in the part
/// of `text` before one of its newlines is a match in `text`, provided the pattern holds
/// no assertion that looks at the end of the haystack (`$`, `\z`, or `^` in CRLF mode; the
/// word boundaries see the newline as a non-word character, as they see the end).
/// How the engine matches is not stated.
#[verifier::external_body]
fn regex_search_exec(pattern: &str, text: &str) -> (r: Option<bool>)
    ensures
        r == regex_search(pattern@, text@),
        forall|t: Seq<char>| (#[trigger] regex_search(pattern@, t) is None) == (r is None),
        ends_unanchored(pattern@) ==> forall|n: int|
            0 <= n < text@.len() && text@[n] == '\n'
                && #[trigger] regex_search(pattern@, text@.take(n)) == Some(true) ==> r == Some(true),
{
    match regex::Regex::new(pattern) {
        Ok(re) => Some(re.is_match(text)),
        Err(_) => None,
    }
}

/// Whether a rule counts as matched: a pattern that cannot be compiled counts as matched,
/// so that a broken rule fails closed.
pub open spec fn pattern_hit(pattern: Seq<char>, text: Seq<char>) -> bool {
    match regex_search(pattern, text) {
        Some(b) => b,
        None => true,
    }
}

fn pattern_hits(pattern: &str, text: &str) -> (b: bool)
    ensures
        b == pattern_hit(pattern@, text@),
        ends_unanchored(pattern@) ==> forall|n: int|
            0 <= n < text@.len() && text@[n] == '\n' && #[trigger] pattern_hit(pattern@, text@.take(n)) ==> b,
{
    match regex_search_exec(pattern, text) {
        Some(b) => b,
        None => true,
    }
}

/// No pattern of the linter looks at where the text ends.
proof fn lemma_patterns_end_free()
    ensures
        forall|i: int| 0 <= i < 13 ==> ends_unanchored(#[trigger] rule_pattern(i)),
        ends_unanchored(critical_site_pattern()),
        ends_unanchored(aggressive_change_pattern()),
{
    reveal_strlit(r"(?i)\b(shutdown|power[\s_-]?off|halt)\b.*\b(core[_-]?router|core[_-]?switch|bng|mme|amf)\b");
    reveal_strlit(r"(?i)\b(delete|rm|erase|wipe|purge)\b.*\b(config|configuration|running-config|startup-config)\b");
    reveal_strlit(r"(?i)\b(format|mkfs|dd\s+if=)\b");
    reveal_strlit(r"(?i)\b(disable|teardown)\b.*\b(firewall|acl|security[_-]?policy|ips|ids)\b");
    reveal_strlit(r"(?i)\b(factory[\s_-]?reset|write\s+erase|erase\s+startup)\b");
    reveal_strlit(r"(?i)\b(clear|flush)\b.*\b(bgp|ospf|isis|mpls)\b.*\b(all|entire|full)\b");
    reveal_strlit(r"(?i)\b(reload|reboot|restart)\b.*\b(chassis|supervisor|control[_-]?plane)\b");
    reveal_strlit(r"(?i)\b(open|permit)\b.*\b(any\s+any|0\.0\.0\.0/0)\b");
    reveal_strlit(r"(?i)\b(qos|traffic[\s_-]?shape|rate[\s_-]?limit|bandwidth)\b");
    reveal_strlit(r"(?i)\b(optimize|tune|adjust)\b.*\b(threshold|timer|metric|weight)\b");
    reveal_strlit(r"(?i)\b(no\s+logging|disable\s+logging|logging\s+disable|undebug\s+all|no\s+debug)\b");
    reveal_strlit(r"(?i)\b(root[\s_-]?cert|trustpoint|crypto\s+pki|ca[\s_-]?certificate|remove\s+certificate)\b");
    reveal_strlit(r"(?i)\b(bypass\s*2fa|disable\s*(mfa|2fa|two[\s_-]?factor)|skip\s*(mfa|2fa)|authentication\s+bypass|no\s+aaa\s+authentication)\b");
    reveal_strlit(r"(?i)\b(core|downtown|data[\s_-]?center|datacenter|dc[\s_-]?(east|west|central)|core[\s_-]?peering|bng[\s_-]?core)\b");
    reveal_strlit(r"(?i)\b(increase\s+(tx\s*)?power|boost|aggressive|shutdown|reload|clear\s+bgp|permit\s+any)\b");
    assert forall|i: int| 0 <= i < 13 implies ends_unanchored(#[trigger] rule_pattern(i)) by {
        let p = rule_pattern(i);
        assert forall|k: int| #![trigger p[k]] 0 <= k < p.len() implies {
            &&& p[k] != '$'
            &&& p[k] != '^'
            &&& !(p[k] == '\\' && k + 1 < p.len() && p[k + 1] == 'z')
        } by {}
    }
}

// ---------------------------------------------------------------------------
// The decision
// ---------------------------------------------------------------------------

/// Matched-rule lines of the first `n` rules, in rule order.
pub open spec fn hit_messages(hits: Seq<bool>, n: int) -> Seq<Seq<char>>
    decreases n,
{
    if n <= 0 {
        seq![]
    } else if hits[n - 1] {
        hit_messages(hits, n - 1).push(rule_message(n - 1))
    } else {
        hit_messages(hits, n - 1)
    }
}

/// Highest risk among the matched rules of the first `n` (Low when none).
pub open spec fn hit_risk(hits: Seq<bool>, n: int) -> RiskLevel
    decreases n,
{
    if n <= 0 {
        RiskLevel::Low
    } else if hits[n - 1] {
        higher_risk(hit_risk(hits, n - 1), rule_risk(n - 1))
    } else {
        hit_risk(hits, n - 1)
    }
}

/// Some matched rule among the first `n` hard-blocks.
pub open spec fn hit_hard(hits: Seq<bool>, n: int) -> bool
    decreases n,
{
    if n <= 0 {
        false
    } else {
        (hits[n - 1] && rule_hard_block(n - 1)) || hit_hard(hits, n - 1)
    }
}

/// Line reported when a critical site widens the blast radius.
pub open spec fn site_message(before: RiskLevel, after: RiskLevel) -> Seq<char> {
    "BR-001: Critical-site blast radius — target mentions Core/Downtown/DataCenter (escalated "@
        + risk_name(before) + " → "@ + risk_name(after) + ")"@
}

/// Line reported for an aggressive change on a critical site.
pub open spec fn aggressive_message() -> Seq<char> {
    "BR-002: Aggressive change on critical site — escalated to Critical"@
}

/// Reason given when nothing matched.
pub open spec fn clean_reason() -> Seq<char> {
    "No blacklist matches — eligible for graduated autonomy"@
}

/// The linter's decision, given which rules matched (`hits`, in rule order), whether a
/// critical site is named (`site`) and whether the change is aggressive (`aggressive`,
/// consulted only for a critical site).
pub open spec fn lint_outcome(hits: Seq<bool>, site: bool, aggressive: bool) -> LintView {
    let msgs0 = hit_messages(hits, rule_count());
    let high0 = hit_risk(hits, rule_count());
    let hard = hit_hard(hits, rule_count());
    let high1 = if site { higher_risk(high0, RiskLevel::High) } else { high0 };
    let msgs1 = if site { msgs0.push(site_message(high0, high1)) } else { msgs0 };
    let high = if site && aggressive { RiskLevel::Critical } else { high1 };
    let msgs = if site && aggressive { msgs1.push(aggressive_message()) } else { msgs1 };
    let auto = high == RiskLevel::Low && !hard;
    if hard {
        LintView {
            allowed: false,
            risk: RiskLevel::Critical,
            matched_rules: msgs,
            reason: msgs[0],
            requires_hitl: true,
            auto_approvable: false,
        }
    } else if msgs.len() == 0 {
        LintView {
            allowed: true,
            risk: RiskLevel::Low,
            matched_rules: seq![],
            reason: clean_reason(),
            requires_hitl: false,
            auto_approvable: true,
        }
    } else {
        LintView {
            allowed: true,
            risk: high,
            matched_rules: msgs,
            reason: "Matched "@ + decimal(msgs.len()) + " rule(s); risk="@ + risk_name(high)
                + "; HITL="@ + bool_text(!auto),
            requires_hitl: !auto,
            auto_approvable: auto,
        }
    }
}

/// A matched-rule line of a blacklist rule (as opposed to a blast-radius line).
pub open spec fn is_blacklist_line(m: Seq<char>) -> bool {
    m.len() >= 3 && m.take(3) == "BL-"@
}

/// Verdict `b` is at least as strict as verdict `a`: no lower risk, refused whenever `a` is,
/// auto-approvable only where `a` is, and every blacklist line of `a` reported in `b` too.
pub open spec fn at_least_as_strict(a: LintView, b: LintView) -> bool {
    &&& rank(a.risk) <= rank(b.risk)
    &&& !a.allowed ==> !b.allowed
    &&& b.auto_approvable ==> a.auto_approvable
    &&& forall|m: Seq<char>|
        #[trigger] a.matched_rules.contains(m) && is_blacklist_line(m) ==> b.matched_rules.contains(m)
}

/// The text the linter inspects: the command, then the context on a new line when given.
pub open spec fn lint_blob(command: Seq<char>, context: Seq<char>) -> Seq<char> {
    if context.len() == 0 {
        command
    } else {
        command + "\n"@ + context
    }
}

/// Which blacklist rules match `blob`, in rule order.
pub open spec fn rule_hits(blob: Seq<char>) -> Seq<bool> {
    Seq::new(13, |i: int| pattern_hit(rule_pattern(i), blob))
}

/// The linter's decision on a command and its context.
pub open spec fn lint_spec(command: Seq<char>, context: Seq<char>) -> LintView {
    let blob = lint_blob(command, context);
    lint_outcome(
        rule_hits(blob),
        pattern_hit(critical_site_pattern(), blob),
        pattern_hit(aggressive_change_pattern(), blob),
    )
}

/// `Debug` rendering of a risk level.
pub fn risk_name_string(r: RiskLevel) -> (s: String)
    ensures
        s@ == risk_name(r),
{
    match r {
        RiskLevel::Low => "Low".to_string(),
        RiskLevel::Medium => "Medium".to_string(),
        RiskLevel::High => "High".to_string(),
        RiskLevel::Critical => "Critical".to_string(),
    }
}

/// The higher of two risk levels.
pub fn max_risk(a: RiskLevel, b: RiskLevel) -> (r: RiskLevel)
    ensures
        r == higher_risk(a, b),
{
    let ra: u8 = match a {
        RiskLevel::Low => 0,
        RiskLevel::Medium => 1,
        RiskLevel::High => 2,
        RiskLevel::Critical => 3,
    };
    let rb: u8 = match b {
        RiskLevel::Low => 0,
        RiskLevel::Medium => 1,
        RiskLevel::High => 2,
        RiskLevel::Critical => 3,
    };
    if rb > ra {
        b
    } else {
        a
    }
}

/// The linter's decision from the match results: `hits[i]` tells whether blacklist rule `i`
/// matched, `site` whether a critical site is named, `aggressive` whether the change is
/// aggressive (consulted only when `site` holds).
pub fn lint_from_matches(hits: &Vec<bool>, site: bool, aggressive: bool) -> (r: LintResult)
    requires
        hits@.len() == 13,
    ensures
        r@ == lint_outcome(hits@, site, aggressive),
{
    let mut matched: Vec<String> = Vec::new();
    let mut highest = RiskLevel::Low;
    let mut hard_blocked = false;
    let mut i: usize = 0;
    while i < 13
        invariant
            i <= 13,
            hits@.len() == 13,
            views(matched@) == hit_messages(hits@, i as int),
            highest == hit_risk(hits@, i as int),
            hard_blocked == hit_hard(hits@, i as int),
        decreases 13 - i,
    {
        if hits[i] {
            let rule = blacklist_rule(i);
            let mut line = rule.id.to_string();
            line.append(": ");
            line.append(rule.description);
            let ghost before = matched@;
            matched.push(line);
            proof {
                assert(views(matched@) =~= views(before).push(rule_message(i as int)));
            }
            highest = max_risk(highest, rule.risk);
            if rule.hard_block {
                hard_blocked = true;
            }
        }
        i = i + 1;
    }
    let ghost msgs0 = views(matched@);
    let ghost high0 = highest;
    if site {
        let before = highest;
        highest = max_risk(highest, RiskLevel::High);
        let mut line = "BR-001: Critical-site blast radius — target mentions Core/Downtown/DataCenter (escalated ".to_string();
        line.append(&risk_name_string(before));
        line.append(" → ");
        line.append(&risk_name_string(highest));
        line.append(")");
        let ghost prev = matched@;
        matched.push(line);
        proof {
            assert(views(matched@) =~= views(prev).push(site_message(high0, highest)));
        }
        if aggressive {
            highest = RiskLevel::Critical;
            let ghost prev2 = matched@;
            matched.push("BR-002: Aggressive change on critical site — escalated to Critical".to_string());
            proof {
                assert(views(matched@) =~= views(prev2).push(aggressive_message()));
            }
        }
    }
    let auto_approvable = highest == RiskLevel::Low && !hard_blocked;
    let requires_hitl = !auto_approvable;
    proof {
        assert(views(matched@).len() == matched@.len());
    }
    if hard_blocked {
        proof {
            lemma_hard_has_message(hits@, 13);
        }
        let reason = matched[0].clone();
        proof {
            assert(views(matched@)[0] == matched@[0]@);
        }
        let r = LintResult {
            allowed: false,
            risk: RiskLevel::Critical,
            matched_rules: matched,
            reason,
            requires_hitl: true,
            auto_approvable: false,
        };
        assert(r@ == lint_outcome(hits@, site, aggressive));
        r
    } else if matched.len() == 0 {
        let r = LintResult {
            allowed: true,
            risk: RiskLevel::Low,
            matched_rules: Vec::new(),
            reason: "No blacklist matches — eligible for graduated autonomy".to_string(),
            requires_hitl: false,
            auto_approvable: true,
        };
        assert(views(r.matched_rules@) =~= seq![]);
        assert(r@ == lint_outcome(hits@, site, aggressive));
        r
    } else {
        let mut reason = "Matched ".to_string();
        reason.append(&decimal_string(matched.len() as u64));
        reason.append(" rule(s); risk=");
        reason.append(&risk_name_string(highest));
        reason.append("; HITL=");
        reason.append(&bool_string(requires_hitl));
        let r = LintResult {
            allowed: true,
            risk: highest,
            matched_rules: matched,
            reason,
            requires_hitl,
            auto_approvable,
        };
        assert(r@ == lint_outcome(hits@, site, aggressive));
        r
    }
}

proof fn lemma_hard_has_message(hits: Seq<bool>, n: int)
    requires
        hit_hard(hits, n),
    ensures
        hit_messages(hits, n).len() > 0,
    decreases n,
{
    if n > 0 && !(hits[n - 1] && rule_hard_block(n - 1)) {
        lemma_hard_has_message(hits, n - 1);
    }
}

/// Deterministic validation of a proposed command without context.
pub fn lint_command(command: &str) -> (r: LintResult)
    ensures
        r@ == lint_spec(command@, seq![]),
{
    proof {
        reveal_strlit("");
    }
    lint_with_context(command, "")
}

/// Lints a command together with its intent / context, which can widen the blast radius.
/// Adding context never lowers the verdict on the command alone.
pub fn lint_with_context(command: &str, context: &str) -> (r: LintResult)
    ensures
        r@ == lint_spec(command@, context@),
        at_least_as_strict(lint_spec(command@, seq![]), r@),
{
    proof {
        lemma_patterns_end_free();
    }
    let blob = if context.is_empty() {
        command.to_string()
    } else {
        let mut b = command.to_string();
        b.append("\n");
        b.append(context);
        b
    };
    let ghost n = command@.len() as int;
    proof {
        reveal_strlit("\n");
        if context@.len() > 0 {
            assert(blob@.take(n) =~= command@);
            assert(blob@[n] == '\n');
        }
    }
    let mut hits: Vec<bool> = Vec::new();
    let mut i: usize = 0;
    while i < 13
        invariant
            i <= 13,
            n == command@.len(),
            blob@ == lint_blob(command@, context@),
            context@.len() > 0 ==> blob@.take(n) == command@ && n < blob@.len() && blob@[n] == '\n',
            hits@ == rule_hits(blob@).take(i as int),
            forall|i: int| 0 <= i < 13 ==> ends_unanchored(#[trigger] rule_pattern(i)),
            context@.len() > 0 ==> forall|j: int|
                0 <= j < i && #[trigger] pattern_hit(rule_pattern(j), command@) ==> hits@[j],
        decreases 13 - i,
    {
        let rule = blacklist_rule(i);
        let h = pattern_hits(rule.pattern, blob.as_str());
        proof {
            assert(rule_hits(blob@).take(i + 1) =~= rule_hits(blob@).take(i as int).push(h));
            if context@.len() > 0 && pattern_hit(rule_pattern(i as int), command@) {
                assert(pattern_hit(rule.pattern@, blob@.take(n)));
            }
        }
        hits.push(h);
        i = i + 1;
    }
    assert(hits@ =~= rule_hits(blob@));
    let site = pattern_hits(
        r"(?i)\b(core|downtown|data[\s_-]?center|datacenter|dc[\s_-]?(east|west|central)|core[\s_-]?peering|bng[\s_-]?core)\b",
        blob.as_str(),
    );
    let aggressive = if site {
        pattern_hits(
            r"(?i)\b(increase\s+(tx\s*)?power|boost|aggressive|shutdown|reload|clear\s+bgp|permit\s+any)\b",
            blob.as_str(),
        )
    } else {
        false
    };
    proof {
        let c = command@;
        let b = blob@;
        let h1 = rule_hits(c);
        let site1 = pattern_hit(critical_site_pattern(), c);
        let aggr1 = pattern_hit(aggressive_change_pattern(), c);
        let aggr2 = pattern_hit(aggressive_change_pattern(), b);
        assert(lint_blob(c, seq![]) == c);
        if context@.len() > 0 {
            assert forall|j: int| 0 <= j < 13 && #[trigger] h1[j] implies hits@[j] by {
                assert(pattern_hit(rule_pattern(j), c));
            }
            assert(site1 ==> site) by {
                if site1 {
                    assert(pattern_hit(critical_site_pattern(), b.take(n)));
                }
            }
            assert(site1 && aggr1 ==> aggr2) by {
                if site1 && aggr1 {
                    assert(pattern_hit(aggressive_change_pattern(), b.take(n)));
                }
            }
        } else {
            assert(b == c);
        }
        law_more_matches_never_less_strict(h1, site1, aggr1, hits@, site, aggr2);
        assert(lint_outcome(hits@, site, aggressive) == lint_outcome(hits@, site, aggr2));
    }
    lint_from_matches(&hits, site, aggressive)
}


// ---------------------------------------------------------------------------
// Laws
// ---------------------------------------------------------------------------

/// `max_risk` is commutative, idempotent, and at least as high as both arguments.
pub proof fn law_max_risk(a: RiskLevel, b: RiskLevel)
    ensures
        higher_risk(a, b) == higher_risk(b, a),
        higher_risk(a, a) == a,
        rank(higher_risk(a, b)) >= rank(a),
        rank(higher_risk(a, b)) >= rank(b),
        higher_risk(a, b) == a || higher_risk(a, b) == b,
{
}

proof fn lemma_hit_risk_bound(hits: Seq<bool>, n: int, i: int)
    requires
        0 <= i < n,
        hits[i],
    ensures
        rank(hit_risk(hits, n)) >= rank(rule_risk(i)),
    decreases n,
{
    if i < n - 1 {
        lemma_hit_risk_bound(hits, n - 1, i);
    }
}

proof fn lemma_messages_nonempty(hits: Seq<bool>, n: int)
    ensures
        hit_messages(hits, n).len() > 0 <==> exists|i: int| 0 <= i < n && #[trigger] hits[i],
    decreases n,
{
    if n > 0 {
        lemma_messages_nonempty(hits, n - 1);
        if hits[n - 1] {
            assert(hits[n - 1]);
        } else {
            assert forall|i: int| 0 <= i < n && #[trigger] hits[i] implies 0 <= i < n - 1 by {}
        }
    }
}

proof fn lemma_no_hits(hits: Seq<bool>, n: int)
    requires
        forall|i: int| 0 <= i < n ==> !hits[i],
    ensures
        hit_messages(hits, n) == Seq::<Seq<char>>::empty(),
        hit_risk(hits, n) == RiskLevel::Low,
        !hit_hard(hits, n),
    decreases n,
{
    if n > 0 {
        lemma_no_hits(hits, n - 1);
    }
}

proof fn lemma_hits_monotone(h1: Seq<bool>, h2: Seq<bool>, n: int)
    requires
        forall|i: int| 0 <= i < n && #[trigger] h1[i] ==> h2[i],
    ensures
        rank(hit_risk(h1, n)) <= rank(hit_risk(h2, n)),
        hit_hard(h1, n) ==> hit_hard(h2, n),
    decreases n,
{
    if n > 0 {
        lemma_hits_monotone(h1, h2, n - 1);
        if h1[n - 1] {
            assert(h2[n - 1]);
        }
    }
}

/// A command is refused exactly when a hard-blocking blacklist rule matched; a refused
/// command is always reported Critical, needs a human, and is never auto-approvable.
pub proof fn law_blocked_iff_hard_rule(hits: Seq<bool>, site: bool, aggressive: bool)
    requires
        hits.len() == 13,
    ensures
        lint_outcome(hits, site, aggressive).allowed == !hit_hard(hits, rule_count()),
        !lint_outcome(hits, site, aggressive).allowed ==> {
            &&& lint_outcome(hits, site, aggressive).risk == RiskLevel::Critical
            &&& lint_outcome(hits, site, aggressive).requires_hitl
            &&& !lint_outcome(hits, site, aggressive).auto_approvable
        },
{
}

/// Graduated autonomy: a result is auto-approvable exactly when it is allowed and Low risk,
/// and it needs a human exactly when it is not auto-approvable (Medium / High / Critical
/// go to a human; hard-blocked commands are refused).
pub proof fn law_graduated_autonomy(hits: Seq<bool>, site: bool, aggressive: bool)
    requires
        hits.len() == 13,
    ensures
        lint_outcome(hits, site, aggressive).auto_approvable == (lint_outcome(hits, site, aggressive).allowed
            && lint_outcome(hits, site, aggressive).risk == RiskLevel::Low),
        lint_outcome(hits, site, aggressive).requires_hitl == !lint_outcome(hits, site, aggressive).auto_approvable,
{
}

/// A critical site (Core / Downtown / DataCenter) always escalates the risk to at least High,
/// and an aggressive change on such a site to Critical.
pub proof fn law_critical_site_escalates(hits: Seq<bool>, site: bool, aggressive: bool)
    requires
        hits.len() == 13,
    ensures
        site ==> rank(lint_outcome(hits, site, aggressive).risk) >= rank(RiskLevel::High),
        site ==> lint_outcome(hits, site, aggressive).requires_hitl,
        site && aggressive ==> lint_outcome(hits, site, aggressive).risk == RiskLevel::Critical,
{
}

/// The reported risk is never below the risk of any matched blacklist rule.
pub proof fn law_risk_covers_matched_rules(hits: Seq<bool>, site: bool, aggressive: bool, i: int)
    requires
        hits.len() == 13,
        0 <= i < 13,
        hits[i],
    ensures
        rank(lint_outcome(hits, site, aggressive).risk) >= rank(rule_risk(i)),
{
    lemma_hit_risk_bound(hits, 13, i);
    lemma_messages_nonempty(hits, 13);
    assert(hits[i]);
}

/// A command that matches no rule and names no critical site is allowed at Low risk,
/// auto-approvable, with no matched rules.
pub proof fn law_clean_command_auto_approved(hits: Seq<bool>, aggressive: bool)
    requires
        hits.len() == 13,
        forall|i: int| 0 <= i < 13 ==> !hits[i],
    ensures
        lint_outcome(hits, false, aggressive).allowed,
        lint_outcome(hits, false, aggressive).risk == RiskLevel::Low,
        lint_outcome(hits, false, aggressive).auto_approvable,
        !lint_outcome(hits, false, aggressive).requires_hitl,
        lint_outcome(hits, false, aggressive).matched_rules.len() == 0,
{
    lemma_no_hits(hits, 13);
}

/// More matches never make the linter more permissive: with every rule hit, the site and the
/// aggressive flag of the first situation also present in the second, the second verdict is
/// at least as strict: no lower risk, refused whenever the first is, auto-approvable only
/// where the first is, and reporting every blacklist line that the first reports.
pub proof fn law_more_matches_never_less_strict(
    h1: Seq<bool>,
    site1: bool,
    aggr1: bool,
    h2: Seq<bool>,
    site2: bool,
    aggr2: bool,
)
    requires
        h1.len() == 13,
        h2.len() == 13,
        forall|i: int| 0 <= i < 13 && #[trigger] h1[i] ==> h2[i],
        site1 ==> site2,
        site1 && aggr1 ==> aggr2,
    ensures
        at_least_as_strict(lint_outcome(h1, site1, aggr1), lint_outcome(h2, site2, aggr2)),
{
    lemma_hits_monotone(h1, h2, 13);
    lemma_messages_nonempty(h1, 13);
    lemma_messages_nonempty(h2, 13);
    if hit_messages(h1, 13).len() > 0 {
        let i = choose|i: int| 0 <= i < 13 && #[trigger] h1[i];
        assert(h2[i]);
    }
    let a = lint_outcome(h1, site1, aggr1);
    let b = lint_outcome(h2, site2, aggr2);
    let high0 = hit_risk(h1, 13);
    let high1 = if site1 { higher_risk(high0, RiskLevel::High) } else { high0 };
    let high0b = hit_risk(h2, 13);
    let high1b = if site2 { higher_risk(high0b, RiskLevel::High) } else { high0b };
    lemma_not_blacklist_lines(high0, high1);
    lemma_not_blacklist_lines(high0b, high1b);
    assert forall|m: Seq<char>|
        #[trigger] a.matched_rules.contains(m) && is_blacklist_line(m) implies b.matched_rules.contains(m) by {
        let m0 = hit_messages(h1, 13);
        let m1 = if site1 { m0.push(site_message(high0, high1)) } else { m0 };
        lemma_push_contains(m0, site_message(high0, high1), m);
        lemma_push_contains(m1, aggressive_message(), m);
        assert(m0.contains(m));
        lemma_listed_is_hit(h1, 13, m);
        let j = choose|j: int| 0 <= j < 13 && h1[j] && m == rule_message(j);
        assert(h2[j]);
        lemma_hit_listed(h2, 13, j);
        let n0 = hit_messages(h2, 13);
        let n1 = if site2 { n0.push(site_message(high0b, high1b)) } else { n0 };
        lemma_push_contains(n0, site_message(high0b, high1b), m);
        lemma_push_contains(n1, aggressive_message(), m);
    }
}

proof fn lemma_push_contains(s: Seq<Seq<char>>, x: Seq<char>, m: Seq<char>)
    ensures
        s.push(x).contains(m) <==> (s.contains(m) || m == x),
{
    if s.contains(m) {
        let k = choose|k: int| 0 <= k < s.len() && s[k] == m;
        assert(s.push(x)[k] == m);
    }
    if m == x {
        assert(s.push(x)[s.len() as int] == m);
    }
    if s.push(x).contains(m) {
        let k = choose|k: int| 0 <= k < s.len() + 1 && s.push(x)[k] == m;
        if k < s.len() {
            assert(s[k] == m);
        }
    }
}

proof fn lemma_not_blacklist_lines(before: RiskLevel, after: RiskLevel)
    ensures
        !is_blacklist_line(site_message(before, after)),
        !is_blacklist_line(aggressive_message()),
{
    reveal_strlit("BL-");
    reveal_strlit("BR-001: Critical-site blast radius — target mentions Core/Downtown/DataCenter (escalated ");
    reveal_strlit("BR-002: Aggressive change on critical site — escalated to Critical");
    let s = site_message(before, after);
    if is_blacklist_line(s) {
        assert(s.take(3)[1] == 'L');
        assert(s[1] == 'R');
    }
    let a = aggressive_message();
    if is_blacklist_line(a) {
        assert(a.take(3)[1] == 'L');
        assert(a[1] == 'R');
    }
}

proof fn lemma_hit_listed(h: Seq<bool>, n: int, i: int)
    requires
        0 <= i < n,
        h[i],
    ensures
        hit_messages(h, n).contains(rule_message(i)),
    decreases n,
{
    if i < n - 1 {
        lemma_hit_listed(h, n - 1, i);
        if h[n - 1] {
            lemma_push_contains(hit_messages(h, n - 1), rule_message(n - 1), rule_message(i));
        }
    } else {
        lemma_push_contains(hit_messages(h, n - 1), rule_message(n - 1), rule_message(i));
    }
}

proof fn lemma_listed_is_hit(h: Seq<bool>, n: int, m: Seq<char>)
    requires
        hit_messages(h, n).contains(m),
    ensures
        exists|j: int| 0 <= j < n && h[j] && m == rule_message(j),
    decreases n,
{
    if n > 0 {
        if h[n - 1] {
            lemma_push_contains(hit_messages(h, n - 1), rule_message(n - 1), m);
            if m != rule_message(n - 1) {
                lemma_listed_is_hit(h, n - 1, m);
            }
        } else {
            lemma_listed_is_hit(h, n - 1, m);
        }
    }
}


/// Rule `i` hit the text: its line is reported, the risk is at least the rule's, a
/// hard-blocking rule refuses the command, and a Medium or higher rule needs a human.
proof fn lemma_rule_hit(command: Seq<char>, context: Seq<char>, k: int)
    requires
        0 <= k < 13,
        pattern_hit(rule_pattern(k), lint_blob(command, context)),
    ensures
        lint_spec(command, context).matched_rules.contains(rule_message(k)),
        rank(lint_spec(command, context).risk) >= rank(rule_risk(k)),
        rule_hard_block(k) ==> !lint_spec(command, context).allowed,
        rule_hard_block(k) ==> lint_spec(command, context).risk == RiskLevel::Critical,
        rank(rule_risk(k)) >= rank(RiskLevel::Medium) ==> lint_spec(command, context).requires_hitl,
        rank(rule_risk(k)) >= rank(RiskLevel::Medium) ==> !lint_spec(command, context).auto_approvable,
{
    let blob = lint_blob(command, context);
    let hits = rule_hits(blob);
    let site = pattern_hit(critical_site_pattern(), blob);
    let aggr = pattern_hit(aggressive_change_pattern(), blob);
    assert(hits[k]);
    if rule_hard_block(k) {
        lemma_hard_of_hit(hits, 13, k);
    }
    law_blocked_iff_hard_rule(hits, site, aggr);
    law_graduated_autonomy(hits, site, aggr);
    law_risk_covers_matched_rules(hits, site, aggr, k);
    lemma_hit_listed(hits, 13, k);
    lemma_messages_nonempty(hits, 13);
    let m0 = hit_messages(hits, 13);
    let high0 = hit_risk(hits, 13);
    let high1 = if site { higher_risk(high0, RiskLevel::High) } else { high0 };
    let m1 = if site { m0.push(site_message(high0, high1)) } else { m0 };
    lemma_push_contains(m0, site_message(high0, high1), rule_message(k));
    lemma_push_contains(m1, aggressive_message(), rule_message(k));
}

proof fn lemma_hard_of_hit(hits: Seq<bool>, n: int, i: int)
    requires
        0 <= i < n,
        hits[i],
        rule_hard_block(i),
    ensures
        hit_hard(hits, n),
    decreases n,
{
    if i < n - 1 {
        lemma_hard_of_hit(hits, n - 1, i);
    }
}

/// Hard blocks: a command whose text (with its context) matches a forbidden pattern (shutting
/// down core elements, deleting configuration, destructive filesystem operations, disabling or
/// tearing down firewalls, ACLs, security policies or IDS / IPS, factory reset, disabling
/// logging, touching root / PKI certificates, bypassing 2FA / MFA) is refused at Critical
/// risk and is never auto-approved.
pub proof fn law_forbidden_commands_refused(command: Seq<char>, context: Seq<char>, pattern: Seq<char>)
    requires
        pattern == r"(?i)\b(shutdown|power[\s_-]?off|halt)\b.*\b(core[_-]?router|core[_-]?switch|bng|mme|amf)\b"@ ||
            pattern == r"(?i)\b(delete|rm|erase|wipe|purge)\b.*\b(config|configuration|running-config|startup-config)\b"@ ||
            pattern == r"(?i)\b(format|mkfs|dd\s+if=)\b"@ ||
            pattern == r"(?i)\b(disable|teardown)\b.*\b(firewall|acl|security[_-]?policy|ips|ids)\b"@ ||
            pattern == r"(?i)\b(factory[\s_-]?reset|write\s+erase|erase\s+startup)\b"@ ||
            pattern == r"(?i)\b(no\s+logging|disable\s+logging|logging\s+disable|undebug\s+all|no\s+debug)\b"@ ||
            pattern == r"(?i)\b(root[\s_-]?cert|trustpoint|crypto\s+pki|ca[\s_-]?certificate|remove\s+certificate)\b"@ ||
            pattern == r"(?i)\b(bypass\s*2fa|disable\s*(mfa|2fa|two[\s_-]?factor)|skip\s*(mfa|2fa)|authentication\s+bypass|no\s+aaa\s+authentication)\b"@,
        pattern_hit(pattern, lint_blob(command, context)),
    ensures
        !lint_spec(command, context).allowed,
        lint_spec(command, context).risk == RiskLevel::Critical,
        lint_spec(command, context).requires_hitl,
        !lint_spec(command, context).auto_approvable,
{
    if pattern == r"(?i)\b(shutdown|power[\s_-]?off|halt)\b.*\b(core[_-]?router|core[_-]?switch|bng|mme|amf)\b"@ {
        lemma_rule_hit(command, context, 0);
    }
    if pattern == r"(?i)\b(delete|rm|erase|wipe|purge)\b.*\b(config|configuration|running-config|startup-config)\b"@ {
        lemma_rule_hit(command, context, 1);
    }
    if pattern == r"(?i)\b(format|mkfs|dd\s+if=)\b"@ {
        lemma_rule_hit(command, context, 2);
    }
    if pattern == r"(?i)\b(disable|teardown)\b.*\b(firewall|acl|security[_-]?policy|ips|ids)\b"@ {
        lemma_rule_hit(command, context, 3);
    }
    if pattern == r"(?i)\b(factory[\s_-]?reset|write\s+erase|erase\s+startup)\b"@ {
        lemma_rule_hit(command, context, 4);
    }
    if pattern == r"(?i)\b(no\s+logging|disable\s+logging|logging\s+disable|undebug\s+all|no\s+debug)\b"@ {
        lemma_rule_hit(command, context, 10);
    }
    if pattern == r"(?i)\b(root[\s_-]?cert|trustpoint|crypto\s+pki|ca[\s_-]?certificate|remove\s+certificate)\b"@ {
        lemma_rule_hit(command, context, 11);
    }
    if pattern == r"(?i)\b(bypass\s*2fa|disable\s*(mfa|2fa|two[\s_-]?factor)|skip\s*(mfa|2fa)|authentication\s+bypass|no\s+aaa\s+authentication)\b"@ {
        lemma_rule_hit(command, context, 12);
    }
    law_blocked_iff_hard_rule(
        rule_hits(lint_blob(command, context)),
        pattern_hit(critical_site_pattern(), lint_blob(command, context)),
        pattern_hit(aggressive_change_pattern(), lint_blob(command, context)),
    );
}

/// Risky changes go to a human: clearing entire routing protocol state, reloading the control
/// plane, or opening an ACL to any / 0.0.0.0/0 gives at least High risk; a QoS / traffic
/// engineering change at least Medium. Either way the change is not auto-approved.
pub proof fn law_risky_commands_need_a_human(command: Seq<char>, context: Seq<char>, pattern: Seq<char>)
    requires
        pattern == r"(?i)\b(clear|flush)\b.*\b(bgp|ospf|isis|mpls)\b.*\b(all|entire|full)\b"@ ||
            pattern == r"(?i)\b(reload|reboot|restart)\b.*\b(chassis|supervisor|control[_-]?plane)\b"@ ||
            pattern == r"(?i)\b(open|permit)\b.*\b(any\s+any|0\.0\.0\.0/0)\b"@ ||
            pattern == r"(?i)\b(qos|traffic[\s_-]?shape|rate[\s_-]?limit|bandwidth)\b"@,
        pattern_hit(pattern, lint_blob(command, context)),
    ensures
        rank(lint_spec(command, context).risk) >= rank(RiskLevel::Medium),
        pattern != r"(?i)\b(qos|traffic[\s_-]?shape|rate[\s_-]?limit|bandwidth)\b"@ ==> rank(lint_spec(command, context).risk) >= rank(RiskLevel::High),
        lint_spec(command, context).requires_hitl,
        !lint_spec(command, context).auto_approvable,
{
    if pattern == r"(?i)\b(clear|flush)\b.*\b(bgp|ospf|isis|mpls)\b.*\b(all|entire|full)\b"@ {
        lemma_rule_hit(command, context, 5);
    }
    if pattern == r"(?i)\b(reload|reboot|restart)\b.*\b(chassis|supervisor|control[_-]?plane)\b"@ {
        lemma_rule_hit(command, context, 6);
    }
    if pattern == r"(?i)\b(open|permit)\b.*\b(any\s+any|0\.0\.0\.0/0)\b"@ {
        lemma_rule_hit(command, context, 7);
    }
    if pattern == r"(?i)\b(qos|traffic[\s_-]?shape|rate[\s_-]?limit|bandwidth)\b"@ {
        lemma_rule_hit(command, context, 8);
    }
}

/// Every blacklist rule that matches is reported by its id and description.
pub proof fn law_matched_rule_reported(command: Seq<char>, context: Seq<char>, pattern: Seq<char>, line: Seq<char>)
    requires
        (pattern == r"(?i)\b(shutdown|power[\s_-]?off|halt)\b.*\b(core[_-]?router|core[_-]?switch|bng|mme|amf)\b"@ && line == "BL-001: Forbidden: shutting down core network elements"@) ||
            (pattern == r"(?i)\b(delete|rm|erase|wipe|purge)\b.*\b(config|configuration|running-config|startup-config)\b"@ && line == "BL-002: Forbidden: deleting device configuration"@) ||
            (pattern == r"(?i)\b(format|mkfs|dd\s+if=)\b"@ && line == "BL-003: Forbidden: destructive filesystem operations"@) ||
            (pattern == r"(?i)\b(disable|teardown)\b.*\b(firewall|acl|security[_-]?policy|ips|ids)\b"@ && line == "BL-004: Forbidden: disabling security controls"@) ||
            (pattern == r"(?i)\b(factory[\s_-]?reset|write\s+erase|erase\s+startup)\b"@ && line == "BL-005: Forbidden: factory reset / erase startup"@) ||
            (pattern == r"(?i)\b(clear|flush)\b.*\b(bgp|ospf|isis|mpls)\b.*\b(all|entire|full)\b"@ && line == "BL-006: High risk: clearing entire routing protocol state"@) ||
            (pattern == r"(?i)\b(reload|reboot|restart)\b.*\b(chassis|supervisor|control[_-]?plane)\b"@ && line == "BL-007: High risk: control-plane reload"@) ||
            (pattern == r"(?i)\b(open|permit)\b.*\b(any\s+any|0\.0\.0\.0/0)\b"@ && line == "BL-008: High risk: overly permissive ACL"@) ||
            (pattern == r"(?i)\b(qos|traffic[\s_-]?shape|rate[\s_-]?limit|bandwidth)\b"@ && line == "BL-009: Medium risk: QoS / traffic engineering change"@) ||
            (pattern == r"(?i)\b(optimize|tune|adjust)\b.*\b(threshold|timer|metric|weight)\b"@ && line == "BL-010: Low risk: optimization / tuning"@) ||
            (pattern == r"(?i)\b(no\s+logging|disable\s+logging|logging\s+disable|undebug\s+all|no\s+debug)\b"@ && line == "BL-011: Forbidden: disabling logging / audit trail"@) ||
            (pattern == r"(?i)\b(root[\s_-]?cert|trustpoint|crypto\s+pki|ca[\s_-]?certificate|remove\s+certificate)\b"@ && line == "BL-012: Forbidden: modifying root / PKI certificates"@) ||
            (pattern == r"(?i)\b(bypass\s*2fa|disable\s*(mfa|2fa|two[\s_-]?factor)|skip\s*(mfa|2fa)|authentication\s+bypass|no\s+aaa\s+authentication)\b"@ && line == "BL-013: Forbidden: bypassing 2FA / MFA authentication layer"@),
        pattern_hit(pattern, lint_blob(command, context)),
    ensures
        lint_spec(command, context).matched_rules.contains(line),
{
    reveal_strlit(": ");
    reveal_strlit("BL-001");
    reveal_strlit("Forbidden: shutting down core network elements");
    reveal_strlit("BL-001: Forbidden: shutting down core network elements");
    reveal_strlit("BL-002");
    reveal_strlit("Forbidden: deleting device configuration");
    reveal_strlit("BL-002: Forbidden: deleting device configuration");
    reveal_strlit("BL-003");
    reveal_strlit("Forbidden: destructive filesystem operations");
    reveal_strlit("BL-003: Forbidden: destructive filesystem operations");
    reveal_strlit("BL-004");
    reveal_strlit("Forbidden: disabling security controls");
    reveal_strlit("BL-004: Forbidden: disabling security controls");
    reveal_strlit("BL-005");
    reveal_strlit("Forbidden: factory reset / erase startup");
    reveal_strlit("BL-005: Forbidden: factory reset / erase startup");
    reveal_strlit("BL-006");
    reveal_strlit("High risk: clearing entire routing protocol state");
    reveal_strlit("BL-006: High risk: clearing entire routing protocol state");
    reveal_strlit("BL-007");
    reveal_strlit("High risk: control-plane reload");
    reveal_strlit("BL-007: High risk: control-plane reload");
    reveal_strlit("BL-008");
    reveal_strlit("High risk: overly permissive ACL");
    reveal_strlit("BL-008: High risk: overly permissive ACL");
    reveal_strlit("BL-009");
    reveal_strlit("Medium risk: QoS / traffic engineering change");
    reveal_strlit("BL-009: Medium risk: QoS / traffic engineering change");
    reveal_strlit("BL-010");
    reveal_strlit("Low risk: optimization / tuning");
    reveal_strlit("BL-010: Low risk: optimization / tuning");
    reveal_strlit("BL-011");
    reveal_strlit("Forbidden: disabling logging / audit trail");
    reveal_strlit("BL-011: Forbidden: disabling logging / audit trail");
    reveal_strlit("BL-012");
    reveal_strlit("Forbidden: modifying root / PKI certificates");
    reveal_strlit("BL-012: Forbidden: modifying root / PKI certificates");
    reveal_strlit("BL-013");
    reveal_strlit("Forbidden: bypassing 2FA / MFA authentication layer");
    reveal_strlit("BL-013: Forbidden: bypassing 2FA / MFA authentication layer");
    if pattern == r"(?i)\b(shutdown|power[\s_-]?off|halt)\b.*\b(core[_-]?router|core[_-]?switch|bng|mme|amf)\b"@ {
        lemma_rule_hit(command, context, 0);
        assert(rule_message(0) =~= "BL-001: Forbidden: shutting down core network elements"@);
    }
    if pattern == r"(?i)\b(delete|rm|erase|wipe|purge)\b.*\b(config|configuration|running-config|startup-config)\b"@ {
        lemma_rule_hit(command, context, 1);
        assert(rule_message(1) =~= "BL-002: Forbidden: deleting device configuration"@);
    }
    if pattern == r"(?i)\b(format|mkfs|dd\s+if=)\b"@ {
        lemma_rule_hit(command, context, 2);
        assert(rule_message(2) =~= "BL-003: Forbidden: destructive filesystem operations"@);
    }
    if pattern == r"(?i)\b(disable|teardown)\b.*\b(firewall|acl|security[_-]?policy|ips|ids)\b"@ {
        lemma_rule_hit(command, context, 3);
        assert(rule_message(3) =~= "BL-004: Forbidden: disabling security controls"@);
    }
    if pattern == r"(?i)\b(factory[\s_-]?reset|write\s+erase|erase\s+startup)\b"@ {
        lemma_rule_hit(command, context, 4);
        assert(rule_message(4) =~= "BL-005: Forbidden: factory reset / erase startup"@);
    }
    if pattern == r"(?i)\b(clear|flush)\b.*\b(bgp|ospf|isis|mpls)\b.*\b(all|entire|full)\b"@ {
        lemma_rule_hit(command, context, 5);
        assert(rule_message(5) =~= "BL-006: High risk: clearing entire routing protocol state"@);
    }
    if pattern == r"(?i)\b(reload|reboot|restart)\b.*\b(chassis|supervisor|control[_-]?plane)\b"@ {
        lemma_rule_hit(command, context, 6);
        assert(rule_message(6) =~= "BL-007: High risk: control-plane reload"@);
    }
    if pattern == r"(?i)\b(open|permit)\b.*\b(any\s+any|0\.0\.0\.0/0)\b"@ {
        lemma_rule_hit(command, context, 7);
        assert(rule_message(7) =~= "BL-008: High risk: overly permissive ACL"@);
    }
    if pattern == r"(?i)\b(qos|traffic[\s_-]?shape|rate[\s_-]?limit|bandwidth)\b"@ {
        lemma_rule_hit(command, context, 8);
        assert(rule_message(8) =~= "BL-009: Medium risk: QoS / traffic engineering change"@);
    }
    if pattern == r"(?i)\b(optimize|tune|adjust)\b.*\b(threshold|timer|metric|weight)\b"@ {
        lemma_rule_hit(command, context, 9);
        assert(rule_message(9) =~= "BL-010: Low risk: optimization / tuning"@);
    }
    if pattern == r"(?i)\b(no\s+logging|disable\s+logging|logging\s+disable|undebug\s+all|no\s+debug)\b"@ {
        lemma_rule_hit(command, context, 10);
        assert(rule_message(10) =~= "BL-011: Forbidden: disabling logging / audit trail"@);
    }
    if pattern == r"(?i)\b(root[\s_-]?cert|trustpoint|crypto\s+pki|ca[\s_-]?certificate|remove\s+certificate)\b"@ {
        lemma_rule_hit(command, context, 11);
        assert(rule_message(11) =~= "BL-012: Forbidden: modifying root / PKI certificates"@);
    }
    if pattern == r"(?i)\b(bypass\s*2fa|disable\s*(mfa|2fa|two[\s_-]?factor)|skip\s*(mfa|2fa)|authentication\s+bypass|no\s+aaa\s+authentication)\b"@ {
        lemma_rule_hit(command, context, 12);
        assert(rule_message(12) =~= "BL-013: Forbidden: bypassing 2FA / MFA authentication layer"@);
    }
}

/// Blast radius: a text that names Core / Downtown / DataCenter (or a DC region, core
/// peering, BNG core) is at least High risk and needs a human; with an aggressive change
/// (increase power, boost, aggressive, shutdown, reload, clear bgp, permit any) it is Critical.
pub proof fn law_critical_site_text_escalates(command: Seq<char>, context: Seq<char>)
    requires
        pattern_hit(r"(?i)\b(core|downtown|data[\s_-]?center|datacenter|dc[\s_-]?(east|west|central)|core[\s_-]?peering|bng[\s_-]?core)\b"@, lint_blob(command, context)),
    ensures
        rank(lint_spec(command, context).risk) >= rank(RiskLevel::High),
        lint_spec(command, context).requires_hitl,
        pattern_hit(r"(?i)\b(increase\s+(tx\s*)?power|boost|aggressive|shutdown|reload|clear\s+bgp|permit\s+any)\b"@, lint_blob(command, context))
            ==> lint_spec(command, context).risk == RiskLevel::Critical,
{
    let blob = lint_blob(command, context);
    let hits = rule_hits(blob);
    let site = pattern_hit(critical_site_pattern(), blob);
    let aggr = pattern_hit(aggressive_change_pattern(), blob);
    law_critical_site_escalates(hits, site, aggr);
    law_blocked_iff_hard_rule(hits, site, aggr);
}

}
