//! Multi-agent decision pipeline: Performance, Security and Topology agents advise,
//! a Judge decides. Priority: Security/Stability > Compliance > Performance.
//!
//! Model calls and timing are made by the application, which runs the pipeline; every
//! decision taken between those calls (grounding, conflict resolution, parsing of agent
//! answers, enforcement of the hierarchy, and the safety gate) is here.

use vstd::prelude::*;
use vstd::string::*;
use crate::text::{has_sub, has_prefix, lowercase, uppercase, trimmed, text_lines, take_chars, views, ascii_text,
    ascii_lowercase, lemma_trimmed_ascii};
use crate::text::{to_lower, to_upper, contains, starts_with, trim, lines_of, first_chars, chars_of, string_of};
use crate::guardrails::{RiskLevel, LintResult, LintView, rank, higher_risk, lint_spec, lint_with_context};
use crate::rag::{KnowledgeBase, DocumentChunk, ChunkView, chunk_views, search_spec, context_spec, join_with, passage_separator};
use crate::error::SmaError;

verus! {

/// One specialist agent's advice.
#[derive(Debug, Clone)]
pub struct AgentOpinion {
    pub agent: String,
    pub analysis: String,
    pub recommendation: String,
    /// Confidence in thousandths (0..=1000).
    pub confidence_milli: u16,
}

/// Mathematical model of an [`AgentOpinion`].
pub struct OpinionView {
    pub agent: Seq<char>,
    pub analysis: Seq<char>,
    pub recommendation: Seq<char>,
    pub confidence_milli: u16,
}

impl View for AgentOpinion {
    type V = OpinionView;

    open spec fn view(&self) -> OpinionView {
        OpinionView {
            agent: self.agent@,
            analysis: self.analysis@,
            recommendation: self.recommendation@,
            confidence_milli: self.confidence_milli,
        }
    }
}

/// The views of a sequence of opinions.
pub open spec fn opinion_views(s: Seq<AgentOpinion>) -> Seq<OpinionView> {
    s.map_values(|o: AgentOpinion| o@)
}

/// Outcome of the deterministic Performance / Security conflict check.
#[derive(Debug, Clone)]
pub struct ConflictResolution {
    pub conflict_detected: bool,
    pub winner: String,
    pub loser: String,
    pub priority_applied: String,
    pub policy_citation: String,
    pub rationale: String,
}

/// Mathematical model of a [`ConflictResolution`].
pub struct ConflictView {
    pub conflict_detected: bool,
    pub winner: Seq<char>,
    pub loser: Seq<char>,
    pub priority_applied: Seq<char>,
    pub policy_citation: Seq<char>,
    pub rationale: Seq<char>,
}

impl View for ConflictResolution {
    type V = ConflictView;

    open spec fn view(&self) -> ConflictView {
        ConflictView {
            conflict_detected: self.conflict_detected,
            winner: self.winner@,
            loser: self.loser@,
            priority_applied: self.priority_applied@,
            policy_citation: self.policy_citation@,
            rationale: self.rationale@,
        }
    }
}

impl ConflictResolution {
    /// A field-by-field copy.
    pub fn duplicate(&self) -> (r: ConflictResolution)
        ensures
            r@ == self@,
    {
        ConflictResolution {
            conflict_detected: self.conflict_detected,
            winner: self.winner.clone(),
            loser: self.loser.clone(),
            priority_applied: self.priority_applied.clone(),
            policy_citation: self.policy_citation.clone(),
            rationale: self.rationale.clone(),
        }
    }
}

/// A progress notice emitted while the pipeline runs.
#[derive(Debug, Clone)]
pub struct PipelineProgress {
    pub stage: String,
    pub level: String,
    pub message: String,
}

// ---------------------------------------------------------------------------
// Keyword predicates
// ---------------------------------------------------------------------------

/// Some keyword of `ks` occurs in `t`.
pub open spec fn any_keyword(t: Seq<char>, ks: Seq<Seq<char>>) -> bool {
    exists|k: int| 0 <= k < ks.len() && has_sub(t, #[trigger] ks[k])
}

/// The views of a list of string literals.
pub open spec fn literal_views(ks: Seq<&str>) -> Seq<Seq<char>> {
    ks.map_values(|k: &str| k@)
}

fn contains_any(t: &str, ks: &Vec<&str>) -> (b: bool)
    ensures
        b == any_keyword(t@, literal_views(ks@)),
{
    let mut i: usize = 0;
    while i < ks.len()
        invariant
            i <= ks@.len(),
            forall|k: int| 0 <= k < i ==> !has_sub(t@, #[trigger] literal_views(ks@)[k]),
        decreases ks@.len() - i,
    {
        if contains(t, ks[i]) {
            proof {
                assert(has_sub(t@, literal_views(ks@)[i as int]));
            }
            return true;
        }
        i = i + 1;
    }
    false
}

/// Markers of an aggressive performance change.
pub open spec fn aggressive_keywords() -> Seq<Seq<char>> {
    seq![
        "tx power"@, "transmit power"@, "increase power"@, "boost"@, "aggressive"@, "max throughput"@,
        "raise power"@, "open bandwidth"@, "disable qos"@, "remove rate limit"@, "permit any"@,
    ]
}

/// Markers of a security concern.
pub open spec fn security_keywords() -> Seq<Seq<char>> {
    seq![
        "interference"@, "acl"@, "breach"@, "risk"@, "threat"@, "blast radius"@, "compliance"@,
        "unauthorized"@, "deny"@, "unsafe"@, "expose"@, "attack"@, "violate"@,
    ]
}

/// Markers of a security-first policy.
pub open spec fn policy_keywords() -> Seq<Seq<char>> {
    seq![
        "must not"@, "forbidden"@, "prohibited"@, "safety policy"@, "do not disable"@, "require approval"@,
        "hitl"@, "security first"@, "stability"@,
    ]
}

/// The text proposes an aggressive performance change.
pub open spec fn aggressive_text(text: Seq<char>) -> bool {
    any_keyword(lowercase(text), aggressive_keywords())
}

/// The text flags a security risk.
pub open spec fn risky_text(text: Seq<char>) -> bool {
    any_keyword(lowercase(text), security_keywords())
}

/// The policy text favours security.
pub open spec fn policy_prefers_security(rag: Seq<char>) -> bool {
    any_keyword(lowercase(rag), policy_keywords())
}

/// The policy text explicitly authorizes a performance optimization.
pub open spec fn policy_allows_performance(rag: Seq<char>) -> bool {
    let t = lowercase(rag);
    (has_sub(t, "authorized"@) || has_sub(t, "permitted"@) || has_sub(t, "may optimize"@))
        && (has_sub(t, "congestion"@) || has_sub(t, "qos"@) || has_sub(t, "threshold"@))
        && !has_sub(t, "must not increase"@)
}

/// Whether the text proposes an aggressive performance change.
pub fn is_aggressive_performance(text: &str) -> (b: bool)
    ensures
        b == aggressive_text(text@),
{
    let t = to_lower(text);
    let ks = vec![
        "tx power", "transmit power", "increase power", "boost", "aggressive", "max throughput",
        "raise power", "open bandwidth", "disable qos", "remove rate limit", "permit any",
    ];
    assert(literal_views(ks@) =~= aggressive_keywords());
    contains_any(t.as_str(), &ks)
}

/// Whether the text flags a security risk.
pub fn flags_security_risk(text: &str) -> (b: bool)
    ensures
        b == risky_text(text@),
{
    let t = to_lower(text);
    let ks = vec![
        "interference", "acl", "breach", "risk", "threat", "blast radius", "compliance",
        "unauthorized", "deny", "unsafe", "expose", "attack", "violate",
    ];
    assert(literal_views(ks@) =~= security_keywords());
    contains_any(t.as_str(), &ks)
}

/// Whether the policy text favours security.
pub fn rag_prefers_security(rag: &str) -> (b: bool)
    ensures
        b == policy_prefers_security(rag@),
{
    let t = to_lower(rag);
    let ks = vec![
        "must not", "forbidden", "prohibited", "safety policy", "do not disable", "require approval",
        "hitl", "security first", "stability",
    ];
    assert(literal_views(ks@) =~= policy_keywords());
    contains_any(t.as_str(), &ks)
}

/// Whether the policy text explicitly authorizes tuning / congestion relief.
pub fn rag_explicitly_allows_performance(rag: &str) -> (b: bool)
    ensures
        b == policy_allows_performance(rag@),
{
    let t = to_lower(rag);
    (contains(t.as_str(), "authorized") || contains(t.as_str(), "permitted") || contains(t.as_str(), "may optimize"))
        && (contains(t.as_str(), "congestion") || contains(t.as_str(), "qos") || contains(t.as_str(), "threshold"))
        && !contains(t.as_str(), "must not increase")
}

// ---------------------------------------------------------------------------
// Text helpers
// ---------------------------------------------------------------------------

/// `s`, or its first `max` characters followed by an ellipsis when longer.
pub open spec fn truncated(s: Seq<char>, max: nat) -> Seq<char> {
    if s.len() <= max {
        s
    } else {
        take_chars(s, max) + "…"@
    }
}

/// Shortens a string to `max` characters, marking the cut with an ellipsis.
pub fn truncate(s: &str, max: usize) -> (r: String)
    ensures
        r@ == truncated(s@, max as nat),
{
    let v = chars_of(s);
    if v.len() <= max {
        s.to_string()
    } else {
        let mut t = string_of(&v, 0, max);
        t.append("…");
        t
    }
}

/// The higher of two risk levels.
pub fn max_risk_level(a: RiskLevel, b: RiskLevel) -> (r: RiskLevel)
    ensures
        r == higher_risk(a, b),
{
    crate::guardrails::max_risk(a, b)
}

/// Lines of the policy context kept for a citation: trimmed, non-empty, not the
/// "No relevant" notice; at most four.
pub open spec fn citation_lines_from(ls: Seq<Seq<char>>, n: int) -> Seq<Seq<char>>
    decreases n,
{
    if n <= 0 {
        seq![]
    } else {
        let prev = citation_lines_from(ls, n - 1);
        let l = trimmed(ls[n - 1]);
        if prev.len() < 4 && l.len() > 0 && !has_prefix(l, "No relevant"@) {
            prev.push(l)
        } else {
            prev
        }
    }
}

/// Default citation when no policy passage was retrieved.
pub open spec fn default_citation() -> Seq<char> {
    "No specific policy chunk retrieved — default to Security/Stability priority."@
}

/// The policy citation drawn from a context block.
pub open spec fn citation_of(rag_ctx: Seq<char>) -> Seq<char> {
    let ls = text_lines(rag_ctx);
    let kept = citation_lines_from(ls, ls.len() as int);
    let cleaned = join_with(kept, " "@);
    if cleaned.len() == 0 {
        default_citation()
    } else {
        truncated(cleaned, 280)
    }
}

/// Extracts up to four non-empty policy lines (joined by spaces, at most 280 characters).
pub fn extract_policy_citation(rag_ctx: &str) -> (r: String)
    ensures
        r@ == citation_of(rag_ctx@),
{
    let ls = lines_of(rag_ctx);
    let ghost lv = views(ls@);
    let mut kept: Vec<String> = Vec::new();
    let mut i: usize = 0;
    while i < ls.len()
        invariant
            i <= ls@.len(),
            lv == views(ls@),
            views(kept@) == citation_lines_from(lv, i as int),
        decreases ls@.len() - i,
    {
        let l = trim(ls[i].as_str());
        proof {
            assert(lv[i as int] == ls@[i as int]@);
        }
        if kept.len() < 4 && !l.as_str().is_empty() && !starts_with(l.as_str(), "No relevant") {
            let ghost before = views(kept@);
            kept.push(l);
            proof {
                assert(views(kept@) =~= before.push(kept@[kept@.len() - 1]@));
            }
        }
        i = i + 1;
    }
    let ghost kv = views(kept@);
    let mut cleaned = String::new();
    let mut j: usize = 0;
    while j < kept.len()
        invariant
            j <= kept@.len(),
            kv == views(kept@),
            cleaned@ == join_with(kv.take(j as int), " "@),
        decreases kept@.len() - j,
    {
        if j > 0 {
            cleaned.append(" ");
        }
        cleaned.append(kept[j].as_str());
        proof {
            let t = kv.take(j + 1);
            assert(t.drop_last() =~= kv.take(j as int));
            assert(t.last() == kept@[j as int]@);
            if j == 0 {
                assert(kv.take(0) =~= Seq::<Seq<char>>::empty());
                assert(cleaned@ =~= join_with(t, " "@));
            }
        }
        j = j + 1;
    }
    proof {
        assert(kv.take(kv.len() as int) =~= kv);
    }
    if cleaned.as_str().is_empty() {
        "No specific policy chunk retrieved — default to Security/Stability priority.".to_string()
    } else {
        truncate(cleaned.as_str(), 280)
    }
}

/// Whether a line carries the field `key` (case-insensitive `KEY:` prefix once trimmed).
pub open spec fn field_line(line: Seq<char>, key: Seq<char>) -> bool {
    has_prefix(uppercase(trimmed(line)), uppercase(key + ":"@))
}

/// Number of bytes of the UTF-8 encoding of one character.
pub open spec fn char_bytes(c: char) -> int {
    vstd::utf8::encode_scalar(c as u32).len() as int
}

/// `l` without its first `n` bytes of UTF-8. Where the cut falls inside a character, the rest
/// starts at the next character; past the end, nothing is left.
pub open spec fn drop_bytes(l: Seq<char>, n: int) -> Seq<char>
    decreases l.len(),
{
    if n <= 0 || l.len() == 0 {
        l
    } else {
        drop_bytes(l.drop_first(), n - char_bytes(l[0]))
    }
}

/// The value of field `key` in a structured model answer: the rest of the first line
/// carrying it, trimmed, once as many bytes as `KEY:` has in UTF-8 are cut from the trimmed
/// line. (Where that cut would split a character or run past the line, a byte slice would
/// panic; the value then starts at the next character, or is empty.)
pub open spec fn field_of(text: Seq<char>, key: Seq<char>) -> Option<Seq<char>> {
    let ls = text_lines(text);
    if exists|i: int| 0 <= i < ls.len() && field_line(#[trigger] ls[i], key) {
        let i = choose|i: int|
            0 <= i < ls.len() && field_line(ls[i], key) && forall|j: int| 0 <= j < i ==> !field_line(#[trigger] ls[j], key);
        let l = trimmed(ls[i]);
        Some(trimmed(drop_bytes(l, crate::rag::byte_len(key + ":"@) as int)))
    } else {
        None
    }
}

fn utf8_width(c: char) -> (w: usize)
    ensures
        w == char_bytes(c),
{
    proof {
        vstd::utf8::char_is_scalar(c);
    }
    let x = c as u32;
    if x < 0x80 {
        1
    } else if x < 0x800 {
        2
    } else if x < 0x10000 {
        3
    } else {
        4
    }
}

/// `s` without its first `n` bytes of UTF-8 (see [`drop_bytes`]).
fn skip_bytes(s: &str, n: usize) -> (r: String)
    ensures
        r@ == drop_bytes(s@, n as int),
{
    let v = chars_of(s);
    let mut j: usize = 0;
    let mut left: usize = n;
    proof {
        assert(v@.subrange(0, v@.len() as int) =~= s@);
    }
    while j < v.len() && left > 0
        invariant
            j <= v@.len(),
            v@ == s@,
            drop_bytes(s@, n as int) == drop_bytes(v@.subrange(j as int, v@.len() as int), left as int),
        decreases v@.len() - j,
    {
        let w = utf8_width(v[j]);
        proof {
            let t = v@.subrange(j as int, v@.len() as int);
            assert(t.drop_first() =~= v@.subrange(j + 1, v@.len() as int));
            assert(t[0] == v@[j as int]);
            if w >= left {
                assert(drop_bytes(t.drop_first(), left - w) == t.drop_first());
                assert(drop_bytes(t.drop_first(), 0) == t.drop_first());
            }
        }
        left = if w >= left { 0 } else { left - w };
        j = j + 1;
    }
    proof {
        let t = v@.subrange(j as int, v@.len() as int);
        assert(drop_bytes(t, left as int) == t);
    }
    string_of(&v, j, v.len())
}

/// Reads the value of field `key` from a structured model answer.
pub fn extract_field(text: &str, key: &str) -> (r: Option<String>)
    ensures
        match r {
            Some(v) => field_of(text@, key@) == Some(v@),
            None => field_of(text@, key@).is_none(),
        },
{
    let ls = lines_of(text);
    let ghost lv = views(ls@);
    let mut prefix = key.to_string();
    prefix.append(":");
    let up_prefix = to_upper(prefix.as_str());
    let n = crate::rag::byte_count(prefix.as_str());
    let mut i: usize = 0;
    while i < ls.len()
        invariant
            i <= ls@.len(),
            lv == views(ls@),
            lv == text_lines(text@),
            prefix@ == key@ + ":"@,
            up_prefix@ == uppercase(key@ + ":"@),
            n == crate::rag::byte_len(key@ + ":"@),
            forall|j: int| 0 <= j < i ==> !field_line(#[trigger] lv[j], key@),
        decreases ls@.len() - i,
    {
        proof {
            assert(lv[i as int] == ls@[i as int]@);
            reveal_strlit(":");
        }
        let line = trim(ls[i].as_str());
        let up = to_upper(line.as_str());
        if starts_with(up.as_str(), up_prefix.as_str()) {
            let rest = skip_bytes(line.as_str(), n);
            let value = trim(rest.as_str());
            proof {
                assert(field_line(lv[i as int], key@));
                let c = choose|c: int|
                    0 <= c < lv.len() && field_line(lv[c], key@) && forall|j: int| 0 <= j < c ==> !field_line(
                        #[trigger] lv[j],
                        key@,
                    );
                if c < i {
                } else if c > i {
                    assert(!field_line(lv[i as int], key@));
                }
            }
            return Some(value);
        }
        i = i + 1;
    }
    None
}

/// The risk level named by a model answer (Medium when unrecognised).
pub open spec fn risk_named(s: Seq<char>) -> RiskLevel {
    risk_of_lower(lowercase(trimmed(s)))
}

/// The risk level a lowercased, trimmed answer names (Medium when unrecognised).
pub open spec fn risk_of_lower(l: Seq<char>) -> RiskLevel {
    if l == "low"@ {
        RiskLevel::Low
    } else if l == "medium"@ {
        RiskLevel::Medium
    } else if l == "high"@ {
        RiskLevel::High
    } else if l == "critical"@ {
        RiskLevel::Critical
    } else {
        RiskLevel::Medium
    }
}

/// Reads a risk level from a model answer.
pub fn risk_from_str(s: &str) -> (r: RiskLevel)
    ensures
        r == risk_named(s@),
        ascii_text(s@) ==> r == risk_of_lower(ascii_lowercase(trimmed(s@))),
{
    let t = trim(s);
    proof {
        if ascii_text(s@) {
            lemma_trimmed_ascii(s@);
        }
    }
    let l = to_lower(t.as_str());
    if crate::text::same_text(l.as_str(), "low") {
        RiskLevel::Low
    } else if crate::text::same_text(l.as_str(), "medium") {
        RiskLevel::Medium
    } else if crate::text::same_text(l.as_str(), "high") {
        RiskLevel::High
    } else if crate::text::same_text(l.as_str(), "critical") {
        RiskLevel::Critical
    } else {
        RiskLevel::Medium
    }
}

/// An opinion read from an agent's answer, with its confidence (in thousandths) already read.
pub open spec fn opinion_from(agent: Seq<char>, raw: Seq<char>, confidence_milli: u16) -> OpinionView {
    OpinionView {
        agent,
        analysis: match field_of(raw, "ANALYSIS"@) {
            Some(a) => a,
            None => take_chars(raw, 280),
        },
        recommendation: match field_of(raw, "RECOMMENDATION"@) {
            Some(r) => r,
            None => "No recommendation"@,
        },
        confidence_milli,
    }
}

/// Reads an agent's answer (`ANALYSIS:` / `RECOMMENDATION:` fields). The confidence, a
/// decimal in the `CONFIDENCE:` field, is read by the caller and passed in thousandths.
pub fn parse_opinion(agent: &str, raw: &str, confidence_milli: u16) -> (r: AgentOpinion)
    ensures
        r@ == opinion_from(agent@, raw@, confidence_milli),
{
    let analysis = match extract_field(raw, "ANALYSIS") {
        Some(a) => a,
        None => first_chars(raw, 280),
    };
    let recommendation = match extract_field(raw, "RECOMMENDATION") {
        Some(r) => r,
        None => "No recommendation".to_string(),
    };
    AgentOpinion { agent: agent.to_string(), analysis, recommendation, confidence_milli }
}

/// The Judge's answer fields: summary, command, logic, risk and winner.
pub open spec fn judge_fields(raw: Seq<char>) -> (Seq<char>, Seq<char>, Seq<char>, Seq<char>, Seq<char>) {
    (
        match field_of(raw, "SUMMARY"@) {
            Some(v) => v,
            None => take_chars(raw, 300),
        },
        match field_of(raw, "COMMAND"@) {
            Some(v) => v,
            None => "optimize threshold for edge cell throughput"@,
        },
        match field_of(raw, "LOGIC"@) {
            Some(v) => v,
            None => "Judge synthesis"@,
        },
        match field_of(raw, "RISK"@) {
            Some(v) => v,
            None => "Medium"@,
        },
        match field_of(raw, "WINNER"@) {
            Some(v) => v,
            None => Seq::<char>::empty(),
        },
    )
}

/// Reads the Judge's answer.
pub fn parse_judge(raw: &str) -> (r: (String, String, String, String, String))
    ensures
        (r.0@, r.1@, r.2@, r.3@, r.4@) == judge_fields(raw@),
{
    let summary = match extract_field(raw, "SUMMARY") {
        Some(v) => v,
        None => first_chars(raw, 300),
    };
    let command = match extract_field(raw, "COMMAND") {
        Some(v) => v,
        None => "optimize threshold for edge cell throughput".to_string(),
    };
    let logic = match extract_field(raw, "LOGIC") {
        Some(v) => v,
        None => "Judge synthesis".to_string(),
    };
    let risk = match extract_field(raw, "RISK") {
        Some(v) => v,
        None => "Medium".to_string(),
    };
    let winner = match extract_field(raw, "WINNER") {
        Some(v) => v,
        None => String::new(),
    };
    (summary, command, logic, risk, winner)
}

// ---------------------------------------------------------------------------
// Conflict resolution
// ---------------------------------------------------------------------------

/// Position of the first opinion whose agent name contains `name`.
pub open spec fn first_agent(ops: Seq<OpinionView>, name: Seq<char>) -> Option<int> {
    if exists|i: int| 0 <= i < ops.len() && has_sub(#[trigger] ops[i].agent, name) {
        Some(
            choose|i: int|
                0 <= i < ops.len() && has_sub(ops[i].agent, name) && forall|j: int|
                    0 <= j < i ==> !has_sub(#[trigger] ops[j].agent, name),
        )
    } else {
        None
    }
}

fn find_agent(ops: &Vec<AgentOpinion>, name: &str) -> (r: Option<usize>)
    ensures
        match r {
            Some(i) => first_agent(opinion_views(ops@), name@) == Some(i as int) && i < ops@.len(),
            None => first_agent(opinion_views(ops@), name@).is_none(),
        },
{
    let ghost ov = opinion_views(ops@);
    let mut i: usize = 0;
    while i < ops.len()
        invariant
            i <= ops@.len(),
            ov == opinion_views(ops@),
            forall|j: int| 0 <= j < i ==> !has_sub(#[trigger] ov[j].agent, name@),
        decreases ops@.len() - i,
    {
        proof {
            assert(ov[i as int] == ops@[i as int]@);
        }
        if contains(ops[i].agent.as_str(), name) {
            proof {
                let c = choose|c: int|
                    0 <= c < ov.len() && has_sub(ov[c].agent, name@) && forall|j: int|
                        0 <= j < c ==> !has_sub(#[trigger] ov[j].agent, name@);
                if c < i {
                } else if c > i {
                    assert(!has_sub(ov[i as int].agent, name@));
                }
            }
            return Some(i);
        }
        i = i + 1;
    }
    None
}

/// The priority hierarchy.
pub open spec fn hierarchy() -> Seq<char> {
    "Security/Stability > Compliance > Performance"@
}

/// Rationale when Security wins a conflict.
pub open spec fn security_rationale(perf_rec: Seq<char>, sec_analysis: Seq<char>) -> Seq<char> {
    "Performance proposed an aggressive change ("@ + truncated(perf_rec, 80) + ") while Security flagged risk ("@
        + truncated(sec_analysis, 80)
        + "). Per AN Level-4 hierarchy, Security/Stability wins unless RAG explicitly authorizes the performance action. RAG does not authorize it here."@
}

/// Rationale when policy authorizes the Performance change.
pub open spec fn exception_rationale(policy: Seq<char>) -> Seq<char> {
    "Performance change is aggressive, but RAG policy explicitly permits controlled optimization under the stated conditions. Citing: "@
        + truncated(policy, 160)
}

/// A resolution from its fields.
pub open spec fn resolution(
    conflict_detected: bool,
    winner: Seq<char>,
    loser: Seq<char>,
    priority_applied: Seq<char>,
    policy_citation: Seq<char>,
    rationale: Seq<char>,
) -> ConflictView {
    ConflictView { conflict_detected, winner, loser, priority_applied, policy_citation, rationale }
}

/// The Performance opinion proposes an aggressive change.
pub open spec fn opinion_aggressive(o: OpinionView) -> bool {
    aggressive_text(o.recommendation) || aggressive_text(o.analysis)
}

/// The Security opinion flags a risk.
pub open spec fn opinion_risky(o: OpinionView) -> bool {
    risky_text(o.recommendation) || risky_text(o.analysis)
}

/// The deterministic conflict resolution between the Performance and Security agents.
pub open spec fn conflict_spec(ops: Seq<OpinionView>, rag_ctx: Seq<char>, policy: Seq<char>) -> ConflictView {
    match (first_agent(ops, "Performance"@), first_agent(ops, "Security"@)) {
        (Some(p), Some(s)) => {
            let perf = ops[p];
            let sec = ops[s];
            let aggressive = opinion_aggressive(perf);
            let risky = opinion_risky(sec);
            let favors = policy_prefers_security(rag_ctx);
            let allows = policy_allows_performance(rag_ctx);
            if aggressive && risky && !(allows && !favors) {
                resolution(true, "Security Agent"@, "Performance Agent"@, hierarchy(), policy,
                    security_rationale(perf.recommendation, sec.analysis))
            } else if aggressive && risky && allows {
                resolution(true, "Performance Agent"@, "Security Agent"@, "Compliance exception via RAG policy"@,
                    policy, exception_rationale(policy))
            } else {
                resolution(false, "Consensus"@, "—"@, hierarchy(), policy,
                    "No hard Performance↔Security conflict detected; Judge may synthesize."@)
            }
        },
        _ => resolution(false, "Consensus"@, "—"@, hierarchy(), policy,
            "Insufficient agent outputs for conflict analysis."@),
    }
}

fn security_rationale_text(perf_rec: &str, sec_analysis: &str) -> (r: String)
    ensures
        r@ == security_rationale(perf_rec@, sec_analysis@),
{
    let mut rationale = "Performance proposed an aggressive change (".to_string();
    rationale.append(truncate(perf_rec, 80).as_str());
    rationale.append(") while Security flagged risk (");
    rationale.append(truncate(sec_analysis, 80).as_str());
    rationale.append(
        "). Per AN Level-4 hierarchy, Security/Stability wins unless RAG explicitly authorizes the performance action. RAG does not authorize it here.",
    );
    rationale
}

fn exception_rationale_text(policy: &str) -> (r: String)
    ensures
        r@ == exception_rationale(policy@),
{
    let mut rationale =
        "Performance change is aggressive, but RAG policy explicitly permits controlled optimization under the stated conditions. Citing: ".to_string();
    rationale.append(truncate(policy, 160).as_str());
    rationale
}

fn aggressive_opinion(o: &AgentOpinion) -> (b: bool)
    ensures
        b == opinion_aggressive(o@),
{
    is_aggressive_performance(o.recommendation.as_str()) || is_aggressive_performance(o.analysis.as_str())
}

fn risky_opinion(o: &AgentOpinion) -> (b: bool)
    ensures
        b == opinion_risky(o@),
{
    flags_security_risk(o.recommendation.as_str()) || flags_security_risk(o.analysis.as_str())
}

/// Detects a Performance vs Security conflict and applies the hierarchy, using the policy
/// text retrieved from the knowledge base.
pub fn resolve_perf_security_conflict(
    opinions: &Vec<AgentOpinion>,
    rag_ctx: &str,
    policy_excerpt: &str,
) -> (r: ConflictResolution)
    ensures
        r@ == conflict_spec(opinion_views(opinions@), rag_ctx@, policy_excerpt@),
{
    let ghost ov = opinion_views(opinions@);
    let perf = find_agent(opinions, "Performance");
    let sec = find_agent(opinions, "Security");
    match (perf, sec) {
        (Some(p), Some(s)) => {
            let perf = &opinions[p];
            let sec = &opinions[s];
            proof {
                assert(ov[p as int] == perf@);
                assert(ov[s as int] == sec@);
            }
            let aggressive = aggressive_opinion(perf);
            let risky = risky_opinion(sec);
            let favors = rag_prefers_security(rag_ctx);
            let allows = rag_explicitly_allows_performance(rag_ctx);
            if aggressive && risky && !(allows && !favors) {
                let rationale = security_rationale_text(perf.recommendation.as_str(), sec.analysis.as_str());
                return ConflictResolution {
                    conflict_detected: true,
                    winner: "Security Agent".to_string(),
                    loser: "Performance Agent".to_string(),
                    priority_applied: "Security/Stability > Compliance > Performance".to_string(),
                    policy_citation: policy_excerpt.to_string(),
                    rationale,
                };
            }
            if aggressive && risky && allows {
                let rationale = exception_rationale_text(policy_excerpt);
                return ConflictResolution {
                    conflict_detected: true,
                    winner: "Performance Agent".to_string(),
                    loser: "Security Agent".to_string(),
                    priority_applied: "Compliance exception via RAG policy".to_string(),
                    policy_citation: policy_excerpt.to_string(),
                    rationale,
                };
            }
            ConflictResolution {
                conflict_detected: false,
                winner: "Consensus".to_string(),
                loser: "—".to_string(),
                priority_applied: "Security/Stability > Compliance > Performance".to_string(),
                policy_citation: policy_excerpt.to_string(),
                rationale: "No hard Performance↔Security conflict detected; Judge may synthesize.".to_string(),
            }
        },
        _ => ConflictResolution {
            conflict_detected: false,
            winner: "Consensus".to_string(),
            loser: "—".to_string(),
            priority_applied: "Security/Stability > Compliance > Performance".to_string(),
            policy_citation: policy_excerpt.to_string(),
            rationale: "Insufficient agent outputs for conflict analysis.".to_string(),
        },
    }
}


// ---------------------------------------------------------------------------
// Grounding
// ---------------------------------------------------------------------------

/// What the knowledge base contributes to one pipeline run.
#[derive(Debug, Clone)]
pub struct PipelineContext {
    /// The passages that justify the decision ("show your source").
    pub evidence_sources: Vec<DocumentChunk>,
    /// The policy context handed to the agents.
    pub rag_ctx: String,
    /// Whether any knowledge-base passage was used.
    pub knowledge_used: bool,
    /// The policy citation drawn from `rag_ctx`.
    pub policy_excerpt: String,
}

/// An evidence passage as shown to the agents.
pub open spec fn evidence_passage(c: ChunkView) -> Seq<char> {
    "["@ + c.source + "]\n"@ + c.content
}

/// The policy context for a run: the evidence passages, or the knowledge base's own
/// context block when there is no evidence.
pub open spec fn rag_context_of(chunks: Seq<ChunkView>, intent: Seq<char>) -> Seq<char> {
    let ev = search_spec(chunks, intent, 3);
    if ev.len() == 0 {
        context_spec(chunks, intent, 4)
    } else {
        join_with(ev.map_values(|c: ChunkView| evidence_passage(c)), passage_separator())
    }
}

/// Whether a run used the knowledge base.
pub open spec fn knowledge_used_of(chunks: Seq<ChunkView>, intent: Seq<char>) -> bool {
    search_spec(chunks, intent, 3).len() > 0 && !has_sub(rag_context_of(chunks, intent), "No relevant knowledge-base"@)
}

fn evidence_block(ev: &Vec<DocumentChunk>) -> (r: String)
    requires
        ev@.len() > 0,
    ensures
        r@ == join_with(chunk_views(ev@).map_values(|c: ChunkView| evidence_passage(c)), passage_separator()),
{
    let ghost items = chunk_views(ev@).map_values(|c: ChunkView| evidence_passage(c));
    let mut out = String::new();
    let mut i: usize = 0;
    while i < ev.len()
        invariant
            0 < ev@.len(),
            i <= ev@.len(),
            items == chunk_views(ev@).map_values(|c: ChunkView| evidence_passage(c)),
            i > 0 ==> out@ == join_with(items.take(i as int), passage_separator()),
            i == 0 ==> out@ == Seq::<char>::empty(),
        decreases ev@.len() - i,
    {
        if i > 0 {
            out.append("\n\n---\n\n");
        }
        out.append("[");
        out.append(ev[i].source.as_str());
        out.append("]\n");
        out.append(ev[i].content.as_str());
        proof {
            let t = items.take(i + 1);
            assert(t.last() == evidence_passage(ev@[i as int]@));
            assert(t.drop_last() =~= items.take(i as int));
            if i == 0 {
                assert(t.len() == 1);
            }
        }
        i = i + 1;
    }
    proof {
        assert(items.take(ev@.len() as int) =~= items);
    }
    out
}

/// Grounds an intent in the knowledge base: the three best passages as evidence, the
/// policy context built from them, and the policy citation.
pub fn pipeline_context(kb: &KnowledgeBase, intent: &str) -> (r: PipelineContext)
    ensures
        chunk_views(r.evidence_sources@) == search_spec(chunk_views(kb.chunks@), intent@, 3),
        r.rag_ctx@ == rag_context_of(chunk_views(kb.chunks@), intent@),
        r.knowledge_used == knowledge_used_of(chunk_views(kb.chunks@), intent@),
        r.policy_excerpt@ == citation_of(r.rag_ctx@),
{
    let evidence_sources = kb.search(intent, 3);
    let rag_ctx = if evidence_sources.len() == 0 {
        kb.context_for(intent, 4)
    } else {
        evidence_block(&evidence_sources)
    };
    let knowledge_used = evidence_sources.len() > 0 && !contains(rag_ctx.as_str(), "No relevant knowledge-base");
    let policy_excerpt = extract_policy_citation(rag_ctx.as_str());
    PipelineContext { evidence_sources, rag_ctx, knowledge_used, policy_excerpt }
}

/// The intent, trimmed; the pipeline refuses an empty one.
pub open spec fn intent_accepted(intent: Seq<char>) -> bool {
    trimmed(intent).len() > 0
}

/// Trims the operator's intent, refusing an empty one.
pub fn validate_intent(intent: &str) -> (r: Result<String, SmaError>)
    ensures
        intent_accepted(intent@) <==> r is Ok,
        r matches Ok(t) ==> t@ == trimmed(intent@),
        r matches Err(e) ==> e matches SmaError::InvalidIntent(m) && m@ == "Network intent cannot be empty"@,
{
    let t = trim(intent);
    if t.as_str().is_empty() {
        Err(SmaError::InvalidIntent("Network intent cannot be empty".to_string()))
    } else {
        Ok(t)
    }
}

// ---------------------------------------------------------------------------
// Fallback answers when the model is unavailable
// ---------------------------------------------------------------------------

/// The answer used for an agent whose model call failed.
pub open spec fn agent_fallback_text(err: Seq<char>) -> Seq<char> {
    "ANALYSIS: Agent offline ("@ + err
        + "). Using heuristic fallback.\nRECOMMENDATION: observe and collect more telemetry\nCONFIDENCE: 0.35"@
}

/// Builds the answer used for an agent whose model call failed with `err`.
pub fn agent_fallback_response(err: &str) -> (r: String)
    ensures
        r@ == agent_fallback_text(err@),
{
    let mut r = "ANALYSIS: Agent offline (".to_string();
    r.append(err);
    r.append("). Using heuristic fallback.\nRECOMMENDATION: observe and collect more telemetry\nCONFIDENCE: 0.35");
    r
}

/// The Judge answer used when the Judge's model call failed.
pub open spec fn judge_fallback_text(ops: Seq<OpinionView>, c: ConflictView) -> Seq<char> {
    if c.conflict_detected {
        let sec = match first_agent(ops, "Security"@) {
            Some(i) => ops[i].recommendation,
            None => "observe and collect more telemetry"@,
        };
        "SUMMARY: Conflict resolved in favor of Security/Stability over Performance.\nCOMMAND: "@ + sec
            + "\nLOGIC: "@ + c.rationale + " Policy: "@ + c.policy_citation
            + "\nRISK: Medium\nWINNER: Security Agent"@
    } else {
        "SUMMARY: Fallback consensus — continue monitoring with light optimization.\nCOMMAND: optimize threshold for edge cell throughput\nLOGIC: Agents aligned or Ollama unavailable; choose lowest-risk Performance-safe action.\nRISK: Low\nWINNER: Consensus"@
    }
}

/// Builds the Judge answer used when the Judge's model call failed.
pub fn judge_fallback_response(opinions: &Vec<AgentOpinion>, conflict: &ConflictResolution) -> (r: String)
    ensures
        r@ == judge_fallback_text(opinion_views(opinions@), conflict@),
{
    if conflict.conflict_detected {
        let ghost ov = opinion_views(opinions@);
        let sec = match find_agent(opinions, "Security") {
            Some(i) => {
                proof {
                    assert(ov[i as int] == opinions@[i as int]@);
                }
                opinions[i].recommendation.clone()
            },
            None => "observe and collect more telemetry".to_string(),
        };
        let mut r = "SUMMARY: Conflict resolved in favor of Security/Stability over Performance.\nCOMMAND: ".to_string();
        r.append(sec.as_str());
        r.append("\nLOGIC: ");
        r.append(conflict.rationale.as_str());
        r.append(" Policy: ");
        r.append(conflict.policy_citation.as_str());
        r.append("\nRISK: Medium\nWINNER: Security Agent");
        r
    } else {
        "SUMMARY: Fallback consensus — continue monitoring with light optimization.\nCOMMAND: optimize threshold for edge cell throughput\nLOGIC: Agents aligned or Ollama unavailable; choose lowest-risk Performance-safe action.\nRISK: Low\nWINNER: Consensus".to_string()
    }
}


// ---------------------------------------------------------------------------
// The Judge's decision under the deterministic hierarchy
// ---------------------------------------------------------------------------

/// The Judge's decision once the deterministic hierarchy has been enforced.
#[derive(Debug, Clone)]
pub struct JudgeDecision {
    pub judge_summary: String,
    pub proposed_command: String,
    pub decision_logic: String,
    /// The Judge's risk estimate, as it answered it.
    pub risk_hint: String,
    pub conflict_resolution: ConflictResolution,
}

/// Mathematical model of a [`JudgeDecision`].
pub struct DecisionView {
    pub judge_summary: Seq<char>,
    pub proposed_command: Seq<char>,
    pub decision_logic: Seq<char>,
    pub risk_hint: Seq<char>,
    pub conflict_resolution: ConflictView,
}

impl View for JudgeDecision {
    type V = DecisionView;

    open spec fn view(&self) -> DecisionView {
        DecisionView {
            judge_summary: self.judge_summary@,
            proposed_command: self.proposed_command@,
            decision_logic: self.decision_logic@,
            risk_hint: self.risk_hint@,
            conflict_resolution: self.conflict_resolution@,
        }
    }
}

/// The line appended to the Judge's logic when a conflict was resolved deterministically.
pub open spec fn hierarchy_note(c: ConflictView) -> Seq<char> {
    "\n\n[Deterministic hierarchy] "@ + c.winner + " beat "@ + c.loser + " because "@ + c.rationale
        + ". Policy citation: \""@ + c.policy_citation + "\""@
}

/// The conflict record after the Judge named a winner: a Security win found by the
/// deterministic check stands; otherwise a non-empty WINNER field replaces the winner.
pub open spec fn winner_after_judge(c: ConflictView, winner_field: Seq<char>) -> ConflictView {
    if c.conflict_detected && c.winner == "Security Agent"@ {
        c
    } else if winner_field.len() > 0 {
        ConflictView { winner: winner_field, ..c }
    } else {
        c
    }
}

/// The decision: the Judge's answer, overridden where the deterministic check found a conflict
/// (the Security recommendation becomes the command, the hierarchy is appended to the logic,
/// and the summary names the winner unless it already speaks of security).
pub open spec fn decision_spec(ops: Seq<OpinionView>, c: ConflictView, judge_raw: Seq<char>) -> DecisionView {
    let f = judge_fields(judge_raw);
    let (summary, command, logic, risk, winner) = (f.0, f.1, f.2, f.3, f.4);
    if c.conflict_detected {
        DecisionView {
            judge_summary: if has_sub(lowercase(summary), "security"@) {
                summary
            } else {
                "Conflict resolved: "@ + c.winner + " preferred over "@ + c.loser + ". "@ + summary
            },
            proposed_command: match first_agent(ops, "Security"@) {
                Some(i) => ops[i].recommendation,
                None => command,
            },
            decision_logic: logic + hierarchy_note(c),
            risk_hint: risk,
            conflict_resolution: winner_after_judge(c, winner),
        }
    } else {
        DecisionView {
            judge_summary: summary,
            proposed_command: command,
            decision_logic: logic,
            risk_hint: risk,
            conflict_resolution: winner_after_judge(c, winner),
        }
    }
}

fn hierarchy_logic(logic: &str, c: &ConflictResolution) -> (r: String)
    ensures
        r@ == logic@ + hierarchy_note(c@),
{
    let mut r = logic.to_string();
    r.append("\n\n[Deterministic hierarchy] ");
    r.append(c.winner.as_str());
    r.append(" beat ");
    r.append(c.loser.as_str());
    r.append(" because ");
    r.append(c.rationale.as_str());
    r.append(". Policy citation: \"");
    r.append(c.policy_citation.as_str());
    r.append("\"");
    r
}

fn apply_winner(c: &ConflictResolution, winner_field: String) -> (r: ConflictResolution)
    ensures
        r@ == winner_after_judge(c@, winner_field@),
{
    let mut r = c.duplicate();
    if c.conflict_detected && crate::text::same_text(c.winner.as_str(), "Security Agent") {
    } else if !winner_field.as_str().is_empty() {
        r.winner = winner_field;
    }
    r
}

/// Reads the Judge's answer and enforces the deterministic hierarchy on it: the model
/// cannot override a conflict resolved in favour of Security.
pub fn judge_decision(opinions: &Vec<AgentOpinion>, conflict: &ConflictResolution, judge_raw: &str) -> (r: JudgeDecision)
    ensures
        r@ == decision_spec(opinion_views(opinions@), conflict@, judge_raw@),
{
    let (summary, command, logic, risk_hint, winner) = parse_judge(judge_raw);
    let conflict_resolution = apply_winner(conflict, winner);
    if conflict.conflict_detected {
        let ghost ov = opinion_views(opinions@);
        let proposed_command = match find_agent(opinions, "Security") {
            Some(i) => {
                proof {
                    assert(ov[i as int] == opinions@[i as int]@);
                }
                opinions[i].recommendation.clone()
            },
            None => command,
        };
        let decision_logic = hierarchy_logic(logic.as_str(), conflict);
        let low = to_lower(summary.as_str());
        let judge_summary = if contains(low.as_str(), "security") {
            summary
        } else {
            let mut t = "Conflict resolved: ".to_string();
            t.append(conflict.winner.as_str());
            t.append(" preferred over ");
            t.append(conflict.loser.as_str());
            t.append(". ");
            t.append(summary.as_str());
            t
        };
        JudgeDecision { judge_summary, proposed_command, decision_logic, risk_hint, conflict_resolution }
    } else {
        JudgeDecision {
            judge_summary: summary,
            proposed_command: command,
            decision_logic: logic,
            risk_hint,
            conflict_resolution,
        }
    }
}


// ---------------------------------------------------------------------------
// Safety gate
// ---------------------------------------------------------------------------

/// The outcome of the safety gate on the proposed command.
#[derive(Debug, Clone)]
pub struct SafetyGate {
    pub risk: RiskLevel,
    pub lint: LintResult,
    pub status: String,
}

/// The risk of a run: the higher of the Judge's estimate and the linter's.
pub open spec fn gate_risk(command: Seq<char>, intent: Seq<char>, risk_hint: Seq<char>) -> RiskLevel {
    higher_risk(risk_named(risk_hint), lint_spec(command, intent).risk)
}

/// The linter's result once a Medium or higher run risk has forced a human in the loop.
pub open spec fn gate_lint(command: Seq<char>, intent: Seq<char>, risk_hint: Seq<char>) -> LintView {
    let l = lint_spec(command, intent);
    let risk = gate_risk(command, intent, risk_hint);
    if rank(risk) >= rank(RiskLevel::Medium) {
        LintView { requires_hitl: true, auto_approvable: false, risk: higher_risk(l.risk, risk), ..l }
    } else {
        l
    }
}

/// The status a run ends in, given the gated linter result.
pub open spec fn gate_status(l: LintView) -> Seq<char> {
    if !l.allowed {
        "blocked_by_safety"@
    } else if l.requires_hitl || !l.auto_approvable {
        "pending_hitl"@
    } else {
        "auto_approved"@
    }
}

/// Runs the deterministic linter on the proposed command (with the intent, which can widen
/// the blast radius), merges the Judge's risk estimate, and decides the run's status.
pub fn safety_gate(proposed_command: &str, intent: &str, risk_hint: &str) -> (r: SafetyGate)
    ensures
        r.risk == gate_risk(proposed_command@, intent@, risk_hint@),
        r.lint@ == gate_lint(proposed_command@, intent@, risk_hint@),
        r.status@ == gate_status(gate_lint(proposed_command@, intent@, risk_hint@)),
{
    let mut lint = lint_with_context(proposed_command, intent);
    let hint = risk_from_str(risk_hint);
    let risk = crate::guardrails::max_risk(hint, lint.risk);
    let medium_or_more = match risk {
        RiskLevel::Low => false,
        _ => true,
    };
    if medium_or_more {
        lint.requires_hitl = true;
        lint.auto_approvable = false;
        lint.risk = max_risk_level(lint.risk, risk);
    }
    let status = if !lint.allowed {
        "blocked_by_safety".to_string()
    } else if lint.requires_hitl || !lint.auto_approvable {
        "pending_hitl".to_string()
    } else {
        "auto_approved".to_string()
    };
    SafetyGate { risk, lint, status }
}

/// A Judge decision together with the safety gate's outcome on the very command it proposes.
#[derive(Debug)]
pub struct GatedDecision {
    pub decision: JudgeDecision,
    pub gate: SafetyGate,
}

/// Runs the safety gate on the command the Judge's decision proposes, with the decision's
/// own risk estimate and the run's intent, and keeps the two together.
pub fn gate_decision(decision: JudgeDecision, intent: &str) -> (r: GatedDecision)
    ensures
        r.decision@ == decision@,
        r.gate.risk == gate_risk(decision.proposed_command@, intent@, decision.risk_hint@),
        r.gate.lint@ == gate_lint(decision.proposed_command@, intent@, decision.risk_hint@),
        r.gate.status@ == gate_status(gate_lint(decision.proposed_command@, intent@, decision.risk_hint@)),
{
    let gate = safety_gate(decision.proposed_command.as_str(), intent, decision.risk_hint.as_str());
    GatedDecision { decision, gate }
}

// ---------------------------------------------------------------------------
// Laws
// ---------------------------------------------------------------------------

/// Reading back a risk label gives the same risk: every label is ASCII, and its trimmed ASCII
/// lower-casing names that risk (so `risk_from_str` of `risk_name_string(r)` is `r`).
pub proof fn law_risk_label_round_trip(r: RiskLevel)
    ensures
        ascii_text(crate::guardrails::risk_name(r)),
        risk_of_lower(ascii_lowercase(trimmed(crate::guardrails::risk_name(r)))) == r,
{
    reveal_strlit("Low");
    reveal_strlit("Medium");
    reveal_strlit("High");
    reveal_strlit("Critical");
    reveal_strlit("low");
    reveal_strlit("medium");
    reveal_strlit("high");
    reveal_strlit("critical");
    let s = crate::guardrails::risk_name(r);
    assert(!crate::text::is_ws(s[0]));
    assert(!crate::text::is_ws(s.last()));
    assert(crate::text::trim_start(s) == s);
    assert(crate::text::trim_end(s) == s);
    assert forall|i: int| 0 <= i < s.len() implies (#[trigger] s[i] as u32) < 128 by {}
    let a = ascii_lowercase(s);
    match r {
        RiskLevel::Low => {
            assert(a =~= "low"@);
        },
        RiskLevel::Medium => {
            assert(a =~= "medium"@);
        },
        RiskLevel::High => {
            assert(a =~= "high"@);
            assert(a != "low"@);
            assert(a != "medium"@);
        },
        RiskLevel::Critical => {
            assert(a =~= "critical"@);
            assert(a != "low"@);
            assert(a != "medium"@);
            assert(a != "high"@);
        },
    }
}

/// Security/Stability outranks Performance: when the Performance agent proposes an
/// aggressive change and the Security agent flags a risk, Security wins unless the policy
/// text authorizes the change without also calling for security first.
pub proof fn law_security_wins_conflict(ops: Seq<OpinionView>, rag_ctx: Seq<char>, policy: Seq<char>)
    requires
        first_agent(ops, "Performance"@) is Some,
        first_agent(ops, "Security"@) is Some,
        opinion_aggressive(ops[first_agent(ops, "Performance"@)->0]),
        opinion_risky(ops[first_agent(ops, "Security"@)->0]),
        !(policy_allows_performance(rag_ctx) && !policy_prefers_security(rag_ctx)),
    ensures
        conflict_spec(ops, rag_ctx, policy).conflict_detected,
        conflict_spec(ops, rag_ctx, policy).winner == "Security Agent"@,
        conflict_spec(ops, rag_ctx, policy).loser == "Performance Agent"@,
        conflict_spec(ops, rag_ctx, policy).priority_applied == hierarchy(),
{
}

/// Without both a Performance and a Security opinion, or without an aggressive change met
/// by a flagged risk, no conflict is declared.
pub proof fn law_no_conflict_without_clash(ops: Seq<OpinionView>, rag_ctx: Seq<char>, policy: Seq<char>)
    requires
        first_agent(ops, "Performance"@) is None || first_agent(ops, "Security"@) is None
            || !opinion_aggressive(ops[first_agent(ops, "Performance"@)->0])
            || !opinion_risky(ops[first_agent(ops, "Security"@)->0]),
    ensures
        !conflict_spec(ops, rag_ctx, policy).conflict_detected,
        conflict_spec(ops, rag_ctx, policy).winner == "Consensus"@,
{
}

/// The Judge's model cannot override the hierarchy: once the deterministic check has
/// resolved a conflict for Security, the decision keeps Security as winner and proposes the
/// Security agent's recommendation, whatever the Judge answered.
pub proof fn law_judge_cannot_override_security(ops: Seq<OpinionView>, c: ConflictView, judge_raw: Seq<char>)
    requires
        c.conflict_detected,
        c.winner == "Security Agent"@,
        first_agent(ops, "Security"@) is Some,
    ensures
        decision_spec(ops, c, judge_raw).conflict_resolution == c,
        decision_spec(ops, c, judge_raw).proposed_command == ops[first_agent(ops, "Security"@)->0].recommendation,
{
}

/// The safety gate never lowers the linter's decision: a refused command stays refused, the
/// run's risk covers both the linter's and the Judge's, and a run is auto-approved only when
/// it is allowed, Low risk and needs no human.
pub proof fn law_gate_never_weakens_linter(command: Seq<char>, intent: Seq<char>, risk_hint: Seq<char>)
    ensures
        gate_status(gate_lint(command, intent, risk_hint)) == "blocked_by_safety"@
            <==> !lint_spec(command, intent).allowed,
        rank(gate_risk(command, intent, risk_hint)) >= rank(lint_spec(command, intent).risk),
        rank(gate_risk(command, intent, risk_hint)) >= rank(risk_named(risk_hint)),
        gate_status(gate_lint(command, intent, risk_hint)) == "auto_approved"@ ==> {
            &&& gate_risk(command, intent, risk_hint) == RiskLevel::Low
            &&& lint_spec(command, intent).allowed
            &&& !gate_lint(command, intent, risk_hint).requires_hitl
        },
{
    let blob = crate::guardrails::lint_blob(command, intent);
    let hits = crate::guardrails::rule_hits(blob);
    crate::guardrails::law_graduated_autonomy(
        hits,
        crate::guardrails::pattern_hit(crate::guardrails::critical_site_pattern(), blob),
        crate::guardrails::pattern_hit(crate::guardrails::aggressive_change_pattern(), blob),
    );
    reveal_strlit("blocked_by_safety");
    reveal_strlit("pending_hitl");
    reveal_strlit("auto_approved");
    assert("blocked_by_safety"@ != "pending_hitl"@ && "blocked_by_safety"@ != "auto_approved"@ && "pending_hitl"@
        != "auto_approved"@) by {
        assert("blocked_by_safety"@.len() != "pending_hitl"@.len());
        assert("blocked_by_safety"@.len() != "auto_approved"@.len());
        assert("pending_hitl"@.len() != "auto_approved"@.len());
    }
}


/// A text proposes an aggressive performance change exactly when its lowercased form
/// contains one of the markers "tx power", "transmit power", "increase power", "boost",
/// "aggressive", "max throughput", "raise power", "open bandwidth", "disable qos",
/// "remove rate limit" or "permit any".
pub proof fn law_aggressive_markers(text: Seq<char>)
    ensures
        aggressive_text(text) == {
            let t = lowercase(text);
            ||| has_sub(t, "tx power"@)
            ||| has_sub(t, "transmit power"@)
            ||| has_sub(t, "increase power"@)
            ||| has_sub(t, "boost"@)
            ||| has_sub(t, "aggressive"@)
            ||| has_sub(t, "max throughput"@)
            ||| has_sub(t, "raise power"@)
            ||| has_sub(t, "open bandwidth"@)
            ||| has_sub(t, "disable qos"@)
            ||| has_sub(t, "remove rate limit"@)
            ||| has_sub(t, "permit any"@)
        },
{
    let ks = aggressive_keywords();
    let t = lowercase(text);
    assert(ks[0] == "tx power"@ && ks[1] == "transmit power"@ && ks[2] == "increase power"@);
    assert(ks[3] == "boost"@ && ks[4] == "aggressive"@ && ks[5] == "max throughput"@);
    assert(ks[6] == "raise power"@ && ks[7] == "open bandwidth"@ && ks[8] == "disable qos"@);
    assert(ks[9] == "remove rate limit"@ && ks[10] == "permit any"@);
    if aggressive_text(text) {
        let k = choose|k: int| 0 <= k < ks.len() && has_sub(t, #[trigger] ks[k]);
        assert(has_sub(t, ks[k]));
    }
}

/// A text flags a security risk exactly when its lowercased form contains one of
/// "interference", "acl", "breach", "risk", "threat", "blast radius", "compliance",
/// "unauthorized", "deny", "unsafe", "expose", "attack" or "violate".
pub proof fn law_security_markers(text: Seq<char>)
    ensures
        risky_text(text) == {
            let t = lowercase(text);
            ||| has_sub(t, "interference"@)
            ||| has_sub(t, "acl"@)
            ||| has_sub(t, "breach"@)
            ||| has_sub(t, "risk"@)
            ||| has_sub(t, "threat"@)
            ||| has_sub(t, "blast radius"@)
            ||| has_sub(t, "compliance"@)
            ||| has_sub(t, "unauthorized"@)
            ||| has_sub(t, "deny"@)
            ||| has_sub(t, "unsafe"@)
            ||| has_sub(t, "expose"@)
            ||| has_sub(t, "attack"@)
            ||| has_sub(t, "violate"@)
        },
{
    let ks = security_keywords();
    let t = lowercase(text);
    assert(ks[0] == "interference"@ && ks[1] == "acl"@ && ks[2] == "breach"@ && ks[3] == "risk"@);
    assert(ks[4] == "threat"@ && ks[5] == "blast radius"@ && ks[6] == "compliance"@);
    assert(ks[7] == "unauthorized"@ && ks[8] == "deny"@ && ks[9] == "unsafe"@);
    assert(ks[10] == "expose"@ && ks[11] == "attack"@ && ks[12] == "violate"@);
    if risky_text(text) {
        let k = choose|k: int| 0 <= k < ks.len() && has_sub(t, #[trigger] ks[k]);
        assert(has_sub(t, ks[k]));
    }
}

/// A policy text calls for security first exactly when its lowercased form contains one of
/// "must not", "forbidden", "prohibited", "safety policy", "do not disable",
/// "require approval", "hitl", "security first" or "stability".
pub proof fn law_security_first_markers(rag: Seq<char>)
    ensures
        policy_prefers_security(rag) == {
            let t = lowercase(rag);
            ||| has_sub(t, "must not"@)
            ||| has_sub(t, "forbidden"@)
            ||| has_sub(t, "prohibited"@)
            ||| has_sub(t, "safety policy"@)
            ||| has_sub(t, "do not disable"@)
            ||| has_sub(t, "require approval"@)
            ||| has_sub(t, "hitl"@)
            ||| has_sub(t, "security first"@)
            ||| has_sub(t, "stability"@)
        },
{
    let ks = policy_keywords();
    let t = lowercase(rag);
    assert(ks[0] == "must not"@ && ks[1] == "forbidden"@ && ks[2] == "prohibited"@);
    assert(ks[3] == "safety policy"@ && ks[4] == "do not disable"@ && ks[5] == "require approval"@);
    assert(ks[6] == "hitl"@ && ks[7] == "security first"@ && ks[8] == "stability"@);
    if policy_prefers_security(rag) {
        let k = choose|k: int| 0 <= k < ks.len() && has_sub(t, #[trigger] ks[k]);
        assert(has_sub(t, ks[k]));
    }
}

/// An aggressive Performance recommendation against a flagged risk is a conflict that
/// Security wins: when the first Performance opinion's recommendation, lowercased, contains
/// an aggressive marker, the first Security opinion flags a risk, and the policy does not
/// authorize the change without also calling for security first, a conflict is declared with
/// Security as winner, Performance as loser, under "Security/Stability > Compliance >
/// Performance".
pub proof fn law_aggressive_recommendation_loses(
    ops: Seq<OpinionView>,
    rag_ctx: Seq<char>,
    policy: Seq<char>,
    marker: Seq<char>,
)
    requires
        first_agent(ops, "Performance"@) is Some,
        first_agent(ops, "Security"@) is Some,
        marker == "tx power"@ || marker == "transmit power"@ || marker == "increase power"@
            || marker == "boost"@ || marker == "aggressive"@ || marker == "max throughput"@
            || marker == "raise power"@ || marker == "open bandwidth"@ || marker == "disable qos"@
            || marker == "remove rate limit"@ || marker == "permit any"@,
        has_sub(lowercase(ops[first_agent(ops, "Performance"@)->0].recommendation), marker),
        opinion_risky(ops[first_agent(ops, "Security"@)->0]),
        !(policy_allows_performance(rag_ctx) && !policy_prefers_security(rag_ctx)),
    ensures
        conflict_spec(ops, rag_ctx, policy).conflict_detected,
        conflict_spec(ops, rag_ctx, policy).winner == "Security Agent"@,
        conflict_spec(ops, rag_ctx, policy).loser == "Performance Agent"@,
        conflict_spec(ops, rag_ctx, policy).priority_applied == "Security/Stability > Compliance > Performance"@,
{
    law_aggressive_markers(ops[first_agent(ops, "Performance"@)->0].recommendation);
}


/// A model's risk answer, trimmed and lowercased, reads "low", "medium", "high" or "critical"
/// as that level; anything else reads as Medium.
pub proof fn law_risk_answer(l: Seq<char>)
    ensures
        risk_of_lower("low"@) == RiskLevel::Low,
        risk_of_lower("medium"@) == RiskLevel::Medium,
        risk_of_lower("high"@) == RiskLevel::High,
        risk_of_lower("critical"@) == RiskLevel::Critical,
        l != "low"@ && l != "high"@ && l != "critical"@ ==> risk_of_lower(l) == RiskLevel::Medium,
{
    reveal_strlit("low");
    reveal_strlit("medium");
    reveal_strlit("high");
    reveal_strlit("critical");
    assert("medium"@ != "low"@) by { assert("medium"@.len() != "low"@.len()); }
    assert("high"@ != "low"@ && "high"@ != "medium"@) by {
        assert("high"@.len() != "low"@.len());
        assert("high"@.len() != "medium"@.len());
    }
    assert("critical"@ != "low"@ && "critical"@ != "medium"@ && "critical"@ != "high"@) by {
        assert("critical"@.len() != "low"@.len());
        assert("critical"@.len() != "medium"@.len());
        assert("critical"@.len() != "high"@.len());
    }
}

proof fn lemma_citation_lines(ls: Seq<Seq<char>>, n: int)
    ensures
        citation_lines_from(ls, n).len() <= 4,
        forall|k: int| 0 <= k < citation_lines_from(ls, n).len() ==> {
            &&& (#[trigger] citation_lines_from(ls, n)[k]).len() > 0
            &&& !has_prefix(citation_lines_from(ls, n)[k], "No relevant"@)
        },
    decreases n,
{
    if n > 0 {
        lemma_citation_lines(ls, n - 1);
        let prev = citation_lines_from(ls, n - 1);
        let l = trimmed(ls[n - 1]);
        if prev.len() < 4 && l.len() > 0 && !has_prefix(l, "No relevant"@) {
            assert forall|k: int| 0 <= k < prev.len() + 1 implies (#[trigger] prev.push(l)[k]).len() > 0
                && !has_prefix(prev.push(l)[k], "No relevant"@) by {
                if k < prev.len() {
                    assert(prev.push(l)[k] == prev[k]);
                }
            }
        }
    }
}

/// A policy citation quotes at most four non-empty lines of the policy context (none of them a
/// "No relevant …" notice), is at most 280 characters plus an ellipsis, and falls back to
/// the Security/Stability default when no line qualifies.
pub proof fn law_policy_citation(rag_ctx: Seq<char>)
    ensures
        ({
            let ls = text_lines(rag_ctx);
            let kept = citation_lines_from(ls, ls.len() as int);
            &&& kept.len() <= 4
            &&& forall|k: int| 0 <= k < kept.len() ==> (#[trigger] kept[k]).len() > 0
                && !has_prefix(kept[k], "No relevant"@)
            &&& kept.len() == 0 ==> citation_of(rag_ctx)
                == "No specific policy chunk retrieved — default to Security/Stability priority."@
        }),
        citation_of(rag_ctx).len() <= 281,
{
    let ls = text_lines(rag_ctx);
    lemma_citation_lines(ls, ls.len() as int);
    let kept = citation_lines_from(ls, ls.len() as int);
    let cleaned = join_with(kept, " "@);
    reveal_strlit("No specific policy chunk retrieved — default to Security/Stability priority.");
    reveal_strlit("…");
    if kept.len() == 0 {
        assert(join_with(kept, " "@).len() == 0);
    }
}

/// A shortened text is the text itself when it fits, else its first `max` characters and an
/// ellipsis.
pub proof fn law_truncated(s: Seq<char>, max: nat)
    ensures
        s.len() <= max ==> truncated(s, max) == s,
        s.len() > max ==> truncated(s, max) == s.take(max as int) + "…"@,
        truncated(s, max).len() <= max + 1,
{
    reveal_strlit("…");
}


/// Reading model answers: an agent's analysis is its ANALYSIS field, else its first 280
/// characters; its recommendation the RECOMMENDATION field, else "No recommendation". The
/// Judge's command is its COMMAND field, else the safe default "optimize threshold for edge
/// cell throughput"; its risk the RISK field, else "Medium"; its summary the SUMMARY field,
/// else its first 300 characters; its logic the LOGIC field, else "Judge synthesis"; its
/// winner the WINNER field, else nothing.
pub proof fn law_answer_fields(agent: Seq<char>, raw: Seq<char>, confidence_milli: u16)
    ensures
        ({
            let o = opinion_from(agent, raw, confidence_milli);
            &&& o.agent == agent && o.confidence_milli == confidence_milli
            &&& field_of(raw, "ANALYSIS"@) matches Some(a) ==> o.analysis == a
            &&& field_of(raw, "ANALYSIS"@) is None ==> o.analysis == take_chars(raw, 280)
            &&& field_of(raw, "RECOMMENDATION"@) matches Some(r) ==> o.recommendation == r
            &&& field_of(raw, "RECOMMENDATION"@) is None ==> o.recommendation == "No recommendation"@
        }),
        ({
            let j = judge_fields(raw);
            &&& field_of(raw, "SUMMARY"@) matches Some(v) ==> j.0 == v
            &&& field_of(raw, "SUMMARY"@) is None ==> j.0 == take_chars(raw, 300)
            &&& field_of(raw, "COMMAND"@) matches Some(v) ==> j.1 == v
            &&& field_of(raw, "COMMAND"@) is None ==> j.1 == "optimize threshold for edge cell throughput"@
            &&& field_of(raw, "LOGIC"@) matches Some(v) ==> j.2 == v
            &&& field_of(raw, "LOGIC"@) is None ==> j.2 == "Judge synthesis"@
            &&& field_of(raw, "RISK"@) matches Some(v) ==> j.3 == v
            &&& field_of(raw, "RISK"@) is None ==> j.3 == "Medium"@
            &&& field_of(raw, "WINNER"@) matches Some(v) ==> j.4 == v
            &&& field_of(raw, "WINNER"@) is None ==> j.4.len() == 0
        }),
{
}


/// The compliance exception: a policy text authorizes a performance optimization when,
/// lowercased, it says "authorized", "permitted" or "may optimize", speaks of congestion, QoS
/// or a threshold, and does not say "must not increase". When such a policy does not also
/// call for security first, an aggressive Performance change met by a flagged risk wins, as a
/// compliance exception.
pub proof fn law_compliance_exception(ops: Seq<OpinionView>, rag_ctx: Seq<char>, policy: Seq<char>)
    ensures
        policy_allows_performance(rag_ctx) == {
            let t = lowercase(rag_ctx);
            &&& has_sub(t, "authorized"@) || has_sub(t, "permitted"@) || has_sub(t, "may optimize"@)
            &&& has_sub(t, "congestion"@) || has_sub(t, "qos"@) || has_sub(t, "threshold"@)
            &&& !has_sub(t, "must not increase"@)
        },
        first_agent(ops, "Performance"@) is Some && first_agent(ops, "Security"@) is Some
            && opinion_aggressive(ops[first_agent(ops, "Performance"@)->0])
            && opinion_risky(ops[first_agent(ops, "Security"@)->0])
            && policy_allows_performance(rag_ctx) && !policy_prefers_security(rag_ctx) ==> {
            &&& conflict_spec(ops, rag_ctx, policy).conflict_detected
            &&& conflict_spec(ops, rag_ctx, policy).winner == "Performance Agent"@
            &&& conflict_spec(ops, rag_ctx, policy).loser == "Security Agent"@
            &&& conflict_spec(ops, rag_ctx, policy).priority_applied == "Compliance exception via RAG policy"@
        },
{
}

}
