//! Telemetry simulator state that does not depend on measured values: the topology links
//! and their status, which topology nodes a device or event element designates, and the
//! bounded window of recent events. The random metrics themselves are drawn by the
//! application.

use vstd::prelude::*;
use vstd::string::*;
use crate::text::has_sub;
use crate::text::{contains, chars_of, same_text};
use std::collections::VecDeque;

verus! {

/// At most this many telemetry events are kept.
pub const MAX_EVENTS: usize = 200;

/// A link of the topology map.
#[derive(Debug, Clone)]
pub struct TopologyLink {
    pub source: String,
    pub target: String,
    pub status: String,
}

/// A link that is up.
pub fn link(source: &str, target: &str) -> (r: TopologyLink)
    ensures
        r.source@ == source@,
        r.target@ == target@,
        r.status@ == "up"@,
{
    TopologyLink { source: source.to_string(), target: target.to_string(), status: "up".to_string() }
}

/// The links of the demo topology, as (source, target) pairs.
pub open spec fn seed_link_ends() -> Seq<(Seq<char>, Seq<char>)> {
    seq![
        ("pe-router-01"@, "amf-01"@),
        ("pe-router-01"@, "agg-sw-02"@),
        ("amf-01"@, "upf-03"@),
        ("agg-sw-02"@, "gnodeb-441"@),
        ("upf-03"@, "firewall-edge"@),
        ("firewall-edge"@, "optics-mux-7"@),
        ("pe-router-01"@, "optics-mux-7"@),
    ]
}

/// The demo topology's links, all up.
pub fn seed_links() -> (r: Vec<TopologyLink>)
    ensures
        r@.len() == 7,
        forall|i: int| 0 <= i < 7 ==> (#[trigger] r@[i]).source@ == seed_link_ends()[i].0 && r@[i].target@
            == seed_link_ends()[i].1 && r@[i].status@ == "up"@,
{
    let mut v: Vec<TopologyLink> = Vec::new();
    v.push(link("pe-router-01", "amf-01"));
    v.push(link("pe-router-01", "agg-sw-02"));
    v.push(link("amf-01", "upf-03"));
    v.push(link("agg-sw-02", "gnodeb-441"));
    v.push(link("upf-03", "firewall-edge"));
    v.push(link("firewall-edge", "optics-mux-7"));
    v.push(link("pe-router-01", "optics-mux-7"));
    v
}

/// A link touches an event's element when either end names it.
pub open spec fn link_touches(l: TopologyLink, element: Seq<char>) -> bool {
    has_sub(l.source@, element) || has_sub(l.target@, element)
}

/// The status a touched link takes after an event of `severity`.
pub open spec fn link_status_after(severity: Seq<char>) -> Seq<char> {
    if severity == "critical"@ {
        "degraded"@
    } else {
        "up"@
    }
}

/// Updates the links an event touches: degraded on a critical event, up otherwise; the
/// other links are left as they were.
pub fn update_links(links: &mut Vec<TopologyLink>, element: &str, severity: &str)
    ensures
        final(links)@.len() == old(links)@.len(),
        forall|i: int| 0 <= i < old(links)@.len() ==> {
            let a = #[trigger] old(links)@[i];
            let b = final(links)@[i];
            &&& b.source@ == a.source@
            &&& b.target@ == a.target@
            &&& b.status@ == (if link_touches(a, element@) { link_status_after(severity@) } else { a.status@ })
        },
{
    let critical = same_text(severity, "critical");
    let mut i: usize = 0;
    while i < links.len()
        invariant
            i <= links@.len(),
            links@.len() == old(links)@.len(),
            critical == (severity@ == "critical"@),
            forall|j: int| i <= j < links@.len() ==> #[trigger] links@[j] == old(links)@[j],
            forall|j: int| 0 <= j < i ==> {
                let a = #[trigger] old(links)@[j];
                let b = links@[j];
                &&& b.source@ == a.source@
                &&& b.target@ == a.target@
                &&& b.status@ == (if link_touches(a, element@) { link_status_after(severity@) } else { a.status@ })
            },
        decreases links@.len() - i,
    {
        let touches = contains(links[i].source.as_str(), element) || contains(links[i].target.as_str(), element);
        if touches {
            let status = if critical { "degraded".to_string() } else { "up".to_string() };
            let l = TopologyLink { source: links[i].source.clone(), target: links[i].target.clone(), status };
            links.set(i, l);
        }
        i = i + 1;
    }
}

/// ASCII case folding of one character, as a code point.
pub open spec fn ascii_fold(c: char) -> u32 {
    if 'A' <= c && c <= 'Z' {
        (c as u32 + 32) as u32
    } else {
        c as u32
    }
}

/// `str::eq_ignore_ascii_case`: equal once ASCII letters are folded to lower case.
pub open spec fn eq_ignore_ascii_case(a: Seq<char>, b: Seq<char>) -> bool {
    a.len() == b.len() && forall|i: int| 0 <= i < a.len() ==> ascii_fold(#[trigger] a[i]) == ascii_fold(b[i])
}

fn fold(c: char) -> (r: u32)
    ensures
        r == ascii_fold(c),
{
    if 'A' <= c && c <= 'Z' {
        c as u32 + 32
    } else {
        c as u32
    }
}

/// Compares two strings, ignoring ASCII case.
pub fn equal_ignoring_ascii_case(a: &str, b: &str) -> (r: bool)
    ensures
        r == eq_ignore_ascii_case(a@, b@),
{
    let av = chars_of(a);
    let bv = chars_of(b);
    if av.len() != bv.len() {
        return false;
    }
    let mut i: usize = 0;
    while i < av.len()
        invariant
            i <= av@.len(),
            av@ == a@,
            bv@ == b@,
            av@.len() == bv@.len(),
            forall|j: int| 0 <= j < i ==> ascii_fold(#[trigger] av@[j]) == ascii_fold(bv@[j]),
        decreases av@.len() - i,
    {
        if fold(av[i]) != fold(bv[i]) {
            return false;
        }
        i = i + 1;
    }
    true
}

/// A topology node designates the device `hostname` (closed-loop effects and health).
pub open spec fn node_designates_host(label: Seq<char>, id: Seq<char>, hostname: Seq<char>) -> bool {
    eq_ignore_ascii_case(label, hostname) || has_sub(id, hostname)
}

/// Whether a topology node designates the device `hostname`.
pub fn node_matches_host(label: &str, id: &str, hostname: &str) -> (r: bool)
    ensures
        r == node_designates_host(label@, id@, hostname@),
{
    equal_ignoring_ascii_case(label, hostname) || contains(id, hostname)
}

/// A topology node is the element an event reports on.
pub open spec fn node_designates_element(label: Seq<char>, id: Seq<char>, element: Seq<char>) -> bool {
    label == element || has_sub(id, element)
}

/// Whether a topology node is the element an event reports on.
pub fn node_matches_element(label: &str, id: &str, element: &str) -> (r: bool)
    ensures
        r == node_designates_element(label@, id@, element@),
{
    same_text(label, element) || contains(id, element)
}

/// The health score after a push: three points up, capped at 99, when it improved the
/// device; six points down, not below zero, when it did not.
pub open spec fn score_after_push(score: u8, improved: bool) -> u8 {
    if improved {
        if score + 3 > 99 { 99 } else { (score + 3) as u8 }
    } else {
        if score >= 6 { (score - 6) as u8 } else { 0 }
    }
}

/// The active alarms after a push: one fewer (not below zero) when it improved the device,
/// one more when it did not.
pub open spec fn alarms_after_push(alarms: u32, improved: bool) -> u32 {
    if improved {
        if alarms >= 1 { (alarms - 1) as u32 } else { 0 }
    } else {
        (alarms + 1) as u32
    }
}

/// The integer part of the closed-loop effect of a push on the health snapshot: the score
/// and the alarm count.
pub fn closed_loop_health(score: u8, alarms: u32, improved: bool) -> (r: (u8, u32))
    requires
        !improved ==> alarms < u32::MAX,
    ensures
        r.0 == score_after_push(score, improved),
        r.1 == alarms_after_push(alarms, improved),
{
    if improved {
        let s: u8 = if score > 96 { 99 } else { score + 3 };
        (s, alarms.saturating_sub(1))
    } else {
        (score.saturating_sub(6), alarms + 1)
    }
}

/// The status a designated node takes after a push: "ok" when it improved the device,
/// "warning" when it did not.
pub fn closed_loop_node_status(improved: bool) -> (r: &'static str)
    ensures
        r@ == (if improved { "ok"@ } else { "warning"@ }),
{
    if improved {
        "ok"
    } else {
        "warning"
    }
}

/// The most recent events, oldest first, at most [`MAX_EVENTS`] of them.
pub struct EventWindow<T> {
    items: VecDeque<T>,
}

/// The window after one more event: the event is appended, and the oldest dropped when
/// the window was full.
pub open spec fn window_after<T>(s: Seq<T>, e: T) -> Seq<T> {
    if s.len() >= MAX_EVENTS {
        s.drop_first().push(e)
    } else {
        s.push(e)
    }
}

impl<T> View for EventWindow<T> {
    type V = Seq<T>;

    closed spec fn view(&self) -> Seq<T> {
        self.items@
    }
}

impl<T> EventWindow<T> {
    /// The window never holds more than [`MAX_EVENTS`] events.
    #[verifier::type_invariant]
    spec fn bounded(&self) -> bool {
        self.items@.len() <= MAX_EVENTS
    }

    /// An empty window.
    pub fn new() -> (r: Self)
        ensures
            r@ == Seq::<T>::empty(),
    {
        EventWindow { items: VecDeque::new() }
    }

    /// Number of events held.
    pub fn len(&self) -> (r: usize)
        ensures
            r == self@.len(),
    {
        self.items.len()
    }

    /// Records an event, dropping the oldest when the window is full.
    pub fn push(&mut self, e: T)
        ensures
            final(self)@ == window_after(old(self)@, e),
            final(self)@.len() <= MAX_EVENTS,
    {
        proof {
            use_type_invariant(&*self);
        }
        let mut q: VecDeque<T> = VecDeque::new();
        std::mem::swap(&mut q, &mut self.items);
        if q.len() >= MAX_EVENTS {
            let _oldest = q.pop_front();
            assert(q@ =~= old(self)@.drop_first());
        }
        q.push_back(e);
        self.items = q;
    }

    /// The `k` newest events, newest first.
    pub fn newest_first(&self, k: usize) -> (r: Vec<&T>)
        ensures
            r@.len() == if k < self@.len() { k as int } else { self@.len() as int },
            forall|i: int| 0 <= i < r@.len() ==> *#[trigger] r@[i] == self@[self@.len() - 1 - i],
    {
        let n = self.items.len();
        let mut out: Vec<&T> = Vec::new();
        let mut i: usize = 0;
        while i < n && i < k
            invariant
                n == self.items@.len(),
                i <= n,
                i <= k,
                out@.len() == i,
                forall|j: int| 0 <= j < i ==> *#[trigger] out@[j] == self.items@[n - 1 - j],
            decreases n - i,
        {
            out.push(&self.items[n - 1 - i]);
            i = i + 1;
        }
        out
    }
}

/// The window never holds more than [`MAX_EVENTS`] events, always ends with the newest one,
/// and keeps the order in which the events arrived.
pub proof fn law_window_bounded<T>(s: Seq<T>, e: T)
    requires
        s.len() <= MAX_EVENTS,
    ensures
        window_after(s, e).len() <= MAX_EVENTS,
        window_after(s, e).last() == e,
        s.len() < MAX_EVENTS ==> window_after(s, e).drop_last() == s,
        s.len() == MAX_EVENTS ==> window_after(s, e).drop_last() == s.drop_first(),
        s.len() < 200 ==> window_after(s, e).len() == s.len() + 1,
        s.len() == 200 ==> window_after(s, e).len() == 200,
{
    assert(window_after(s, e).drop_last() =~= (if s.len() >= MAX_EVENTS { s.drop_first() } else { s }));
}

/// The closed-loop effect of a push on the health snapshot: an improving push raises the
/// score by three, to at most 99, and clears one alarm (none stays none); a push that did not
/// improve the device lowers the score by six, to at least zero, and raises one alarm.
pub proof fn law_closed_loop_effect(score: u8, alarms: u32)
    ensures
        score_after_push(score, true) == (if score + 3 <= 99 { score + 3 } else { 99 }),
        score_after_push(score, false) == (if score >= 6 { score - 6 } else { 0 }),
        alarms_after_push(alarms, true) == (if alarms == 0 { 0 } else { alarms - 1 }),
        alarms < u32::MAX ==> alarms_after_push(alarms, false) == alarms + 1,
        score <= 99 ==> score <= score_after_push(score, true) <= 99,
        score_after_push(score, false) <= score,
{
}

/// An event marks the links it touches: a "critical" event degrades them, any other event
/// brings them up.
pub proof fn law_link_status(severity: Seq<char>)
    ensures
        link_status_after("critical"@) == "degraded"@,
        severity != "critical"@ ==> link_status_after(severity) == "up"@,
{
}

/// Topology nodes match devices regardless of ASCII case: a label designates a host whose
/// name is the label in another ASCII case, and an id designates every host it contains;
/// an event's element designates the node it names exactly, or whose id contains it.
pub proof fn law_node_matching(label: Seq<char>, id: Seq<char>, host: Seq<char>)
    ensures
        eq_ignore_ascii_case(label, crate::text::ascii_lowercase(label)),
        eq_ignore_ascii_case(label, host) == eq_ignore_ascii_case(host, label),
        node_designates_host(label, id, crate::text::ascii_lowercase(label)),
        has_sub(id, host) ==> node_designates_host(label, id, host) && node_designates_element(label, id, host),
        node_designates_element(label, id, label),
{
    let l = crate::text::ascii_lowercase(label);
    assert forall|i: int| 0 <= i < label.len() implies ascii_fold(#[trigger] label[i]) == ascii_fold(l[i]) by {
        assert(l[i] == crate::text::ascii_fold_char(label[i]));
    }
}

} // verus!
