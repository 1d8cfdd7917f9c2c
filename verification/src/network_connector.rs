//! Multi-vendor command translation and simulated CLI execution: generic intents,
//! grounded by knowledge-base hits, are mapped to Cisco IOS / Huawei VRP CLI.
//! Real SSH sessions are opened by the application; the simulator is here.

use vstd::prelude::*;
use vstd::string::*;
use crate::text::{has_sub, lowercase, views, strip_cr};
use crate::text::{to_lower, contains, chars_of, string_of};
use crate::rag::{KnowledgeBase, ChunkView, search_spec, chunk_views, join_with};

verus! {

/// CLI dialect of a lab device.
#[derive(Debug, Clone, Copy, PartialEq, Eq, Structural)]
pub enum Vendor {
    CiscoIos,
    HuaweiVrp,
    Generic,
}

/// A lab device reachable over SSH (or simulated).
#[derive(Debug, Clone)]
pub struct DeviceTarget {
    pub id: String,
    pub hostname: String,
    pub vendor: Vendor,
    pub host: String,
    pub port: u16,
    /// When true, no socket is opened and canned CLI output is returned.
    pub simulate: bool,
}

/// An intent translated into vendor CLI.
#[derive(Debug, Clone)]
pub struct TranslatedCommand {
    pub intent: String,
    pub vendor: Vendor,
    pub cli: String,
    pub rag_sources: Vec<String>,
    /// Translation confidence in hundredths (0..=99).
    pub confidence_pct: u8,
}

/// Output of running a command on a device.
#[derive(Debug, Clone)]
pub struct ExecResult {
    pub target_id: String,
    pub vendor: Vendor,
    pub command: String,
    pub output: String,
    pub simulated: bool,
    pub success: bool,
}

/// Keyword-grounded translator from intents to vendor CLI.
pub struct CommandTranslator;

/// Search key naming a vendor's manuals.
pub open spec fn vendor_key(v: Vendor) -> Seq<char> {
    match v {
        Vendor::CiscoIos => "cisco ios"@,
        Vendor::HuaweiVrp => "huawei vrp"@,
        Vendor::Generic => "generic"@,
    }
}

/// Knowledge-base query used to ground a translation.
pub open spec fn translation_query(intent: Seq<char>, v: Vendor) -> Seq<char> {
    intent + " "@ + vendor_key(v) + " cli interface"@
}

/// Cisco IOS mapping of a lowercased intent, given the lowercased knowledge-base text.
pub open spec fn cisco_map_spec(intent: Seq<char>, rag: Seq<char>) -> (Seq<char>, u8) {
    if has_sub(intent, "interface down"@) || has_sub(intent, "shut interface"@) || has_sub(rag, "shutdown"@) {
        ("configure terminal\ninterface GigabitEthernet0/0/1\nshutdown\nend\nwrite memory"@, 82u8)
    } else if has_sub(intent, "interface up"@) || has_sub(intent, "no shut"@) {
        ("configure terminal\ninterface GigabitEthernet0/0/1\nno shutdown\nend\nwrite memory"@, 82u8)
    } else if has_sub(intent, "congestion"@) || has_sub(intent, "qos"@) || has_sub(intent, "shape"@) {
        (
            "configure terminal\npolicy-map PM-EDGE-SHAPE\n class class-default\n  shape average 500000000\ninterface GigabitEthernet0/0/1\n service-policy output PM-EDGE-SHAPE\nend"@,
            78u8,
        )
    } else if has_sub(intent, "bgp"@) && has_sub(intent, "clear"@) {
        ("clear ip bgp * soft"@, 70u8)
    } else {
        (
            "! Cisco IOS mapping for: "@ + intent + "\nshow ip interface brief\nshow interfaces status"@,
            55u8,
        )
    }
}

/// Huawei VRP mapping of a lowercased intent, given the lowercased knowledge-base text.
pub open spec fn huawei_map_spec(intent: Seq<char>, rag: Seq<char>) -> (Seq<char>, u8) {
    if has_sub(intent, "interface down"@) || has_sub(intent, "shut interface"@) || has_sub(rag, "shutdown"@) {
        ("system-view\ninterface GigabitEthernet0/0/1\nshutdown\nquit\nquit\nsave"@, 82u8)
    } else if has_sub(intent, "interface up"@) || has_sub(intent, "undo shut"@) {
        ("system-view\ninterface GigabitEthernet0/0/1\nundo shutdown\nquit\nquit\nsave"@, 82u8)
    } else if has_sub(intent, "congestion"@) || has_sub(intent, "qos"@) || has_sub(intent, "shape"@) {
        (
            "system-view\ntraffic behavior TB-EDGE\n car cir 500000 cbs 100000 green pass\nquit\ntraffic policy TP-EDGE\n classifier default behavior TB-EDGE\nquit\ninterface GigabitEthernet0/0/1\n traffic-policy TP-EDGE outbound\nquit\nquit"@,
            78u8,
        )
    } else if has_sub(intent, "bgp"@) && has_sub(intent, "clear"@) {
        ("reset bgp all soft"@, 70u8)
    } else {
        (
            "# Huawei VRP mapping for: "@ + intent + "\ndisplay interface brief\ndisplay ip interface brief"@,
            55u8,
        )
    }
}

/// Lowercased contents of retrieved chunks, one per line.
pub open spec fn rag_blob(hits: Seq<ChunkView>) -> Seq<char> {
    join_with(hits.map_values(|c: ChunkView| lowercase(c.content)), "\n"@)
}

/// CLI and base confidence of a translation (before the knowledge-base boost).
pub open spec fn vendor_map(intent: Seq<char>, v: Vendor, rag: Seq<char>) -> (Seq<char>, u8) {
    match v {
        Vendor::CiscoIos => cisco_map_spec(lowercase(intent), rag),
        Vendor::HuaweiVrp => huawei_map_spec(lowercase(intent), rag),
        Vendor::Generic => ("# generic intent: "@ + intent + "\nshow status"@, 40u8),
    }
}

/// Confidence after the knowledge-base boost, capped at 99.
pub open spec fn boosted(base: u8, grounded: bool) -> u8 {
    let c = base + if grounded { 15int } else { 0int };
    if c > 99 { 99u8 } else { c as u8 }
}

/// Whether a translation satisfies the contract of [`CommandTranslator::translate`].
pub open spec fn translation_ok(t: TranslatedCommand, intent: Seq<char>, v: Vendor, chunks: Seq<ChunkView>) -> bool {
    let hits = search_spec(chunks, translation_query(intent, v), 4);
    let m = vendor_map(intent, v, rag_blob(hits));
    &&& t.intent@ == intent
    &&& t.vendor == v
    &&& t.cli@ == m.0
    &&& views(t.rag_sources@) == hits.map_values(|c: ChunkView| c.source)
    &&& t.confidence_pct == boosted(m.1, hits.len() > 0)
}

fn cisco_map(intent: &str, rag: &str) -> (r: (String, u8))
    ensures
        r.0@ == cisco_map_spec(intent@, rag@).0,
        r.1 == cisco_map_spec(intent@, rag@).1,
{
    if contains(intent, "interface down") || contains(intent, "shut interface") || contains(rag, "shutdown") {
        ("configure terminal\ninterface GigabitEthernet0/0/1\nshutdown\nend\nwrite memory".to_string(), 82)
    } else if contains(intent, "interface up") || contains(intent, "no shut") {
        ("configure terminal\ninterface GigabitEthernet0/0/1\nno shutdown\nend\nwrite memory".to_string(), 82)
    } else if contains(intent, "congestion") || contains(intent, "qos") || contains(intent, "shape") {
        (
            "configure terminal\npolicy-map PM-EDGE-SHAPE\n class class-default\n  shape average 500000000\ninterface GigabitEthernet0/0/1\n service-policy output PM-EDGE-SHAPE\nend".to_string(),
            78,
        )
    } else if contains(intent, "bgp") && contains(intent, "clear") {
        ("clear ip bgp * soft".to_string(), 70)
    } else {
        let mut s = "! Cisco IOS mapping for: ".to_string();
        s.append(intent);
        s.append("\nshow ip interface brief\nshow interfaces status");
        (s, 55)
    }
}

fn huawei_map(intent: &str, rag: &str) -> (r: (String, u8))
    ensures
        r.0@ == huawei_map_spec(intent@, rag@).0,
        r.1 == huawei_map_spec(intent@, rag@).1,
{
    if contains(intent, "interface down") || contains(intent, "shut interface") || contains(rag, "shutdown") {
        ("system-view\ninterface GigabitEthernet0/0/1\nshutdown\nquit\nquit\nsave".to_string(), 82)
    } else if contains(intent, "interface up") || contains(intent, "undo shut") {
        ("system-view\ninterface GigabitEthernet0/0/1\nundo shutdown\nquit\nquit\nsave".to_string(), 82)
    } else if contains(intent, "congestion") || contains(intent, "qos") || contains(intent, "shape") {
        (
            "system-view\ntraffic behavior TB-EDGE\n car cir 500000 cbs 100000 green pass\nquit\ntraffic policy TP-EDGE\n classifier default behavior TB-EDGE\nquit\ninterface GigabitEthernet0/0/1\n traffic-policy TP-EDGE outbound\nquit\nquit".to_string(),
            78,
        )
    } else if contains(intent, "bgp") && contains(intent, "clear") {
        ("reset bgp all soft".to_string(), 70)
    } else {
        let mut s = "# Huawei VRP mapping for: ".to_string();
        s.append(intent);
        s.append("\ndisplay interface brief\ndisplay ip interface brief");
        (s, 55)
    }
}

impl CommandTranslator {
    /// Translates an intent into one vendor's CLI, grounded by the four best knowledge-base
    /// hits for the intent, the vendor and "cli interface".
    pub fn translate(intent: &str, vendor: Vendor, kb: &KnowledgeBase) -> (r: TranslatedCommand)
        ensures
            translation_ok(r, intent@, vendor, chunk_views(kb.chunks@)),
    {
        let key = match vendor {
            Vendor::CiscoIos => "cisco ios",
            Vendor::HuaweiVrp => "huawei vrp",
            Vendor::Generic => "generic",
        };
        let mut query = intent.to_string();
        query.append(" ");
        query.append(key);
        query.append(" cli interface");
        let hits = kb.search(query.as_str(), 4);
        let ghost hv = chunk_views(hits@);
        let ghost lowers = hv.map_values(|c: ChunkView| lowercase(c.content));
        let mut sources: Vec<String> = Vec::new();
        let mut blob = String::new();
        let mut i: usize = 0;
        while i < hits.len()
            invariant
                i <= hits@.len(),
                hv == chunk_views(hits@),
                lowers == hv.map_values(|c: ChunkView| lowercase(c.content)),
                views(sources@) == hv.take(i as int).map_values(|c: ChunkView| c.source),
                blob@ == join_with(lowers.take(i as int), "\n"@),
            decreases hits@.len() - i,
        {
            let ghost before = views(sources@);
            sources.push(hits[i].source.clone());
            proof {
                assert(views(sources@) =~= before.push(hits@[i as int].source@));
                assert(hv.take(i + 1).map_values(|c: ChunkView| c.source) =~= hv.take(i as int).map_values(
                    |c: ChunkView| c.source,
                ).push(hv[i as int].source));
            }
            if i > 0 {
                blob.append("\n");
            }
            let low = to_lower(hits[i].content.as_str());
            blob.append(low.as_str());
            proof {
                let t = lowers.take(i + 1);
                assert(t.drop_last() =~= lowers.take(i as int));
                assert(t.last() == lowercase(hits@[i as int].content@));
                if i == 0 {
                    assert(lowers.take(0) =~= Seq::<Seq<char>>::empty());
                    assert(blob@ =~= join_with(t, "\n"@));
                }
            }
            i = i + 1;
        }
        proof {
            assert(hv.take(hv.len() as int) =~= hv);
            assert(lowers.take(lowers.len() as int) =~= lowers);
        }
        let intent_l = to_lower(intent);
        let (cli, base) = match vendor {
            Vendor::CiscoIos => cisco_map(intent_l.as_str(), blob.as_str()),
            Vendor::HuaweiVrp => huawei_map(intent_l.as_str(), blob.as_str()),
            Vendor::Generic => {
                let mut s = "# generic intent: ".to_string();
                s.append(intent);
                s.append("\nshow status");
                (s, 40u8)
            },
        };
        let boost: u8 = if hits.len() > 0 { 15 } else { 0 };
        let sum = base as u16 + boost as u16;
        let confidence_pct: u8 = if sum > 99 { 99 } else { sum as u8 };
        TranslatedCommand {
            intent: intent.to_string(),
            vendor,
            cli,
            rag_sources: sources,
            confidence_pct,
        }
    }

    /// Translations for Cisco IOS and Huawei VRP, in that order.
    pub fn translate_all(intent: &str, kb: &KnowledgeBase) -> (r: Vec<TranslatedCommand>)
        ensures
            r@.len() == 2,
            translation_ok(r@[0], intent@, Vendor::CiscoIos, chunk_views(kb.chunks@)),
            translation_ok(r@[1], intent@, Vendor::HuaweiVrp, chunk_views(kb.chunks@)),
    {
        let mut v: Vec<TranslatedCommand> = Vec::new();
        v.push(Self::translate(intent, Vendor::CiscoIos, kb));
        v.push(Self::translate(intent, Vendor::HuaweiVrp, kb));
        v
    }
}

/// Mathematical model of a [`DeviceTarget`].
pub open spec fn target_is(
    t: DeviceTarget,
    id: Seq<char>,
    hostname: Seq<char>,
    vendor: Vendor,
    host: Seq<char>,
    port: u16,
    simulate: bool,
) -> bool {
    t.id@ == id && t.hostname@ == hostname && t.vendor == vendor && t.host@ == host && t.port == port
        && t.simulate == simulate
}

/// The first line of a command as `str::lines` yields it, when there is one.
pub open spec fn first_line(s: Seq<char>) -> Option<Seq<char>> {
    if s.len() == 0 {
        None
    } else if exists|k: int| 0 <= k < s.len() && s[k] == '\n' {
        let k = choose|k: int| 0 <= k < s.len() && s[k] == '\n' && forall|j: int| 0 <= j < k ==> s[j] != '\n';
        Some(strip_cr(s.take(k)))
    } else {
        Some(s)
    }
}

/// Banner a simulated device prints.
pub open spec fn banner(v: Vendor, host: Seq<char>) -> Seq<char> {
    match v {
        Vendor::CiscoIos => host + "\nCisco IOS Software, Simulator\nHostname: "@ + host + "\n"@,
        Vendor::HuaweiVrp => "<"@ + host + "> Huawei Versatile Routing Platform Simulation\n"@,
        Vendor::Generic => "["@ + host + "] generic cli sim\n"@,
    }
}

/// Canned interface listing returned for show / display commands.
pub open spec fn interface_listing() -> Seq<char> {
    "GigabitEthernet0/0/1   up   up   10.0.0.1/30\nLoopback0              up   up   1.1.1.1/32\n"@
}

/// Output of a simulated device for a command.
pub open spec fn simulated_output(v: Vendor, host: Seq<char>, command: Seq<char>) -> Seq<char> {
    let l = lowercase(command);
    let body = if has_sub(l, "show"@) || has_sub(l, "display"@) {
        interface_listing()
    } else {
        "OK — applied ("@ + match first_line(command) {
            Some(f) => f,
            None => "cmd"@,
        } + ")"@
    };
    banner(v, host) + body
}

/// Position of the first device of `vendor`, if any.
fn device_for_vendor(devices: &Vec<DeviceTarget>, vendor: Vendor) -> (r: Option<usize>)
    ensures
        match r {
            Some(d) => d < devices@.len() && devices@[d as int].vendor == vendor && forall|j: int|
                0 <= j < d ==> devices@[j].vendor != vendor,
            None => forall|j: int| 0 <= j < devices@.len() ==> devices@[j].vendor != vendor,
        },
{
    let mut d: usize = 0;
    while d < devices.len()
        invariant
            d <= devices@.len(),
            forall|j: int| 0 <= j < d ==> devices@[j].vendor != vendor,
        decreases devices@.len() - d,
    {
        if devices[d].vendor == vendor {
            return Some(d);
        }
        d = d + 1;
    }
    None
}

/// Connector to lab devices.
pub struct NetworkConnector;

fn first_line_of(command: &str) -> (r: Option<String>)
    ensures
        match r {
            Some(s) => first_line(command@) == Some(s@),
            None => first_line(command@).is_none(),
        },
{
    let v = chars_of(command);
    if v.len() == 0 {
        return None;
    }
    let mut k: usize = 0;
    while k < v.len() && v[k] != '\n'
        invariant
            k <= v@.len(),
            forall|j: int| 0 <= j < k ==> v@[j] != '\n',
        decreases v@.len() - k,
    {
        k = k + 1;
    }
    if k == v.len() {
        return Some(string_of(&v, 0, v.len()));
    }
    let end = if k > 0 && v[k - 1] == '\r' { k - 1 } else { k };
    let r = string_of(&v, 0, end);
    proof {
        let s = command@;
        assert(s[k as int] == '\n');
        let c = choose|c: int| 0 <= c < s.len() && s[c] == '\n' && forall|j: int| 0 <= j < c ==> s[j] != '\n';
        if c < k {
            assert(s[c] != '\n');
        } else if c > k {
            assert(s[k as int] != '\n');
        }
        assert(s.take(k as int) =~= v@.subrange(0, k as int));
        if end < k {
            assert(s.take(k as int).drop_last() =~= v@.subrange(0, end as int));
        }
    }
    Some(r)
}

impl NetworkConnector {
    /// The two simulated lab devices.
    pub fn default_lab_devices() -> (r: Vec<DeviceTarget>)
        ensures
            r@.len() == 2,
            target_is(r@[0], "pe-cisco-01"@, "pe-router-01"@, Vendor::CiscoIos, "127.0.0.1"@, 22022, true),
            target_is(r@[1], "agg-huawei-02"@, "agg-sw-02"@, Vendor::HuaweiVrp, "127.0.0.1"@, 22023, true),
    {
        let mut v: Vec<DeviceTarget> = Vec::new();
        v.push(DeviceTarget {
            id: "pe-cisco-01".to_string(),
            hostname: "pe-router-01".to_string(),
            vendor: Vendor::CiscoIos,
            host: "127.0.0.1".to_string(),
            port: 22022,
            simulate: true,
        });
        v.push(DeviceTarget {
            id: "agg-huawei-02".to_string(),
            hostname: "agg-sw-02".to_string(),
            vendor: Vendor::HuaweiVrp,
            host: "127.0.0.1".to_string(),
            port: 22023,
            simulate: true,
        });
        v
    }

    /// Simulated execution: canned CLI output, no socket opened.
    pub fn simulate(target: &DeviceTarget, command: &str) -> (r: ExecResult)
        ensures
            r.target_id@ == target.id@,
            r.vendor == target.vendor,
            r.command@ == command@,
            r.output@ == simulated_output(target.vendor, target.hostname@, command@),
            r.simulated,
            r.success,
    {
        let mut out = match target.vendor {
            Vendor::CiscoIos => {
                let mut b = target.hostname.clone();
                b.append("\nCisco IOS Software, Simulator\nHostname: ");
                b.append(target.hostname.as_str());
                b.append("\n");
                b
            },
            Vendor::HuaweiVrp => {
                let mut b = "<".to_string();
                b.append(target.hostname.as_str());
                b.append("> Huawei Versatile Routing Platform Simulation\n");
                b
            },
            Vendor::Generic => {
                let mut b = "[".to_string();
                b.append(target.hostname.as_str());
                b.append("] generic cli sim\n");
                b
            },
        };
        let l = to_lower(command);
        if contains(l.as_str(), "show") || contains(l.as_str(), "display") {
            out.append("GigabitEthernet0/0/1   up   up   10.0.0.1/30\nLoopback0              up   up   1.1.1.1/32\n");
        } else {
            out.append("OK — applied (");
            match first_line_of(command) {
                Some(f) => out.append(f.as_str()),
                None => out.append("cmd"),
            }
            out.append(")");
        }
        ExecResult {
            target_id: target.id.clone(),
            vendor: target.vendor,
            command: command.to_string(),
            output: out,
            simulated: true,
            success: true,
        }
    }

    /// Translates an intent for every vendor and previews each CLI on the simulated lab
    /// device of that vendor.
    pub fn translate_and_preview(intent: &str, kb: &KnowledgeBase) -> (r: Vec<(TranslatedCommand, ExecResult)>)
        ensures
            r@.len() == 2,
            forall|k: int| 0 <= k < 2 ==> {
                let (t, e) = #[trigger] r@[k];
                &&& translation_ok(t, intent@, if k == 0 { Vendor::CiscoIos } else { Vendor::HuaweiVrp }, chunk_views(kb.chunks@))
                &&& e.target_id@ == (if k == 0 { "pe-cisco-01"@ } else { "agg-huawei-02"@ })
                &&& e.vendor == t.vendor
                &&& e.command@ == t.cli@
                &&& e.output@ == simulated_output(t.vendor, if k == 0 { "pe-router-01"@ } else { "agg-sw-02"@ }, t.cli@)
                &&& e.simulated && e.success
            },
    {
        let devices = Self::default_lab_devices();
        let mut all = CommandTranslator::translate_all(intent, kb);
        let ghost all0 = all@;
        let t1 = all.pop().unwrap();
        let t0 = all.pop().unwrap();
        let mut out: Vec<(TranslatedCommand, ExecResult)> = Vec::new();
        if let Some(d) = device_for_vendor(&devices, t0.vendor) {
            let e = Self::simulate(&devices[d], t0.cli.as_str());
            out.push((t0, e));
        }
        if let Some(d) = device_for_vendor(&devices, t1.vendor) {
            let e = Self::simulate(&devices[d], t1.cli.as_str());
            out.push((t1, e));
        }
        proof {
            assert(out@.len() == 2);
        }
        out
    }

    /// Runs a command on a target: a simulated target answers at once; a real target is
    /// reached over SSH with the lab credentials, which the caller's transport carries out.
    pub fn exec(target: &DeviceTarget, command: &str) -> (r: ExecPlan)
        ensures
            target.simulate ==> (r matches ExecPlan::Done(e) && e.target_id@ == target.id@ && e.vendor
                == target.vendor && e.command@ == command@ && e.output@ == simulated_output(
                target.vendor,
                target.hostname@,
                command@,
            ) && e.simulated && e.success),
            !target.simulate ==> (r matches ExecPlan::Ssh { address, user, password } && address@ == ssh_address(
                target.host@,
                target.port,
            ) && user@ == "lab"@ && password@ == "lab"@),
    {
        if target.simulate {
            return ExecPlan::Done(Self::simulate(target, command));
        }
        let mut address = target.host.clone();
        address.append(":");
        address.append(crate::text::decimal_string(target.port as u64).as_str());
        ExecPlan::Ssh { address, user: "lab".to_string(), password: "lab".to_string() }
    }

    /// The result of a command that ran over SSH and printed `output`.
    pub fn remote_result(target: &DeviceTarget, command: &str, output: String) -> (r: ExecResult)
        ensures
            r.target_id@ == target.id@,
            r.vendor == target.vendor,
            r.command@ == command@,
            r.output@ == output@,
            !r.simulated,
            r.success,
    {
        ExecResult {
            target_id: target.id.clone(),
            vendor: target.vendor,
            command: command.to_string(),
            output,
            simulated: false,
            success: true,
        }
    }
}

/// How a command is to be run on a target.
#[derive(Debug)]
pub enum ExecPlan {
    /// Already run (simulated target).
    Done(ExecResult),
    /// To be run over SSH at `address` with these credentials.
    Ssh { address: String, user: String, password: String },
}

/// The `host:port` address of an SSH target.
pub open spec fn ssh_address(host: Seq<char>, port: u16) -> Seq<char> {
    host + ":"@ + crate::text::decimal(port as nat)
}


/// Translation routes, for Cisco IOS and Huawei VRP alike, on the lowercased intent `l` and
/// knowledge-base text `rag`: taking an interface down (or a knowledge base that speaks of
/// "shutdown") gives the interface shutdown at 82%; bringing it up the undo at 82%;
/// congestion / QoS / shaping the edge shaping policy at 78%; clearing BGP a soft reset at
/// 70%; anything else a read-only inspection at 55%. A generic device gets 40%. Grounding in
/// the knowledge base adds 15 points, capped at 99.
pub proof fn law_translation_routes(l: Seq<char>, rag: Seq<char>, base: u8)
    ensures
        ({
            let down = has_sub(l, "interface down"@) || has_sub(l, "shut interface"@) || has_sub(rag, "shutdown"@);
            let shaping = has_sub(l, "congestion"@) || has_sub(l, "qos"@) || has_sub(l, "shape"@);
            let bgp = has_sub(l, "bgp"@) && has_sub(l, "clear"@);
            let c = cisco_map_spec(l, rag);
            let h = huawei_map_spec(l, rag);
            let cisco_up = has_sub(l, "interface up"@) || has_sub(l, "no shut"@);
            let huawei_up = has_sub(l, "interface up"@) || has_sub(l, "undo shut"@);
            &&& down ==> c == ("configure terminal\ninterface GigabitEthernet0/0/1\nshutdown\nend\nwrite memory"@, 82u8)
            &&& down ==> h == ("system-view\ninterface GigabitEthernet0/0/1\nshutdown\nquit\nquit\nsave"@, 82u8)
            &&& !down && cisco_up ==> c
                == ("configure terminal\ninterface GigabitEthernet0/0/1\nno shutdown\nend\nwrite memory"@, 82u8)
            &&& !down && huawei_up ==> h
                == ("system-view\ninterface GigabitEthernet0/0/1\nundo shutdown\nquit\nquit\nsave"@, 82u8)
            &&& !down && !cisco_up && shaping ==> c.1 == 78
            &&& !down && !huawei_up && shaping ==> h.1 == 78
            &&& !down && !cisco_up && !shaping && bgp ==> c == ("clear ip bgp * soft"@, 70u8)
            &&& !down && !huawei_up && !shaping && bgp ==> h == ("reset bgp all soft"@, 70u8)
            &&& !down && !cisco_up && !shaping && !bgp ==> c.1 == 55
            &&& !down && !huawei_up && !shaping && !bgp ==> h.1 == 55
        }),
        vendor_map(l, Vendor::Generic, rag).1 == 40,
        boosted(base, false) == (if base > 99 { 99 } else { base }),
        boosted(base, true) == (if base + 15 > 99 { 99 } else { base + 15 }),
{
}

}
