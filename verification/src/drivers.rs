//! Northbound protocol drivers: how an approved command is carried to a lab
//! network element (NETCONF edit-config or gNMI Set). Simulated only.

use vstd::prelude::*;
use vstd::string::*;
use crate::text::{has_sub, lowercase, xml_escaped, json_escaped, take_chars};
use crate::text::{to_lower, contains, xml_escape, json_escape, first_chars};

verus! {

/// Northbound protocol.
#[derive(Debug, Clone, Copy, PartialEq, Eq, Structural)]
pub enum NorthboundProtocol {
    Netconf,
    Gnmi,
}

/// Payload generation for one northbound protocol.
pub trait NetworkDriver {
    fn protocol_name(&self) -> &'static str;

    fn generate_payload(&self, command: &str) -> String;

    fn content_type(&self) -> &'static str;
}

/// NETCONF driver for a target device.
pub struct NetconfDriver {
    pub target: String,
}

/// gNMI driver for a target device.
pub struct GnmiDriver {
    pub target: String,
}

/// NETCONF edit-config RPC carrying the (escaped) target and command.
pub open spec fn netconf_payload(target: Seq<char>, command: Seq<char>) -> Seq<char> {
    "<?xml version=\"1.0\" encoding=\"UTF-8\"?>\n<rpc message-id=\"101\" xmlns=\"urn:ietf:params:xml:ns:netconf:base:1.0\">\n  <edit-config>\n    <target><candidate/></target>\n    <default-operation>merge</default-operation>\n    <config>\n      <smartelcom-intent xmlns=\"urn:smartelcom:an4:1.0\">\n        <device>"@
        + xml_escaped(target) + "</device>\n        <operation>"@ + xml_escaped(command)
        + "</operation>\n        <origin>judge-agent</origin>\n        <safety-gate>passed</safety-gate>\n      </smartelcom-intent>\n    </config>\n  </edit-config>\n</rpc>\n<!-- Followed by: <rpc><commit><confirmed/><confirm-timeout>60</confirm-timeout></commit></rpc> -->\n"@
}

/// gNMI SetRequest carrying the (escaped) target and command.
pub open spec fn gnmi_payload(target: Seq<char>, command: Seq<char>) -> Seq<char> {
    "{\n  \"prefix\": { \"target\": \""@ + json_escaped(target)
        + "\", \"origin\": \"smartelcom\" },\n  \"update\": [{\n    \"path\": {\n      \"elem\": [\n        { \"name\": \"system\" },\n        { \"name\": \"config\" },\n        { \"name\": \"intent-action\" }\n      ]\n    },\n    \"val\": {\n      \"json_ietf_val\": \"{ \\\"command\\\": \\\""@
        + json_escaped(command)
        + "\\\", \\\"safety_gate\\\": \\\"passed\\\", \\\"source\\\": \\\"judge-agent\\\" }\"\n    }\n  }],\n  \"extension\": { \"atomic\": true, \"replace\": true }\n}"@
}

/// Payload of a protocol for a target and command.
pub open spec fn protocol_payload(p: NorthboundProtocol, target: Seq<char>, command: Seq<char>) -> Seq<char> {
    match p {
        NorthboundProtocol::Netconf => netconf_payload(target, command),
        NorthboundProtocol::Gnmi => gnmi_payload(target, command),
    }
}

/// Content type of a protocol's payload.
pub open spec fn protocol_content_type(p: NorthboundProtocol) -> Seq<char> {
    match p {
        NorthboundProtocol::Netconf => "application/yang-data+xml"@,
        NorthboundProtocol::Gnmi => "application/json"@,
    }
}

impl NetconfDriver {
    /// The NETCONF payload for `command`.
    pub fn payload(&self, command: &str) -> (r: String)
        ensures
            r@ == netconf_payload(self.target@, command@),
    {
        let cmd = xml_escape(command);
        let tgt = xml_escape(self.target.as_str());
        let mut s = "<?xml version=\"1.0\" encoding=\"UTF-8\"?>\n<rpc message-id=\"101\" xmlns=\"urn:ietf:params:xml:ns:netconf:base:1.0\">\n  <edit-config>\n    <target><candidate/></target>\n    <default-operation>merge</default-operation>\n    <config>\n      <smartelcom-intent xmlns=\"urn:smartelcom:an4:1.0\">\n        <device>".to_string();
        s.append(tgt.as_str());
        s.append("</device>\n        <operation>");
        s.append(cmd.as_str());
        s.append(
            "</operation>\n        <origin>judge-agent</origin>\n        <safety-gate>passed</safety-gate>\n      </smartelcom-intent>\n    </config>\n  </edit-config>\n</rpc>\n<!-- Followed by: <rpc><commit><confirmed/><confirm-timeout>60</confirm-timeout></commit></rpc> -->\n",
        );
        s
    }
}

impl GnmiDriver {
    /// The gNMI payload for `command`.
    pub fn payload(&self, command: &str) -> (r: String)
        ensures
            r@ == gnmi_payload(self.target@, command@),
    {
        let cmd = json_escape(command);
        let tgt = json_escape(self.target.as_str());
        let mut s = "{\n  \"prefix\": { \"target\": \"".to_string();
        s.append(tgt.as_str());
        s.append(
            "\", \"origin\": \"smartelcom\" },\n  \"update\": [{\n    \"path\": {\n      \"elem\": [\n        { \"name\": \"system\" },\n        { \"name\": \"config\" },\n        { \"name\": \"intent-action\" }\n      ]\n    },\n    \"val\": {\n      \"json_ietf_val\": \"{ \\\"command\\\": \\\"",
        );
        s.append(cmd.as_str());
        s.append(
            "\\\", \\\"safety_gate\\\": \\\"passed\\\", \\\"source\\\": \\\"judge-agent\\\" }\"\n    }\n  }],\n  \"extension\": { \"atomic\": true, \"replace\": true }\n}",
        );
        s
    }
}

impl NetworkDriver for NetconfDriver {
    fn protocol_name(&self) -> (r: &'static str)
        ensures
            r@ == "netconf"@,
    {
        "netconf"
    }

    fn generate_payload(&self, command: &str) -> (r: String)
        ensures
            r@ == netconf_payload(self.target@, command@),
    {
        self.payload(command)
    }

    fn content_type(&self) -> (r: &'static str)
        ensures
            r@ == protocol_content_type(NorthboundProtocol::Netconf),
    {
        "application/yang-data+xml"
    }
}

impl NetworkDriver for GnmiDriver {
    fn protocol_name(&self) -> (r: &'static str)
        ensures
            r@ == "gnmi"@,
    {
        "gnmi"
    }

    fn generate_payload(&self, command: &str) -> (r: String)
        ensures
            r@ == gnmi_payload(self.target@, command@),
    {
        self.payload(command)
    }

    fn content_type(&self) -> (r: &'static str)
        ensures
            r@ == protocol_content_type(NorthboundProtocol::Gnmi),
    {
        "application/json"
    }
}

/// The driver chosen for a command: NETCONF for configuration changes, gNMI for
/// telemetry / state-oriented commands.
pub enum SelectedDriver {
    Netconf(NetconfDriver),
    Gnmi(GnmiDriver),
}

impl SelectedDriver {
    /// Protocol of the selected driver.
    pub open spec fn protocol(&self) -> NorthboundProtocol {
        match self {
            SelectedDriver::Netconf(_) => NorthboundProtocol::Netconf,
            SelectedDriver::Gnmi(_) => NorthboundProtocol::Gnmi,
        }
    }

    /// Target of the selected driver.
    pub open spec fn target(&self) -> Seq<char> {
        match self {
            SelectedDriver::Netconf(d) => d.target@,
            SelectedDriver::Gnmi(d) => d.target@,
        }
    }
}

impl NetworkDriver for SelectedDriver {
    fn protocol_name(&self) -> (r: &'static str)
        ensures
            r@ == protocol_name_text(self.protocol()),
    {
        match self {
            SelectedDriver::Netconf(d) => d.protocol_name(),
            SelectedDriver::Gnmi(d) => d.protocol_name(),
        }
    }

    fn generate_payload(&self, command: &str) -> (r: String)
        ensures
            r@ == protocol_payload(self.protocol(), self.target(), command@),
    {
        match self {
            SelectedDriver::Netconf(d) => d.generate_payload(command),
            SelectedDriver::Gnmi(d) => d.generate_payload(command),
        }
    }

    fn content_type(&self) -> (r: &'static str)
        ensures
            r@ == protocol_content_type(self.protocol()),
    {
        match self {
            SelectedDriver::Netconf(d) => d.content_type(),
            SelectedDriver::Gnmi(d) => d.content_type(),
        }
    }
}

/// Name of a protocol as its driver reports it.
pub open spec fn protocol_name_text(p: NorthboundProtocol) -> Seq<char> {
    match p {
        NorthboundProtocol::Netconf => "netconf"@,
        NorthboundProtocol::Gnmi => "gnmi"@,
    }
}

/// Keywords that mark a command as telemetry / state oriented.
pub open spec fn telemetry_keywords() -> Seq<Seq<char>> {
    seq![
        "telemetry"@,
        "sensor"@,
        "counter"@,
        "state"@,
        "monitor"@,
        "observe"@,
        "get "@,
        "show "@,
        "subscribe"@,
    ]
}

/// The lowercased command names a telemetry keyword.
pub open spec fn telemetry_ish(command: Seq<char>) -> bool {
    exists|k: int| 0 <= k < 9 && has_sub(lowercase(command), #[trigger] telemetry_keywords()[k])
}

/// Protocol chosen for a command.
pub open spec fn protocol_for(command: Seq<char>) -> NorthboundProtocol {
    if telemetry_ish(command) {
        NorthboundProtocol::Gnmi
    } else {
        NorthboundProtocol::Netconf
    }
}

fn telemetry_keyword(k: usize) -> (r: &'static str)
    requires
        k < 9,
    ensures
        r@ == telemetry_keywords()[k as int],
{
    if k == 0 { "telemetry" } else if k == 1 { "sensor" } else if k == 2 { "counter" }
    else if k == 3 { "state" } else if k == 4 { "monitor" } else if k == 5 { "observe" }
    else if k == 6 { "get " } else if k == 7 { "show " } else { "subscribe" }
}

/// Picks NETCONF for configuration changes and gNMI for telemetry / state-oriented commands.
pub fn select_driver(command: &str, target: &str) -> (r: SelectedDriver)
    ensures
        r.protocol() == protocol_for(command@),
        r.target() == target@,
{
    let t = to_lower(command);
    let mut telemetry = false;
    let mut k: usize = 0;
    while k < 9
        invariant
            k <= 9,
            t@ == lowercase(command@),
            telemetry == exists|j: int| 0 <= j < k && has_sub(t@, #[trigger] telemetry_keywords()[j]),
        decreases 9 - k,
    {
        if contains(t.as_str(), telemetry_keyword(k)) {
            telemetry = true;
        }
        k = k + 1;
    }
    if telemetry {
        SelectedDriver::Gnmi(GnmiDriver { target: target.to_string() })
    } else {
        SelectedDriver::Netconf(NetconfDriver { target: target.to_string() })
    }
}

/// The protocol chosen for `command` and its payload for `target`.
pub fn generate_technical_payload(command: &str, target: &str) -> (r: (NorthboundProtocol, String))
    ensures
        r.0 == protocol_for(command@),
        r.1@ == protocol_payload(protocol_for(command@), target@, command@),
{
    let driver = select_driver(command, target);
    let body = driver.generate_payload(command);
    let name = driver.protocol_name();
    proof {
        reveal_strlit("gnmi");
        reveal_strlit("netconf");
        assert("netconf"@ != "gnmi"@) by {
            assert("netconf"@[0] != "gnmi"@[0]);
        }
    }
    let proto = if crate::text::same_text(name, "gnmi") {
        NorthboundProtocol::Gnmi
    } else {
        NorthboundProtocol::Netconf
    };
    (proto, body)
}

/// A request to push a command to a target.
#[derive(Debug)]
pub struct DriverRequest {
    pub command: String,
    pub protocol: NorthboundProtocol,
    pub target: String,
    pub dry_run: bool,
    pub action_id: Option<String>,
}

/// The payload produced for a request.
#[derive(Debug)]
pub struct DriverPayload {
    pub id: String,
    pub protocol: NorthboundProtocol,
    pub target: String,
    pub content_type: String,
    pub body: String,
    pub dry_run: bool,
    pub created_at: String,
}

/// The (simulated) outcome of a push.
#[derive(Debug)]
pub struct DriverResult {
    pub payload: DriverPayload,
    pub status: String,
    pub message: String,
    pub commit_id: Option<String>,
    pub simulated: bool,
}

// ---------------------------------------------------------------------------
// Trusted items: identifiers and clock
// ---------------------------------------------------------------------------

/// A lowercase hexadecimal digit.
pub open spec fn is_lower_hex(c: char) -> bool {
    ('0' <= c && c <= '9') || ('a' <= c && c <= 'f')
}

/// The hyphenated text of a random (version 4, RFC 4122 variant) UUID: 8-4-4-4-12 lowercase
/// hex digits, version digit `4`, variant digit one of `8`, `9`, `a`, `b`.
pub open spec fn uuid_v4_text(s: Seq<char>) -> bool {
    &&& s.len() == 36
    &&& forall|i: int|
        0 <= i < 36 ==> if i == 8 || i == 13 || i == 18 || i == 23 {
            s[i] == '-'
        } else {
            is_lower_hex(#[trigger] s[i])
        }
    &&& s[14] == '4'
    &&& (s[19] == '8' || s[19] == '9' || s[19] == 'a' || s[19] == 'b')
}

/// An RFC 3339 timestamp in UTC as chrono writes it: at least `YYYY-MM-DDTHH:MM:SS` and the
/// offset `+00:00` at the end.
pub open spec fn rfc3339_utc(s: Seq<char>) -> bool {
    s.len() >= 25 && s.subrange(s.len() - 6, s.len() as int) == "+00:00"@
}

/// Calls `uuid::Uuid::new_v4()` and renders it with `to_string`. Claimed: the hyphenated
/// lowercase form (`uuid::fmt`, `format_hyphenated`), with the version and variant bits
/// `new_v4` sets; the random digits are not stated.
#[verifier::external_body]
pub(crate) fn new_uuid() -> (r: String)
    ensures
        uuid_v4_text(r@),
{
    uuid::Uuid::new_v4().to_string()
}

/// Calls `chrono::Utc::now()` and renders it with `to_rfc3339`. Claimed: the form
/// `write_rfc3339` gives for a UTC time (the offset written as `+00:00`); the time read is
/// not stated.
#[verifier::external_body]
pub(crate) fn now_rfc3339() -> (r: String)
    ensures
        rfc3339_utc(r@),
{
    chrono::Utc::now().to_rfc3339()
}

// ---------------------------------------------------------------------------
// Payloads and commits
// ---------------------------------------------------------------------------

/// The payload for a request, given its identifier and creation time.
pub fn payload_with(req: &DriverRequest, id: String, created_at: String) -> (r: DriverPayload)
    ensures
        r.id@ == id@,
        r.created_at@ == created_at@,
        r.protocol == req.protocol,
        r.target@ == req.target@,
        r.content_type@ == protocol_content_type(req.protocol),
        r.body@ == protocol_payload(req.protocol, req.target@, req.command@),
        r.dry_run == req.dry_run,
{
    let (content_type, body) = match req.protocol {
        NorthboundProtocol::Netconf => {
            let d = NetconfDriver { target: req.target.clone() };
            (d.content_type(), d.generate_payload(req.command.as_str()))
        },
        NorthboundProtocol::Gnmi => {
            let d = GnmiDriver { target: req.target.clone() };
            (d.content_type(), d.generate_payload(req.command.as_str()))
        },
    };
    DriverPayload {
        id,
        protocol: req.protocol,
        target: req.target.clone(),
        content_type: content_type.to_string(),
        body,
        dry_run: req.dry_run,
        created_at,
    }
}

/// Builds the payload for a request, with a fresh identifier and the current time.
pub fn build_payload(req: &DriverRequest) -> (r: DriverPayload)
    ensures
        uuid_v4_text(r.id@),
        rfc3339_utc(r.created_at@),
        r.protocol == req.protocol,
        r.target@ == req.target@,
        r.content_type@ == protocol_content_type(req.protocol),
        r.body@ == protocol_payload(req.protocol, req.target@, req.command@),
        r.dry_run == req.dry_run,
{
    let created_at = now_rfc3339();
    let id = new_uuid();
    payload_with(req, id, created_at)
}

/// Message of a dry run.
pub open spec fn dry_run_message() -> Seq<char> {
    "Dry Run — payload generated; no NETCONF/gNMI session opened."@
}

/// Commit identifier derived from a fresh UUID.
pub open spec fn commit_id_of(uuid: Seq<char>) -> Seq<char> {
    "cfg-"@ + take_chars(uuid, 8)
}

/// Status reported by a (non dry-run) commit.
pub open spec fn commit_status(p: NorthboundProtocol) -> Seq<char> {
    match p {
        NorthboundProtocol::Netconf => "commit_confirm"@,
        NorthboundProtocol::Gnmi => "commit_success"@,
    }
}

/// Message reported by a (non dry-run) commit.
pub open spec fn commit_message(p: NorthboundProtocol, target: Seq<char>, commit_id: Seq<char>) -> Seq<char> {
    match p {
        NorthboundProtocol::Netconf => "NETCONF <commit/> confirmed on "@ + target
            + " — candidate → running (simulated). commit-id="@ + commit_id,
        NorthboundProtocol::Gnmi => "gNMI SetResponse OK on "@ + target
            + " — atomic replace applied (simulated). commit-id="@ + commit_id,
    }
}

/// The outcome of a commit, given its payload and, for a real commit, a fresh UUID from
/// which the commit identifier is taken.
pub fn commit_outcome(req: &DriverRequest, payload: DriverPayload, uuid: &str) -> (r: DriverResult)
    ensures
        r.payload == payload,
        r.simulated,
        req.dry_run ==> r.status@ == "dry_run"@ && r.message@ == dry_run_message() && r.commit_id.is_none(),
        !req.dry_run ==> {
            &&& r.status@ == commit_status(req.protocol)
            &&& r.commit_id matches Some(c) && c@ == commit_id_of(uuid@)
            &&& r.message@ == commit_message(req.protocol, req.target@, commit_id_of(uuid@))
        },
{
    if req.dry_run {
        return DriverResult {
            payload,
            status: "dry_run".to_string(),
            message: "Dry Run — payload generated; no NETCONF/gNMI session opened.".to_string(),
            commit_id: None,
            simulated: true,
        };
    }
    let mut commit_id = "cfg-".to_string();
    commit_id.append(first_chars(uuid, 8).as_str());
    let (status, message) = match req.protocol {
        NorthboundProtocol::Netconf => {
            let mut m = "NETCONF <commit/> confirmed on ".to_string();
            m.append(req.target.as_str());
            m.append(" — candidate → running (simulated). commit-id=");
            m.append(commit_id.as_str());
            ("commit_confirm".to_string(), m)
        },
        NorthboundProtocol::Gnmi => {
            let mut m = "gNMI SetResponse OK on ".to_string();
            m.append(req.target.as_str());
            m.append(" — atomic replace applied (simulated). commit-id=");
            m.append(commit_id.as_str());
            ("commit_success".to_string(), m)
        },
    };
    DriverResult { payload, status, message, commit_id: Some(commit_id), simulated: true }
}

/// Pushes a request (simulated): a dry run only builds the payload; otherwise a commit
/// identifier is issued and the protocol's confirmation is reported.
pub fn commit(req: &DriverRequest) -> (r: DriverResult)
    ensures
        r.simulated,
        uuid_v4_text(r.payload.id@),
        rfc3339_utc(r.payload.created_at@),
        r.payload.protocol == req.protocol,
        r.payload.target@ == req.target@,
        r.payload.content_type@ == protocol_content_type(req.protocol),
        r.payload.body@ == protocol_payload(req.protocol, req.target@, req.command@),
        r.payload.dry_run == req.dry_run,
        req.dry_run ==> r.status@ == "dry_run"@ && r.message@ == dry_run_message() && r.commit_id.is_none(),
        !req.dry_run ==> {
            &&& r.status@ == commit_status(req.protocol)
            &&& r.commit_id matches Some(c) && c@.len() == 12 && has_sub(
                r.message@,
                c@,
            )
            &&& exists|u: Seq<char>| #[trigger] commit_id_of(u) == r.commit_id->0@ && uuid_v4_text(u) && r.message@
                == commit_message(req.protocol, req.target@, commit_id_of(u))
        },
{
    let payload = build_payload(req);
    if req.dry_run {
        return commit_outcome(req, payload, "");
    }
    let uuid = new_uuid();
    let r = commit_outcome(req, payload, uuid.as_str());
    proof {
        reveal_strlit("cfg-");
        let c = commit_id_of(uuid@);
        assert(take_chars(uuid@, 8).len() == 8);
        let m = r.message@;
        let pre = m.len() - c.len();
        assert(m.subrange(pre, pre + c.len()) =~= c);
    }
    r
}


/// Telemetry and state commands go over gNMI, everything else over NETCONF: a command goes
/// over gNMI exactly when its lowercased text contains "telemetry", "sensor", "counter",
/// "state", "monitor", "observe", "get ", "show " or "subscribe".
pub proof fn law_telemetry_commands_use_gnmi(command: Seq<char>)
    ensures
        (protocol_for(command) == NorthboundProtocol::Gnmi) == {
            let t = lowercase(command);
            ||| has_sub(t, "telemetry"@)
            ||| has_sub(t, "sensor"@)
            ||| has_sub(t, "counter"@)
            ||| has_sub(t, "state"@)
            ||| has_sub(t, "monitor"@)
            ||| has_sub(t, "observe"@)
            ||| has_sub(t, "get "@)
            ||| has_sub(t, "show "@)
            ||| has_sub(t, "subscribe"@)
        },
        (protocol_for(command) == NorthboundProtocol::Netconf) == (protocol_for(command) != NorthboundProtocol::Gnmi),
{
    let ks = telemetry_keywords();
    let t = lowercase(command);
    assert(ks[0] == "telemetry"@ && ks[1] == "sensor"@ && ks[2] == "counter"@ && ks[3] == "state"@);
    assert(ks[4] == "monitor"@ && ks[5] == "observe"@ && ks[6] == "get "@ && ks[7] == "show "@);
    assert(ks[8] == "subscribe"@);
    if telemetry_ish(command) {
        let k = choose|k: int| 0 <= k < 9 && has_sub(t, #[trigger] ks[k]);
        assert(has_sub(t, ks[k]));
    }
}


/// Northbound payloads carry the command: NETCONF as the XML-escaped text of the
/// `<operation>` element, with content type "application/yang-data+xml" and a commit
/// reported as "commit_confirm"; gNMI as JSON-escaped text after "\"command\"", with
/// content type "application/json" and a commit reported as "commit_success". A commit id is
/// "cfg-" and the first eight characters of a fresh UUID.
pub proof fn law_payload_carries_command(target: Seq<char>, command: Seq<char>, uuid: Seq<char>)
    ensures
        has_sub(netconf_payload(target, command), "<operation>"@ + xml_escaped(command) + "</operation>"@),
        protocol_content_type(NorthboundProtocol::Netconf) == "application/yang-data+xml"@,
        protocol_content_type(NorthboundProtocol::Gnmi) == "application/json"@,
        commit_status(NorthboundProtocol::Netconf) == "commit_confirm"@,
        commit_status(NorthboundProtocol::Gnmi) == "commit_success"@,
        uuid.len() >= 8 ==> commit_id_of(uuid) == "cfg-"@ + uuid.take(8),
{
    let a = "<?xml version=\"1.0\" encoding=\"UTF-8\"?>\n<rpc message-id=\"101\" xmlns=\"urn:ietf:params:xml:ns:netconf:base:1.0\">\n  <edit-config>\n    <target><candidate/></target>\n    <default-operation>merge</default-operation>\n    <config>\n      <smartelcom-intent xmlns=\"urn:smartelcom:an4:1.0\">\n        <device>"@
        + xml_escaped(target);
    let b = "</device>\n        <operation>"@;
    let c = xml_escaped(command);
    let d = "</operation>\n        <origin>judge-agent</origin>\n        <safety-gate>passed</safety-gate>\n      </smartelcom-intent>\n    </config>\n  </edit-config>\n</rpc>\n<!-- Followed by: <rpc><commit><confirmed/><confirm-timeout>60</confirm-timeout></commit></rpc> -->\n"@;
    let op = "<operation>"@;
    let cl = "</operation>"@;
    reveal_strlit("</device>\n        <operation>");
    reveal_strlit("<operation>");
    reveal_strlit("</operation>");
    reveal_strlit("</operation>\n        <origin>judge-agent</origin>\n        <safety-gate>passed</safety-gate>\n      </smartelcom-intent>\n    </config>\n  </edit-config>\n</rpc>\n<!-- Followed by: <rpc><commit><confirmed/><confirm-timeout>60</confirm-timeout></commit></rpc> -->\n");
    let p = netconf_payload(target, command);
    assert(p == a + b + c + d);
    let needle = op + c + cl;
    let i = a.len() + b.len() - op.len();
    assert(b.subrange(b.len() - op.len(), b.len() as int) =~= op);
    assert(d.subrange(0, cl.len() as int) =~= cl);
    assert(p.subrange(i, i + needle.len()) =~= needle);
}

}
