//! Universal translator: the same operational command rendered as vendor-native
//! payloads (Cisco IOS-XE/XR, Huawei VRP, Nokia SROS) for devices of the lab inventory.

use vstd::prelude::*;
use vstd::string::*;
use crate::text::{has_sub, has_prefix, lowercase, trimmed, trim_start, xml_escaped, json_escaped};
use crate::text::{to_lower, contains, same_text, trim, trim_start_string, starts_with, xml_escape, json_escape};

verus! {

/// Vendor family of an inventory device.
#[derive(Debug, Clone, Copy, PartialEq, Eq, Structural)]
pub enum VendorBrand {
    CiscoIosXe,
    HuaweiVrp,
    NokiaSros,
}

/// A device of the lab inventory.
#[derive(Debug)]
pub struct InventoryDevice {
    pub id: String,
    pub hostname: String,
    pub vendor: VendorBrand,
    /// Core | Downtown | DataCenter | Edge | RAN
    pub site_class: String,
    pub role: String,
    pub mgmt_ip: String,
    /// netconf | gnmi | cli
    pub protocol_hint: String,
}

/// Mathematical model of an [`InventoryDevice`].
pub struct DeviceView {
    pub id: Seq<char>,
    pub hostname: Seq<char>,
    pub vendor: VendorBrand,
    pub site_class: Seq<char>,
    pub role: Seq<char>,
    pub mgmt_ip: Seq<char>,
    pub protocol_hint: Seq<char>,
}

impl View for InventoryDevice {
    type V = DeviceView;

    open spec fn view(&self) -> DeviceView {
        DeviceView {
            id: self.id@,
            hostname: self.hostname@,
            vendor: self.vendor,
            site_class: self.site_class@,
            role: self.role@,
            mgmt_ip: self.mgmt_ip@,
            protocol_hint: self.protocol_hint@,
        }
    }
}

impl InventoryDevice {
    /// A field-by-field copy.
    pub fn duplicate(&self) -> (r: InventoryDevice)
        ensures
            r@ == self@,
    {
        InventoryDevice {
            id: self.id.clone(),
            hostname: self.hostname.clone(),
            vendor: self.vendor,
            site_class: self.site_class.clone(),
            role: self.role.clone(),
            mgmt_ip: self.mgmt_ip.clone(),
            protocol_hint: self.protocol_hint.clone(),
        }
    }
}

/// A vendor-native payload for one device.
#[derive(Debug)]
pub struct VendorPayload {
    pub vendor: VendorBrand,
    pub device_id: String,
    /// cli | xml | json-rpc | gnmi
    pub format: String,
    pub body: String,
    pub summary: String,
}

/// Mathematical model of a [`VendorPayload`].
pub struct PayloadView {
    pub vendor: VendorBrand,
    pub device_id: Seq<char>,
    pub format: Seq<char>,
    pub body: Seq<char>,
    pub summary: Seq<char>,
}

impl View for VendorPayload {
    type V = PayloadView;

    open spec fn view(&self) -> PayloadView {
        PayloadView {
            vendor: self.vendor,
            device_id: self.device_id@,
            format: self.format@,
            body: self.body@,
            summary: self.summary@,
        }
    }
}

/// The views of a sequence of devices.
pub open spec fn device_views(s: Seq<InventoryDevice>) -> Seq<DeviceView> {
    s.map_values(|d: InventoryDevice| d@)
}

/// The views of a sequence of payloads.
pub open spec fn payload_views(s: Seq<VendorPayload>) -> Seq<PayloadView> {
    s.map_values(|p: VendorPayload| p@)
}

/// A device model from its fields.
pub open spec fn dev(
    id: Seq<char>,
    hostname: Seq<char>,
    vendor: VendorBrand,
    site_class: Seq<char>,
    role: Seq<char>,
    mgmt_ip: Seq<char>,
    protocol_hint: Seq<char>,
) -> DeviceView {
    DeviceView { id, hostname, vendor, site_class, role, mgmt_ip, protocol_hint }
}

/// The lab inventory, in order.
pub open spec fn inventory() -> Seq<DeviceView> {
    seq![
        dev("core-pe-01"@, "pe-router-01"@, VendorBrand::CiscoIosXe, "Core"@, "PE"@, "10.0.0.11"@, "netconf"@),
        dev("dc-amf-01"@, "amf-01"@, VendorBrand::CiscoIosXe, "DataCenter"@, "AMF"@, "10.0.10.21"@, "netconf"@),
        dev("dt-agg-02"@, "agg-sw-02"@, VendorBrand::HuaweiVrp, "Downtown"@, "AGG"@, "10.0.20.32"@, "netconf"@),
        dev("ran-gnb-441"@, "gnodeb-441"@, VendorBrand::HuaweiVrp, "RAN"@, "RAN"@, "10.0.30.44"@, "netconf"@),
        dev("dc-upf-03"@, "upf-03"@, VendorBrand::NokiaSros, "DataCenter"@, "UPF"@, "10.0.10.33"@, "gnmi"@),
        dev("edge-fw-01"@, "firewall-edge"@, VendorBrand::NokiaSros, "Edge"@, "FW"@, "10.0.40.51"@, "gnmi"@),
    ]
}

fn device(
    id: &str,
    hostname: &str,
    vendor: VendorBrand,
    site_class: &str,
    role: &str,
    mgmt_ip: &str,
    protocol_hint: &str,
) -> (d: InventoryDevice)
    ensures
        d@ == dev(id@, hostname@, vendor, site_class@, role@, mgmt_ip@, protocol_hint@),
{
    InventoryDevice {
        id: id.to_string(),
        hostname: hostname.to_string(),
        vendor,
        site_class: site_class.to_string(),
        role: role.to_string(),
        mgmt_ip: mgmt_ip.to_string(),
        protocol_hint: protocol_hint.to_string(),
    }
}

/// Mock lab inventory used by target resolution and driver selection.
pub fn lab_inventory() -> (r: Vec<InventoryDevice>)
    ensures
        device_views(r@) == inventory(),
        r@.len() == 6,
{
    let mut v: Vec<InventoryDevice> = Vec::new();
    v.push(device("core-pe-01", "pe-router-01", VendorBrand::CiscoIosXe, "Core", "PE", "10.0.0.11", "netconf"));
    v.push(device("dc-amf-01", "amf-01", VendorBrand::CiscoIosXe, "DataCenter", "AMF", "10.0.10.21", "netconf"));
    v.push(device("dt-agg-02", "agg-sw-02", VendorBrand::HuaweiVrp, "Downtown", "AGG", "10.0.20.32", "netconf"));
    v.push(device("ran-gnb-441", "gnodeb-441", VendorBrand::HuaweiVrp, "RAN", "RAN", "10.0.30.44", "netconf"));
    v.push(device("dc-upf-03", "upf-03", VendorBrand::NokiaSros, "DataCenter", "UPF", "10.0.10.33", "gnmi"));
    v.push(device("edge-fw-01", "firewall-edge", VendorBrand::NokiaSros, "Edge", "FW", "10.0.40.51", "gnmi"));
    assert(device_views(v@) =~= inventory());
    v
}

/// A device answers to a lowercased id-or-hostname query `q`.
pub open spec fn answers_query(d: DeviceView, q: Seq<char>) -> bool {
    ||| lowercase(d.id) == q
    ||| lowercase(d.hostname) == q
    ||| has_sub(lowercase(d.hostname), q)
    ||| has_sub(lowercase(d.id), q)
}

/// `i` is the first position of `devs` that satisfies `p`.
pub open spec fn first_index(devs: Seq<DeviceView>, p: spec_fn(DeviceView) -> bool, i: int) -> bool {
    &&& 0 <= i < devs.len()
    &&& p(devs[i])
    &&& forall|j: int| 0 <= j < i ==> !p(#[trigger] devs[j])
}

/// Looks a device up by id or hostname (case-insensitive, exact or substring).
pub fn find_device(device_id_or_host: &str) -> (r: Option<InventoryDevice>)
    ensures
        ({
            let q = lowercase(device_id_or_host@);
            match r {
                Some(d) => exists|i: int| first_index(inventory(), |x: DeviceView| answers_query(x, q), i)
                    && d@ == inventory()[i],
                None => forall|i: int| 0 <= i < 6 ==> !answers_query(#[trigger] inventory()[i], q),
            }
        }),
{
    let q = to_lower(device_id_or_host);
    let inv = lab_inventory();
    let ghost p = |x: DeviceView| answers_query(x, q@);
    let mut i: usize = 0;
    while i < inv.len()
        invariant
            i <= inv@.len() == 6,
            device_views(inv@) == inventory(),
            q@ == lowercase(device_id_or_host@),
            p == (|x: DeviceView| answers_query(x, q@)),
            forall|j: int| 0 <= j < i ==> !answers_query(#[trigger] inventory()[j], q@),
        decreases inv@.len() - i,
    {
        let d = &inv[i];
        assert(d@ == inventory()[i as int]);
        let id_l = to_lower(d.id.as_str());
        let host_l = to_lower(d.hostname.as_str());
        if id_l == q || host_l == q || contains(host_l.as_str(), q.as_str()) || contains(
            id_l.as_str(),
            q.as_str(),
        ) {
            let r = d.duplicate();
            assert(first_index(inventory(), p, i as int));
            return Some(r);
        }
        i = i + 1;
    }
    None
}

/// A device is named by the lowercased text `t` (hostname, id, site class or role).
pub open spec fn named_in(d: DeviceView, t: Seq<char>) -> bool {
    ||| has_sub(t, lowercase(d.hostname))
    ||| has_sub(t, lowercase(d.id))
    ||| has_sub(t, lowercase(d.site_class))
    ||| has_sub(t, lowercase(d.role))
}

/// The device an intent or command targets: the first inventory device it names, else the Core PE.
pub open spec fn target_of(text: Seq<char>) -> DeviceView {
    let t = lowercase(text);
    let p = |x: DeviceView| named_in(x, t);
    if exists|i: int| first_index(inventory(), p, i) {
        inventory()[choose|i: int| first_index(inventory(), p, i)]
    } else {
        inventory()[0]
    }
}

proof fn lemma_first_index_unique(devs: Seq<DeviceView>, p: spec_fn(DeviceView) -> bool, i: int, k: int)
    requires
        first_index(devs, p, i),
        first_index(devs, p, k),
    ensures
        i == k,
{
    if i < k {
        assert(!p(devs[i]));
    } else if k < i {
        assert(!p(devs[k]));
    }
}

/// Infers the target device from intent / command text using inventory keywords.
pub fn resolve_target(intent_or_command: &str) -> (r: InventoryDevice)
    ensures
        r@ == target_of(intent_or_command@),
{
    let t = to_lower(intent_or_command);
    let inv = lab_inventory();
    let ghost p = |x: DeviceView| named_in(x, t@);
    let mut i: usize = 0;
    while i < inv.len()
        invariant
            i <= inv@.len() == 6,
            device_views(inv@) == inventory(),
            t@ == lowercase(intent_or_command@),
            p == (|x: DeviceView| named_in(x, t@)),
            forall|j: int| 0 <= j < i ==> !p(#[trigger] inventory()[j]),
        decreases inv@.len() - i,
    {
        let d = &inv[i];
        assert(d@ == inventory()[i as int]);
        let host_l = to_lower(d.hostname.as_str());
        let id_l = to_lower(d.id.as_str());
        let site_l = to_lower(d.site_class.as_str());
        let role_l = to_lower(d.role.as_str());
        if contains(t.as_str(), host_l.as_str()) || contains(t.as_str(), id_l.as_str()) || contains(
            t.as_str(),
            site_l.as_str(),
        ) || contains(t.as_str(), role_l.as_str()) {
            let r = d.duplicate();
            proof {
                assert(first_index(inventory(), p, i as int));
                let k = choose|k: int| first_index(inventory(), p, k);
                lemma_first_index_unique(inventory(), p, i as int, k);
            }
            return r;
        }
        i = i + 1;
    }
    proof {
        if exists|k: int| first_index(inventory(), p, k) {
            let k = choose|k: int| first_index(inventory(), p, k);
            assert(p(inventory()[k]));
        }
    }
    inv[0].duplicate()
}

// ---------------------------------------------------------------------------
// Vendor templates
// ---------------------------------------------------------------------------

/// Cisco CLI body for capacity / bandwidth / QoS commands.
pub open spec fn cisco_cli_body(host: Seq<char>, site: Seq<char>, cmd: Seq<char>) -> Seq<char> {
    "!\n! Cisco IOS-XE/XR — "@ + host + " ("@ + site
        + ")\nconfigure terminal\ninterface GigabitEthernet0/0/1\nbandwidth 1000000\nservice-policy output SMARTELCOM-QOS\n! intent: "@
        + cmd + "\ncommit\nend\n"@
}

/// Cisco NETCONF edit-config body, carrying the escaped command as a description.
pub open spec fn cisco_xml_body(esc: Seq<char>) -> Seq<char> {
    "!\n! Cisco IOS-XE/XR NETCONF edit-config\n<?xml version=\"1.0\"?>\n<rpc message-id=\"cisco-1\" xmlns=\"urn:ietf:params:xml:ns:netconf:base:1.0\">\n<edit-config>\n<target><candidate/></target>\n<config>\n<native xmlns=\"http://cisco.com/ns/yang/Cisco-IOS-XE-native\">\n<description>"@
        + esc + "</description>\n</native>\n</config>\n</edit-config>\n</rpc>\n"@
}

/// Whether a (trimmed, lowercased) Cisco command is about capacity.
pub open spec fn capacity_command(l: Seq<char>) -> bool {
    has_sub(l, "capacity"@) || has_sub(l, "bandwidth"@) || has_sub(l, "qos"@)
}

/// The Cisco payload of a command for a device.
pub open spec fn cisco_payload_spec(command: Seq<char>, d: DeviceView) -> PayloadView {
    let cmd = trimmed(command);
    let body = if capacity_command(lowercase(cmd)) {
        cisco_cli_body(d.hostname, d.site_class, cmd)
    } else {
        cisco_xml_body(xml_escaped(cmd))
    };
    PayloadView {
        vendor: VendorBrand::CiscoIosXe,
        device_id: d.id,
        format: if has_prefix(trim_start(body), "<?xml"@) { "xml"@ } else { "cli"@ },
        body,
        summary: "Cisco → "@ + d.hostname + " @ "@ + d.site_class,
    }
}

/// Huawei VRP NETCONF body.
pub open spec fn huawei_body(esc: Seq<char>, host: Seq<char>, site: Seq<char>) -> Seq<char> {
    "<?xml version=\"1.0\" encoding=\"UTF-8\"?>\n<rpc message-id=\"hw-1\" xmlns=\"urn:ietf:params:xml:ns:netconf:base:1.0\">\n  <edit-config>\n    <target><candidate/></target>\n    <config>\n      <ifm xmlns=\"urn:huawei:yang:huawei-ifm\">\n        <interfaces>\n          <interface>\n            <ifName>GigabitEthernet0/0/1</ifName>\n            <ifDescr>"@
        + esc
        + "</ifDescr>\n            <bandwidth>1000000</bandwidth>\n          </interface>\n        </interfaces>\n      </ifm>\n      <!-- Huawei VRP device="@
        + host + " site="@ + site + " -->\n    </config>\n  </edit-config>\n</rpc>\n"@
}

/// The Huawei payload of a command for a device.
pub open spec fn huawei_payload_spec(command: Seq<char>, d: DeviceView) -> PayloadView {
    PayloadView {
        vendor: VendorBrand::HuaweiVrp,
        device_id: d.id,
        format: "xml"@,
        body: huawei_body(xml_escaped(command), d.hostname, d.site_class),
        summary: "Huawei VRP → "@ + d.hostname + " @ "@ + d.site_class,
    }
}

/// Nokia gNMI SetRequest body.
pub open spec fn nokia_gnmi_body(host: Seq<char>, esc: Seq<char>, site: Seq<char>) -> Seq<char> {
    "{\n  \"prefix\": { \"target\": \""@ + host
        + "\", \"origin\": \"openconfig\" },\n  \"update\": [{\n    \"path\": { \"elem\": [{ \"name\": \"interfaces\" }, { \"name\": \"interface\", \"key\": { \"name\": \"1/1/1\" } }] },\n    \"val\": {\n      \"json_ietf_val\": \"{ \\\"config\\\": { \\\"description\\\": \\\""@
        + esc + "\\\", \\\"enabled\\\": true } }\"\n    }\n  }],\n  \"nokia-sros-extension\": { \"site\": \""@
        + site + "\", \"commit\": \"confirmed\" }\n}"@
}

/// Nokia JSON-RPC body.
pub open spec fn nokia_jsonrpc_body(esc: Seq<char>) -> Seq<char> {
    "{\n  \"jsonrpc\": \"2.0\",\n  \"id\": 1,\n  \"method\": \"set\",\n  \"params\": {\n    \"path\": \"/nokia-conf:configure/port[port-id=1/1/1]\",\n    \"value\": {\n      \"description\": \""@
        + esc + "\",\n      \"admin-state\": \"enable\"\n    },\n    \"datastore\": \"candidate\"\n  }\n}"@
}

/// The Nokia payload of a command for a device.
pub open spec fn nokia_payload_spec(command: Seq<char>, d: DeviceView) -> PayloadView {
    let gnmi = d.protocol_hint == "gnmi"@;
    PayloadView {
        vendor: VendorBrand::NokiaSros,
        device_id: d.id,
        format: if gnmi { "gnmi"@ } else { "json-rpc"@ },
        body: if gnmi {
            nokia_gnmi_body(d.hostname, json_escaped(command), d.site_class)
        } else {
            nokia_jsonrpc_body(json_escaped(command))
        },
        summary: "Nokia SROS → "@ + d.hostname + " @ "@ + d.site_class,
    }
}

/// The vendor-native payload of a command for a device.
pub open spec fn payload_for(command: Seq<char>, d: DeviceView) -> PayloadView {
    match d.vendor {
        VendorBrand::CiscoIosXe => cisco_payload_spec(command, d),
        VendorBrand::HuaweiVrp => huawei_payload_spec(command, d),
        VendorBrand::NokiaSros => nokia_payload_spec(command, d),
    }
}

fn summary_line(prefix: &str, device: &InventoryDevice) -> (r: String)
    ensures
        r@ == prefix@ + device.hostname@ + " @ "@ + device.site_class@,
{
    let mut s = prefix.to_string();
    s.append(device.hostname.as_str());
    s.append(" @ ");
    s.append(device.site_class.as_str());
    s
}

fn cisco_payload(command: &str, device: &InventoryDevice) -> (p: VendorPayload)
    ensures
        p@ == cisco_payload_spec(command@, device@),
{
    let cmd = trim(command);
    let l = to_lower(cmd.as_str());
    let body = if contains(l.as_str(), "capacity") || contains(l.as_str(), "bandwidth") || contains(
        l.as_str(),
        "qos",
    ) {
        let mut b = "!\n! Cisco IOS-XE/XR — ".to_string();
        b.append(device.hostname.as_str());
        b.append(" (");
        b.append(device.site_class.as_str());
        b.append(
            ")\nconfigure terminal\ninterface GigabitEthernet0/0/1\nbandwidth 1000000\nservice-policy output SMARTELCOM-QOS\n! intent: ",
        );
        b.append(cmd.as_str());
        b.append("\ncommit\nend\n");
        b
    } else {
        let esc = xml_escape(cmd.as_str());
        let mut b = "!\n! Cisco IOS-XE/XR NETCONF edit-config\n<?xml version=\"1.0\"?>\n<rpc message-id=\"cisco-1\" xmlns=\"urn:ietf:params:xml:ns:netconf:base:1.0\">\n<edit-config>\n<target><candidate/></target>\n<config>\n<native xmlns=\"http://cisco.com/ns/yang/Cisco-IOS-XE-native\">\n<description>".to_string();
        b.append(esc.as_str());
        b.append("</description>\n</native>\n</config>\n</edit-config>\n</rpc>\n");
        b
    };
    let lead = trim_start_string(body.as_str());
    let format = if starts_with(lead.as_str(), "<?xml") {
        "xml".to_string()
    } else {
        "cli".to_string()
    };
    VendorPayload {
        vendor: VendorBrand::CiscoIosXe,
        device_id: device.id.clone(),
        format,
        body,
        summary: summary_line("Cisco → ", device),
    }
}

fn huawei_payload(command: &str, device: &InventoryDevice) -> (p: VendorPayload)
    ensures
        p@ == huawei_payload_spec(command@, device@),
{
    let esc = xml_escape(command);
    let mut body = "<?xml version=\"1.0\" encoding=\"UTF-8\"?>\n<rpc message-id=\"hw-1\" xmlns=\"urn:ietf:params:xml:ns:netconf:base:1.0\">\n  <edit-config>\n    <target><candidate/></target>\n    <config>\n      <ifm xmlns=\"urn:huawei:yang:huawei-ifm\">\n        <interfaces>\n          <interface>\n            <ifName>GigabitEthernet0/0/1</ifName>\n            <ifDescr>".to_string();
    body.append(esc.as_str());
    body.append(
        "</ifDescr>\n            <bandwidth>1000000</bandwidth>\n          </interface>\n        </interfaces>\n      </ifm>\n      <!-- Huawei VRP device=",
    );
    body.append(device.hostname.as_str());
    body.append(" site=");
    body.append(device.site_class.as_str());
    body.append(" -->\n    </config>\n  </edit-config>\n</rpc>\n");
    VendorPayload {
        vendor: VendorBrand::HuaweiVrp,
        device_id: device.id.clone(),
        format: "xml".to_string(),
        body,
        summary: summary_line("Huawei VRP → ", device),
    }
}

fn nokia_payload(command: &str, device: &InventoryDevice) -> (p: VendorPayload)
    ensures
        p@ == nokia_payload_spec(command@, device@),
{
    let esc = json_escape(command);
    let gnmi = same_text(device.protocol_hint.as_str(), "gnmi");
    let body = if gnmi {
        let mut b = "{\n  \"prefix\": { \"target\": \"".to_string();
        b.append(device.hostname.as_str());
        b.append(
            "\", \"origin\": \"openconfig\" },\n  \"update\": [{\n    \"path\": { \"elem\": [{ \"name\": \"interfaces\" }, { \"name\": \"interface\", \"key\": { \"name\": \"1/1/1\" } }] },\n    \"val\": {\n      \"json_ietf_val\": \"{ \\\"config\\\": { \\\"description\\\": \\\"",
        );
        b.append(esc.as_str());
        b.append("\\\", \\\"enabled\\\": true } }\"\n    }\n  }],\n  \"nokia-sros-extension\": { \"site\": \"");
        b.append(device.site_class.as_str());
        b.append("\", \"commit\": \"confirmed\" }\n}");
        b
    } else {
        let mut b = "{\n  \"jsonrpc\": \"2.0\",\n  \"id\": 1,\n  \"method\": \"set\",\n  \"params\": {\n    \"path\": \"/nokia-conf:configure/port[port-id=1/1/1]\",\n    \"value\": {\n      \"description\": \"".to_string();
        b.append(esc.as_str());
        b.append("\",\n      \"admin-state\": \"enable\"\n    },\n    \"datastore\": \"candidate\"\n  }\n}");
        b
    };
    VendorPayload {
        vendor: VendorBrand::NokiaSros,
        device_id: device.id.clone(),
        format: if gnmi {
            "gnmi".to_string()
        } else {
            "json-rpc".to_string()
        },
        body,
        summary: summary_line("Nokia SROS → ", device),
    }
}

/// Translates a high-level operational command into the device vendor's native payload.
pub fn translate_for_vendor(command: &str, device: &InventoryDevice) -> (p: VendorPayload)
    ensures
        p@ == payload_for(command@, device@),
{
    match device.vendor {
        VendorBrand::CiscoIosXe => cisco_payload(command, device),
        VendorBrand::HuaweiVrp => huawei_payload(command, device),
        VendorBrand::NokiaSros => nokia_payload(command, device),
    }
}

/// Whether some payload of `acc` is for vendor `v`.
pub open spec fn has_vendor(acc: Seq<PayloadView>, v: VendorBrand) -> bool {
    exists|k: int| 0 <= k < acc.len() && #[trigger] acc[k].vendor == v
}

/// One payload per vendor for the first `n` devices of `devs`: each device whose vendor
/// is not yet represented contributes its payload, in inventory order.
pub open spec fn one_per_vendor(command: Seq<char>, devs: Seq<DeviceView>, n: int) -> Seq<PayloadView>
    decreases n,
{
    if n <= 0 {
        seq![]
    } else {
        let acc = one_per_vendor(command, devs, n - 1);
        if has_vendor(acc, devs[n - 1].vendor) {
            acc
        } else {
            acc.push(payload_for(command, devs[n - 1]))
        }
    }
}

/// Translates for all vendors (one representative device per vendor).
pub fn translate_all_vendors(command: &str) -> (r: Vec<VendorPayload>)
    ensures
        payload_views(r@) == one_per_vendor(command@, inventory(), 6),
{
    let inv = lab_inventory();
    let mut acc: Vec<VendorPayload> = Vec::new();
    let mut i: usize = 0;
    while i < inv.len()
        invariant
            i <= inv@.len() == 6,
            device_views(inv@) == inventory(),
            payload_views(acc@) == one_per_vendor(command@, inventory(), i as int),
        decreases inv@.len() - i,
    {
        let d = &inv[i];
        assert(d@ == inventory()[i as int]);
        let mut seen = false;
        let mut k: usize = 0;
        while k < acc.len()
            invariant
                k <= acc@.len(),
                seen == exists|m: int| 0 <= m < k && #[trigger] acc@[m].vendor == d.vendor,
            decreases acc@.len() - k,
        {
            if acc[k].vendor == d.vendor {
                seen = true;
            }
            k = k + 1;
        }
        proof {
            let pv = payload_views(acc@);
            if seen {
                let m = choose|m: int| 0 <= m < acc@.len() && #[trigger] acc@[m].vendor == d.vendor;
                assert(pv[m].vendor == d.vendor);
            } else {
                assert forall|m: int| 0 <= m < pv.len() implies #[trigger] pv[m].vendor != d.vendor by {
                    assert(acc@[m].vendor != d.vendor);
                }
            }
        }
        if !seen {
            let p = translate_for_vendor(command, d);
            let ghost before = acc@;
            acc.push(p);
            proof {
                assert(payload_views(acc@) =~= payload_views(before).push(p@));
            }
        }
        i = i + 1;
    }
    acc
}


proof fn lemma_first_index_exists(devs: Seq<DeviceView>, p: spec_fn(DeviceView) -> bool, i: int)
    requires
        0 <= i < devs.len(),
        p(devs[i]),
    ensures
        exists|k: int| first_index(devs, p, k),
    decreases i,
{
    if exists|j: int| 0 <= j < i && p(#[trigger] devs[j]) {
        let j = choose|j: int| 0 <= j < i && p(#[trigger] devs[j]);
        lemma_first_index_exists(devs, p, j);
    } else {
        assert(first_index(devs, p, i));
    }
}

/// Target resolution: the text (lowercased) names a device when it contains the device's
/// hostname, id, site class or role (each lowercased). The target is the first inventory
/// device the text names; when it names none, the Core PE (core-pe-01, pe-router-01).
pub proof fn law_target_resolution(text: Seq<char>)
    ensures
        ({
            let t = lowercase(text);
            let names = |d: DeviceView|
                has_sub(t, lowercase(d.hostname)) || has_sub(t, lowercase(d.id))
                    || has_sub(t, lowercase(d.site_class)) || has_sub(t, lowercase(d.role));
            &&& inventory().contains(target_of(text))
            &&& (exists|i: int| 0 <= i < inventory().len() && names(#[trigger] inventory()[i])) ==> exists|i: int|
                0 <= i < inventory().len() && target_of(text) == inventory()[i] && names(inventory()[i])
                    && forall|j: int| 0 <= j < i ==> !names(#[trigger] inventory()[j])
            &&& !(exists|i: int| 0 <= i < inventory().len() && names(#[trigger] inventory()[i])) ==> {
                &&& target_of(text).id == "core-pe-01"@
                &&& target_of(text).hostname == "pe-router-01"@
            }
        }),
{
    let t = lowercase(text);
    let p = |x: DeviceView| named_in(x, t);
    let inv = inventory();
    let names = |d: DeviceView|
        has_sub(t, lowercase(d.hostname)) || has_sub(t, lowercase(d.id))
            || has_sub(t, lowercase(d.site_class)) || has_sub(t, lowercase(d.role));
    assert forall|d: DeviceView| #[trigger] names(d) == p(d) by {}
    if exists|i: int| 0 <= i < inv.len() && names(#[trigger] inv[i]) {
        let w = choose|i: int| 0 <= i < inv.len() && names(#[trigger] inv[i]);
        lemma_first_index_exists(inv, p, w);
        let k = choose|i: int| first_index(inv, p, i);
        assert(target_of(text) == inv[k]);
        assert forall|j: int| 0 <= j < k implies !names(#[trigger] inv[j]) by {
            assert(!p(inv[j]));
        }
        assert(inv.contains(inv[k]));
    } else {
        assert(!exists|i: int| first_index(inv, p, i));
        assert(inv.contains(inv[0]));
    }
}

/// A vendor payload is for the device's vendor and carries the device's id. Huawei devices get
/// NETCONF XML; Nokia devices gNMI when their protocol hint is "gnmi", JSON-RPC otherwise;
/// Cisco payloads, both the capacity CLI and the edit-config text, begin with a `!` comment
/// line and so are reported as "cli".
pub proof fn law_vendor_payload(command: Seq<char>, d: DeviceView)
    ensures
        payload_for(command, d).vendor == d.vendor,
        payload_for(command, d).device_id == d.id,
        d.vendor == VendorBrand::HuaweiVrp ==> payload_for(command, d).format == "xml"@,
        d.vendor == VendorBrand::NokiaSros ==> payload_for(command, d).format
            == (if d.protocol_hint == "gnmi"@ { "gnmi"@ } else { "json-rpc"@ }),
        d.vendor == VendorBrand::CiscoIosXe ==> payload_for(command, d).format == "cli"@,
{
    if d.vendor == VendorBrand::CiscoIosXe {
        let cmd = trimmed(command);
        reveal_strlit("!\n! Cisco IOS-XE/XR — ");
        reveal_strlit("!\n! Cisco IOS-XE/XR NETCONF edit-config\n<?xml version=\"1.0\"?>\n<rpc message-id=\"cisco-1\" xmlns=\"urn:ietf:params:xml:ns:netconf:base:1.0\">\n<edit-config>\n<target><candidate/></target>\n<config>\n<native xmlns=\"http://cisco.com/ns/yang/Cisco-IOS-XE-native\">\n<description>");
        reveal_strlit("<?xml");
        let body = payload_for(command, d).body;
        assert(body[0] == '!');
        assert(trim_start(body) == body);
        assert(!has_prefix(body, "<?xml"@)) by {
            if has_prefix(body, "<?xml"@) {
                assert(body.subrange(0, 5)[0] == '<');
            }
        }
    }
}


/// Device lookup: a device answers to a lowercased query that is, or is part of, its
/// lowercased id or hostname, and to nothing else.
pub proof fn law_device_lookup(d: DeviceView, q: Seq<char>)
    ensures
        answers_query(d, q) <==> (has_sub(lowercase(d.id), q) || has_sub(lowercase(d.hostname), q)),
        answers_query(d, lowercase(d.id)),
        answers_query(d, lowercase(d.hostname)),
{
    let i = lowercase(d.id);
    let h = lowercase(d.hostname);
    assert(i.subrange(0, 0 + i.len() as int) =~= i);
    assert(h.subrange(0, 0 + h.len() as int) =~= h);
}

}
