//! Northbound OSS/BSS ingress (TM Forum TMF641 service order / TMF637 inventory):
//! an external service order is matched against the lab inventory and turned into an
//! intent enriched with device context for the multi-agent pipeline.

use vstd::prelude::*;
use vstd::string::*;
use crate::text::{has_sub, lowercase, trimmed};
use crate::text::{to_lower, contains, same_text, trim};
use crate::adapters::{InventoryDevice, DeviceView, VendorBrand, inventory, device_views, lab_inventory};
use crate::ranking::{rank_desc, positions, scores_match, insert_ranked_exec, lead_at_least};
use crate::rag::{join_with, take_at_most};

verus! {

/// TMF641-style service order (simplified).
#[derive(Debug, Clone)]
pub struct ServiceOrder {
    pub id: String,
    pub service_type: String,
    pub priority: String,
    pub intent: String,
    pub related_party: Option<String>,
    pub geographic_site: Option<String>,
}

/// The view of an optional string.
pub open spec fn opt_view(o: Option<String>) -> Option<Seq<char>> {
    match o {
        Some(s) => Some(s@),
        None => None,
    }
}

/// Mathematical model of a [`ServiceOrder`].
pub struct OrderView {
    pub id: Seq<char>,
    pub service_type: Seq<char>,
    pub priority: Seq<char>,
    pub intent: Seq<char>,
    pub related_party: Option<Seq<char>>,
    pub geographic_site: Option<Seq<char>>,
}

impl View for ServiceOrder {
    type V = OrderView;

    open spec fn view(&self) -> OrderView {
        OrderView {
            id: self.id@,
            service_type: self.service_type@,
            priority: self.priority@,
            intent: self.intent@,
            related_party: opt_view(self.related_party),
            geographic_site: opt_view(self.geographic_site),
        }
    }
}

/// TMF637 inventory hydration of an order.
#[derive(Debug)]
pub struct InventoryHydration {
    pub order_id: String,
    pub matched_devices: Vec<InventoryDevice>,
    pub context_block: String,
    pub primary_target: Option<InventoryDevice>,
}

/// The ingress result: the order, its hydration and the enriched intent.
#[derive(Debug)]
pub struct ExternalIntentResult {
    pub order: ServiceOrder,
    pub hydration: InventoryHydration,
    /// Intent enriched with inventory context for the multi-agent pipeline.
    pub enriched_intent: String,
}

/// Demo order (Dubai Mall / 5G slicing).
pub fn demo_service_order() -> (r: ServiceOrder)
    ensures
        r@ == (OrderView {
            id: "ORDER-123"@,
            service_type: "5G_Slicing"@,
            priority: "High"@,
            intent: "Ensure low latency for Dubai Mall"@,
            related_party: Some("ServiceNow / Amdocs OSS"@),
            geographic_site: Some("Downtown"@),
        }),
{
    ServiceOrder {
        id: "ORDER-123".to_string(),
        service_type: "5G_Slicing".to_string(),
        priority: "High".to_string(),
        intent: "Ensure low latency for Dubai Mall".to_string(),
        related_party: Some("ServiceNow / Amdocs OSS".to_string()),
        geographic_site: Some("Downtown".to_string()),
    }
}

/// The lowercased site hint of an order (empty when absent).
pub open spec fn site_hint(o: OrderView) -> Seq<char> {
    match o.geographic_site {
        Some(s) => lowercase(s),
        None => Seq::<char>::empty(),
    }
}

/// Relevance of a device to an order.
pub open spec fn device_score(d: DeviceView, o: OrderView) -> int {
    let hint = site_hint(o);
    let intent_l = lowercase(o.intent);
    let stype = lowercase(o.service_type);
    let site = lowercase(d.site_class);
    (if hint.len() > 0 && has_sub(site, hint) { 40int } else { 0int })
    + (if (has_sub(intent_l, "dubai"@) || has_sub(intent_l, "mall"@) || has_sub(intent_l, "downtown"@))
        && has_sub(site, "downtown"@) { 35int } else { 0int })
    + (if (has_sub(intent_l, "latency"@) || has_sub(intent_l, "sla"@))
        && (d.role == "PE"@ || d.role == "AGG"@ || d.role == "UPF"@) { 20int } else { 0int })
    + (if (has_sub(stype, "5g"@) || has_sub(stype, "slic"@))
        && (d.role == "UPF"@ || d.role == "AMF"@ || d.role == "RAN"@ || has_sub(site, "ran"@)) { 25int } else { 0int })
    + (if has_sub(intent_l, "core"@) && has_sub(site, "core"@) { 30int } else { 0int })
    + (if has_sub(intent_l, lowercase(d.hostname)) { 50int } else { 0int })
}

/// Score of inventory device `i` for an order.
pub open spec fn order_key(o: OrderView) -> spec_fn(int) -> int {
    |i: int| device_score(inventory()[i], o)
}

/// Inventory positions among the first `n` with a positive score, in order.
pub open spec fn relevant_positions(o: OrderView, n: int) -> Seq<int>
    decreases n,
{
    if n <= 0 {
        seq![]
    } else if device_score(inventory()[n - 1], o) > 0 {
        relevant_positions(o, n - 1).push(n - 1)
    } else {
        relevant_positions(o, n - 1)
    }
}

/// The devices matched to an order: up to four relevant devices, most relevant first
/// (ties in inventory order), or the first three inventory devices when none is relevant.
pub open spec fn matched_for(o: OrderView) -> Seq<DeviceView> {
    let ranked = rank_desc(relevant_positions(o, 6), order_key(o));
    if ranked.len() == 0 {
        inventory().take(3)
    } else {
        take_at_most(ranked, 4).map_values(|i: int| inventory()[i])
    }
}

/// `Debug` rendering of a vendor.
pub open spec fn vendor_name(v: VendorBrand) -> Seq<char> {
    match v {
        VendorBrand::CiscoIosXe => "CiscoIosXe"@,
        VendorBrand::HuaweiVrp => "HuaweiVrp"@,
        VendorBrand::NokiaSros => "NokiaSros"@,
    }
}

/// The inventory line of a matched device.
pub open spec fn device_line(d: DeviceView) -> Seq<char> {
    "- "@ + d.hostname + " | vendor="@ + vendor_name(d.vendor) + " | role="@ + d.role + " | site="@
        + d.site_class + " | mgmt="@ + d.mgmt_ip + " | proto="@ + d.protocol_hint
}

/// The TMF637 context block of an order and its matched devices.
pub open spec fn context_block_of(o: OrderView, devs: Seq<DeviceView>) -> Seq<char> {
    "[TMF637 Resource Inventory]\nOrder "@ + o.id + " · "@ + o.service_type + " · priority="@ + o.priority
        + "\nMatched NEs:\n"@ + join_with(devs.map_values(|d: DeviceView| device_line(d)), "\n"@)
}

/// `Debug` rendering of a vendor.
pub fn vendor_name_string(v: VendorBrand) -> (r: String)
    ensures
        r@ == vendor_name(v),
{
    match v {
        VendorBrand::CiscoIosXe => "CiscoIosXe".to_string(),
        VendorBrand::HuaweiVrp => "HuaweiVrp".to_string(),
        VendorBrand::NokiaSros => "NokiaSros".to_string(),
    }
}

fn score_device(
    d: &InventoryDevice,
    hint: &String,
    intent_l: &String,
    stype: &String,
    Ghost(o): Ghost<OrderView>,
) -> (r: u64)
    requires
        hint@ == site_hint(o),
        intent_l@ == lowercase(o.intent),
        stype@ == lowercase(o.service_type),
    ensures
        r as int == device_score(d@, o),
{
    let site = to_lower(d.site_class.as_str());
    let mut score: u64 = 0;
    if !hint.as_str().is_empty() && contains(site.as_str(), hint.as_str()) {
        score = score + 40;
    }
    if (contains(intent_l.as_str(), "dubai") || contains(intent_l.as_str(), "mall") || contains(
        intent_l.as_str(),
        "downtown",
    )) && contains(site.as_str(), "downtown") {
        score = score + 35;
    }
    let role = d.role.as_str();
    if (contains(intent_l.as_str(), "latency") || contains(intent_l.as_str(), "sla")) && (same_text(
        role,
        "PE",
    ) || same_text(role, "AGG") || same_text(role, "UPF")) {
        score = score + 20;
    }
    if (contains(stype.as_str(), "5g") || contains(stype.as_str(), "slic")) && (same_text(role, "UPF")
        || same_text(role, "AMF") || same_text(role, "RAN") || contains(site.as_str(), "ran")) {
        score = score + 25;
    }
    if contains(intent_l.as_str(), "core") && contains(site.as_str(), "core") {
        score = score + 30;
    }
    let host = to_lower(d.hostname.as_str());
    if contains(intent_l.as_str(), host.as_str()) {
        score = score + 50;
    }
    score
}

fn device_line_string(d: &InventoryDevice) -> (r: String)
    ensures
        r@ == device_line(d@),
{
    let mut s = "- ".to_string();
    s.append(d.hostname.as_str());
    s.append(" | vendor=");
    s.append(vendor_name_string(d.vendor).as_str());
    s.append(" | role=");
    s.append(d.role.as_str());
    s.append(" | site=");
    s.append(d.site_class.as_str());
    s.append(" | mgmt=");
    s.append(d.mgmt_ip.as_str());
    s.append(" | proto=");
    s.append(d.protocol_hint.as_str());
    s
}

/// Hydrates an order with the inventory devices relevant to it and a context block.
pub fn hydrate_inventory(order: &ServiceOrder) -> (r: InventoryHydration)
    ensures
        r.order_id@ == order.id@,
        device_views(r.matched_devices@) == matched_for(order@),
        r.context_block@ == context_block_of(order@, matched_for(order@)),
        r.matched_devices@.len() > 0,
        r.primary_target matches Some(p) && p@ == matched_for(order@)[0],
{
    let inv = lab_inventory();
    let ghost o = order@;
    let ghost key = order_key(o);
    let hint = match &order.geographic_site {
        Some(s) => to_lower(s.as_str()),
        None => to_lower(""),
    };
    proof {
        reveal_strlit("");
        assert(""@ =~= Seq::<char>::empty());
        if order.geographic_site.is_none() {
            assert(hint@ =~= Seq::<char>::empty());
        }
    }
    let intent_l = to_lower(order.intent.as_str());
    let stype = to_lower(order.service_type.as_str());
    let mut ranked: Vec<(u64, usize)> = Vec::new();
    let mut i: usize = 0;
    while i < inv.len()
        invariant
            i <= inv@.len() == 6,
            device_views(inv@) == inventory(),
            o == order@,
            key == order_key(o),
            hint@ == site_hint(o),
            intent_l@ == lowercase(o.intent),
            stype@ == lowercase(o.service_type),
            scores_match(ranked@, key),
            positions(ranked@) == rank_desc(relevant_positions(o, i as int), key),
        decreases inv@.len() - i,
    {
        proof {
            assert(inv@[i as int]@ == inventory()[i as int]);
        }
        let score = score_device(&inv[i], &hint, &intent_l, &stype, Ghost(o));
        if score > 0 {
            let ghost before = relevant_positions(o, i as int);
            insert_ranked_exec(&mut ranked, score, i, Ghost(key));
            proof {
                assert(before.push(i as int).drop_last() =~= before);
            }
        }
        i = i + 1;
    }
    let ghost order_seq = positions(ranked@);
    proof {
        let rp = relevant_positions(o, 6);
        lemma_relevant_in_range(o, 6);
        crate::ranking::lemma_rank_desc_members(rp, key);
        assert forall|m: int| 0 <= m < ranked@.len() implies (#[trigger] ranked@[m]).1 < 6 by {
            assert(order_seq[m] == ranked@[m].1 as int);
            let k = choose|k: int| 0 <= k < rp.len() && rp[k] == order_seq[m];
            assert(rp[k] < 6);
        }
    }
    let mut matched: Vec<InventoryDevice> = Vec::new();
    if ranked.len() == 0 {
        let mut k: usize = 0;
        while k < 3
            invariant
                k <= 3,
                device_views(inv@) == inventory(),
                inv@.len() == 6,
                device_views(matched@) == inventory().take(k as int),
            decreases 3 - k,
        {
            let ghost before = device_views(matched@);
            matched.push(inv[k].duplicate());
            proof {
                assert(inv@[k as int]@ == inventory()[k as int]);
                assert(device_views(matched@) =~= before.push(inventory()[k as int]));
                assert(inventory().take(k + 1) =~= inventory().take(k as int).push(inventory()[k as int]));
            }
            k = k + 1;
        }
    } else {
        let limit = if ranked.len() < 4 { ranked.len() } else { 4 };
        let mut k: usize = 0;
        while k < limit
            invariant
                k <= limit <= ranked@.len(),
                limit == if ranked@.len() < 4 { ranked@.len() as int } else { 4 },
                device_views(inv@) == inventory(),
                inv@.len() == 6,
                order_seq == positions(ranked@),
                forall|m: int| 0 <= m < ranked@.len() ==> (#[trigger] ranked@[m]).1 < 6,
                device_views(matched@) == order_seq.take(k as int).map_values(|m: int| inventory()[m]),
            decreases limit - k,
        {
            let pos = ranked[k].1;
            proof {
                assert(order_seq[k as int] == pos as int);
                assert(inv@[pos as int]@ == inventory()[pos as int]);
            }
            let ghost before = device_views(matched@);
            matched.push(inv[pos].duplicate());
            proof {
                assert(device_views(matched@) =~= before.push(inventory()[pos as int]));
                assert(order_seq.take(k + 1).map_values(|m: int| inventory()[m]) =~= order_seq.take(
                    k as int,
                ).map_values(|m: int| inventory()[m]).push(inventory()[pos as int]));
            }
            k = k + 1;
        }
        proof {
            if ranked@.len() < 4 {
                assert(order_seq.take(order_seq.len() as int) =~= order_seq);
            }
        }
    }
    let ghost devs = device_views(matched@);
    assert(devs == matched_for(o));
    let primary = Some(matched[0].duplicate());
    let mut block = "[TMF637 Resource Inventory]\nOrder ".to_string();
    block.append(order.id.as_str());
    block.append(" · ");
    block.append(order.service_type.as_str());
    block.append(" · priority=");
    block.append(order.priority.as_str());
    block.append("\nMatched NEs:\n");
    let ghost lines = devs.map_values(|d: DeviceView| device_line(d));
    let ghost head = block@;
    let mut j: usize = 0;
    while j < matched.len()
        invariant
            j <= matched@.len(),
            matched@.len() > 0,
            devs == device_views(matched@),
            lines == devs.map_values(|d: DeviceView| device_line(d)),
            block@ == head + join_with(lines.take(j as int), "\n"@),
        decreases matched@.len() - j,
    {
        if j > 0 {
            block.append("\n");
        }
        block.append(device_line_string(&matched[j]).as_str());
        proof {
            let t = lines.take(j + 1);
            assert(t.drop_last() =~= lines.take(j as int));
            assert(t.last() == device_line(matched@[j as int]@));
            if j == 0 {
                assert(lines.take(0) =~= Seq::<Seq<char>>::empty());
                assert(block@ =~= head + join_with(t, "\n"@));
            } else {
                assert(block@ =~= head + join_with(t, "\n"@));
            }
        }
        j = j + 1;
    }
    proof {
        assert(lines.take(matched@.len() as int) =~= lines);
    }
    InventoryHydration {
        order_id: order.id.clone(),
        matched_devices: matched,
        context_block: block,
        primary_target: primary,
    }
}

/// The enriched intent of an order given its primary target and context block.
pub open spec fn enriched_spec(o: OrderView, primary: Option<DeviceView>, block: Seq<char>) -> Seq<char> {
    let target = match primary {
        Some(d) => "Primary target: "@ + d.hostname + " ("@ + d.role + ") @ "@ + d.mgmt_ip + " ["@ + d.site_class
            + "]"@,
        None => "Primary target: lab inventory default"@,
    };
    let source = match o.related_party {
        Some(p) => p,
        None => "external-oss"@,
    };
    trimmed(o.intent) + "\n\n[TMF641 Service Order "@ + o.id + "]\nserviceType="@ + o.service_type
        + " priority="@ + o.priority + "\nsource="@ + source + "\n"@ + target + "\n\n"@ + block
}

/// The primary target of a hydration, as a view.
pub open spec fn primary_view(h: &InventoryHydration) -> Option<DeviceView> {
    match h.primary_target {
        Some(d) => Some(d@),
        None => None,
    }
}

/// Builds the pipeline-ready intent from a TMF641 order and its TMF637 hydration.
pub fn enrich_intent(order: &ServiceOrder, hydration: &InventoryHydration) -> (r: String)
    ensures
        r@ == enriched_spec(order@, primary_view(hydration), hydration.context_block@),
{
    let target = match &hydration.primary_target {
        Some(d) => {
            let mut t = "Primary target: ".to_string();
            t.append(d.hostname.as_str());
            t.append(" (");
            t.append(d.role.as_str());
            t.append(") @ ");
            t.append(d.mgmt_ip.as_str());
            t.append(" [");
            t.append(d.site_class.as_str());
            t.append("]");
            t
        },
        None => "Primary target: lab inventory default".to_string(),
    };
    let mut s = trim(order.intent.as_str());
    s.append("\n\n[TMF641 Service Order ");
    s.append(order.id.as_str());
    s.append("]\nserviceType=");
    s.append(order.service_type.as_str());
    s.append(" priority=");
    s.append(order.priority.as_str());
    s.append("\nsource=");
    match &order.related_party {
        Some(p) => s.append(p.as_str()),
        None => s.append("external-oss"),
    }
    s.append("\n");
    s.append(target.as_str());
    s.append("\n\n");
    s.append(hydration.context_block.as_str());
    s
}

/// Full northbound ingress: hydrate the order's inventory, then enrich its intent.
pub fn receive_external_intent(order: ServiceOrder) -> (r: ExternalIntentResult)
    ensures
        r.order@ == order@,
        r.hydration.order_id@ == order.id@,
        device_views(r.hydration.matched_devices@) == matched_for(order@),
        r.hydration.context_block@ == context_block_of(order@, matched_for(order@)),
        r.hydration.primary_target matches Some(p) && p@ == matched_for(order@)[0],
        r.enriched_intent@ == enriched_spec(
            order@,
            Some(matched_for(order@)[0]),
            context_block_of(order@, matched_for(order@)),
        ),
{
    let hydration = hydrate_inventory(&order);
    let enriched_intent = enrich_intent(&order, &hydration);
    ExternalIntentResult { order, hydration, enriched_intent }
}


proof fn lemma_relevant_in_range(o: OrderView, n: int)
    ensures
        forall|m: int| 0 <= m < relevant_positions(o, n).len() ==> 0 <= #[trigger] relevant_positions(o, n)[m] < n,
    decreases n,
{
    if n > 0 {
        lemma_relevant_in_range(o, n - 1);
        let prev = relevant_positions(o, n - 1);
        if device_score(inventory()[n - 1], o) > 0 {
            assert forall|m: int| 0 <= m < prev.len() + 1 implies #[trigger] prev.push(n - 1)[m] == (if m
                < prev.len() { prev[m] } else { n - 1 }) by {}
        }
    }
}


/// How a device earns relevance for an order, rule by rule: 40 when its site lies at the
/// order's named site; 35 at a Downtown site for a Dubai / mall / downtown intent; 20 for a
/// PE, AGG or UPF role when the intent speaks of latency or an SLA; 25 for a UPF, AMF or RAN
/// role (or a RAN site) in a 5G / slicing service; 30 at a Core site for a core intent; 50
/// when the intent names its hostname. The rules add up, and a device that meets none
/// scores zero.
pub proof fn law_device_relevance(d: DeviceView, o: OrderView)
    ensures
        ({
            let site = lowercase(d.site_class);
            let intent = lowercase(o.intent);
            let stype = lowercase(o.service_type);
            let named = match o.geographic_site {
                Some(g) => lowercase(g).len() > 0 && has_sub(site, lowercase(g)),
                None => false,
            };
            let downtown = (has_sub(intent, "dubai"@) || has_sub(intent, "mall"@) || has_sub(intent, "downtown"@))
                && has_sub(site, "downtown"@);
            let latency = (has_sub(intent, "latency"@) || has_sub(intent, "sla"@))
                && (d.role == "PE"@ || d.role == "AGG"@ || d.role == "UPF"@);
            let slicing = (has_sub(stype, "5g"@) || has_sub(stype, "slic"@))
                && (d.role == "UPF"@ || d.role == "AMF"@ || d.role == "RAN"@ || has_sub(site, "ran"@));
            let core = has_sub(intent, "core"@) && has_sub(site, "core"@);
            let host = has_sub(intent, lowercase(d.hostname));
            &&& named ==> device_score(d, o) >= 40
            &&& downtown ==> device_score(d, o) >= 35
            &&& latency ==> device_score(d, o) >= 20
            &&& slicing ==> device_score(d, o) >= 25
            &&& core ==> device_score(d, o) >= 30
            &&& host ==> device_score(d, o) >= 50
            &&& named && host ==> device_score(d, o) >= 90
            &&& device_score(d, o) >= 0
            &&& !named && !downtown && !latency && !slicing && !core && !host ==> device_score(d, o) == 0
        }),
{
    reveal_strlit("");
}

proof fn lemma_single_relevant(o: OrderView, i: int, n: int)
    requires
        0 <= i < inventory().len(),
        n <= inventory().len(),
        device_score(inventory()[i], o) > 0,
        forall|j: int| 0 <= j < inventory().len() && j != i ==> device_score(#[trigger] inventory()[j], o) == 0,
    ensures
        relevant_positions(o, n) == (if n > i { seq![i] } else { Seq::<int>::empty() }),
    decreases n,
{
    if n > 0 {
        lemma_single_relevant(o, i, n - 1);
        if n - 1 == i {
            assert(Seq::<int>::empty().push(i) == seq![i]);
        } else {
            assert(device_score(inventory()[n - 1], o) == 0);
        }
    }
}

/// The device at the order's named site is the primary target: when exactly one inventory
/// device lies at the (non-empty) site the order names, and neither the intent (no Dubai,
/// mall, downtown, latency, SLA or core wording, no inventory hostname) nor the service type
/// (no 5G or slicing) brings in another, that device is the only match.
pub proof fn law_named_site_device_is_primary(o: OrderView, g: Seq<char>, i: int)
    requires
        o.geographic_site == Some(g),
        lowercase(g).len() > 0,
        0 <= i < inventory().len(),
        has_sub(lowercase(inventory()[i].site_class), lowercase(g)),
        forall|j: int|
            0 <= j < inventory().len() && j != i ==> !has_sub(
                lowercase(#[trigger] inventory()[j].site_class),
                lowercase(g),
            ),
        !has_sub(lowercase(o.intent), "dubai"@),
        !has_sub(lowercase(o.intent), "mall"@),
        !has_sub(lowercase(o.intent), "downtown"@),
        !has_sub(lowercase(o.intent), "latency"@),
        !has_sub(lowercase(o.intent), "sla"@),
        !has_sub(lowercase(o.intent), "core"@),
        forall|j: int|
            0 <= j < inventory().len() ==> !has_sub(lowercase(o.intent), lowercase(#[trigger] inventory()[j].hostname)),
        !has_sub(lowercase(o.service_type), "5g"@),
        !has_sub(lowercase(o.service_type), "slic"@),
    ensures
        matched_for(o) == seq![inventory()[i]],
        matched_for(o)[0] == inventory()[i],
{
    assert forall|j: int| 0 <= j < inventory().len() && j != i implies device_score(#[trigger] inventory()[j], o) == 0 by {
        law_device_relevance(inventory()[j], o);
    }
    law_device_relevance(inventory()[i], o);
    let n = inventory().len() as int;
    lemma_single_relevant(o, i, n);
    let key = order_key(o);
    let ranked = rank_desc(seq![i], key);
    assert(seq![i].drop_last() == Seq::<int>::empty());
    assert(rank_desc(Seq::<int>::empty(), key) == Seq::<int>::empty());
    assert(lead_at_least(Seq::<int>::empty(), key(i), key) == 0);
    assert(ranked == Seq::<int>::empty().insert(0, i));
    assert(ranked =~= seq![i]);
    assert(take_at_most(ranked, 4) == ranked);
    assert(ranked.map_values(|k: int| inventory()[k]) =~= seq![inventory()[i]]);
}


proof fn lemma_relevant_facts(o: OrderView, n: int)
    requires
        n <= inventory().len(),
    ensures
        relevant_positions(o, n).len() <= if n < 0 { 0 } else { n },
        forall|m: int| 0 <= m < relevant_positions(o, n).len() ==> device_score(
            inventory()[#[trigger] relevant_positions(o, n)[m]],
            o,
        ) > 0,
        forall|j: int| 0 <= j < n && device_score(inventory()[j], o) > 0 ==> #[trigger] relevant_positions(
            o,
            n,
        ).contains(j),
    decreases n,
{
    if n > 0 {
        lemma_relevant_facts(o, n - 1);
        let prev = relevant_positions(o, n - 1);
        if device_score(inventory()[n - 1], o) > 0 {
            let cur = prev.push(n - 1);
            assert forall|m: int| 0 <= m < cur.len() implies device_score(inventory()[#[trigger] cur[m]], o) > 0 by {
                if m < prev.len() {
                    assert(cur[m] == prev[m]);
                }
            }
            assert forall|j: int| 0 <= j < n && device_score(inventory()[j], o) > 0 implies #[trigger] cur.contains(j) by {
                if j == n - 1 {
                    assert(cur[prev.len() as int] == j);
                } else {
                    assert(prev.contains(j));
                    let k = choose|k: int| 0 <= k < prev.len() && prev[k] == j;
                    assert(cur[k] == j);
                }
            }
        } else {
            assert forall|j: int| 0 <= j < n && device_score(inventory()[j], o) > 0 implies #[trigger] prev.contains(j) by {
                assert(j < n - 1);
            }
        }
    }
}

/// The devices matched to an order: at least one and at most four. When some device is
/// relevant, every matched device is relevant (positive score), they come most relevant
/// first, and when at most four devices are relevant each of them is matched. When none is,
/// the first three inventory devices stand in.
pub proof fn law_matched_devices(o: OrderView)
    ensures
        1 <= matched_for(o).len() <= 4,
        (forall|j: int| 0 <= j < inventory().len() ==> device_score(#[trigger] inventory()[j], o) <= 0)
            ==> matched_for(o) == inventory().take(3),
        (exists|j: int| 0 <= j < inventory().len() && device_score(#[trigger] inventory()[j], o) > 0) ==> {
            &&& forall|m: int| 0 <= m < matched_for(o).len() ==> device_score(#[trigger] matched_for(o)[m], o) > 0
            &&& forall|a: int, b: int| 0 <= a < b < matched_for(o).len() ==> device_score(
                #[trigger] matched_for(o)[a],
                o,
            ) >= device_score(#[trigger] matched_for(o)[b], o)
        },
        relevant_positions(o, inventory().len() as int).len() <= 4 ==> forall|j: int|
            0 <= j < inventory().len() && device_score(inventory()[j], o) > 0 ==> #[trigger] matched_for(
                o,
            ).contains(inventory()[j]),
{
    broadcast use vstd::seq_lib::group_to_multiset_ensures;
    let n = inventory().len() as int;
    let key = order_key(o);
    let rp = relevant_positions(o, n);
    lemma_relevant_facts(o, n);
    lemma_relevant_in_range(o, n);
    crate::ranking::lemma_rank_desc_sorted(rp, key);
    crate::ranking::lemma_rank_desc_members(rp, key);
    crate::ranking::lemma_rank_desc_elements(rp, key);
    let ranked = rank_desc(rp, key);
    let t = take_at_most(ranked, 4);
    let mf = matched_for(o);
    if forall|j: int| 0 <= j < inventory().len() ==> device_score(#[trigger] inventory()[j], o) <= 0 {
        if rp.len() > 0 {
            assert(device_score(inventory()[rp[0]], o) > 0);
        }
    }
    if ranked.len() > 0 {
        assert(mf == t.map_values(|k: int| inventory()[k]));
        assert forall|m: int| 0 <= m < mf.len() implies device_score(#[trigger] mf[m], o) > 0 by {
            assert(mf[m] == inventory()[t[m]]);
            assert(t[m] == ranked[m]);
            assert(rp.contains(ranked[m]));
            let k = choose|k: int| 0 <= k < rp.len() && rp[k] == ranked[m];
            assert(device_score(inventory()[rp[k]], o) > 0);
        }
        assert forall|a: int, b: int| 0 <= a < b < mf.len() implies device_score(#[trigger] mf[a], o)
            >= device_score(#[trigger] mf[b], o) by {
            assert(mf[a] == inventory()[ranked[a]]);
            assert(mf[b] == inventory()[ranked[b]]);
            assert(key(ranked[a]) >= key(ranked[b]));
        }
        if rp.len() <= 4 {
            assert(t == ranked);
            assert forall|j: int| 0 <= j < inventory().len() && device_score(inventory()[j], o) > 0 implies #[trigger] mf.contains(
                inventory()[j],
            ) by {
                assert(rp.contains(j));
                assert(rp.to_multiset().count(j) > 0);
                assert(ranked.to_multiset().count(j) > 0);
                assert(ranked.contains(j));
                let m = choose|m: int| 0 <= m < ranked.len() && ranked[m] == j;
                assert(mf[m] == inventory()[j]);
            }
        }
    } else {
        assert forall|j: int| 0 <= j < inventory().len() && device_score(inventory()[j], o) > 0 implies false by {
            assert(rp.contains(j));
        }
    }
}

}
