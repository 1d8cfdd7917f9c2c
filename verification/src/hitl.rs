//! Human-in-the-loop bookkeeping: actions waiting for an operator's decision, and the
//! commands an operator (or graduated autonomy) has cleared for execution.

use vstd::prelude::*;
use crate::guardrails::RiskLevel;
use crate::text::same_text;

verus! {

/// An action the pipeline left for a human to approve or reject.
#[derive(Debug, Clone)]
pub struct PendingHitlAction {
    pub id: String,
    pub proposed_command: String,
    pub intent: String,
    pub decision_logic: String,
    pub risk: RiskLevel,
}

/// Mathematical model of a [`PendingHitlAction`].
pub struct PendingView {
    pub id: Seq<char>,
    pub proposed_command: Seq<char>,
    pub intent: Seq<char>,
    pub decision_logic: Seq<char>,
    pub risk: RiskLevel,
}

impl View for PendingHitlAction {
    type V = PendingView;

    open spec fn view(&self) -> PendingView {
        PendingView {
            id: self.id@,
            proposed_command: self.proposed_command@,
            intent: self.intent@,
            decision_logic: self.decision_logic@,
            risk: self.risk,
        }
    }
}

/// The views of a sequence of pending actions.
pub open spec fn pending_views(s: Seq<PendingHitlAction>) -> Seq<PendingView> {
    s.map_values(|a: PendingHitlAction| a@)
}

/// No two entries share an id.
pub open spec fn ids_unique(s: Seq<PendingView>) -> bool {
    forall|i: int, j: int| 0 <= i < s.len() && 0 <= j < s.len() && i != j ==> s[i].id != s[j].id
}

/// The entries as a map from action id to action.
pub open spec fn as_map(s: Seq<PendingView>) -> Map<Seq<char>, PendingView> {
    Map::new(
        |k: Seq<char>| exists|i: int| 0 <= i < s.len() && s[i].id == k,
        |k: Seq<char>| s[choose|i: int| 0 <= i < s.len() && s[i].id == k],
    )
}

/// No two commands are the same.
pub open spec fn texts_unique(s: Seq<Seq<char>>) -> bool {
    forall|i: int, j: int| 0 <= i < s.len() && 0 <= j < s.len() && i != j ==> s[i] != s[j]
}

/// The views of a sequence of strings.
pub open spec fn string_views(s: Seq<String>) -> Seq<Seq<char>> {
    s.map_values(|c: String| c@)
}

fn position_in(pending: &Vec<PendingHitlAction>, id: &str) -> (r: Option<usize>)
    ensures
        match r {
            Some(i) => i < pending@.len() && pending@[i as int]@.id == id@,
            None => forall|j: int| 0 <= j < pending@.len() ==> pending@[j]@.id != id@,
        },
{
    let mut i: usize = 0;
    while i < pending.len()
        invariant
            i <= pending@.len(),
            forall|j: int| 0 <= j < i ==> pending@[j]@.id != id@,
        decreases pending@.len() - i,
    {
        if same_text(pending[i].id.as_str(), id) {
            return Some(i);
        }
        i = i + 1;
    }
    None
}

/// Pending HITL actions, keyed by id, and the set of cleared commands.
pub struct HitlRegistry {
    pending: Vec<PendingHitlAction>,
    approved: Vec<String>,
}

impl HitlRegistry {
    /// The entries are keyed by a unique id, and each cleared command is recorded once.
    #[verifier::type_invariant]
    spec fn wf(&self) -> bool {
        &&& ids_unique(pending_views(self.pending@))
        &&& texts_unique(string_views(self.approved@))
    }

    /// The pending actions, by id.
    pub closed spec fn pending_map(&self) -> Map<Seq<char>, PendingView> {
        as_map(pending_views(self.pending@))
    }

    /// The commands cleared for execution.
    pub closed spec fn approved_set(&self) -> Set<Seq<char>> {
        string_views(self.approved@).to_set()
    }

    /// An empty registry.
    pub fn new() -> (r: Self)
        ensures
            r.pending_map() == Map::<Seq<char>, PendingView>::empty(),
            r.approved_set() == Set::<Seq<char>>::empty(),
    {
        let r = HitlRegistry { pending: Vec::new(), approved: Vec::new() };
        proof {
            assert(r.pending_map() =~= Map::<Seq<char>, PendingView>::empty());
            assert(r.approved_set() =~= Set::<Seq<char>>::empty());
        }
        r
    }

    /// Records an action as waiting for a human; an action with the same id is replaced.
    pub fn register(&mut self, action: PendingHitlAction)
        ensures
            final(self).pending_map() == old(self).pending_map().insert(action@.id, action@),
            final(self).approved_set() == old(self).approved_set(),
    {
        proof {
            use_type_invariant(&*self);
        }
        let mut cur: Vec<PendingHitlAction> = Vec::new();
        std::mem::swap(&mut cur, &mut self.pending);
        let ghost a = action@;
        let ghost before = pending_views(cur@);
        match position_in(&cur, action.id.as_str()) {
            Some(i) => {
                cur.set(i, action);
                proof {
                    let after = pending_views(cur@);
                    assert(after =~= before.update(i as int, a));
                    assert(ids_unique(after)) by {
                        assert forall|p: int, q: int|
                            0 <= p < after.len() && 0 <= q < after.len() && p != q implies after[p].id != after[q].id by {
                            if p != i && q != i {
                                assert(after[p] == before[p] && after[q] == before[q]);
                            } else if p == i {
                                assert(after[q] == before[q]);
                                assert(before[i as int].id == a.id);
                            } else {
                                assert(after[p] == before[p]);
                                assert(before[i as int].id == a.id);
                            }
                        }
                    }
                    assert forall|k: Seq<char>| #[trigger] as_map(after).dom().contains(k) == as_map(before).insert(
                        a.id,
                        a,
                    ).dom().contains(k) by {
                        if k != a.id && as_map(before).dom().contains(k) {
                            let j = choose|j: int| 0 <= j < before.len() && before[j].id == k;
                            assert(after[j].id == k);
                        }
                        if as_map(after).dom().contains(k) && k != a.id {
                            let j = choose|j: int| 0 <= j < after.len() && after[j].id == k;
                            assert(before[j].id == k);
                        }
                        if k == a.id {
                            assert(after[i as int].id == k);
                        }
                    }
                    assert forall|k: Seq<char>| #[trigger] as_map(after).dom().contains(k) implies as_map(after)[k]
                        == as_map(before).insert(a.id, a)[k] by {
                        let j = choose|j: int| 0 <= j < after.len() && after[j].id == k;
                        if k == a.id {
                            assert(j == i);
                        } else {
                            assert(before[j].id == k);
                            let j2 = choose|j2: int| 0 <= j2 < before.len() && before[j2].id == k;
                            assert(j2 == j);
                        }
                    }
                    assert(as_map(after) =~= as_map(before).insert(a.id, a));
                }
            },
            None => {
                cur.push(action);
                proof {
                    let after = pending_views(cur@);
                    assert(after =~= before.push(a));
                    let n = before.len() as int;
                    assert(ids_unique(after)) by {
                        assert forall|p: int, q: int|
                            0 <= p < after.len() && 0 <= q < after.len() && p != q implies after[p].id != after[q].id by {
                            if p < n && q < n {
                                assert(after[p] == before[p] && after[q] == before[q]);
                            } else if p == n {
                                assert(after[q] == before[q]);
                            } else {
                                assert(after[p] == before[p]);
                            }
                        }
                    }
                    assert forall|k: Seq<char>| #[trigger] as_map(after).dom().contains(k) == as_map(before).insert(
                        a.id,
                        a,
                    ).dom().contains(k) by {
                        if k != a.id && as_map(before).dom().contains(k) {
                            let j = choose|j: int| 0 <= j < before.len() && before[j].id == k;
                            assert(after[j].id == k);
                        }
                        if as_map(after).dom().contains(k) && k != a.id {
                            let j = choose|j: int| 0 <= j < after.len() && after[j].id == k;
                            assert(before[j].id == k);
                        }
                        if k == a.id {
                            assert(after[n].id == k);
                        }
                    }
                    assert forall|k: Seq<char>| #[trigger] as_map(after).dom().contains(k) implies as_map(after)[k]
                        == as_map(before).insert(a.id, a)[k] by {
                        let j = choose|j: int| 0 <= j < after.len() && after[j].id == k;
                        if k == a.id {
                            assert(j == n);
                        } else {
                            assert(before[j].id == k);
                            let j2 = choose|j2: int| 0 <= j2 < before.len() && before[j2].id == k;
                            assert(j2 == j);
                        }
                    }
                    assert(as_map(after) =~= as_map(before).insert(a.id, a));
                }
            },
        }
        self.pending = cur;
    }

    /// Removes and returns the action waiting under `id`, if any.
    pub fn take(&mut self, id: &str) -> (r: Option<PendingHitlAction>)
        ensures
            match r {
                Some(a) => old(self).pending_map().dom().contains(id@) && a@ == old(self).pending_map()[id@],
                None => !old(self).pending_map().dom().contains(id@),
            },
            final(self).pending_map() == old(self).pending_map().remove(id@),
            final(self).approved_set() == old(self).approved_set(),
    {
        proof {
            use_type_invariant(&*self);
        }
        let mut cur: Vec<PendingHitlAction> = Vec::new();
        std::mem::swap(&mut cur, &mut self.pending);
        let ghost before = pending_views(cur@);
        let r = match position_in(&cur, id) {
            Some(i) => {
                let a = cur.remove(i);
                proof {
                    let after = pending_views(cur@);
                    assert(after =~= before.subrange(0, i as int) + before.subrange(i + 1, before.len() as int));
                    assert(before[i as int].id == id@);
                    assert(as_map(before).dom().contains(id@));
                    let c = choose|c: int| 0 <= c < before.len() && before[c].id == id@;
                    assert(c == i);
                    assert forall|k: Seq<char>| #[trigger] as_map(after).dom().contains(k) == as_map(before).remove(
                        id@,
                    ).dom().contains(k) by {
                        if as_map(after).dom().contains(k) {
                            let j = choose|j: int| 0 <= j < after.len() && after[j].id == k;
                            if j < i {
                                assert(before[j].id == k);
                            } else {
                                assert(before[j + 1].id == k);
                            }
                        }
                        if k != id@ && as_map(before).dom().contains(k) {
                            let j = choose|j: int| 0 <= j < before.len() && before[j].id == k;
                            if j < i {
                                assert(after[j].id == k);
                            } else {
                                assert(j != i);
                                assert(after[j - 1].id == k);
                            }
                        }
                    }
                    assert forall|k: Seq<char>| #[trigger] as_map(after).dom().contains(k) implies as_map(after)[k]
                        == as_map(before).remove(id@)[k] by {
                        let j = choose|j: int| 0 <= j < after.len() && after[j].id == k;
                        let jb = if j < i { j } else { j + 1 };
                        assert(before[jb].id == k);
                        assert(after[j] == before[jb]);
                        let j2 = choose|j2: int| 0 <= j2 < before.len() && before[j2].id == k;
                        assert(j2 == jb);
                    }
                    assert(as_map(after) =~= as_map(before).remove(id@));
                }
                Some(a)
            },
            None => {
                proof {
                    assert(!as_map(before).dom().contains(id@));
                    assert(as_map(before) =~= as_map(before).remove(id@));
                }
                None
            },
        };
        self.pending = cur;
        r
    }

    /// Whether `command` has been cleared for execution.
    pub fn is_cleared(&self, command: &str) -> (r: bool)
        ensures
            r == self.approved_set().contains(command@),
    {
        let ghost v = string_views(self.approved@);
        let mut i: usize = 0;
        while i < self.approved.len()
            invariant
                i <= self.approved@.len(),
                v == string_views(self.approved@),
                forall|j: int| 0 <= j < i ==> v[j] != command@,
            decreases self.approved@.len() - i,
        {
            if same_text(self.approved[i].as_str(), command) {
                proof {
                    assert(v[i as int] == command@);
                    assert(v.contains(command@));
                }
                return true;
            }
            i = i + 1;
        }
        proof {
            assert(!v.contains(command@));
        }
        false
    }

    /// Clears `command` for execution.
    pub fn approve_command(&mut self, command: String)
        ensures
            final(self).approved_set() == old(self).approved_set().insert(command@),
            final(self).pending_map() == old(self).pending_map(),
    {
        proof {
            use_type_invariant(&*self);
        }
        let known = self.is_cleared(command.as_str());
        let mut cur: Vec<String> = Vec::new();
        std::mem::swap(&mut cur, &mut self.approved);
        let ghost before = string_views(cur@);
        if !known {
            let ghost c = command@;
            cur.push(command);
            proof {
                let after = string_views(cur@);
                assert(after =~= before.push(c));
                assert(!before.contains(c));
                assert(after.to_set() =~= before.to_set().insert(c)) by {
                    assert forall|x: Seq<char>| #[trigger] after.to_set().contains(x) == before.to_set().insert(
                        c,
                    ).contains(x) by {
                        if after.contains(x) && x != c {
                            let j = choose|j: int| 0 <= j < after.len() && after[j] == x;
                            assert(before[j] == x);
                        }
                        if before.contains(x) {
                            let j = choose|j: int| 0 <= j < before.len() && before[j] == x;
                            assert(after[j] == x);
                        }
                        if x == c {
                            assert(after[before.len() as int] == x);
                        }
                    }
                }
            }
        } else {
            proof {
                assert(before.to_set().insert(command@) =~= before.to_set());
            }
        }
        self.approved = cur;
    }
}

/// Registering an action and then taking it back gives back that action, and a second
/// attempt to take it finds nothing: each HITL action is approved or rejected at most once.
pub proof fn law_take_after_register(m: Map<Seq<char>, PendingView>, a: PendingView)
    ensures
        m.insert(a.id, a).dom().contains(a.id),
        m.insert(a.id, a)[a.id] == a,
        !m.insert(a.id, a).remove(a.id).dom().contains(a.id),
        m.insert(a.id, a).remove(a.id) == m.remove(a.id),
{
    assert(m.insert(a.id, a).remove(a.id) =~= m.remove(a.id));
}

/// Taking an action leaves every other pending action where it was.
pub proof fn law_take_leaves_others(m: Map<Seq<char>, PendingView>, id: Seq<char>, other: Seq<char>)
    requires
        other != id,
    ensures
        m.remove(id).dom().contains(other) == m.dom().contains(other),
        m.dom().contains(other) ==> m.remove(id)[other] == m[other],
{
}

} // verus!
