//! Stable ranking by descending score, as `sort_by(|a, b| b.0.cmp(&a.0))` orders a list:
//! higher scores first, equal scores kept in the order they came in.

use vstd::prelude::*;

verus! {

/// Number of leading elements of `s` whose key is at least `k`.
pub open spec fn lead_at_least(s: Seq<int>, k: int, key: spec_fn(int) -> int) -> nat
    decreases s.len(),
{
    if s.len() > 0 && key(s[0]) >= k {
        1 + lead_at_least(s.drop_first(), k, key)
    } else {
        0
    }
}

/// `s` (ranked) with `x` inserted after every element whose key is at least `key(x)`.
pub open spec fn insert_ranked(s: Seq<int>, x: int, key: spec_fn(int) -> int) -> Seq<int> {
    s.insert(lead_at_least(s, key(x), key) as int, x)
}

/// `s` stably ranked by descending key.
pub open spec fn rank_desc(s: Seq<int>, key: spec_fn(int) -> int) -> Seq<int>
    decreases s.len(),
{
    if s.len() == 0 {
        seq![]
    } else {
        insert_ranked(rank_desc(s.drop_last(), key), s.last(), key)
    }
}

/// `s` is ordered by non-increasing key.
pub open spec fn non_increasing(s: Seq<int>, key: spec_fn(int) -> int) -> bool {
    forall|i: int, j: int| 0 <= i < j < s.len() ==> key(#[trigger] s[i]) >= key(#[trigger] s[j])
}

/// The positions carried by a ranked list of (score, position) pairs.
pub open spec fn positions(r: Seq<(u64, usize)>) -> Seq<int> {
    r.map_values(|p: (u64, usize)| p.1 as int)
}

/// Every pair of a ranked list carries the key of its position as score.
pub open spec fn scores_match(r: Seq<(u64, usize)>, key: spec_fn(int) -> int) -> bool {
    forall|j: int| 0 <= j < r.len() ==> (#[trigger] r[j]).0 as int == key(r[j].1 as int)
}

proof fn lemma_lead_step(s: Seq<int>, j: int, k: int, key: spec_fn(int) -> int)
    requires
        0 <= j < s.len(),
        key(s[j]) >= k,
    ensures
        lead_at_least(s.subrange(j, s.len() as int), k, key) == 1 + lead_at_least(
            s.subrange(j + 1, s.len() as int),
            k,
            key,
        ),
{
    assert(s.subrange(j, s.len() as int).drop_first() =~= s.subrange(j + 1, s.len() as int));
}

/// Inserts `(score, idx)` into a list ranked by descending score, after every pair whose
/// score is at least `score`.
pub(crate) fn insert_ranked_exec(
    ranked: &mut Vec<(u64, usize)>,
    score: u64,
    idx: usize,
    Ghost(key): Ghost<spec_fn(int) -> int>,
)
    requires
        key(idx as int) == score as int,
        scores_match(old(ranked)@, key),
    ensures
        positions(final(ranked)@) == insert_ranked(positions(old(ranked)@), idx as int, key),
        scores_match(final(ranked)@, key),
{
    let ghost s = positions(ranked@);
    let n = ranked.len();
    let mut j: usize = 0;
    assert(s.subrange(0, n as int) =~= s);
    while j < n && ranked[j].0 >= score
        invariant
            j <= n == ranked@.len(),
            s == positions(ranked@),
            ranked@ == old(ranked)@,
            scores_match(ranked@, key),
            lead_at_least(s, score as int, key) == j + lead_at_least(s.subrange(j as int, n as int), score as int, key),
        decreases n - j,
    {
        proof {
            assert(s[j as int] == ranked@[j as int].1 as int);
            lemma_lead_step(s, j as int, score as int, key);
        }
        j = j + 1;
    }
    proof {
        if j < n {
            assert(s[j as int] == ranked@[j as int].1 as int);
            assert(s.subrange(j as int, n as int)[0] == s[j as int]);
        }
    }
    ranked.insert(j, (score, idx));
    proof {
        assert(positions(ranked@) =~= s.insert(j as int, idx as int));
        assert forall|m: int| 0 <= m < ranked@.len() implies (#[trigger] ranked@[m]).0 as int == key(
            ranked@[m].1 as int,
        ) by {
            if m < j {
                assert(ranked@[m] == old(ranked)@[m]);
            } else if m > j {
                assert(ranked@[m] == old(ranked)@[m - 1]);
            }
        }
    }
}

proof fn lemma_lead_bounds(s: Seq<int>, k: int, key: spec_fn(int) -> int)
    ensures
        lead_at_least(s, k, key) <= s.len(),
        forall|i: int| 0 <= i < lead_at_least(s, k, key) ==> key(#[trigger] s[i]) >= k,
        lead_at_least(s, k, key) < s.len() ==> key(s[lead_at_least(s, k, key) as int]) < k,
    decreases s.len(),
{
    if s.len() > 0 && key(s[0]) >= k {
        lemma_lead_bounds(s.drop_first(), k, key);
        assert forall|i: int| 0 <= i < lead_at_least(s, k, key) implies key(#[trigger] s[i]) >= k by {
            if i > 0 {
                assert(s[i] == s.drop_first()[i - 1]);
            }
        }
    }
}

/// Ranking yields a list ordered by non-increasing key.
pub proof fn lemma_rank_desc_sorted(s: Seq<int>, key: spec_fn(int) -> int)
    ensures
        non_increasing(rank_desc(s, key), key),
        rank_desc(s, key).len() == s.len(),
    decreases s.len(),
{
    if s.len() > 0 {
        let r = rank_desc(s.drop_last(), key);
        lemma_rank_desc_sorted(s.drop_last(), key);
        let x = s.last();
        let p = lead_at_least(r, key(x), key) as int;
        lemma_lead_bounds(r, key(x), key);
        let t = r.insert(p, x);
        assert forall|i: int, j: int| 0 <= i < j < t.len() implies key(#[trigger] t[i]) >= key(#[trigger] t[j]) by {
            if j < p {
                assert(t[i] == r[i] && t[j] == r[j]);
            } else if j == p {
                assert(t[i] == r[i]);
            } else if i < p {
                assert(t[i] == r[i] && t[j] == r[j - 1]);
            } else if i == p {
                assert(t[j] == r[j - 1]);
                if p < r.len() {
                    assert(key(r[p]) < key(x));
                    if j - 1 > p {
                        assert(key(r[p]) >= key(r[j - 1]));
                    }
                }
            } else {
                assert(t[i] == r[i - 1] && t[j] == r[j - 1]);
            }
        }
    }
}

/// Ranking keeps exactly the elements it was given.
pub proof fn lemma_rank_desc_elements(s: Seq<int>, key: spec_fn(int) -> int)
    ensures
        rank_desc(s, key).to_multiset() == s.to_multiset(),
    decreases s.len(),
{
    broadcast use vstd::seq_lib::group_to_multiset_ensures;
    if s.len() > 0 {
        let r = rank_desc(s.drop_last(), key);
        lemma_rank_desc_elements(s.drop_last(), key);
        let x = s.last();
        let p = lead_at_least(r, key(x), key) as int;
        lemma_lead_bounds(r, key(x), key);

        assert(r.insert(p, x) =~= r.subrange(0, p).push(x) + r.subrange(p, r.len() as int));
        assert(r =~= r.subrange(0, p) + r.subrange(p, r.len() as int));
        assert(s =~= s.drop_last().push(x));
        vstd::seq_lib::lemma_multiset_commutative(r.subrange(0, p).push(x), r.subrange(p, r.len() as int));
        vstd::seq_lib::lemma_multiset_commutative(r.subrange(0, p), r.subrange(p, r.len() as int));
    }
}


/// Every element of a ranking comes from the ranked list.
pub proof fn lemma_rank_desc_members(s: Seq<int>, key: spec_fn(int) -> int)
    ensures
        forall|m: int| 0 <= m < rank_desc(s, key).len() ==> s.contains(#[trigger] rank_desc(s, key)[m]),
{
    broadcast use vstd::seq_lib::group_to_multiset_ensures;
    lemma_rank_desc_elements(s, key);
    let r = rank_desc(s, key);
    assert forall|m: int| 0 <= m < r.len() implies s.contains(#[trigger] r[m]) by {
        assert(r.contains(r[m]));
        assert(r.to_multiset().count(r[m]) > 0);
    }
}

}
