//! Digital-twin helpers: which changes count as mild, and where the JSON object of the
//! Judge's impact prediction lies in its answer. The predicted metrics are floating-point
//! values handled by the application.

use vstd::prelude::*;
use vstd::string::*;
use crate::text::{has_sub, lowercase};
use crate::text::{to_lower, contains, chars_of, string_of};

verus! {

/// A change is mild when it optimizes, shapes or tunes a threshold.
pub open spec fn milder(cmd: Seq<char>) -> bool {
    let l = lowercase(cmd);
    has_sub(l, "optimize"@) || has_sub(l, "shape"@) || has_sub(l, "threshold"@)
}

/// Whether a proposed change is mild (smaller predicted impact).
pub fn is_milder_change(cmd: &str) -> (r: bool)
    ensures
        r == milder(cmd@),
{
    let l = to_lower(cmd);
    contains(l.as_str(), "optimize") || contains(l.as_str(), "shape") || contains(l.as_str(), "threshold")
}

/// `i` is the first position of `c` in `s`.
pub open spec fn first_pos(s: Seq<char>, c: char, i: int) -> bool {
    0 <= i < s.len() && s[i] == c && forall|j: int| 0 <= j < i ==> s[j] != c
}

/// `i` is the last position of `c` in `s`.
pub open spec fn last_pos(s: Seq<char>, c: char, i: int) -> bool {
    0 <= i < s.len() && s[i] == c && forall|j: int| i < j < s.len() ==> s[j] != c
}

/// The text from the first `{` to the last `}` of an answer, both included, when the
/// answer has both in that order.
pub open spec fn json_span(raw: Seq<char>) -> Option<Seq<char>> {
    if exists|a: int, b: int| first_pos(raw, '{', a) && last_pos(raw, '}', b) && a <= b {
        let (a, b) = choose|a: int, b: int| first_pos(raw, '{', a) && last_pos(raw, '}', b) && a <= b;
        Some(raw.subrange(a, b + 1))
    } else {
        None
    }
}

proof fn lemma_first_unique(s: Seq<char>, c: char, i: int, k: int)
    requires
        first_pos(s, c, i),
        first_pos(s, c, k),
    ensures
        i == k,
{
    if i < k {
        assert(s[i] != c);
    } else if k < i {
        assert(s[k] != c);
    }
}

proof fn lemma_last_unique(s: Seq<char>, c: char, i: int, k: int)
    requires
        last_pos(s, c, i),
        last_pos(s, c, k),
    ensures
        i == k,
{
    if i < k {
        assert(s[k] != c);
    } else if k < i {
        assert(s[i] != c);
    }
}

/// Cuts the JSON object out of the Judge's impact answer. When the last `}` comes before the
/// first `{` there is no object; the empty slice between them (an adjacent `}{`) holds no
/// object either.
pub fn json_candidate(raw: &str) -> (r: Option<String>)
    ensures
        match r {
            Some(s) => json_span(raw@) == Some(s@),
            None => json_span(raw@).is_none(),
        },
{
    let v = chars_of(raw);
    let mut a: usize = 0;
    while a < v.len() && v[a] != '{'
        invariant
            a <= v@.len(),
            v@ == raw@,
            forall|j: int| 0 <= j < a ==> v@[j] != '{',
        decreases v@.len() - a,
    {
        a = a + 1;
    }
    if a == v.len() {
        proof {
            if exists|x: int, y: int| first_pos(raw@, '{', x) && last_pos(raw@, '}', y) && x <= y {
                let (x, y) = choose|x: int, y: int| first_pos(raw@, '{', x) && last_pos(raw@, '}', y) && x <= y;
                assert(raw@[x] != '{');
            }
        }
        return None;
    }
    let mut b: usize = v.len();
    while b > 0 && v[b - 1] != '}'
        invariant
            b <= v@.len(),
            v@ == raw@,
            forall|j: int| b <= j < v@.len() ==> v@[j] != '}',
        decreases b,
    {
        b = b - 1;
    }
    if b == 0 || b - 1 < a {
        proof {
            if exists|x: int, y: int| first_pos(raw@, '{', x) && last_pos(raw@, '}', y) && x <= y {
                let (x, y) = choose|x: int, y: int| first_pos(raw@, '{', x) && last_pos(raw@, '}', y) && x <= y;
                assert(first_pos(raw@, '{', a as int));
                lemma_first_unique(raw@, '{', x, a as int);
                if b > 0 {
                    assert(last_pos(raw@, '}', b - 1));
                    lemma_last_unique(raw@, '}', y, b - 1);
                } else {
                    assert(raw@[y] != '}');
                }
            }
        }
        return None;
    }
    let s = string_of(&v, a, b);
    proof {
        assert(first_pos(raw@, '{', a as int));
        assert(last_pos(raw@, '}', b - 1));
        let (x, y) = choose|x: int, y: int| first_pos(raw@, '{', x) && last_pos(raw@, '}', y) && x <= y;
        lemma_first_unique(raw@, '{', x, a as int);
        lemma_last_unique(raw@, '}', y, b - 1);
    }
    Some(s)
}

/// A change counts as mild exactly when its lowercased text contains "optimize", "shape" or
/// "threshold".
pub proof fn law_mild_changes(cmd: Seq<char>)
    ensures
        milder(cmd) == (has_sub(lowercase(cmd), "optimize"@) || has_sub(lowercase(cmd), "shape"@)
            || has_sub(lowercase(cmd), "threshold"@)),
{
}

} // verus!
