//! Choice of the local model and shaping of the Ollama API's answers. The HTTP client
//! itself (localhost only) is the application's.

use vstd::prelude::*;
use vstd::string::*;
use crate::text::{has_prefix, lowercase, trimmed, views};
use crate::text::{starts_with, to_lower, trim};
use crate::error::SmaError;

verus! {

/// Whether model name `m` starts with `p`, compared as is or lowercased.
pub open spec fn prefixed(m: Seq<char>, p: Seq<char>, fold: bool) -> bool {
    has_prefix(if fold { lowercase(m) } else { m }, p)
}

/// Position of the first model name starting with `p`.
pub open spec fn first_prefixed(ms: Seq<Seq<char>>, p: Seq<char>, fold: bool) -> Option<int> {
    if exists|i: int| 0 <= i < ms.len() && prefixed(#[trigger] ms[i], p, fold) {
        Some(
            choose|i: int|
                0 <= i < ms.len() && prefixed(ms[i], p, fold) && forall|j: int|
                    0 <= j < i ==> !prefixed(#[trigger] ms[j], p, fold),
        )
    } else {
        None
    }
}

/// The model families preferred, in order, when the operator names none that is installed.
pub open spec fn preferred_families() -> Seq<Seq<char>> {
    seq!["phi3"@, "mistral"@]
}

/// The first preferred family, from position `k` on, that some installed model belongs to.
pub open spec fn family_choice(ms: Seq<Seq<char>>, k: nat) -> Option<int>
    decreases 2 - k,
{
    if k >= 2 {
        None
    } else {
        match first_prefixed(ms, preferred_families()[k as int], true) {
            Some(i) => Some(i),
            None => family_choice(ms, k + 1),
        }
    }
}

/// The model used for a run: the first installed model starting with the operator's
/// preference, else the first of a preferred family (phi3, then mistral, by lowercased
/// name), else the first installed model; none when nothing is installed.
pub open spec fn model_choice(ms: Seq<Seq<char>>, preferred: Option<Seq<char>>) -> Option<Seq<char>> {
    if ms.len() == 0 {
        None
    } else {
        match (match preferred {
            Some(p) => first_prefixed(ms, p, false),
            None => None,
        }) {
            Some(i) => Some(ms[i]),
            None => match family_choice(ms, 0) {
                Some(i) => Some(ms[i]),
                None => Some(ms[0]),
            },
        }
    }
}

fn find_prefixed(models: &Vec<String>, p: &str, fold: bool) -> (r: Option<usize>)
    ensures
        match r {
            Some(i) => first_prefixed(views(models@), p@, fold) == Some(i as int) && i < models@.len(),
            None => first_prefixed(views(models@), p@, fold).is_none(),
        },
{
    let ghost ms = views(models@);
    let mut i: usize = 0;
    while i < models.len()
        invariant
            i <= models@.len(),
            ms == views(models@),
            forall|j: int| 0 <= j < i ==> !prefixed(#[trigger] ms[j], p@, fold),
        decreases models@.len() - i,
    {
        let hit = if fold {
            let l = to_lower(models[i].as_str());
            starts_with(l.as_str(), p)
        } else {
            starts_with(models[i].as_str(), p)
        };
        proof {
            assert(ms[i as int] == models@[i as int]@);
        }
        if hit {
            proof {
                let c = choose|c: int|
                    0 <= c < ms.len() && prefixed(ms[c], p@, fold) && forall|j: int|
                        0 <= j < c ==> !prefixed(#[trigger] ms[j], p@, fold);
                if c < i {
                } else if c > i {
                    assert(!prefixed(ms[i as int], p@, fold));
                }
            }
            return Some(i);
        }
        i = i + 1;
    }
    None
}

/// Picks the model for a run from the installed ones (see [`model_choice`]).
pub fn choose_model(models: &Vec<String>, preferred: Option<&str>) -> (r: Result<String, SmaError>)
    ensures
        match r {
            Ok(m) => model_choice(views(models@), match preferred { Some(p) => Some(p@), None => None }) == Some(m@),
            Err(e) => model_choice(views(models@), match preferred { Some(p) => Some(p@), None => None }).is_none()
                && (e matches SmaError::OllamaApi(msg) && msg@ == "No models installed. Run: ollama pull phi3"@),
        },
{
    let ghost ms = views(models@);
    if models.len() == 0 {
        return Err(SmaError::OllamaApi("No models installed. Run: ollama pull phi3".to_string()));
    }
    if let Some(p) = preferred {
        if let Some(i) = find_prefixed(models, p, false) {
            proof {
                assert(ms[i as int] == models@[i as int]@);
            }
            return Ok(models[i].clone());
        }
    }
    let families = vec!["phi3", "mistral"];
    proof {
        assert(families@.map_values(|f: &str| f@) =~= preferred_families());
    }
    let mut k: usize = 0;
    while k < families.len()
        invariant
            k <= 2,
            families@.len() == 2,
            ms == views(models@),
            families@.map_values(|f: &str| f@) == preferred_families(),
            family_choice(ms, 0) == family_choice(ms, k as nat),
            models@.len() > 0,
            (match preferred {
                Some(p) => first_prefixed(ms, p@, false),
                None => None,
            }).is_none(),
        decreases 2 - k,
    {
        proof {
            assert(families@[k as int]@ == preferred_families()[k as int]);
        }
        if let Some(i) = find_prefixed(models, families[k], true) {
            proof {
                assert(ms[i as int] == models@[i as int]@);
            }
            return Ok(models[i].clone());
        }
        k = k + 1;
    }
    proof {
        assert(ms[0] == models@[0]@);
    }
    Ok(models[0].clone())
}

/// The text of a generation answer: the model's response, trimmed.
pub fn generation_text(response: &str) -> (r: String)
    ensures
        r@ == trimmed(response@),
{
    trim(response)
}

/// The endpoint listing the installed models.
pub fn tags_url(base_url: &str) -> (r: String)
    ensures
        r@ == base_url@ + "/api/tags"@,
{
    let mut u = base_url.to_string();
    u.append("/api/tags");
    u
}

/// The endpoint generating a completion.
pub fn generate_url(base_url: &str) -> (r: String)
    ensures
        r@ == base_url@ + "/api/generate"@,
{
    let mut u = base_url.to_string();
    u.append("/api/generate");
    u
}

/// `m` is the first model of `ms` whose name, lowercased when `fold`, starts with `p`.
pub open spec fn first_starting_with(ms: Seq<Seq<char>>, m: Seq<char>, p: Seq<char>, fold: bool) -> bool {
    exists|i: int|
        0 <= i < ms.len() && ms[i] == m && has_prefix(if fold { lowercase(ms[i]) } else { ms[i] }, p)
            && forall|j: int| 0 <= j < i ==> !has_prefix(if fold { lowercase(#[trigger] ms[j]) } else { ms[j] }, p)
}

proof fn lemma_least_prefixed(ms: Seq<Seq<char>>, p: Seq<char>, fold: bool, i: int)
    requires
        0 <= i < ms.len(),
        prefixed(ms[i], p, fold),
    ensures
        exists|c: int|
            0 <= c < ms.len() && prefixed(ms[c], p, fold) && forall|j: int|
                0 <= j < c ==> !prefixed(#[trigger] ms[j], p, fold),
    decreases i,
{
    if exists|j: int| 0 <= j < i && prefixed(#[trigger] ms[j], p, fold) {
        let j = choose|j: int| 0 <= j < i && prefixed(#[trigger] ms[j], p, fold);
        lemma_least_prefixed(ms, p, fold, j);
    } else {
        assert(forall|j: int| 0 <= j < i ==> !prefixed(#[trigger] ms[j], p, fold));
    }
}

proof fn lemma_first_prefixed(ms: Seq<Seq<char>>, p: Seq<char>, fold: bool)
    ensures
        (exists|i: int| 0 <= i < ms.len() && prefixed(#[trigger] ms[i], p, fold)) ==> {
            &&& first_prefixed(ms, p, fold) is Some
            &&& 0 <= first_prefixed(ms, p, fold)->0 < ms.len()
            &&& first_starting_with(ms, ms[first_prefixed(ms, p, fold)->0], p, fold)
        },
        !(exists|i: int| 0 <= i < ms.len() && prefixed(#[trigger] ms[i], p, fold)) ==> first_prefixed(ms, p, fold) is None,
{
    if exists|i: int| 0 <= i < ms.len() && prefixed(#[trigger] ms[i], p, fold) {
        let w = choose|i: int| 0 <= i < ms.len() && prefixed(#[trigger] ms[i], p, fold);
        lemma_least_prefixed(ms, p, fold, w);
        let i = first_prefixed(ms, p, fold)->0;
        assert(0 <= i < ms.len() && prefixed(ms[i], p, fold) && forall|j: int| 0 <= j < i ==> !prefixed(#[trigger] ms[j], p, fold));
        assert forall|j: int| 0 <= j < i implies !has_prefix(if fold { lowercase(#[trigger] ms[j]) } else { ms[j] }, p) by {
            assert(!prefixed(ms[j], p, fold));
        }
    }
}

/// Which model runs: none when no model is installed; otherwise always an installed one —
/// the first whose name starts with the operator's preferred name, else the first of the Phi-3
/// family ("phi3", case-insensitively), else the first Mistral ("mistral"), else the first
/// installed model.
pub proof fn law_model_preference(ms: Seq<Seq<char>>, preferred: Option<Seq<char>>)
    ensures
        (ms.len() == 0) == (model_choice(ms, preferred) is None),
        ms.len() > 0 ==> ms.contains(model_choice(ms, preferred)->0),
        ({
            let by_name = match preferred {
                Some(p) => exists|i: int| 0 <= i < ms.len() && has_prefix(#[trigger] ms[i], p),
                None => false,
            };
            let phi = exists|i: int| 0 <= i < ms.len() && has_prefix(lowercase(#[trigger] ms[i]), "phi3"@);
            let mistral = exists|i: int| 0 <= i < ms.len() && has_prefix(lowercase(#[trigger] ms[i]), "mistral"@);
            let m = model_choice(ms, preferred)->0;
            &&& by_name ==> first_starting_with(ms, m, preferred->0, false)
            &&& !by_name && phi ==> first_starting_with(ms, m, "phi3"@, true)
            &&& !by_name && !phi && mistral ==> first_starting_with(ms, m, "mistral"@, true)
            &&& ms.len() > 0 && !by_name && !phi && !mistral ==> m == ms[0]
        }),
{
    let fams = preferred_families();
    assert(fams[0] == "phi3"@ && fams[1] == "mistral"@);
    lemma_first_prefixed(ms, "phi3"@, true);
    lemma_first_prefixed(ms, "mistral"@, true);
    let phi = exists|i: int| 0 <= i < ms.len() && has_prefix(lowercase(#[trigger] ms[i]), "phi3"@);
    let mistral = exists|i: int| 0 <= i < ms.len() && has_prefix(lowercase(#[trigger] ms[i]), "mistral"@);
    assert(phi == (exists|i: int| 0 <= i < ms.len() && prefixed(#[trigger] ms[i], "phi3"@, true))) by {
        if phi {
            let i = choose|i: int| 0 <= i < ms.len() && has_prefix(lowercase(#[trigger] ms[i]), "phi3"@);
            assert(prefixed(ms[i], "phi3"@, true));
        }
        if exists|i: int| 0 <= i < ms.len() && prefixed(#[trigger] ms[i], "phi3"@, true) {
            let i = choose|i: int| 0 <= i < ms.len() && prefixed(#[trigger] ms[i], "phi3"@, true);
            assert(has_prefix(lowercase(ms[i]), "phi3"@));
        }
    }
    assert(mistral == (exists|i: int| 0 <= i < ms.len() && prefixed(#[trigger] ms[i], "mistral"@, true))) by {
        if mistral {
            let i = choose|i: int| 0 <= i < ms.len() && has_prefix(lowercase(#[trigger] ms[i]), "mistral"@);
            assert(prefixed(ms[i], "mistral"@, true));
        }
        if exists|i: int| 0 <= i < ms.len() && prefixed(#[trigger] ms[i], "mistral"@, true) {
            let i = choose|i: int| 0 <= i < ms.len() && prefixed(#[trigger] ms[i], "mistral"@, true);
            assert(has_prefix(lowercase(ms[i]), "mistral"@));
        }
    }
    assert(family_choice(ms, 2) is None);
    let fc1 = family_choice(ms, 1);
    let fc0 = family_choice(ms, 0);
    assert(fc1 == match first_prefixed(ms, "mistral"@, true) { Some(i) => Some(i), None => family_choice(ms, 2) });
    assert(fc0 == match first_prefixed(ms, "phi3"@, true) { Some(i) => Some(i), None => fc1 });
    let by_name = match preferred {
        Some(p) => exists|i: int| 0 <= i < ms.len() && has_prefix(#[trigger] ms[i], p),
        None => false,
    };
    let named = match preferred {
        Some(p) => first_prefixed(ms, p, false),
        None => None,
    };
    if let Some(p) = preferred {
        lemma_first_prefixed(ms, p, false);
        assert(by_name == (exists|i: int| 0 <= i < ms.len() && prefixed(#[trigger] ms[i], p, false))) by {
            if by_name {
                let i = choose|i: int| 0 <= i < ms.len() && has_prefix(#[trigger] ms[i], p);
                assert(prefixed(ms[i], p, false));
            }
            if exists|i: int| 0 <= i < ms.len() && prefixed(#[trigger] ms[i], p, false) {
                let i = choose|i: int| 0 <= i < ms.len() && prefixed(#[trigger] ms[i], p, false);
                assert(has_prefix(ms[i], p));
            }
        }
    }
    if ms.len() > 0 {
        let idx: int = if named is Some {
            named->0
        } else if fc0 is Some {
            fc0->0
        } else {
            0
        };
        assert(model_choice(ms, preferred) == Some(ms[idx]));
        assert(0 <= idx < ms.len());
        assert(ms.contains(ms[idx]));
    }
}

} // verus!
