//! Which region to ask for a registry token.
//!
//! An explicit hint comes first, then whatever the region providers gave,
//! in their order, then a fixed fallback. A provider that gave nothing, or
//! an empty name, is passed over.

use vstd::prelude::*;

verus! {

/// The region asked where nothing else names one.
pub open spec fn fallback_region() -> Seq<char> {
    "us-east-1"@
}

/// What a candidate holds as text, if it holds any.
pub open spec fn candidate_view(candidate: Option<String>) -> Option<Seq<char>> {
    match candidate {
        Some(region) => Some(region@),
        None => None,
    }
}

/// Whether a candidate names a region: it is there and not empty.
pub open spec fn names_region(candidate: Option<Seq<char>>) -> bool {
    candidate matches Some(region) && region.len() > 0
}

/// The region of the first candidate that names one.
pub open spec fn first_region(candidates: Seq<Option<Seq<char>>>) -> Option<Seq<char>>
    decreases candidates.len(),
{
    if candidates.len() == 0 {
        None
    } else if names_region(candidates.first()) {
        candidates.first()
    } else {
        first_region(candidates.drop_first())
    }
}

/// The region to use: the hint where it names one, else the first region
/// that a provider gave, else the fallback.
pub open spec fn resolved_region(
    hint: Option<Seq<char>>,
    provided: Seq<Option<Seq<char>>>,
) -> Seq<char> {
    if names_region(hint) {
        hint.unwrap()
    } else {
        match first_region(provided) {
            Some(region) => region,
            None => fallback_region(),
        }
    }
}

/// The first region is that of the earliest candidate naming one.
pub proof fn lemma_first_region_is_earliest(candidates: Seq<Option<Seq<char>>>, k: int)
    requires
        0 <= k < candidates.len(),
        names_region(candidates[k]),
        forall|j: int| 0 <= j < k ==> !names_region(#[trigger] candidates[j]),
    ensures
        first_region(candidates) == candidates[k],
    decreases k,
{
    if k > 0 {
        let rest = candidates.drop_first();
        assert(!names_region(candidates[0]));
        assert forall|j: int| 0 <= j < k - 1 implies !names_region(#[trigger] rest[j]) by {
            assert(rest[j] == candidates[j + 1]);
        }
        assert(rest[k - 1] == candidates[k]);
        lemma_first_region_is_earliest(rest, k - 1);
    }
}

/// Where no candidate names a region there is no first one.
pub proof fn lemma_first_region_none(candidates: Seq<Option<Seq<char>>>)
    requires
        forall|j: int| 0 <= j < candidates.len() ==> !names_region(#[trigger] candidates[j]),
    ensures
        first_region(candidates) is None,
    decreases candidates.len(),
{
    if candidates.len() > 0 {
        let rest = candidates.drop_first();
        assert(!names_region(candidates[0]));
        assert forall|j: int| 0 <= j < rest.len() implies !names_region(#[trigger] rest[j]) by {
            assert(rest[j] == candidates[j + 1]);
        }
        lemma_first_region_none(rest);
    }
}

/// A region is always found, and its name is never empty.
pub proof fn lemma_resolved_region_not_empty(
    hint: Option<Seq<char>>,
    provided: Seq<Option<Seq<char>>>,
)
    ensures
        resolved_region(hint, provided).len() > 0,
{
    lemma_first_region_names(provided);
    reveal_strlit("us-east-1");
}

/// What `first_region` finds names a region.
pub proof fn lemma_first_region_names(candidates: Seq<Option<Seq<char>>>)
    ensures
        first_region(candidates) is Some ==> names_region(first_region(candidates)),
    decreases candidates.len(),
{
    if candidates.len() > 0 && !names_region(candidates.first()) {
        lemma_first_region_names(candidates.drop_first());
    }
}

/// Picks the region to ask for a token.
///
/// `region_hint` is the caller's explicit choice; `provided` holds what each
/// region provider gave, in the order in which the providers are to be
/// believed. The first of them that names a region wins, the hint before
/// all; where none does, the region is `us-east-1`.
pub fn resolve_region(region_hint: Option<&str>, provided: &Vec<Option<String>>) -> (region: String)
    ensures
        region@ == resolved_region(
            match region_hint {
                Some(hint) => Some(hint@),
                None => None,
            },
            provided@.map_values(|c: Option<String>| candidate_view(c)),
        ),
{
    if let Some(hint) = region_hint {
        if !hint.is_empty() {
            return hint.to_owned();
        }
    }
    let ghost hint: Option<Seq<char>> = match region_hint {
        Some(hint) => Some(hint@),
        None => None,
    };
    let ghost candidates = provided@.map_values(|c: Option<String>| candidate_view(c));
    let n: usize = provided.len();
    let mut i: usize = 0;
    while i < n
        invariant
            i <= n == provided@.len(),
            !names_region(hint),
            hint == match region_hint {
                Some(hint) => Some(hint@),
                None => None,
            },
            candidates == provided@.map_values(|c: Option<String>| candidate_view(c)),
            forall|j: int| 0 <= j < i ==> !names_region(#[trigger] candidates[j]),
        decreases n - i,
    {
        match &provided[i] {
            Some(region) => {
                if !region.as_str().is_empty() {
                    proof {
                        assert(candidates[i as int] == Some(region@));
                        lemma_first_region_is_earliest(candidates, i as int);
                    }
                    return region.clone();
                }
                assert(candidates[i as int] == Some(region@));
            },
            None => {
                assert(candidates[i as int] == None::<Seq<char>>);
            },
        }
        i = i + 1;
    }
    proof {
        lemma_first_region_none(candidates);
    }
    "us-east-1".to_owned()
}

} // verus!
