//! The slug generator against a store that has to be asked from outside.
//!
//! The caller owns the store. It begins a [`Search`], asks the store whether
//! the search's candidate is taken in the search's namespace, and hands the
//! answer to [`advance`], until the search has found a slug or failed.

use crate::data::{ResourceError, ResourceErrorView};
use crate::slug::{
    is_random_identifier, next_candidate, next_slug, normalize, normalized, random_identifier,
    resolved, SuffixRule,
};
use vstd::prelude::*;

verus! {

/// What is asked of the generator: a slug for `title` that is free in
/// `namespace`, found with `budget` attempts beyond the first.
#[derive(Clone, Debug, PartialEq, Eq)]
pub struct SlugRequest {
    pub title: String,
    pub namespace: String,
    pub budget: u32,
}

/// What the store answers when it is asked for a candidate.
#[derive(Clone, Copy, Debug, PartialEq, Eq, Structural)]
pub enum Lookup {
    /// The candidate is free.
    Free,
    /// The candidate is taken.
    Taken,
    /// The store could not be asked, or did not answer in the time that
    /// the caller gave it.
    Unavailable,
}

/// A search that waits for the store's answer on its candidate.
#[derive(Clone, Debug, PartialEq, Eq)]
pub struct Search {
    pub namespace: String,
    pub candidate: String,
    /// The attempts that are left after this one.
    pub budget: u32,
    pub rule: SuffixRule,
}

/// A search as plain text.
pub struct SearchView {
    pub namespace: Seq<char>,
    pub candidate: Seq<char>,
    pub budget: nat,
    pub rule: SuffixRule,
}

impl View for Search {
    type V = SearchView;

    open spec fn view(&self) -> SearchView {
        SearchView {
            namespace: self.namespace@,
            candidate: self.candidate@,
            budget: self.budget as nat,
            rule: self.rule,
        }
    }
}

/// Where a search stands after an answer.
#[derive(Clone, Debug, PartialEq, Eq)]
pub enum Progress {
    /// The store is to be asked for the candidate of this search.
    Ask(Search),
    /// The search has ended with this slug.
    Found(String),
    /// The search has ended without a slug.
    Failed(ResourceError),
}

/// Progress as plain text.
pub enum ProgressView {
    Ask(SearchView),
    Found(Seq<char>),
    Failed(ResourceErrorView),
}

impl View for Progress {
    type V = ProgressView;

    open spec fn view(&self) -> ProgressView {
        match self {
            Progress::Ask(search) => ProgressView::Ask(search@),
            Progress::Found(slug) => ProgressView::Found(slug@),
            Progress::Failed(error) => ProgressView::Failed(error@),
        }
    }
}

/// Tells whether an answer leaves a search nothing but the random
/// identifier: the candidate is taken and no attempt is left.
pub open spec fn is_exhausted(search: SearchView, lookup: Lookup) -> bool {
    lookup == Lookup::Taken && search.budget == 0
}

/// Where a search stands after the answer `lookup`, if `fallback` is the
/// random identifier at hand. A store that cannot be asked ends the search
/// with an error, never with the fallback.
pub open spec fn step(search: SearchView, lookup: Lookup, fallback: Seq<char>) -> ProgressView {
    match lookup {
        Lookup::Unavailable => ProgressView::Failed(ResourceErrorView::StorageUnavailable),
        Lookup::Free => ProgressView::Found(search.candidate),
        Lookup::Taken => if search.budget == 0 {
            ProgressView::Found(fallback)
        } else {
            ProgressView::Ask(
                SearchView {
                    namespace: search.namespace,
                    candidate: next_candidate(search.candidate, search.rule),
                    budget: (search.budget - 1) as nat,
                    rule: search.rule,
                },
            )
        },
    }
}

/// The search for a request: its first candidate is the normalized title.
pub fn begin(request: SlugRequest, rule: SuffixRule) -> (search: Search)
    ensures
        search@ == (SearchView {
            namespace: request.namespace@,
            candidate: normalized(request.title@),
            budget: request.budget as nat,
            rule,
        }),
{
    let candidate = normalize(request.title.as_str());
    Search { namespace: request.namespace, candidate, budget: request.budget, rule }
}

/// Takes the store's answer, with `fallback` as the identifier to end with
/// when the candidate is taken and no attempt is left.
pub fn advance_with(search: Search, lookup: Lookup, fallback: String) -> (progress: Progress)
    ensures
        progress@ == step(search@, lookup, fallback@),
{
    match lookup {
        Lookup::Unavailable => Progress::Failed(ResourceError::StorageUnavailable),
        Lookup::Free => Progress::Found(search.candidate),
        Lookup::Taken => {
            if search.budget == 0 {
                Progress::Found(fallback)
            } else {
                let candidate = next_slug(search.candidate.as_str(), search.rule);
                Progress::Ask(
                    Search {
                        namespace: search.namespace,
                        candidate,
                        budget: search.budget - 1,
                        rule: search.rule,
                    },
                )
            }
        },
    }
}

/// Takes the store's answer. When the candidate is taken and no attempt is
/// left, the search ends with a random identifier that is drawn here.
pub fn advance(search: Search, lookup: Lookup) -> (progress: Progress)
    ensures
        is_exhausted(search@, lookup) ==> (progress matches Progress::Found(slug)
            && is_random_identifier(slug@)),
        !is_exhausted(search@, lookup) ==> forall|fallback: Seq<char>|
            progress@ == #[trigger] step(search@, lookup, fallback),
{
    let exhausted = match lookup {
        Lookup::Taken => search.budget == 0,
        _ => false,
    };
    if exhausted {
        Progress::Found(random_identifier())
    } else {
        advance_with(search, lookup, String::new())
    }
}

/// The answer of a store in which the identifiers `taken` are taken and
/// which can always be asked.
pub open spec fn answer(taken: Set<Seq<char>>, candidate: Seq<char>) -> Lookup {
    if taken.contains(candidate) {
        Lookup::Taken
    } else {
        Lookup::Free
    }
}

/// The slug that a search ends with when every answer comes from a store in
/// which the identifiers `taken` are taken.
pub open spec fn outcome(search: SearchView, taken: Set<Seq<char>>, fallback: Seq<char>) -> Seq<
    char,
>
    decreases search.budget,
{
    match step(search, answer(taken, search.candidate), fallback) {
        ProgressView::Ask(next) => if next.budget < search.budget {
            outcome(next, taken, fallback)
        } else {
            fallback
        },
        ProgressView::Found(slug) => slug,
        ProgressView::Failed(_) => fallback,
    }
}

/// A search that is answered by a store which can always be asked ends with
/// the first free candidate within its budget, and with the fallback where
/// there is none.
pub proof fn lemma_outcome_is_resolved(
    search: SearchView,
    taken: Set<Seq<char>>,
    fallback: Seq<char>,
)
    ensures
        outcome(search, taken, fallback) == match resolved(
            search.candidate,
            taken,
            search.budget,
            search.rule,
        ) {
            Some(free) => free,
            None => fallback,
        },
    decreases search.budget,
{
    if taken.contains(search.candidate) && search.budget > 0 {
        let next = SearchView {
            namespace: search.namespace,
            candidate: next_candidate(search.candidate, search.rule),
            budget: (search.budget - 1) as nat,
            rule: search.rule,
        };
        lemma_outcome_is_resolved(next, taken, fallback);
    }
}

/// A store that cannot be asked fails the search, whatever the candidate
/// and the budget: the failure is never taken for a collision.
pub proof fn lemma_unavailable_store_fails(search: SearchView, fallback: Seq<char>)
    ensures
        step(search, Lookup::Unavailable, fallback) == ProgressView::Failed(
            ResourceErrorView::StorageUnavailable,
        ),
{
}

} // verus!
