//! The search: candidates are observed one after another, every one is
//! counted, and the first whose address matches a pattern wins.

use crate::candidate::{drawn, Candidate};
use crate::pattern::{matches_any, PatternSet};
use crate::style::AddressStyle;
use vstd::prelude::*;

verus! {

/// What a search has seen so far: how many candidates, and the winner once
/// there is one. Without a winner the search is running; with one it is
/// terminated.
pub struct SearchState {
    pub attempts: nat,
    pub winner: Option<Candidate>,
}

/// The outcome of a search: the winning candidate and the number of
/// candidates that were observed.
#[derive(Debug, Clone, PartialEq, Eq)]
pub struct SearchResult {
    pub candidate: Candidate,
    pub attempts: u64,
}

/// Why a search ended without a winner.
#[derive(Debug, Clone, Copy, PartialEq, Eq, Structural)]
pub enum SearchError {
    /// The style has no addresses.
    UnsupportedStyle,
    /// The allowed number of candidates was observed and none matched.
    Exhausted { attempts: u64 },
}

/// The state in which a search begins.
pub open spec fn initial() -> SearchState {
    SearchState { attempts: 0, winner: None }
}

/// The state after one more candidate: the count is one higher; a search
/// that is running takes the candidate as its winner if its address matches
/// a pattern; a search that is terminated keeps its winner.
pub open spec fn observed(
    state: SearchState,
    candidate: Candidate,
    patterns: Seq<Seq<char>>,
    case_sensitive: bool,
) -> SearchState {
    SearchState {
        attempts: state.attempts + 1,
        winner: if state.winner is Some {
            state.winner
        } else if matches_any(candidate.address@, patterns, case_sensitive) {
            Some(candidate)
        } else {
            None
        },
    }
}

/// The state after a run of candidates, observed in their order.
pub open spec fn observed_all(
    state: SearchState,
    candidates: Seq<Candidate>,
    patterns: Seq<Seq<char>>,
    case_sensitive: bool,
) -> SearchState
    decreases candidates.len(),
{
    if candidates.len() == 0 {
        state
    } else {
        observed(
            observed_all(state, candidates.drop_last(), patterns, case_sensitive),
            candidates.last(),
            patterns,
            case_sensitive,
        )
    }
}

/// A state that observations can lead to: a winner was counted, and its
/// address matches a pattern.
pub open spec fn sound(state: SearchState, patterns: Seq<Seq<char>>, case_sensitive: bool) -> bool {
    state.winner matches Some(candidate) ==> state.attempts >= 1 && matches_any(
        candidate.address@,
        patterns,
        case_sensitive,
    )
}

/// The counter rises by one with every candidate, whatever becomes of the
/// candidate: it never falls, stands still or starts again.
pub proof fn law_every_candidate_counts(
    state: SearchState,
    candidates: Seq<Candidate>,
    patterns: Seq<Seq<char>>,
    case_sensitive: bool,
)
    ensures
        observed_all(state, candidates, patterns, case_sensitive).attempts == state.attempts
            + candidates.len(),
    decreases candidates.len(),
{
    if candidates.len() > 0 {
        law_every_candidate_counts(state, candidates.drop_last(), patterns, case_sensitive);
    }
}

/// A search has one winner at most: once it has one, no later candidate
/// takes its place.
pub proof fn law_winner_stays(
    state: SearchState,
    candidates: Seq<Candidate>,
    patterns: Seq<Seq<char>>,
    case_sensitive: bool,
)
    requires
        state.winner is Some,
    ensures
        observed_all(state, candidates, patterns, case_sensitive).winner == state.winner,
    decreases candidates.len(),
{
    if candidates.len() > 0 {
        law_winner_stays(state, candidates.drop_last(), patterns, case_sensitive);
    }
}

/// The winner of a search is a candidate whose address matches a pattern,
/// and it was counted.
pub proof fn law_winner_matches(
    candidates: Seq<Candidate>,
    patterns: Seq<Seq<char>>,
    case_sensitive: bool,
)
    ensures
        sound(observed_all(initial(), candidates, patterns, case_sensitive), patterns, case_sensitive),
    decreases candidates.len(),
{
    if candidates.len() > 0 {
        law_winner_matches(candidates.drop_last(), patterns, case_sensitive);
    }
}

/// The winner of a search is the first of its candidates whose address
/// matches a pattern; while none does, the search is running.
pub proof fn law_first_match_wins(
    candidates: Seq<Candidate>,
    patterns: Seq<Seq<char>>,
    case_sensitive: bool,
    first: int,
)
    requires
        0 <= first <= candidates.len(),
        forall|i: int|
            0 <= i < first ==> !matches_any(
                (#[trigger] candidates[i]).address@,
                patterns,
                case_sensitive,
            ),
        first < candidates.len() ==> matches_any(
            candidates[first].address@,
            patterns,
            case_sensitive,
        ),
    ensures
        observed_all(initial(), candidates, patterns, case_sensitive).winner == if first
            < candidates.len() {
            Some(candidates[first])
        } else {
            None
        },
    decreases candidates.len(),
{
    if candidates.len() > 0 {
        let earlier = candidates.drop_last();
        if first < candidates.len() - 1 {
            law_first_match_wins(earlier, patterns, case_sensitive, first);
        } else {
            law_first_match_wins(earlier, patterns, case_sensitive, earlier.len() as int);
        }
    }
}

/// The coordinator of one search: it holds the state and takes the
/// candidates, from however many workers, one at a time.
pub struct Coordinator<'a> {
    patterns: &'a PatternSet,
    attempts: u64,
    winner: Option<Candidate>,
}

impl<'a> View for Coordinator<'a> {
    type V = SearchState;

    closed spec fn view(&self) -> SearchState {
        SearchState { attempts: self.attempts as nat, winner: self.winner }
    }
}

impl<'a> Coordinator<'a> {
    /// The patterns of the search.
    pub closed spec fn patterns(&self) -> &PatternSet {
        self.patterns
    }

    /// The patterns are well formed and the state is one that observations
    /// can lead to.
    pub open spec fn wf(&self) -> bool {
        &&& self.patterns().wf()
        &&& sound(self@, self.patterns().texts(), self.patterns().case_sensitive())
    }

    /// A coordinator in the initial state: running, with nothing counted.
    pub fn new(patterns: &'a PatternSet) -> (coordinator: Coordinator<'a>)
        requires
            patterns.wf(),
        ensures
            coordinator.wf(),
            coordinator.patterns() == patterns,
            coordinator@ == initial(),
    {
        Coordinator { patterns, attempts: 0, winner: None }
    }

    /// Takes one candidate: counts it, and, where the search is running and
    /// the candidate's address matches a pattern, makes it the winner.
    /// Says whether the search is terminated now.
    pub fn observe(&mut self, candidate: Candidate) -> (terminated: bool)
        requires
            old(self).wf(),
            old(self)@.attempts < u64::MAX,
        ensures
            final(self).wf(),
            final(self).patterns() == old(self).patterns(),
            final(self)@ == observed(
                old(self)@,
                candidate,
                old(self).patterns().texts(),
                old(self).patterns().case_sensitive(),
            ),
            terminated == final(self)@.winner is Some,
    {
        let hit = self.patterns.matches(candidate.address.as_str());
        self.record(candidate, hit)
    }

    /// Takes one candidate whose address was tested against the patterns
    /// of the search already, with the outcome of the test: counts it, and,
    /// where the search is running and the test was a hit, makes it the
    /// winner. Says whether the search is terminated now.
    pub fn record(&mut self, candidate: Candidate, hit: bool) -> (terminated: bool)
        requires
            old(self).wf(),
            old(self)@.attempts < u64::MAX,
            hit == matches_any(
                candidate.address@,
                old(self).patterns().texts(),
                old(self).patterns().case_sensitive(),
            ),
        ensures
            final(self).wf(),
            final(self).patterns() == old(self).patterns(),
            final(self)@ == observed(
                old(self)@,
                candidate,
                old(self).patterns().texts(),
                old(self).patterns().case_sensitive(),
            ),
            terminated == final(self)@.winner is Some,
    {
        self.attempts = self.attempts + 1;
        if self.winner.is_none() && hit {
            self.winner = Some(candidate);
        }
        self.winner.is_some()
    }

    /// The number of candidates observed so far.
    pub fn attempts(&self) -> (attempts: u64)
        ensures
            attempts == self@.attempts,
    {
        self.attempts
    }

    /// Whether the search has its winner.
    pub fn is_terminated(&self) -> (terminated: bool)
        ensures
            terminated == self@.winner is Some,
    {
        self.winner.is_some()
    }

    /// Ends the search: the result, if there is a winner.
    pub fn into_result(self) -> (result: Option<SearchResult>)
        ensures
            match result {
                Some(result) => self@.winner == Some(result.candidate) && result.attempts
                    == self@.attempts,
                None => self@.winner is None,
            },
            self.wf() ==> (result matches Some(result) ==> result.attempts >= 1 && matches_any(
                result.candidate.address@,
                self.patterns().texts(),
                self.patterns().case_sensitive(),
            )),
    {
        match self.winner {
            Some(candidate) => Some(SearchResult { candidate, attempts: self.attempts }),
            None => None,
        }
    }
}

/// None of the candidates has an address that matches a pattern.
pub open spec fn none_matches(
    candidates: Seq<Candidate>,
    patterns: Seq<Seq<char>>,
    case_sensitive: bool,
) -> bool {
    forall|i: int|
        0 <= i < candidates.len() ==> !matches_any(
            (#[trigger] candidates[i]).address@,
            patterns,
            case_sensitive,
        )
}

/// Every candidate has the shape of the style.
pub open spec fn all_fit(candidates: Seq<Candidate>, style: AddressStyle) -> bool {
    forall|i: int| 0 <= i < candidates.len() ==> (#[trigger] candidates[i]).fits(style)
}

/// Every candidate is that of one key pair in the style.
pub open spec fn all_drawn(candidates: Seq<Candidate>, style: AddressStyle) -> bool {
    forall|i: int| 0 <= i < candidates.len() ==> drawn(#[trigger] candidates[i], style)
}

/// `candidates` is a run of a search with one worker that ends in
/// `outcome`: candidates of the style, each of one key pair, observed in
/// their order, of which
/// the first that matches is the last of the run and the winner; or, where
/// none matches, as many as the limit allows.
pub open spec fn is_run(
    candidates: Seq<Candidate>,
    style: AddressStyle,
    patterns: Seq<Seq<char>>,
    case_sensitive: bool,
    limit: u64,
    outcome: Result<SearchResult, SearchError>,
) -> bool {
    &&& all_fit(candidates, style)
    &&& all_drawn(candidates, style)
    &&& match outcome {
        Ok(result) => {
            &&& 1 <= candidates.len() <= limit
            &&& result.attempts == candidates.len()
            &&& result.candidate == candidates.last()
            &&& none_matches(candidates.drop_last(), patterns, case_sensitive)
            &&& matches_any(result.candidate.address@, patterns, case_sensitive)
        },
        Err(SearchError::Exhausted { attempts }) => {
            &&& attempts == limit
            &&& candidates.len() == limit
            &&& none_matches(candidates, patterns, case_sensitive)
        },
        Err(SearchError::UnsupportedStyle) => false,
    }
}

/// Searches with one worker: generates candidates of the style and observes
/// them, one after another, until one wins or `limit` of them were
/// observed. A style without addresses is not searched.
pub fn search(
    style: AddressStyle,
    patterns: &PatternSet,
    limit: u64,
) -> (outcome: Result<SearchResult, SearchError>)
    requires
        patterns.wf(),
    ensures
        outcome == Err::<SearchResult, SearchError>(SearchError::UnsupportedStyle)
            <==> !style.supported(),
        style.supported() ==> exists|candidates: Seq<Candidate>|
            is_run(
                candidates,
                style,
                patterns.texts(),
                patterns.case_sensitive(),
                limit,
                outcome,
            ),
        outcome matches Ok(result) ==> {
            &&& 1 <= result.attempts <= limit
            &&& result.candidate.fits(style)
            &&& drawn(result.candidate, style)
            &&& matches_any(
                result.candidate.address@,
                patterns.texts(),
                patterns.case_sensitive(),
            )
        },
{
    if !style.is_supported() {
        return Err(SearchError::UnsupportedStyle);
    }
    let mut coordinator = Coordinator::new(patterns);
    let mut terminated = false;
    let ghost mut seen: Seq<Candidate> = Seq::empty();
    while !terminated && coordinator.attempts() < limit
        invariant
            style.supported(),
            coordinator.wf(),
            coordinator.patterns() == patterns,
            coordinator@.attempts <= limit,
            coordinator@.attempts == seen.len(),
            terminated == coordinator@.winner is Some,
            all_fit(seen, style),
            all_drawn(seen, style),
            !terminated ==> none_matches(seen, patterns.texts(), patterns.case_sensitive()),
            terminated ==> {
                &&& seen.len() >= 1
                &&& coordinator@.winner == Some(seen.last())
                &&& none_matches(seen.drop_last(), patterns.texts(), patterns.case_sensitive())
            },
        decreases limit - coordinator@.attempts,
    {
        if let Some(candidate) = Candidate::generate(style) {
            terminated = coordinator.observe(candidate);
            proof {
                seen = seen.push(candidate);
            }
        }
    }
    let attempts = coordinator.attempts();
    let outcome = match coordinator.into_result() {
        Some(result) => Ok(result),
        None => Err(SearchError::Exhausted { attempts }),
    };
    proof {
        assert(is_run(seen, style, patterns.texts(), patterns.case_sensitive(), limit, outcome));
    }
    outcome
}

} // verus!
