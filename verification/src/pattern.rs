//! The patterns of a search and the test of an address against them.

use crate::engine::{compiled, language};
use crate::order::{length_sorted, lemma_same_texts, sort_by_length, stably_sorts};
use crate::text::{folded, lemma_fold_after_uppercase, lemma_fold_idempotent, uppercased};
use regex::Regex;
use vstd::prelude::*;

verus! {

/// The text that the engine sees: the text itself where case counts, its
/// case-folded copy where it does not.
pub open spec fn effective(text: Seq<char>, case_sensitive: bool) -> Seq<char> {
    if case_sensitive {
        text
    } else {
        folded(text)
    }
}

/// The engine accepts the pattern under the given policy.
pub open spec fn pattern_valid(pattern: Seq<char>, case_sensitive: bool) -> bool {
    compiled(effective(pattern, case_sensitive)) is Some
}

/// The pattern matches somewhere in the address under the given policy.
pub open spec fn pattern_hits(pattern: Seq<char>, address: Seq<char>, case_sensitive: bool) -> bool {
    match compiled(effective(pattern, case_sensitive)) {
        Some(texts) => texts.contains(effective(address, case_sensitive)),
        None => false,
    }
}

/// At least one of the patterns matches somewhere in the address.
pub open spec fn matches_any(
    address: Seq<char>,
    patterns: Seq<Seq<char>>,
    case_sensitive: bool,
) -> bool {
    exists|i: int| 0 <= i < patterns.len() && #[trigger] pattern_hits(patterns[i], address, case_sensitive)
}

/// Every pattern is one that the engine accepts.
pub open spec fn all_valid(patterns: Seq<Seq<char>>, case_sensitive: bool) -> bool {
    forall|i: int| 0 <= i < patterns.len() ==> #[trigger] pattern_valid(patterns[i], case_sensitive)
}

/// Why a list of texts is no pattern set.
#[derive(Debug, Clone, Copy, PartialEq, Eq, Structural)]
pub enum PatternError {
    /// The list holds no pattern.
    Empty,
    /// The engine refuses the pattern at this position of the list, and
    /// none before it.
    Malformed { index: usize },
}

/// One pattern: its text, and the expression compiled from the text that
/// the engine sees.
#[derive(Debug)]
struct Pattern {
    text: String,
    expression: Regex,
}

/// The patterns of a search, shortest first, with the policy on case under
/// which they were compiled.
#[derive(Debug)]
pub struct PatternSet {
    case_sensitive: bool,
    patterns: Vec<Pattern>,
}

/// The text that the engine sees, as a string of its own.
fn effective_text(text: &str, case_sensitive: bool) -> (seen: String)
    ensures
        seen@ == effective(text@, case_sensitive),
{
    if case_sensitive {
        text.to_owned()
    } else {
        text.to_ascii_lowercase()
    }
}

/// The position of the first pattern that the engine refuses, if there is
/// one.
pub fn first_malformed(texts: &Vec<String>, case_sensitive: bool) -> (found: Option<usize>)
    ensures
        match found {
            Some(index) => {
                &&& index < texts.len()
                &&& !pattern_valid(texts.deep_view()[index as int], case_sensitive)
                &&& all_valid(texts.deep_view().take(index as int), case_sensitive)
            },
            None => all_valid(texts.deep_view(), case_sensitive),
        },
{
    let mut index: usize = 0;
    while index < texts.len()
        invariant
            index <= texts.len(),
            all_valid(texts.deep_view().take(index as int), case_sensitive),
        decreases texts.len() - index,
    {
        let seen = effective_text(texts[index].as_str(), case_sensitive);
        if Regex::new(seen.as_str()).is_err() {
            return Some(index);
        }
        proof {
            let before = texts.deep_view().take(index as int);
            let after = texts.deep_view().take(index + 1);
            assert forall|i: int| 0 <= i < after.len() implies #[trigger] pattern_valid(
                after[i],
                case_sensitive,
            ) by {
                if i < index {
                    assert(after[i] == before[i]);
                }
            }
        }
        index = index + 1;
    }
    proof {
        assert(texts.deep_view().take(index as int) =~= texts.deep_view());
    }
    None
}

/// The lines that hold a pattern: those that are not empty.
pub open spec fn pattern_lines(lines: Seq<Seq<char>>) -> Seq<Seq<char>> {
    lines.filter(|line: Seq<char>| line.len() > 0)
}

/// Makes the list of patterns of the lines of a pattern file: every line
/// that is not empty is one pattern, and the patterns stand in ascending
/// order of length, those of one length as the file has them.
pub fn patterns_from_lines(lines: &Vec<String>) -> (patterns: Vec<String>)
    ensures
        stably_sorts(patterns.deep_view(), pattern_lines(lines.deep_view())),
{
    let mut kept: Vec<String> = Vec::new();
    let mut index: usize = 0;
    proof {
        reveal(Seq::filter);
    }
    while index < lines.len()
        invariant
            index <= lines.len(),
            kept.deep_view() == pattern_lines(lines.deep_view().take(index as int)),
        decreases lines.len() - index,
    {
        let ghost seen = lines.deep_view().take(index as int);
        let ghost held = kept.deep_view();
        proof {
            reveal(Seq::filter);
            assert(lines.deep_view().take(index + 1) =~= seen.push(lines[index as int]@));
            assert(seen.push(lines[index as int]@).drop_last() =~= seen);
        }
        if !lines[index].as_str().is_empty() {
            kept.push(lines[index].clone());
            proof {
                assert(kept.deep_view() =~= held.push(lines[index as int]@));
            }
        }
        index = index + 1;
    }
    proof {
        assert(lines.deep_view().take(index as int) =~= lines.deep_view());
    }
    sort_by_length(&kept)
}

/// The order of the patterns does not change what matches: a list of
/// patterns and its ordering by length accept the same addresses.
pub proof fn law_order_is_immaterial(
    address: Seq<char>,
    sorted: Seq<Seq<char>>,
    given: Seq<Seq<char>>,
    case_sensitive: bool,
)
    requires
        stably_sorts(sorted, given),
    ensures
        matches_any(address, sorted, case_sensitive) == matches_any(address, given, case_sensitive),
{
    lemma_same_texts(sorted, given);
    if matches_any(address, sorted, case_sensitive) {
        let i = choose|i: int|
            0 <= i < sorted.len() && #[trigger] pattern_hits(sorted[i], address, case_sensitive);
        assert(sorted.contains(sorted[i]));
        let j = choose|j: int| 0 <= j < given.len() && given[j] == sorted[i];
        assert(pattern_hits(given[j], address, case_sensitive));
    }
    if matches_any(address, given, case_sensitive) {
        let i = choose|i: int|
            0 <= i < given.len() && #[trigger] pattern_hits(given[i], address, case_sensitive);
        assert(given.contains(given[i]));
        let j = choose|j: int| 0 <= j < sorted.len() && sorted[j] == given[i];
        assert(pattern_hits(sorted[j], address, case_sensitive));
    }
}

/// Where case does not count, it counts neither in the address nor in the
/// patterns: the address in capital letters, tested against the patterns in
/// small letters, matches if and only if the address matches the patterns.
pub proof fn law_case_is_ignored(address: Seq<char>, patterns: Seq<Seq<char>>)
    ensures
        matches_any(address, patterns, false) == matches_any(
            uppercased(address),
            patterns.map_values(|pattern: Seq<char>| folded(pattern)),
            false,
        ),
{
    let small = patterns.map_values(|pattern: Seq<char>| folded(pattern));
    let capital = uppercased(address);
    lemma_fold_after_uppercase(address);
    assert forall|i: int| 0 <= i < patterns.len() implies pattern_hits(patterns[i], address, false)
        == pattern_hits(small[i], capital, false) by {
        lemma_fold_idempotent(patterns[i]);
    }
    if matches_any(address, patterns, false) {
        let i = choose|i: int|
            0 <= i < patterns.len() && #[trigger] pattern_hits(patterns[i], address, false);
        assert(pattern_hits(small[i], capital, false));
    }
    if matches_any(capital, small, false) {
        let i = choose|i: int|
            0 <= i < small.len() && #[trigger] pattern_hits(small[i], capital, false);
        assert(pattern_hits(patterns[i], address, false));
    }
}

/// The same of a single pattern.
pub proof fn law_case_is_ignored_by_one(address: Seq<char>, pattern: Seq<char>)
    ensures
        matches_any(address, seq![pattern], false) == matches_any(
            uppercased(address),
            seq![folded(pattern)],
            false,
        ),
{
    law_case_is_ignored(address, seq![pattern]);
    assert(seq![pattern].map_values(|p: Seq<char>| folded(p)) =~= seq![folded(pattern)]);
}

impl PatternSet {
    /// The texts of the patterns, in the order in which they are tried.
    pub closed spec fn texts(&self) -> Seq<Seq<char>> {
        Seq::new(self.patterns.len() as nat, |i: int| self.patterns[i].text@)
    }

    /// Whether case counts.
    pub closed spec fn case_sensitive(&self) -> bool {
        self.case_sensitive
    }

    /// The set holds a pattern, its patterns stand shortest first, and each
    /// of them is compiled from the text that the engine sees under the
    /// set's policy.
    pub closed spec fn wf(&self) -> bool {
        &&& self.patterns.len() > 0
        &&& length_sorted(self.texts())
        &&& forall|i: int|
            0 <= i < self.patterns.len() ==> compiled(
                effective(#[trigger] self.patterns[i].text@, self.case_sensitive),
            ) == Some(language(self.patterns[i].expression))
    }

    /// A well-formed set is not empty, stands in ascending order of length,
    /// and holds no pattern that the engine refuses.
    pub proof fn law_well_formed(&self)
        requires
            self.wf(),
        ensures
            self.texts().len() > 0,
            length_sorted(self.texts()),
            all_valid(self.texts(), self.case_sensitive()),
    {
        assert forall|i: int| 0 <= i < self.texts().len() implies #[trigger] pattern_valid(
            self.texts()[i],
            self.case_sensitive(),
        ) by {
            assert(self.texts()[i] == self.patterns[i].text@);
        }
    }

    /// Makes the pattern set of a list of texts: the texts in ascending
    /// order of length, those of one length as they came, each compiled
    /// under the given policy. An empty list and a list with a pattern that
    /// the engine refuses are errors.
    pub fn new(texts: &Vec<String>, case_sensitive: bool) -> (made: Result<PatternSet, PatternError>)
        ensures
            match made {
                Ok(set) => {
                    &&& texts.len() > 0
                    &&& all_valid(texts.deep_view(), case_sensitive)
                    &&& set.wf()
                    &&& set.case_sensitive() == case_sensitive
                    &&& stably_sorts(set.texts(), texts.deep_view())
                },
                Err(PatternError::Empty) => texts.len() == 0,
                Err(PatternError::Malformed { index }) => {
                    &&& index < texts.len()
                    &&& !pattern_valid(texts.deep_view()[index as int], case_sensitive)
                    &&& all_valid(texts.deep_view().take(index as int), case_sensitive)
                },
            },
    {
        if texts.len() == 0 {
            return Err(PatternError::Empty);
        }
        if let Some(index) = first_malformed(texts, case_sensitive) {
            return Err(PatternError::Malformed { index });
        }
        let ghost given = texts.deep_view();
        let sorted = sort_by_length(texts);
        proof {
            lemma_same_texts(sorted.deep_view(), given);
        }
        let mut patterns: Vec<Pattern> = Vec::new();
        let mut index: usize = 0;
        while index < sorted.len()
            invariant
                index <= sorted.len(),
                patterns.len() == index,
                all_valid(given, case_sensitive),
                forall|text: Seq<char>| sorted.deep_view().contains(text) <==> given.contains(text),
                forall|i: int|
                    0 <= i < index ==> (#[trigger] patterns[i]).text@ == sorted.deep_view()[i],
                forall|i: int|
                    0 <= i < index ==> compiled(
                        effective(#[trigger] patterns[i].text@, case_sensitive),
                    ) == Some(language(patterns[i].expression)),
            decreases sorted.len() - index,
        {
            let text = sorted[index].clone();
            let seen = effective_text(text.as_str(), case_sensitive);
            proof {
                assert(sorted.deep_view()[index as int] == text@);
                assert(given.contains(text@));
                let at = choose|at: int| 0 <= at < given.len() && given[at] == text@;
                assert(pattern_valid(given[at], case_sensitive));
            }
            match Regex::new(seen.as_str()) {
                Ok(expression) => {
                    patterns.push(Pattern { text, expression });
                },
                Err(_) => {
                    proof {
                        assert(false);
                    }
                },
            }
            index = index + 1;
        }
        let set = PatternSet { case_sensitive, patterns };
        proof {
            assert(set.texts() =~= sorted.deep_view());
        }
        Ok(set)
    }

    /// Whether case counts in this set's matching.
    pub fn is_case_sensitive(&self) -> (policy: bool)
        ensures
            policy == self.case_sensitive(),
    {
        self.case_sensitive
    }

    /// The number of patterns.
    pub fn len(&self) -> (n: usize)
        ensures
            n == self.texts().len(),
    {
        self.patterns.len()
    }

    /// The text of the pattern at a position of the set.
    pub fn text(&self, index: usize) -> (text: &str)
        requires
            index < self.texts().len(),
        ensures
            text@ == self.texts()[index as int],
    {
        self.patterns[index].text.as_str()
    }

    /// Whether one of the compiled expressions finds a match in the text.
    fn finds(&self, seen: &str) -> (hit: bool)
        requires
            self.wf(),
        ensures
            hit == exists|i: int|
                0 <= i < self.patterns.len() && language(
                    (#[trigger] self.patterns[i]).expression,
                ).contains(seen@),
    {
        let mut index: usize = 0;
        while index < self.patterns.len()
            invariant
                index <= self.patterns.len(),
                forall|i: int|
                    0 <= i < index ==> !language((#[trigger] self.patterns[i]).expression).contains(
                        seen@,
                    ),
            decreases self.patterns.len() - index,
        {
            if self.patterns[index].expression.is_match(seen) {
                return true;
            }
            index = index + 1;
        }
        false
    }

    /// Tests an address against the set: whether at least one pattern
    /// matches somewhere in it. Where case does not count, the address is
    /// folded as the patterns were. The patterns are tried shortest first,
    /// and the first hit ends the test.
    pub fn matches(&self, address: &str) -> (hit: bool)
        requires
            self.wf(),
        ensures
            hit == matches_any(address@, self.texts(), self.case_sensitive()),
    {
        let hit = if self.case_sensitive {
            self.finds(address)
        } else {
            let seen = address.to_ascii_lowercase();
            self.finds(seen.as_str())
        };
        proof {
            let seen = effective(address@, self.case_sensitive);
            if hit {
                let i = choose|i: int|
                    0 <= i < self.patterns.len() && language(
                        (#[trigger] self.patterns[i]).expression,
                    ).contains(seen);
                assert(pattern_hits(self.texts()[i], address@, self.case_sensitive));
            }
            if matches_any(address@, self.texts(), self.case_sensitive) {
                let i = choose|i: int|
                    0 <= i < self.texts().len() && #[trigger] pattern_hits(
                        self.texts()[i],
                        address@,
                        self.case_sensitive,
                    );
                assert(language(self.patterns[i].expression).contains(seen));
            }
        }
        hit
    }
}

} // verus!
