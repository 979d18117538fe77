//! The regular-expression engine, as far as the matcher relies on it.

use regex::Regex;
use vstd::prelude::*;

verus! {

/// `regex::Regex`, a compiled expression. Nothing inside it is seen here.
#[verifier::external_type_specification]
#[verifier::external_body]
pub struct ExRegex(regex::Regex);

/// `regex::Error`, the reason for which a pattern is refused. Nothing
/// inside it is seen here.
#[verifier::external_type_specification]
#[verifier::external_body]
pub struct ExRegexError(regex::Error);

/// What `regex::Regex::new` makes of a pattern: `None` where it refuses the
/// pattern, for its syntax or for the size of what it compiles to, else the
/// set of texts in which the compiled expression finds a match somewhere.
pub uninterp spec fn compiled(pattern: Seq<char>) -> Option<Set<Seq<char>>>;

/// The texts in which a compiled expression finds a match somewhere.
pub uninterp spec fn language(expression: Regex) -> Set<Seq<char>>;

/// `regex::Regex::new` compiles a pattern or refuses it, and the outcome
/// depends on the pattern's text alone: it is the one that `compiled` names.
pub assume_specification[ Regex::new ](re: &str) -> (r: Result<Regex, regex::Error>)
    ensures
        match r {
            Ok(expression) => compiled(re@) == Some(language(expression)),
            Err(_) => compiled(re@) is None,
        },
;

/// `regex::Regex::is_match` says whether the expression matches anywhere in
/// the haystack: whether the haystack is in the expression's language.
pub assume_specification[ Regex::is_match ](expression: &Regex, haystack: &str) -> (found: bool)
    ensures
        found == language(*expression).contains(haystack@),
;

} // verus!
