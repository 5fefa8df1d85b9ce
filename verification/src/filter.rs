//! Which file names are left out of a run: names with more than one dot
//! (backup copies such as `file.20240428bk.zip`) and names that the user's
//! regular expression matches.

use vstd::prelude::*;
use crate::text::{count_char, str_count_char, copy_str};

verus! {

/// The pattern used when the user gives none: digits next to `bk` or `bak`.
pub const DEFAULT_FILTER: &'static str = "\\d+(?:bk|bak)|(?:bk|bak)\\d+";

/// Whether `regex::Regex::new` accepts `pattern` (it refuses bad syntax and
/// patterns over its default size limit).
pub uninterp spec fn regex_compiles(pattern: Seq<char>) -> bool;

/// Whether the regex compiled from `pattern` matches somewhere in `haystack`
/// (`regex::Regex::is_match`).
pub uninterp spec fn regex_finds(pattern: Seq<char>, haystack: Seq<char>) -> bool;

/// Calls `regex::Regex::new(pattern)` and reports whether it returned `Ok`;
/// the claim is that this is `regex_compiles` of the pattern's characters.
#[verifier::external_body]
fn regex_accepts(pattern: &str) -> (ok: bool)
    ensures
        ok == regex_compiles(pattern@),
{
    regex::Regex::new(pattern).is_ok()
}

/// Compiles `pattern` with `regex::Regex::new` and calls `is_match` on
/// `haystack`; the claim is that the answer is `regex_finds(pattern, haystack)`.
#[verifier::external_body]
fn regex_is_match(pattern: &str, haystack: &str) -> (found: bool)
    requires
        regex_compiles(pattern@),
    ensures
        found == regex_finds(pattern@, haystack@),
{
    match regex::Regex::new(pattern) {
        Ok(re) => re.is_match(haystack),
        Err(_) => false,
    }
}

/// The pattern in force: the user's, or the default when the user's is empty.
pub open spec fn effective_pattern(user_pattern: Seq<char>) -> Seq<char> {
    if user_pattern.len() == 0 {
        DEFAULT_FILTER@
    } else {
        user_pattern
    }
}

/// Whether `name` is left out under `pattern`: it holds more than one dot, or
/// the pattern compiles and matches it. A pattern that does not compile
/// leaves out nothing by itself.
pub open spec fn filtered_out(pattern: Seq<char>, name: Seq<char>) -> bool {
    count_char(name, '.') > 1 || (regex_compiles(pattern) && regex_finds(pattern, name))
}

/// A name filter built once from the user's pattern.
pub struct NameFilter {
    pattern: String,
    compiles: bool,
}

impl NameFilter {
    /// The pattern that the filter applies.
    pub closed spec fn pattern(&self) -> Seq<char> {
        self.pattern@
    }

    #[verifier::type_invariant]
    closed spec fn inv(&self) -> bool {
        self.compiles == regex_compiles(self.pattern@)
    }

    /// The filter for the user's pattern (empty: the default pattern).
    pub fn new(user_pattern: &str) -> (f: NameFilter)
        ensures
            f.pattern() == effective_pattern(user_pattern@),
    {
        let pattern = if user_pattern.is_empty() {
            copy_str(DEFAULT_FILTER)
        } else {
            copy_str(user_pattern)
        };
        let compiles = regex_accepts(pattern.as_str());
        NameFilter { pattern, compiles }
    }
}

/// Whether `filename` is left out under `filter`.
pub fn should_filter(filename: &str, filter: &NameFilter) -> (r: bool)
    ensures
        r == filtered_out(filter.pattern(), filename@),
{
    proof {
        use_type_invariant(filter);
    }
    if str_count_char(filename, '.') > 1 {
        return true;
    }
    if filter.compiles {
        if regex_is_match(filter.pattern.as_str(), filename) {
            return true;
        }
    }
    false
}

/// Whether `filename` is left out under the user's pattern (empty: the default).
pub fn regex_filter(filename: &str, user_pattern: &str) -> (r: bool)
    ensures
        r == filtered_out(effective_pattern(user_pattern@), filename@),
{
    let filter = NameFilter::new(user_pattern);
    should_filter(filename, &filter)
}

/// A name with more than one dot is left out whatever the pattern.
pub proof fn law_many_dots_always_filtered(pattern: Seq<char>, name: Seq<char>)
    requires
        count_char(name, '.') > 1,
    ensures
        filtered_out(pattern, name),
{
}

/// The filter rule: a name with at most one dot is left out exactly when the
/// pattern compiles and matches it; a pattern that does not compile leaves
/// out only names with more than one dot; the pattern in force is the
/// default exactly when the user gives none.
pub proof fn law_filter_rule(user_pattern: Seq<char>, name: Seq<char>)
    ensures
        count_char(name, '.') <= 1 ==> (filtered_out(effective_pattern(user_pattern), name) <==> (regex_compiles(
            effective_pattern(user_pattern),
        ) && regex_finds(effective_pattern(user_pattern), name))),
        !regex_compiles(effective_pattern(user_pattern)) ==> (filtered_out(effective_pattern(user_pattern), name)
            <==> count_char(name, '.') > 1),
        user_pattern.len() == 0 ==> effective_pattern(user_pattern) == DEFAULT_FILTER@,
        user_pattern.len() > 0 ==> effective_pattern(user_pattern) == user_pattern,
{
}

} // verus!
