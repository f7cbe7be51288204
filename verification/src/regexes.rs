//! Regular expressions, compiled and run with the `regex` crate. The
//! patterns are the library's own and are built in verified code; what
//! `regex` does with them is named here, with the few facts about the
//! library's patterns that the crate's documentation gives.
use vstd::prelude::*;

use crate::search::{day_pattern, query_words_of, separator_pattern, year_pattern};
use crate::seed_parts::{is_numbered_part, is_plain_root, part_pattern_of, short_root_limit};
use crate::text::{all_ascii_digits, is_ascii_text};

verus! {

/// Whether `regex::Regex::new` compiles a pattern.
pub uninterp spec fn regex_compiles(pattern: Seq<char>) -> bool;

/// Whether a compiled pattern matches somewhere in a text
/// (`regex::Regex::is_match`).
pub uninterp spec fn regex_matches(pattern: Seq<char>, text: Seq<char>) -> bool;

/// The pieces of a text between the matches of a compiled pattern
/// (`regex::Regex::split`).
pub uninterp spec fn regex_pieces(pattern: Seq<char>, text: Seq<char>) -> Seq<Seq<char>>;

/// Compiles a pattern with `regex::Regex::new` and tells whether it
/// compiled. The library's patterns compile: they are plain regular
/// expressions, and a part pattern's root, free of metacharacters and at most
/// `short_root_limit` characters long, stays far within the 10 MiB limit
/// on a compiled expression.
#[verifier::external_body]
pub(crate) fn regex_is_valid(pattern: &str) -> (r: bool)
    ensures
        r == regex_compiles(pattern@),
        pattern@ == year_pattern() || pattern@ == day_pattern() || pattern@ == separator_pattern() ==> r,
        forall|root: Seq<char>|
            is_plain_root(root) && root.len() <= short_root_limit() && pattern@ == #[trigger] part_pattern_of(root)
                ==> r,
{
    regex::Regex::new(pattern).is_ok()
}

/// Tests a text against a pattern that compiles, with
/// `regex::Regex::is_match`. `\d` matches any Unicode digit, so only on
/// ASCII text do the library's patterns reduce to plain conditions: four
/// ASCII digits, one or two ASCII digits, and a root, `-`, ASCII digits and
/// `.json` at the start of the text.
#[verifier::external_body]
pub(crate) fn regex_is_match(pattern: &str, text: &str) -> (r: bool)
    requires
        regex_compiles(pattern@),
    ensures
        r == regex_matches(pattern@, text@),
        pattern@ == year_pattern() && is_ascii_text(text@) ==> (r <==> (text@.len() == 4 && all_ascii_digits(
            text@,
        ))),
        pattern@ == day_pattern() && is_ascii_text(text@) ==> (r <==> (1 <= text@.len() <= 2 && all_ascii_digits(
            text@,
        ))),
        forall|root: Seq<char>|
            is_plain_root(root) && pattern@ == #[trigger] part_pattern_of(root) && is_ascii_text(text@) ==> (r
                <==> is_numbered_part(root, text@)),
{
    regex::Regex::new(pattern).unwrap().is_match(text)
}

/// Cuts a text at the matches of a pattern that compiles, with
/// `regex::Regex::split`: the pieces between the matches, with an empty
/// piece before a match at the start and after one at the end. For the
/// separator pattern `[^a-zA-Z0-9']+`, whose matches are the longest runs of
/// other characters, the pieces are `query_words_of`.
#[verifier::external_body]
pub(crate) fn regex_split(pattern: &str, text: &str) -> (r: Vec<String>)
    requires
        regex_compiles(pattern@),
    ensures
        r@.len() == regex_pieces(pattern@, text@).len(),
        forall|i: int| 0 <= i < r@.len() ==> #[trigger] r@[i]@ == regex_pieces(pattern@, text@)[i],
        pattern@ == separator_pattern() ==> r@.len() == query_words_of(text@).len() && forall|i: int|
            0 <= i < r@.len() ==> #[trigger] r@[i]@ == query_words_of(text@)[i],
{
    regex::Regex::new(pattern).unwrap().split(text).map(|piece| piece.to_string()).collect()
}

} // verus!
