//! The search engine: case-sensitive and case-insensitive line search.

use vstd::prelude::*;

use crate::config::Config;
use crate::text::contains_seq;
use crate::text::contains_substring;
use crate::text::lines_of;
use crate::text::split_lines;

verus! {

/// The lowercase form of a string, as the host's standard case folding
/// produces it.
pub uninterp spec fn lower_of(s: Seq<char>) -> Seq<char>;

/// Relies on str::to_lowercase of std: the lowercase form of a string
/// depends on its characters alone.
#[verifier::external_body]
fn to_lowercase(s: &str) -> (r: String)
    ensures
        r@ == lower_of(s@),
{
    s.to_lowercase()
}

/// Whether a line matches `query` exactly: it contains `query` as a
/// contiguous substring.
pub open spec fn matches_query(query: Seq<char>) -> spec_fn(Seq<char>) -> bool {
    |line: Seq<char>| contains_seq(line, query)
}

/// Whether a line matches `query` case-insensitively: the lowercased line
/// contains the lowercased query as a contiguous substring.
pub open spec fn matches_query_folded(query: Seq<char>) -> spec_fn(Seq<char>) -> bool {
    |line: Seq<char>| contains_seq(lower_of(line), lower_of(query))
}

/// What a case-sensitive search returns: the lines of `contents` that
/// contain `query`, in their original order.
pub open spec fn sensitive_matches(query: Seq<char>, contents: Seq<char>) -> Seq<Seq<char>> {
    lines_of(contents).filter(matches_query(query))
}

/// What a case-insensitive search returns: the lines of `contents` whose
/// lowercase form contains the lowercase form of `query`, in their original
/// order and with their original casing.
pub open spec fn insensitive_matches(query: Seq<char>, contents: Seq<char>) -> Seq<Seq<char>> {
    lines_of(contents).filter(matches_query_folded(query))
}

/// Returns every line of `contents` that contains `query` as an exact
/// substring, in file order.  The returned lines are views into `contents`.
pub fn search<'a>(query: &str, contents: &'a str) -> (results: Vec<&'a str>)
    ensures
        results.deep_view() == sensitive_matches(query@, contents@),
{
    let lines = split_lines(contents);
    let mut results: Vec<&'a str> = Vec::new();
    let ghost all = lines.deep_view();
    let mut i: usize = 0;
    while i < lines.len()
        invariant
            all == lines_of(contents@),
            all == lines.deep_view(),
            i <= lines.len(),
            lines.len() == all.len(),
            results.deep_view() == all.take(i as int).filter(matches_query(query@)),
        decreases lines.len() - i,
    {
        let ghost prior = results.deep_view();
        let line = lines[i];
        if contains_substring(line, query) {
            results.push(line);
            proof {
                assert(results.deep_view() =~= prior.push(line@));
            }
        }
        proof {
            assert(all.take(i + 1) =~= all.take(i as int).push(line@));
            all.take(i as int).lemma_filter_push(line@, matches_query(query@));
        }
        i += 1;
    }
    proof {
        assert(all.take(lines.len() as int) =~= all);
    }
    results
}

/// Returns every line of `contents` that contains `query` after both the
/// line and the query are lowercased, in file order.  The returned lines are
/// views into `contents` and keep their original casing.
pub fn search_case_insensitive<'a>(query: &str, contents: &'a str) -> (results: Vec<&'a str>)
    ensures
        results.deep_view() == insensitive_matches(query@, contents@),
{
    let folded_query = to_lowercase(query);
    let lines = split_lines(contents);
    let mut results: Vec<&'a str> = Vec::new();
    let ghost all = lines.deep_view();
    let mut i: usize = 0;
    while i < lines.len()
        invariant
            all == lines_of(contents@),
            all == lines.deep_view(),
            i <= lines.len(),
            lines.len() == all.len(),
            folded_query@ == lower_of(query@),
            results.deep_view() == all.take(i as int).filter(matches_query_folded(query@)),
        decreases lines.len() - i,
    {
        let ghost prior = results.deep_view();
        let line = lines[i];
        let folded_line = to_lowercase(line);
        if contains_substring(folded_line.as_str(), folded_query.as_str()) {
            results.push(line);
            proof {
                assert(results.deep_view() =~= prior.push(line@));
            }
        }
        proof {
            assert(all.take(i + 1) =~= all.take(i as int).push(line@));
            all.take(i as int).lemma_filter_push(line@, matches_query_folded(query@));
        }
        i += 1;
    }
    proof {
        assert(all.take(lines.len() as int) =~= all);
    }
    results
}

/// Runs the search that `config` selects: the exact search when
/// `case_sensitive` holds, the case-insensitive one otherwise, always with
/// the configured query.
pub fn search_with_config<'a>(config: &Config, contents: &'a str) -> (results: Vec<&'a str>)
    ensures
        results.deep_view() == (if config.case_sensitive {
            sensitive_matches(config.query@, contents@)
        } else {
            insensitive_matches(config.query@, contents@)
        }),
{
    if config.case_sensitive {
        search(config.query.as_str(), contents)
    } else {
        search_case_insensitive(config.query.as_str(), contents)
    }
}

} // verus!
