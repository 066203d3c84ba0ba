//! The general properties of the search engine, stated and proved once for
//! all queries and contents.

use vstd::prelude::*;

use crate::search::insensitive_matches;
use crate::search::lower_of;
use crate::search::matches_query;
use crate::search::matches_query_folded;
use crate::search::sensitive_matches;
use crate::text::contains_seq;
use crate::text::is_match_at;
use crate::text::lines_of;

verus! {

/// `sub` appears within `sup` in order: `sub` can be had from `sup` by
/// deleting elements, never by reordering them.
pub open spec fn is_subsequence_of<A>(sub: Seq<A>, sup: Seq<A>) -> bool
    decreases sup.len(),
{
    if sub.len() == 0 {
        true
    } else if sup.len() == 0 {
        false
    } else {
        ||| (sub.last() == sup.last() && is_subsequence_of(sub.drop_last(), sup.drop_last()))
        ||| is_subsequence_of(sub, sup.drop_last())
    }
}

proof fn lemma_filter_is_subsequence<A>(s: Seq<A>, pred: spec_fn(A) -> bool)
    ensures
        is_subsequence_of(s.filter(pred), s),
    decreases s.len(),
{
    reveal(Seq::filter);
    if s.len() > 0 {
        lemma_filter_is_subsequence(s.drop_last(), pred);
        if pred(s.last()) {
            assert(s.filter(pred).drop_last() =~= s.drop_last().filter(pred));
        }
    }
}

proof fn lemma_filter_len_monotone<A>(s: Seq<A>, p: spec_fn(A) -> bool, q: spec_fn(A) -> bool)
    requires
        forall|i: int| 0 <= i < s.len() && p(#[trigger] s[i]) ==> q(s[i]),
    ensures
        s.filter(p).len() <= s.filter(q).len(),
    decreases s.len(),
{
    reveal(Seq::filter);
    if s.len() > 0 {
        assert(forall|i: int| 0 <= i < s.drop_last().len() ==> #[trigger] s.drop_last()[i] == s[i]);
        lemma_filter_len_monotone(s.drop_last(), p, q);
        assert(s[s.len() - 1] == s.last());
    }
}

proof fn lemma_filter_all_true<A>(s: Seq<A>, pred: spec_fn(A) -> bool)
    requires
        forall|i: int| 0 <= i < s.len() ==> pred(#[trigger] s[i]),
    ensures
        s.filter(pred) == s,
    decreases s.len(),
{
    reveal(Seq::filter);
    if s.len() > 0 {
        assert(forall|i: int| 0 <= i < s.drop_last().len() ==> #[trigger] s.drop_last()[i] == s[i]);
        lemma_filter_all_true(s.drop_last(), pred);
        assert(s[s.len() - 1] == s.last());
        assert(s.filter(pred) =~= s);
    }
}

/// The exact search is sound and complete: every line it returns contains the
/// query as an exact substring, and every line of the contents that it does
/// not return does not contain the query.
pub proof fn lemma_search_characterization(query: Seq<char>, contents: Seq<char>)
    ensures
        forall|i: int|
            0 <= i < sensitive_matches(query, contents).len() ==> contains_seq(
                #[trigger] sensitive_matches(query, contents)[i],
                query,
            ),
        forall|i: int|
            0 <= i < lines_of(contents).len() && !sensitive_matches(query, contents).contains(
                #[trigger] lines_of(contents)[i],
            ) ==> !contains_seq(lines_of(contents)[i], query),
{
    let result = sensitive_matches(query, contents);
    assert forall|i: int| 0 <= i < result.len() implies contains_seq(result[i], query) by {
        lines_of(contents).lemma_filter_pred(matches_query(query), i);
    };
    assert forall|i: int|
        0 <= i < lines_of(contents).len() && !result.contains(lines_of(contents)[i])
        implies !contains_seq(lines_of(contents)[i], query) by {
        if contains_seq(lines_of(contents)[i], query) {
            lines_of(contents).lemma_filter_contains(matches_query(query), i);
        }
    };
}

/// Case-insensitive matching is more permissive than exact matching: wherever
/// lowercasing preserves containment of the query, the case-insensitive
/// search returns at least as many lines as the exact search on the same
/// query and contents.
pub proof fn lemma_insensitive_is_more_permissive(query: Seq<char>, contents: Seq<char>)
    ensures
        (forall|line: Seq<char>|
            #[trigger] contains_seq(line, query) ==> contains_seq(lower_of(line), lower_of(query)))
            ==> sensitive_matches(query, contents).len() <= insensitive_matches(
            query,
            contents,
        ).len(),
{
    if (forall|line: Seq<char>|
        #[trigger] contains_seq(line, query) ==> contains_seq(lower_of(line), lower_of(query))) {
        lemma_filter_len_monotone(
            lines_of(contents),
            matches_query(query),
            matches_query_folded(query),
        );
    }
}

/// Searching is idempotent: with the same query, contents and mode, any two
/// runs of the search return the same lines in the same order.
pub proof fn lemma_search_idempotent(
    query: Seq<char>,
    contents: Seq<char>,
    case_sensitive: bool,
    first: Seq<Seq<char>>,
    second: Seq<Seq<char>>,
)
    requires
        first == (if case_sensitive {
            sensitive_matches(query, contents)
        } else {
            insensitive_matches(query, contents)
        }),
        second == (if case_sensitive {
            sensitive_matches(query, contents)
        } else {
            insensitive_matches(query, contents)
        }),
    ensures
        first == second,
{
}

/// Order preservation: the lines either search returns form a subsequence of
/// the lines of the contents, in the same relative order as their source
/// lines.
pub proof fn lemma_search_preserves_order(query: Seq<char>, contents: Seq<char>)
    ensures
        is_subsequence_of(sensitive_matches(query, contents), lines_of(contents)),
        is_subsequence_of(insensitive_matches(query, contents), lines_of(contents)),
{
    lemma_filter_is_subsequence(lines_of(contents), matches_query(query));
    lemma_filter_is_subsequence(lines_of(contents), matches_query_folded(query));
}

/// An empty query matches every line: searching for it returns every line of
/// the contents unchanged.
pub proof fn lemma_empty_query_matches_all(contents: Seq<char>)
    ensures
        sensitive_matches(Seq::<char>::empty(), contents) == lines_of(contents),
{
    assert forall|i: int| 0 <= i < lines_of(contents).len() implies matches_query(
        Seq::<char>::empty(),
    )(lines_of(contents)[i]) by {
        let line = lines_of(contents)[i];
        assert(line.subrange(0, 0) =~= Seq::<char>::empty());
        assert(is_match_at(line, Seq::<char>::empty(), 0));
    };
    lemma_filter_all_true(lines_of(contents), matches_query(Seq::<char>::empty()));
}

} // verus!
