//! What holds of the catalog and its searches on every input.

use crate::storage::admission;
use crate::storage::catalog_of;
use crate::storage::field_matches;
use crate::storage::is_catalog;
use crate::storage::lemma_matching_papers_unfold;
use crate::storage::matching_papers;
use crate::storage::paper_matches;
use crate::storage::spec_replace;
use crate::storage::spec_search;
use crate::storage::spec_search_result;
use crate::storage::PaperView;
use vstd::prelude::*;

verus! {

/// Putting the same catalog in place a second time changes nothing: not
/// the catalog, and so neither its size nor the answer to any search.
pub proof fn lemma_replace_is_idempotent(
    current: Seq<PaperView>,
    entries: Seq<(Seq<char>, PaperView)>,
    pattern: Seq<char>,
    any_field: bool,
    limit: nat,
)
    ensures
        ({
            let once = spec_replace(current, catalog_of(entries));
            let twice = spec_replace(once, catalog_of(entries));
            &&& twice == once
            &&& twice.len() == once.len()
            &&& spec_search_result(twice, pattern, any_field, limit) == spec_search_result(
                once,
                pattern,
                any_field,
                limit,
            )
        }),
{
}

/// A search never returns more than `limit` papers, and its result is
/// truncated exactly where more papers match than it returned.
///
/// Where more than `limit` papers match, it returns the first `limit` of
/// them and the result is truncated. Where at most `limit` match, it
/// returns them all and the result is not truncated.
pub proof fn lemma_search_truncates(
    papers: Seq<PaperView>,
    pattern: Seq<char>,
    any_field: bool,
    limit: nat,
)
    ensures
        ({
            let matches = matching_papers(papers, pattern, any_field);
            let (truncated, found) = spec_search(papers, pattern, any_field, limit);
            &&& found.len() <= limit
            &&& truncated <==> matches.len() > found.len()
            &&& limit < matches.len() ==> found == matches.take(limit as int) && found.len()
                == limit && truncated
            &&& limit >= matches.len() ==> found == matches && !truncated
        }),
{
}

/// An empty catalog answers every search with no paper and a result that
/// is not truncated, whatever the limit.
pub proof fn lemma_search_in_empty_catalog(pattern: Seq<char>, any_field: bool, limit: nat)
    ensures
        spec_search(Seq::empty(), pattern, any_field, limit) == (
            false,
            Seq::<PaperView>::empty(),
        ),
{
    lemma_matching_papers_unfold(Seq::empty(), pattern, any_field);
}

/// The matches of a catalog, each as often as it occurs, are the papers
/// of the catalog that match, each as often as it occurs.
pub proof fn lemma_matching_papers_as_multiset(
    papers: Seq<PaperView>,
    pattern: Seq<char>,
    any_field: bool,
)
    ensures
        matching_papers(papers, pattern, any_field).to_multiset() == papers.to_multiset().filter(
            admission(pattern, any_field),
        ),
    decreases papers.len(),
{
    broadcast use vstd::multiset::group_multiset_axioms;

    let admits = admission(pattern, any_field);
    let matches = matching_papers(papers, pattern, any_field);
    lemma_matching_papers_unfold(papers, pattern, any_field);
    if papers.len() == 0 {
        assert(papers =~= Seq::<PaperView>::empty());
        assert(matches.to_multiset() =~= papers.to_multiset().filter(admits)) by {
            vstd::seq_lib::to_multiset_len(papers);
            vstd::seq_lib::to_multiset_len(matches);
            assert forall|paper: PaperView|
                matches.to_multiset().count(paper) == papers.to_multiset().filter(admits).count(
                    paper,
                ) by {
                vstd::seq_lib::to_multiset_contains(papers, paper);
                vstd::seq_lib::to_multiset_contains(matches, paper);
            }
        }
    } else {
        let shorter = papers.drop_last();
        let last = papers.last();
        let before = matching_papers(shorter, pattern, any_field);
        lemma_matching_papers_as_multiset(shorter, pattern, any_field);
        assert(papers =~= shorter.push(last));
        vstd::seq_lib::to_multiset_build(shorter, last);
        vstd::seq_lib::to_multiset_build(before, last);
        assert(matches.to_multiset() =~= papers.to_multiset().filter(admits)) by {
            assert forall|paper: PaperView|
                matches.to_multiset().count(paper) == papers.to_multiset().filter(admits).count(
                    paper,
                ) by {
                assert(before.to_multiset().count(paper) == shorter.to_multiset().filter(
                    admits,
                ).count(paper));
                assert(admits(paper) == paper_matches(paper, pattern, any_field));
                assert(admits(last) == paper_matches(last, pattern, any_field));
            }
        }
    }
}

/// The answer to a search does not depend on the order in which the
/// catalog holds its papers, as far as it can: whether the result is
/// truncated and how many papers it holds are the same for two catalogs of
/// the same papers, and so are the papers where the result is not
/// truncated. Which papers a truncated result leaves out is a matter of the
/// order.
pub proof fn lemma_search_ignores_order(
    first: Seq<PaperView>,
    second: Seq<PaperView>,
    pattern: Seq<char>,
    any_field: bool,
    limit: nat,
)
    requires
        first.to_multiset() == second.to_multiset(),
    ensures
        ({
            let (first_truncated, first_found) = spec_search(first, pattern, any_field, limit);
            let (second_truncated, second_found) = spec_search(
                second,
                pattern,
                any_field,
                limit,
            );
            &&& first_truncated == second_truncated
            &&& first_found.len() == second_found.len()
            &&& !first_truncated ==> first_found.to_multiset() == second_found.to_multiset()
        }),
{
    lemma_matching_papers_as_multiset(first, pattern, any_field);
    lemma_matching_papers_as_multiset(second, pattern, any_field);
    vstd::seq_lib::to_multiset_len(matching_papers(first, pattern, any_field));
    vstd::seq_lib::to_multiset_len(matching_papers(second, pattern, any_field));
}

/// A search in any field admits a paper exactly for a match in its number,
/// its title or its author.
pub proof fn lemma_any_field_is_a_union(paper: PaperView, pattern: Seq<char>)
    ensures
        paper_matches(paper, pattern, true) <==> field_matches(paper.number, pattern)
            || field_matches(paper.title, pattern) || field_matches(paper.author, pattern),
        paper_matches(paper, pattern, false) <==> field_matches(paper.number, pattern),
{
}

/// The matches of a catalog are papers of that catalog, each of them
/// matches, each match is among them, and none is there twice.
pub proof fn lemma_matching_papers(papers: Seq<PaperView>, pattern: Seq<char>, any_field: bool)
    requires
        is_catalog(papers),
    ensures
        forall|i: int|
            0 <= i < matching_papers(papers, pattern, any_field).len() ==> papers.contains(
                #[trigger] matching_papers(papers, pattern, any_field)[i],
            ) && paper_matches(matching_papers(papers, pattern, any_field)[i], pattern, any_field),
        forall|i: int|
            0 <= i < papers.len() && paper_matches(#[trigger] papers[i], pattern, any_field)
                ==> matching_papers(papers, pattern, any_field).contains(papers[i]),
        matching_papers(papers, pattern, any_field).no_duplicates(),
    decreases papers.len(),
{
    let matches = matching_papers(papers, pattern, any_field);
    lemma_matching_papers_unfold(papers, pattern, any_field);
    if papers.len() > 0 {
        let shorter = papers.drop_last();
        let last = papers.last();
        let before = matching_papers(shorter, pattern, any_field);
        assert(is_catalog(shorter)) by {
            assert forall|i: int| 0 <= i < shorter.len() implies (
            #[trigger] shorter[i]).number is Some by {
                assert(shorter[i] == papers[i]);
            }
            assert forall|i: int, j: int| 0 <= i < j < shorter.len() implies (
            #[trigger] shorter[i]).number != (#[trigger] shorter[j]).number by {
                assert(shorter[i] == papers[i]);
                assert(shorter[j] == papers[j]);
            }
        }
        lemma_matching_papers(shorter, pattern, any_field);
        assert forall|i: int| 0 <= i < matches.len() implies papers.contains(
            #[trigger] matches[i],
        ) && paper_matches(matches[i], pattern, any_field) by {
            if i < before.len() {
                assert(matches[i] == before[i]);
                assert(shorter.contains(before[i]));
                let k = choose|k: int| 0 <= k < shorter.len() && shorter[k] == before[i];
                assert(papers[k] == before[i]);
            } else {
                assert(matches[i] == last);
                assert(papers[papers.len() - 1] == last);
            }
        }
        assert forall|i: int|
            0 <= i < papers.len() && paper_matches(
                #[trigger] papers[i],
                pattern,
                any_field,
            ) implies matches.contains(papers[i]) by {
            if i < shorter.len() {
                assert(shorter[i] == papers[i]);
                assert(before.contains(shorter[i]));
                let k = choose|k: int| 0 <= k < before.len() && before[k] == shorter[i];
                assert(matches[k] == papers[i]);
            } else {
                assert(matches[matches.len() - 1] == papers[i]);
            }
        }
        assert forall|i: int, j: int|
            0 <= i < matches.len() && 0 <= j < matches.len() && i != j implies matches[i]
            != matches[j] by {
            if i < before.len() && j < before.len() {
                assert(before[i] != before[j]);
            } else {
                let inner = if i < before.len() {
                    i
                } else {
                    j
                };
                assert(shorter.contains(before[inner]));
                let k = choose|k: int| 0 <= k < shorter.len() && shorter[k] == before[inner];
                assert(papers[k].number != papers[papers.len() - 1].number);
            }
        }
    }
}

/// Every paper that a search returns stands in the catalog that was
/// searched, matches the pattern, and is returned once. A search whose
/// result is not truncated returns every paper that matches.
pub proof fn lemma_search_returns_each_match_once(
    papers: Seq<PaperView>,
    pattern: Seq<char>,
    any_field: bool,
    limit: nat,
)
    requires
        is_catalog(papers),
    ensures
        ({
            let (truncated, found) = spec_search(papers, pattern, any_field, limit);
            &&& forall|i: int|
                0 <= i < found.len() ==> papers.contains(#[trigger] found[i]) && paper_matches(
                    found[i],
                    pattern,
                    any_field,
                )
            &&& found.no_duplicates()
            &&& !truncated ==> forall|i: int|
                0 <= i < papers.len() && paper_matches(#[trigger] papers[i], pattern, any_field)
                    ==> found.contains(papers[i])
        }),
{
    let matches = matching_papers(papers, pattern, any_field);
    let (truncated, found) = spec_search(papers, pattern, any_field, limit);
    lemma_matching_papers(papers, pattern, any_field);
    lemma_search_truncates(papers, pattern, any_field, limit);
    assert forall|i: int| 0 <= i < found.len() implies papers.contains(#[trigger] found[i])
        && paper_matches(found[i], pattern, any_field) by {
        assert(found[i] == matches[i]);
    }
    assert forall|i: int, j: int|
        0 <= i < found.len() && 0 <= j < found.len() && i != j implies found[i] != found[j] by {
        assert(found[i] == matches[i]);
        assert(found[j] == matches[j]);
    }
    if !truncated {
        assert(found == matches);
    }
}

} // verus!
