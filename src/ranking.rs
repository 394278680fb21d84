use vstd::prelude::*;
use crate::catalog::{views, CatalogItem};
use fuzzy_matcher::FuzzyMatcher;

verus! {

/// The skim fuzzy matcher's score of `pattern` against `choice`, with smart
/// case; `None` where the pattern does not match.
pub uninterp spec fn skim_score(choice: Seq<char>, pattern: Seq<char>) -> Option<i64>;

pub open spec fn is_ascii_upper(c: char) -> bool {
    'A' <= c && c <= 'Z'
}

/// Equal, or the same ASCII letter in another case.
pub open spec fn eq_ignore_ascii_case(a: char, b: char) -> bool {
    ||| a == b
    ||| is_ascii_upper(a) && b as u32 == a as u32 + 32
    ||| is_ascii_upper(b) && a as u32 == b as u32 + 32
}

pub open spec fn has_ascii_upper(s: Seq<char>) -> bool {
    exists|i: int| 0 <= i < s.len() && is_ascii_upper(#[trigger] s[i])
}

/// `pattern` is a subsequence of `choice`, characters compared exactly when
/// `case_sensitive` and else ignoring ASCII case.
pub open spec fn is_subsequence(choice: Seq<char>, pattern: Seq<char>, case_sensitive: bool) -> bool
    decreases choice.len(),
{
    if pattern.len() == 0 {
        true
    } else if choice.len() == 0 {
        false
    } else if (if case_sensitive {
        choice[0] == pattern[0]
    } else {
        eq_ignore_ascii_case(choice[0], pattern[0])
    }) {
        is_subsequence(choice.drop_first(), pattern.drop_first(), case_sensitive)
    } else {
        is_subsequence(choice.drop_first(), pattern, case_sensitive)
    }
}

/// Smart case: a pattern with an ASCII capital matches case-sensitively,
/// any other ignoring ASCII case.
pub open spec fn smart_subsequence(choice: Seq<char>, pattern: Seq<char>) -> bool {
    is_subsequence(choice, pattern, has_ascii_upper(pattern))
}

/// Relies on fuzzy_matcher's SkimMatcherV2 (default settings, smart case),
/// `fuzzy_match`: its score depends on the two texts alone, there is one
/// exactly where the pattern is a smart-case subsequence of the choice, and
/// an empty pattern scores zero.
#[verifier::external_body]
fn fuzzy_match(choice: &str, pattern: &str) -> (r: Option<i64>)
    ensures
        r == skim_score(choice@, pattern@),
        r.is_some() == smart_subsequence(choice@, pattern@),
        pattern@.len() == 0 ==> r == Some(0i64),
{
    fuzzy_matcher::skim::SkimMatcherV2::default().smart_case().fuzzy_match(choice, pattern)
}

/// A score, a failed match counting zero.
pub open spec fn or_zero(o: Option<i64>) -> i64 {
    match o {
        Some(s) => s,
        None => 0,
    }
}

pub open spec fn max_i64(a: i64, b: i64) -> i64 {
    if a >= b {
        a
    } else {
        b
    }
}

/// The best of the domain scores, failed matches counting zero; `None` for
/// no domain.
pub open spec fn best_of(domains: Seq<Option<i64>>) -> Option<i64>
    decreases domains.len(),
{
    if domains.len() == 0 {
        None
    } else {
        let s = or_zero(domains.last());
        match best_of(domains.drop_last()) {
            Some(b) => Some(max_i64(b, s)),
            None => Some(s),
        }
    }
}

/// The score of an item from the matcher's results on its title and on each
/// of its domains: the best of them, a failed match counting zero.
pub open spec fn combined(title: Option<i64>, domains: Seq<Option<i64>>) -> i64 {
    max_i64(or_zero(title), or_zero(best_of(domains)))
}

/// The matcher's results for a query on each domain, in order.
pub open spec fn domain_matches(domains: Seq<Seq<char>>, query: Seq<char>) -> Seq<Option<i64>> {
    domains.map_values(|d: Seq<char>| skim_score(d, query))
}

/// An item's score: the best of its title's score and its domains' scores.
pub open spec fn item_score(title: Seq<char>, domains: Seq<Seq<char>>, query: Seq<char>) -> i64 {
    combined(skim_score(title, query), domain_matches(domains, query))
}

/// Combines the matcher's results on an item's title and domains into the
/// item's score.
pub fn combine_scores(title: Option<i64>, domains: &Vec<Option<i64>>) -> (r: i64)
    ensures
        r == combined(title, domains@),
{
    let mut best: Option<i64> = None;
    let mut i: usize = 0;
    while i < domains.len()
        invariant
            i <= domains.len(),
            best == best_of(domains@.subrange(0, i as int)),
        decreases domains.len() - i,
    {
        proof {
            assert(domains@.subrange(0, i + 1).drop_last() =~= domains@.subrange(0, i as int));
        }
        let s = match domains[i] {
            Some(s) => s,
            None => 0,
        };
        best = match best {
            Some(b) => Some(if b >= s { b } else { s }),
            None => Some(s),
        };
        i += 1;
    }
    assert(domains@.subrange(0, domains.len() as int) =~= domains@);
    let title_score = match title {
        Some(s) => s,
        None => 0,
    };
    let domain_score = match best {
        Some(b) => b,
        None => 0,
    };
    if title_score >= domain_score {
        title_score
    } else {
        domain_score
    }
}

/// Scores a query against an item's title and domains.
pub fn score(item: &CatalogItem, query: &str) -> (r: i64)
    ensures
        r == item_score(item.title@, views(item.domains@), query@),
{
    let title = fuzzy_match(item.title.as_str(), query);
    let mut domains: Vec<Option<i64>> = Vec::new();
    let mut i: usize = 0;
    while i < item.domains.len()
        invariant
            i <= item.domains.len(),
            domains@.len() == i,
            forall|j: int| 0 <= j < i ==> #[trigger] domains@[j] == skim_score(item.domains@[j]@, query@),
        decreases item.domains.len() - i,
    {
        domains.push(fuzzy_match(item.domains[i].as_str(), query));
        i += 1;
    }
    assert(domains@ =~= domain_matches(views(item.domains@), query@));
    combine_scores(title, &domains)
}

/// How many scores are positive.
pub open spec fn positive_count(scores: Seq<i64>) -> nat
    decreases scores.len(),
{
    if scores.len() == 0 {
        0
    } else {
        positive_count(scores.drop_last()) + if scores.last() > 0 {
            1nat
        } else {
            0nat
        }
    }
}

/// Item `a` comes before item `b`: a higher score, or an equal score and an
/// earlier place in the index.
pub open spec fn ranks_before(scores: Seq<i64>, a: int, b: int) -> bool {
    scores[a] > scores[b] || (scores[a] == scores[b] && a < b)
}

/// `r` is the result of ranking items with these scores, keeping at most
/// `max` of them: the items of positive score, best first, ties in index
/// order, cut after the first `max`.
pub open spec fn is_ranking(scores: Seq<i64>, max: nat, r: Seq<int>) -> bool {
    &&& r.len() == if max < positive_count(scores) {
        max
    } else {
        positive_count(scores)
    }
    &&& forall|k: int| 0 <= k < r.len() ==> 0 <= #[trigger] r[k] < scores.len() && scores[r[k]] > 0
    &&& forall|k: int, l: int| 0 <= k < l < r.len() ==> ranks_before(scores, #[trigger] r[k], #[trigger] r[l])
    &&& forall|i: int, k: int|
        #![trigger r[k], scores[i]]
        0 <= i < scores.len() && scores[i] > 0 && !r.contains(i) && 0 <= k < r.len()
            ==> ranks_before(scores, r[k], i)
}

pub open spec fn as_ints(v: Seq<usize>) -> Seq<int> {
    v.map_values(|x: usize| x as int)
}

/// Sorted strictly by `ranks_before`.
pub open spec fn sorted_by_rank(scores: Seq<i64>, r: Seq<usize>) -> bool {
    forall|k: int, l: int|
        0 <= k < l < r.len() ==> ranks_before(scores, #[trigger] r[k] as int, #[trigger] r[l] as int)
}

/// Ranks items by their scores: the indices of the items of positive score,
/// best first and ties in index order, at most `max_entries` of them.
pub fn top_ranked(scores: &Vec<i64>, max_entries: usize) -> (r: Vec<usize>)
    ensures
        is_ranking(scores@, max_entries as nat, as_ints(r@)),
{
    let mut r: Vec<usize> = Vec::new();
    let mut i: usize = 0;
    while i < scores.len()
        invariant
            i <= scores.len(),
            r@.len() == positive_count(scores@.subrange(0, i as int)),
            sorted_by_rank(scores@, r@),
            forall|k: int| 0 <= k < r@.len() ==> #[trigger] r@[k] < i && scores@[r@[k] as int] > 0,
            forall|j: int| 0 <= j < i && scores@[j] > 0 ==> r@.contains(j as usize),
        decreases scores.len() - i,
    {
        proof {
            assert(scores@.subrange(0, i + 1).drop_last() =~= scores@.subrange(0, i as int));
        }
        let s = scores[i];
        if s > 0 {
            let mut p: usize = 0;
            while p < r.len() && scores[r[p]] >= s
                invariant
                    p <= r@.len(),
                    i < scores@.len(),
                    s == scores@[i as int],
                    forall|k: int| 0 <= k < r@.len() ==> #[trigger] r@[k] < i,
                    forall|k: int| 0 <= k < p ==> scores@[#[trigger] r@[k] as int] >= s,
                decreases r@.len() - p,
            {
                p += 1;
            }
            let ghost prev = r@;
            r.insert(p, i);
            proof {
                prev.insert_ensures(p as int, i);
                assert forall|k: int, l: int|
                    0 <= k < l < r@.len() implies ranks_before(
                    scores@,
                    #[trigger] r@[k] as int,
                    #[trigger] r@[l] as int,
                ) by {
                    if l < p {
                    } else if l == p {
                    } else if k < p {
                        assert(r@[l] == prev[l - 1]);
                    } else if k == p {
                        assert(r@[l] == prev[l - 1]);
                        assert(ranks_before(scores@, prev[p as int] as int, prev[l - 1] as int) || l - 1 == p);
                    } else {
                        assert(r@[l] == prev[l - 1]);
                        assert(r@[k] == prev[k - 1]);
                    }
                }
                assert forall|j: int| 0 <= j < i + 1 && scores@[j] > 0 implies r@.contains(j as usize) by {
                    if j == i {
                        assert(r@[p as int] == i);
                    } else {
                        let q = choose|q: int| 0 <= q < prev.len() && prev[q] == j as usize;
                        if q < p {
                            assert(r@[q] == j as usize);
                        } else {
                            assert(r@[q + 1] == j as usize);
                        }
                    }
                }
                assert forall|k: int| 0 <= k < r@.len() implies #[trigger] r@[k] < i + 1 && scores@[r@[k] as int] > 0 by {
                    if k < p {
                    } else if k == p {
                    } else {
                        assert(r@[k] == prev[k - 1]);
                    }
                }
            }
        }
        i += 1;
    }
    assert(scores@.subrange(0, scores.len() as int) =~= scores@);
    let ghost full = r@;
    if r.len() > max_entries {
        r.truncate(max_entries);
    }
    proof {
        assert(r@ =~= full.subrange(0, r@.len() as int));
        let ri = as_ints(r@);
        assert forall|i: int, k: int|
            #![trigger ri[k], scores@[i]]
            0 <= i < scores@.len() && scores@[i] > 0 && !ri.contains(i) && 0 <= k < ri.len()
            implies ranks_before(scores@, ri[k], i) by {
            let q = choose|q: int| 0 <= q < full.len() && full[q] == i as usize;
            if q < r@.len() {
                assert(ri[q] == i);
            }
            assert(full[k] == r@[k]);
        }
    }
    r
}

/// A ranking lists its items by non-increasing score, and items of equal
/// score in index order.
pub proof fn lemma_ranking_order(scores: Seq<i64>, max: nat, r: Seq<int>)
    requires
        is_ranking(scores, max, r),
    ensures
        forall|k: int, l: int|
            0 <= k < l < r.len() ==> scores[#[trigger] r[k]] >= scores[#[trigger] r[l]],
        forall|k: int, l: int|
            0 <= k < l < r.len() && scores[r[k]] == scores[r[l]] ==> #[trigger] r[k] < #[trigger] r[l],
{
    assert forall|k: int, l: int| 0 <= k < l < r.len() implies scores[#[trigger] r[k]] >= scores[#[trigger] r[l]] by {
        assert(ranks_before(scores, r[k], r[l]));
    }
}

/// A ranking holds no more items than the bound, and no more than there are
/// items of positive score.
pub proof fn lemma_ranking_len(scores: Seq<i64>, max: nat, r: Seq<int>)
    requires
        is_ranking(scores, max, r),
    ensures
        r.len() <= max,
        r.len() <= positive_count(scores),
{
}

/// There is one ranking of given scores under a given bound.
pub proof fn lemma_ranking_unique(scores: Seq<i64>, max: nat, r1: Seq<int>, r2: Seq<int>)
    requires
        is_ranking(scores, max, r1),
        is_ranking(scores, max, r2),
    ensures
        r1 == r2,
{
    assert forall|k: int| 0 <= k < r1.len() implies r1[k] == r2[k] by {
        lemma_rankings_agree(scores, max, r1, r2, k);
    }
    assert(r1 =~= r2);
}

/// Two rankings of the same scores hold the same item at each place.
proof fn lemma_rankings_agree(scores: Seq<i64>, max: nat, r1: Seq<int>, r2: Seq<int>, k: int)
    requires
        is_ranking(scores, max, r1),
        is_ranking(scores, max, r2),
        0 <= k < r1.len(),
    ensures
        r1[k] == r2[k],
    decreases k,
{
    assert forall|j: int| 0 <= j < k implies r1[j] == r2[j] by {
        lemma_rankings_agree(scores, max, r1, r2, j);
    }
    if r1[k] != r2[k] {
        lemma_no_earlier(scores, max, r1, r2, k);
        lemma_no_earlier(scores, max, r2, r1, k);
    }
}

/// Where two rankings agree before place `k`, the first does not rank its
/// `k`-th item before the second's.
proof fn lemma_no_earlier(scores: Seq<i64>, max: nat, a: Seq<int>, b: Seq<int>, k: int)
    requires
        is_ranking(scores, max, a),
        is_ranking(scores, max, b),
        0 <= k < a.len(),
        a[k] != b[k],
        forall|j: int| 0 <= j < k ==> a[j] == b[j],
    ensures
        !ranks_before(scores, a[k], b[k]),
{
    let x = a[k];
    if ranks_before(scores, x, b[k]) {
        if b.contains(x) {
            let m = choose|m: int| 0 <= m < b.len() && b[m] == x;
            if m < k {
                assert(a[m] == x);
                assert(ranks_before(scores, a[m], a[k]));
            } else {
                assert(m != k);
                assert(ranks_before(scores, b[k], b[m]));
            }
        } else {
            assert(ranks_before(scores, b[k], x));
        }
    }
}

} // verus!
