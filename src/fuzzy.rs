use fuzzy_matcher::FuzzyMatcher;
use vstd::prelude::*;

verus! {

/// The score that skim's fuzzy matcher, in its default settings, gives
/// `pattern` against `choice`; `None` where it does not match.
pub uninterp spec fn skim_score(choice: Seq<char>, pattern: Seq<char>) -> Option<int>;

pub open spec fn is_ascii_upper(c: char) -> bool {
    'A' <= c && c <= 'Z'
}

/// `a` and `b` are the same character up to ASCII case.
pub open spec fn eq_ignore_ascii_case(a: char, b: char) -> bool {
    ||| a == b
    ||| is_ascii_upper(a) && b as u32 == a as u32 + 32
    ||| is_ascii_upper(b) && a as u32 == b as u32 + 32
}

/// The characters of `pattern` appear in `choice` in order, each equal up to
/// ASCII case to the one it stands for.
pub open spec fn ci_subsequence(pattern: Seq<char>, choice: Seq<char>) -> bool {
    exists|pos: Seq<int>|
        {
            &&& pos.len() == pattern.len()
            &&& forall|i: int| 0 <= i < pos.len() ==> 0 <= #[trigger] pos[i] < choice.len()
            &&& forall|i: int, j: int| 0 <= i < j < pos.len() ==> pos[i] < pos[j]
            &&& forall|i: int|
                0 <= i < pos.len() ==> eq_ignore_ascii_case(
                    #[trigger] pattern[i],
                    choice[pos[i]],
                )
        }
}

/// Relies on fuzzy_matcher's `SkimMatcherV2::default().fuzzy_match`. Its score
/// depends on the two texts alone. An empty pattern scores 0. Otherwise
/// `cheap_matches` must first find the pattern's characters in order in the
/// choice, compared with `eq_ignore_ascii_case` or exactly, or the result is `None`.
#[verifier::external_body]
fn skim_match(choice: &str, pattern: &str) -> (r: Option<i64>)
    ensures
        r matches Some(x) ==> skim_score(choice@, pattern@) == Some(x as int),
        r is None ==> skim_score(choice@, pattern@) is None,
        pattern@.len() == 0 ==> r == Some(0i64),
        r is Some ==> ci_subsequence(pattern@, choice@),
{
    fuzzy_matcher::skim::SkimMatcherV2::default().fuzzy_match(choice, pattern)
}

/// The fuzzy score of `pattern` against `choice`, higher for a better match:
/// contiguous runs are rewarded and gaps penalised.
pub fn fuzzy_score(choice: &str, pattern: &str) -> (r: Option<i64>)
    ensures
        r matches Some(x) ==> skim_score(choice@, pattern@) == Some(x as int),
        r is None ==> skim_score(choice@, pattern@) is None,
        pattern@.len() == 0 ==> r == Some(0i64),
        r is Some ==> ci_subsequence(pattern@, choice@),
{
    skim_match(choice, pattern)
}

pub open spec fn score_view(o: Option<i64>) -> Option<int> {
    match o {
        Some(x) => Some(x as int),
        None => None,
    }
}

pub open spec fn scores_view(v: Seq<Option<i64>>) -> Seq<Option<int>> {
    v.map_values(|o: Option<i64>| score_view(o))
}

/// `j` stands in `r`.
pub open spec fn holds_index(r: Seq<usize>, j: int) -> bool {
    exists|k: int| 0 <= k < r.len() && r[k] as int == j
}

/// Entry `a` comes before entry `b`: both scored, `a` with the higher score,
/// or with the same score and the later position.
pub open spec fn ranks_before(s: Seq<Option<int>>, a: int, b: int) -> bool {
    &&& 0 <= a < s.len()
    &&& 0 <= b < s.len()
    &&& s[a] is Some
    &&& s[b] is Some
    &&& (s[a].unwrap() > s[b].unwrap() || (s[a].unwrap() == s[b].unwrap() && a > b))
}

/// `m` may follow the last entry of `r`: it is scored and ranks after it.
pub open spec fn is_candidate(s: Seq<Option<int>>, r: Seq<usize>, m: int) -> bool {
    &&& 0 <= m < s.len()
    &&& s[m] is Some
    &&& (r.len() == 0 || ranks_before(s, r.last() as int, m))
}

/// `r` lists the best `n` scored entries of `s` (all of them where fewer are
/// scored), best first, by `ranks_before`.
pub open spec fn is_top_ranking(s: Seq<Option<int>>, n: int, r: Seq<int>) -> bool {
    &&& r.len() <= n
    &&& forall|k: int| 0 <= k < r.len() ==> 0 <= #[trigger] r[k] < s.len() && s[r[k]] is Some
    &&& forall|i: int, j: int| 0 <= i < j < r.len() ==> ranks_before(s, r[i], r[j])
    &&& forall|j: int|
        0 <= j < s.len() && #[trigger] s[j] is Some && !r.contains(j) ==> r.len() == n && (r.len()
            > 0 ==> ranks_before(s, r.last(), j))
}

/// Whether entry `a` ranks before entry `b`.
fn before(s: &Vec<Option<i64>>, a: usize, b: usize) -> (r: bool)
    requires
        a < s.len(),
        b < s.len(),
        s@[a as int] is Some,
        s@[b as int] is Some,
    ensures
        r == ranks_before(scores_view(s@), a as int, b as int),
{
    let x = s[a].unwrap();
    let y = s[b].unwrap();
    x > y || (x == y && a > b)
}

/// The positions of the best `n` scored entries of `scores`, best first: by
/// score, then the later position first.
pub fn rank_matches(scores: &Vec<Option<i64>>, n: u32) -> (r: Vec<usize>)
    ensures
        is_top_ranking(
            scores_view(scores@),
            n as int,
            r@.map_values(|i: usize| i as int),
        ),
{
    let ghost s = scores_view(scores@);
    assert(s.len() == scores.len());
    let mut r: Vec<usize> = Vec::new();
    let mut done = false;
    while !done && r.len() < n as usize
        invariant
            s == scores_view(scores@),
            s.len() == scores.len(),
            r.len() <= n,
            forall|k: int| 0 <= k < r.len() ==> #[trigger] r@[k] < s.len() && s[r@[k] as int] is Some,
            forall|i: int, j: int|
                0 <= i < j < r.len() ==> ranks_before(s, r@[i] as int, r@[j] as int),
            forall|j: int|
                0 <= j < s.len() && #[trigger] s[j] is Some && !holds_index(r@, j) ==> !done && (
                r.len() > 0 ==> ranks_before(s, r@.last() as int, j)),
        decreases n - r.len(), if done { 0int } else { 1int },
    {
        let mut best: Option<usize> = None;
        let mut j: usize = 0;
        while j < scores.len()
            invariant
                s == scores_view(scores@),
                s.len() == scores.len(),
                j <= scores.len(),
                forall|k: int| 0 <= k < r.len() ==> #[trigger] r@[k] < s.len() && s[r@[k] as int] is Some,
                best matches Some(b) ==> b < j && is_candidate(s, r@, b as int) && forall|m: int|
                    0 <= m < j && #[trigger] is_candidate(s, r@, m) ==> m == b || ranks_before(s, b as int, m),
                best is None ==> forall|m: int| 0 <= m < j ==> !#[trigger] is_candidate(s, r@, m),
            decreases scores.len() - j,
        {
            assert(s[j as int] == score_view(scores@[j as int]));
            if scores[j].is_some() {
                let candidate = r.len() == 0 || before(scores, r[r.len() - 1], j);
                if candidate {
                    match best {
                        None => {
                            best = Some(j);
                        },
                        Some(b) => {
                            if before(scores, j, b) {
                                best = Some(j);
                            }
                        },
                    }
                }
            }
            j += 1;
        }
        match best {
            None => {
                assert forall|m: int|
                    0 <= m < s.len() && #[trigger] s[m] is Some implies holds_index(r@, m) by {
                    if !holds_index(r@, m) {
                        assert(is_candidate(s, r@, m));
                    }
                }
                done = true;
            },
            Some(b) => {
                let ghost old_r = r@;
                r.push(b);
                assert forall|i: int, k: int| 0 <= i < k < r.len() implies ranks_before(
                    s,
                    r@[i] as int,
                    r@[k] as int,
                ) by {
                    if k == r.len() - 1 && i < k - 1 {
                        assert(ranks_before(s, old_r[i] as int, old_r.last() as int));
                    }
                }
                assert forall|m: int|
                    0 <= m < s.len() && #[trigger] s[m] is Some && !holds_index(r@, m) implies ranks_before(
                    s,
                    r@.last() as int,
                    m,
                ) by {
                    assert(!holds_index(old_r, m)) by {
                        if holds_index(old_r, m) {
                            let w = choose|w: int| 0 <= w < old_r.len() && old_r[w] as int == m;
                            assert(r@[w] as int == m);
                        }
                    }
                    assert(r@[r.len() - 1] == b);
                    assert(m != b);
                    assert(is_candidate(s, old_r, m));
                }
            },
        }
    }
    proof {
        let rv = r@.map_values(|i: usize| i as int);
        assert forall|j: int| 0 <= j < s.len() && #[trigger] s[j] is Some && !rv.contains(j) implies !holds_index(r@, j) by {
            if holds_index(r@, j) {
                let w = choose|w: int| 0 <= w < r.len() && r@[w] as int == j;
                assert(rv[w] == j);
            }
        }
    }
    r
}

} // verus!
