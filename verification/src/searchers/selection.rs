//! Which search result is taken: the rules that run over the search strings of a track and the
//! scored results each of them brings back.

use vstd::prelude::*;

verus! {

/// The first position whose score is above `wow`.
pub open spec fn first_wow(scores: Seq<i8>, wow: i8) -> Option<int>
    decreases scores.len(),
{
    if scores.len() == 0 {
        None
    } else {
        match first_wow(scores.drop_last(), wow) {
            Some(i) => Some(i),
            None => if scores.last() > wow {
                Some(scores.len() - 1)
            } else {
                None
            },
        }
    }
}

/// The first position of the highest score among those at least `threshold`.
pub open spec fn best_of(scores: Seq<i8>, threshold: i8) -> Option<int>
    decreases scores.len(),
{
    if scores.len() == 0 {
        None
    } else {
        let prev = best_of(scores.drop_last(), threshold);
        let k = scores.len() - 1;
        if scores[k] >= threshold && (prev is None || scores[k] > scores[prev.unwrap()]) {
            Some(k)
        } else {
            prev
        }
    }
}

/// The result that one group of scored results gives: the first one above `wow`, else the best
/// one that reaches `threshold`, else none.
pub open spec fn group_choice(scores: Seq<i8>, threshold: i8, wow: i8) -> Option<int> {
    match first_wow(scores, wow) {
        Some(i) => Some(i),
        None => best_of(scores, threshold),
    }
}

proof fn lemma_first_wow(scores: Seq<i8>, wow: i8)
    ensures
        match first_wow(scores, wow) {
            Some(i) => 0 <= i < scores.len() && scores[i] > wow && forall|j: int|
                0 <= j < i ==> scores[j] <= wow,
            None => forall|j: int| 0 <= j < scores.len() ==> scores[j] <= wow,
        },
    decreases scores.len(),
{
    if scores.len() > 0 {
        lemma_first_wow(scores.drop_last(), wow);
        let d = scores.drop_last();
        assert forall|j: int| 0 <= j < d.len() implies d[j] == scores[j] by {}
    }
}

proof fn lemma_best_of(scores: Seq<i8>, threshold: i8)
    ensures
        match best_of(scores, threshold) {
            Some(i) => {
                &&& 0 <= i < scores.len()
                &&& scores[i] >= threshold
                &&& forall|j: int|
                    0 <= j < scores.len() && scores[j] >= threshold ==> scores[j] <= scores[i]
                &&& forall|j: int| 0 <= j < i && scores[j] >= threshold ==> scores[j] < scores[i]
            },
            None => forall|j: int| 0 <= j < scores.len() ==> scores[j] < threshold,
        },
    decreases scores.len(),
{
    if scores.len() > 0 {
        lemma_best_of(scores.drop_last(), threshold);
        let d = scores.drop_last();
        assert forall|j: int| 0 <= j < d.len() implies d[j] == scores[j] by {}
    }
}

/// A group gives a result exactly when one of its scores is above `wow` or reaches `threshold`.
/// The result is the first one above `wow`; when none is, it is the first of the highest
/// scores among those that reach `threshold`.
pub proof fn lemma_group_choice(scores: Seq<i8>, threshold: i8, wow: i8)
    ensures
        match group_choice(scores, threshold, wow) {
            Some(i) => {
                &&& 0 <= i < scores.len()
                &&& scores[i] > wow || scores[i] >= threshold
                &&& scores[i] > wow ==> forall|j: int| 0 <= j < i ==> scores[j] <= wow
                &&& scores[i] <= wow ==> {
                    &&& forall|j: int| 0 <= j < scores.len() ==> scores[j] <= wow
                    &&& forall|j: int|
                        0 <= j < scores.len() && scores[j] >= threshold ==> scores[j] <= scores[i]
                    &&& forall|j: int|
                        0 <= j < i && scores[j] >= threshold ==> scores[j] < scores[i]
                }
            },
            None => forall|j: int|
                0 <= j < scores.len() ==> scores[j] <= wow && scores[j] < threshold,
        },
{
    lemma_first_wow(scores, wow);
    lemma_best_of(scores, threshold);
}

/// The position of the result that a group of scored results gives; see [`group_choice`].
pub fn select_in_group(scores: &Vec<i8>, threshold: i8, wow: i8) -> (r: Option<usize>)
    ensures
        match r {
            Some(i) => group_choice(scores@, threshold, wow) == Some(i as int),
            None => group_choice(scores@, threshold, wow) is None,
        },
{
    let mut best: Option<usize> = None;
    let mut k: usize = 0;
    while k < scores.len()
        invariant
            k <= scores.len(),
            first_wow(scores@.subrange(0, k as int), wow) is None,
            match best {
                Some(b) => best_of(scores@.subrange(0, k as int), threshold) == Some(b as int),
                None => best_of(scores@.subrange(0, k as int), threshold) is None,
            },
        decreases scores.len() - k,
    {
        let prefix = Ghost(scores@.subrange(0, k as int));
        let next = Ghost(scores@.subrange(0, k + 1));
        assert(next@.drop_last() =~= prefix@);
        proof {
            lemma_best_of(prefix@, threshold);
        }
        let mt = scores[k];
        if mt > wow {
            proof {
                lemma_prefix_choice(scores@, k as int, threshold, wow);
            }
            return Some(k);
        }
        match best {
            Some(b) => {
                if mt >= threshold && mt > scores[b] {
                    best = Some(k);
                }
            },
            None => {
                if mt >= threshold {
                    best = Some(k);
                }
            },
        }
        k = k + 1;
    }
    assert(scores@.subrange(0, k as int) =~= scores@);
    best
}

/// When no score before `k` is above `wow` and the score at `k` is, the group gives `k`.
proof fn lemma_prefix_choice(scores: Seq<i8>, k: int, threshold: i8, wow: i8)
    requires
        0 <= k < scores.len(),
        first_wow(scores.subrange(0, k), wow) is None,
        scores[k] > wow,
    ensures
        group_choice(scores, threshold, wow) == Some(k),
    decreases scores.len() - k,
{
    assert(scores.subrange(0, k + 1).drop_last() =~= scores.subrange(0, k));
    lemma_first_wow_extends(scores, k + 1, wow);
}

/// Once a prefix has a position above `wow`, every longer prefix gives that same position.
proof fn lemma_first_wow_extends(scores: Seq<i8>, n: int, wow: i8)
    requires
        0 <= n <= scores.len(),
        first_wow(scores.subrange(0, n), wow) is Some,
    ensures
        first_wow(scores, wow) == first_wow(scores.subrange(0, n), wow),
    decreases scores.len() - n,
{
    if n == scores.len() {
        assert(scores.subrange(0, n) =~= scores);
    } else {
        assert(scores.subrange(0, n + 1).drop_last() =~= scores.subrange(0, n));
        lemma_first_wow_extends(scores, n + 1, wow);
    }
}

/// The sequence of first occurrences: each string once, where it first occurs.
pub open spec fn first_occurrences(s: Seq<Seq<char>>) -> Seq<Seq<char>>
    decreases s.len(),
{
    if s.len() == 0 {
        seq![]
    } else {
        let prev = first_occurrences(s.drop_last());
        if prev.contains(s.last()) {
            prev
        } else {
            prev.push(s.last())
        }
    }
}

/// `first_occurrences` keeps no string twice, and keeps every string of its argument.
pub proof fn lemma_first_occurrences(s: Seq<Seq<char>>)
    ensures
        first_occurrences(s).no_duplicates(),
        forall|x: Seq<char>| #[trigger] first_occurrences(s).contains(x) <==> s.contains(x),
    decreases s.len(),
{
    if s.len() > 0 {
        lemma_first_occurrences(s.drop_last());
        let d = s.drop_last();
        assert forall|x: Seq<char>| s.contains(x) <==> (d.contains(x) || x == s.last()) by {
            if s.contains(x) {
                let j = choose|j: int| 0 <= j < s.len() && s[j] == x;
                if j < d.len() {
                    assert(d[j] == x);
                }
            }
            if d.contains(x) {
                let j = choose|j: int| 0 <= j < d.len() && d[j] == x;
                assert(s[j] == x);
            }
            if x == s.last() {
                assert(s[s.len() - 1] == x);
            }
        }
        let prev = first_occurrences(d);
        if !prev.contains(s.last()) {
            let p = prev.push(s.last());
            assert forall|x: Seq<char>| p.contains(x) <==> (prev.contains(x) || x == s.last()) by {
                if p.contains(x) {
                    let j = choose|j: int| 0 <= j < p.len() && p[j] == x;
                    if j < prev.len() {
                        assert(prev[j] == x);
                    }
                }
                if prev.contains(x) {
                    let j = choose|j: int| 0 <= j < prev.len() && prev[j] == x;
                    assert(p[j] == x);
                }
                if x == s.last() {
                    assert(p[p.len() - 1] == x);
                }
            }
        }
    }
}

/// Whether `v` holds a string equal to `s`.
fn holds_string(v: &Vec<String>, s: &String) -> (r: bool)
    ensures
        r == v.deep_view().contains(s@),
{
    let mut i: usize = 0;
    while i < v.len()
        invariant
            i <= v.len(),
            forall|j: int| 0 <= j < i ==> v.deep_view()[j] != s@,
        decreases v.len() - i,
    {
        if v[i] == *s {
            assert(v.deep_view()[i as int] == s@);
            return true;
        }
        i = i + 1;
    }
    false
}

/// The strings of `strings`, each once, in the order of their first occurrence.
pub fn first_occurrences_of(strings: &Vec<String>) -> (r: Vec<String>)
    ensures
        r.deep_view() == first_occurrences(strings.deep_view()),
{
    let mut out: Vec<String> = Vec::new();
    let mut k: usize = 0;
    while k < strings.len()
        invariant
            k <= strings.len(),
            out.deep_view() == first_occurrences(strings.deep_view().subrange(0, k as int)),
        decreases strings.len() - k,
    {
        let ghost prefix = strings.deep_view().subrange(0, k as int);
        assert(strings.deep_view().subrange(0, k + 1).drop_last() =~= prefix);
        assert(strings.deep_view().subrange(0, k + 1).last() == strings[k as int]@);
        if !holds_string(&out, &strings[k]) {
            let ghost before = out.deep_view();
            out.push(strings[k].clone());
            assert(out.deep_view() =~= before.push(strings[k as int]@));
        }
        k = k + 1;
    }
    assert(strings.deep_view().subrange(0, k as int) =~= strings.deep_view());
    out
}

/// What a search does next.
#[derive(Debug, Clone, PartialEq, Eq)]
pub enum SearchStep {
    /// Run this search string, and score what it brings back.
    Query(String),
    /// Take the result at this position in the group just scored.
    Select(usize),
    /// Every search string was tried and none gave a result.
    GiveUp,
    /// The track gave no search string at all.
    NoQueries,
}

/// What came back from the last search string.
#[derive(Debug, Clone)]
pub enum SearchEvent {
    /// The search failed; the next string is tried.
    Failed,
    /// The scores of the results, in the order the source gave them.
    Scored(Vec<i8>),
}

/// A search in progress over the search strings of a track.
pub struct SearchRun {
    queries: Vec<String>,
    next: usize,
    threshold: i8,
    wow: i8,
}

impl SearchRun {
    /// The strings this search runs, in order.
    pub closed spec fn queries(&self) -> Seq<Seq<char>> {
        self.queries.deep_view()
    }

    /// How many of them were handed out.
    pub closed spec fn issued(&self) -> int {
        self.next as int
    }

    pub closed spec fn threshold(&self) -> i8 {
        self.threshold
    }

    pub closed spec fn wow(&self) -> i8 {
        self.wow
    }

    pub closed spec fn wf(&self) -> bool {
        &&& self.next <= self.queries.len()
        &&& self.queries.deep_view().no_duplicates()
    }

    /// A search over `strings`, each tried once, in the order of its first occurrence.
    pub fn new(strings: &Vec<String>, threshold: i8, wow: i8) -> (r: SearchRun)
        ensures
            r.wf(),
            r.queries() == first_occurrences(strings.deep_view()),
            r.issued() == 0,
            r.threshold() == threshold,
            r.wow() == wow,
    {
        let queries = first_occurrences_of(strings);
        proof {
            lemma_first_occurrences(strings.deep_view());
        }
        SearchRun { queries, next: 0, threshold, wow }
    }

    /// The first step: the first search string, or `NoQueries` when there is none.
    pub fn start(&mut self) -> (step: SearchStep)
        requires
            old(self).wf(),
            old(self).issued() == 0,
        ensures
            final(self).wf(),
            final(self).queries() == old(self).queries(),
            final(self).threshold() == old(self).threshold(),
            final(self).wow() == old(self).wow(),
            if old(self).queries().len() == 0 {
                step == SearchStep::NoQueries && final(self).issued() == 0
            } else {
                step matches SearchStep::Query(q) && q@ == old(self).queries()[0]
                    && final(self).issued() == 1
            },
    {
        if self.queries.len() == 0 {
            SearchStep::NoQueries
        } else {
            self.next = 1;
            SearchStep::Query(self.queries[0].clone())
        }
    }

    /// The step after the last search string gave `event`: the result that its group gives
    /// (see [`group_choice`]), else the next search string, else `GiveUp`.
    pub fn step(&mut self, event: &SearchEvent) -> (step: SearchStep)
        requires
            old(self).wf(),
        ensures
            final(self).wf(),
            final(self).queries() == old(self).queries(),
            final(self).threshold() == old(self).threshold(),
            final(self).wow() == old(self).wow(),
            match event {
                SearchEvent::Scored(scores) if group_choice(
                    scores@,
                    old(self).threshold(),
                    old(self).wow(),
                ) is Some => step == SearchStep::Select(
                    group_choice(scores@, old(self).threshold(), old(self).wow()).unwrap() as usize,
                ) && final(self).issued() == old(self).issued(),
                _ => if old(self).issued() < old(self).queries().len() {
                    step matches SearchStep::Query(q) && q@ == old(self).queries()[old(
                        self,
                    ).issued()] && final(self).issued() == old(self).issued() + 1
                } else {
                    step == SearchStep::GiveUp && final(self).issued() == old(self).issued()
                },
            },
    {
        match event {
            SearchEvent::Scored(scores) => {
                if let Some(i) = select_in_group(scores, self.threshold, self.wow) {
                    return SearchStep::Select(i);
                }
            },
            SearchEvent::Failed => {},
        }
        if self.next < self.queries.len() {
            let q = self.queries[self.next].clone();
            self.next = self.next + 1;
            SearchStep::Query(q)
        } else {
            SearchStep::GiveUp
        }
    }
}

/// A search never runs the same string twice: the strings it hands out are distinct.
pub proof fn lemma_no_query_twice(run: SearchRun)
    requires
        run.wf(),
    ensures
        run.queries().no_duplicates(),
{
}

/// How a search for one result ends.
#[derive(Debug, Clone, Copy, PartialEq, Eq)]
pub enum SearchOutcome {
    /// The best result is taken.
    Accepted,
    /// The best result scores below the threshold.
    LowScore,
    /// No result came back.
    Nothing,
}

/// The outcome of a search whose best result scored `best` (none when nothing came back).
pub fn search_outcome(best: Option<i8>, threshold: i8) -> (r: SearchOutcome)
    ensures
        r == match best {
            Some(s) => if s >= threshold {
                SearchOutcome::Accepted
            } else {
                SearchOutcome::LowScore
            },
            None => SearchOutcome::Nothing,
        },
{
    match best {
        Some(s) => if s >= threshold {
            SearchOutcome::Accepted
        } else {
            SearchOutcome::LowScore
        },
        None => SearchOutcome::Nothing,
    }
}

} // verus!
