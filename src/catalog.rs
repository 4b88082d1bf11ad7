//! The version catalog of an artifact family, and the choice of the version
//! that a constraint resolves to.
use crate::version::{
    lenient_version, precedence, req_matches, to_version, Version, VersionConstraint,
    VersionView,
};
use std::cmp::Ordering;
use vstd::prelude::*;

verus! {

/// The catalog document of an artifact family.
pub struct Metadata {
    pub versioning: Versioning,
}

pub struct Versioning {
    pub versions: Versions,
}

/// The published versions, as the raw strings of the catalog: an entry need
/// not be a valid semantic version.
pub struct Versions {
    pub version: Vec<String>,
}

impl Metadata {
    /// The catalog entries, in document order.
    pub open spec fn entries(&self) -> Seq<Seq<char>> {
        self.versioning.versions.version@.map_values(|s: String| s@)
    }
}

/// `entry` reads as a version that satisfies the constraint `c`.
pub open spec fn is_candidate(c: Seq<char>, entry: Seq<char>) -> bool {
    &&& lenient_version(entry) is Some
    &&& req_matches(c, lenient_version(entry)->0)
}

/// `a` has higher precedence than `b`.
pub open spec fn outranks(a: VersionView, b: VersionView) -> bool {
    precedence(a, b) == Some(Ordering::Greater)
}

/// Entry `i` is a candidate that no candidate of the list outranks.
pub open spec fn is_maximal(c: Seq<char>, entries: Seq<Seq<char>>, i: int) -> bool {
    &&& 0 <= i < entries.len()
    &&& is_candidate(c, entries[i])
    &&& forall|j: int|
        #![trigger entries[j]]
        0 <= j < entries.len() && is_candidate(c, entries[j]) ==> !outranks(
            lenient_version(entries[j])->0,
            lenient_version(entries[i])->0,
        )
}

/// The first maximal entry at or after `start`.
pub open spec fn first_maximal(c: Seq<char>, entries: Seq<Seq<char>>, start: int) -> Option<int>
    decreases entries.len() - start,
{
    if start < 0 || start >= entries.len() {
        None
    } else if is_maximal(c, entries, start) {
        Some(start)
    } else {
        first_maximal(c, entries, start + 1)
    }
}

/// The entry that `c` resolves to in a catalog: the first of the candidates
/// that no candidate outranks.
pub open spec fn resolved(c: Seq<char>, entries: Seq<Seq<char>>) -> Option<Seq<char>> {
    match first_maximal(c, entries, 0) {
        Some(i) => Some(entries[i]),
        None => None,
    }
}

proof fn lemma_first_maximal_bounds(c: Seq<char>, entries: Seq<Seq<char>>, start: int)
    ensures
        match first_maximal(c, entries, start) {
            Some(i) => start <= i && is_maximal(c, entries, i) && forall|k: int|
                start <= k < i ==> !is_maximal(c, entries, k),
            None => forall|k: int| 0 <= start <= k ==> !is_maximal(c, entries, k),
        },
    decreases entries.len() - start,
{
    if start < 0 || start >= entries.len() {
    } else if is_maximal(c, entries, start) {
    } else {
        lemma_first_maximal_bounds(c, entries, start + 1);
    }
}

/// `beats[j][i]`, false where the matrix has no such cell.
pub open spec fn beats_at(beats: Seq<Seq<bool>>, j: int, i: int) -> bool {
    0 <= j < beats.len() && 0 <= i < beats[j].len() && beats[j][i]
}

/// Position `i` is a candidate that no candidate beats.
pub open spec fn is_top(candidate: Seq<bool>, beats: Seq<Seq<bool>>, i: int) -> bool {
    &&& 0 <= i < candidate.len()
    &&& candidate[i]
    &&& forall|j: int|
        0 <= j < candidate.len() && #[trigger] candidate[j] ==> !beats_at(beats, j, i)
}

/// The first top position at or after `start`.
pub open spec fn first_top(candidate: Seq<bool>, beats: Seq<Seq<bool>>, start: int) -> Option<int>
    decreases candidate.len() - start,
{
    if start < 0 || start >= candidate.len() {
        None
    } else if is_top(candidate, beats, start) {
        Some(start)
    } else {
        first_top(candidate, beats, start + 1)
    }
}

pub open spec fn rows(beats: Seq<Vec<bool>>) -> Seq<Seq<bool>> {
    beats.map_values(|r: Vec<bool>| r@)
}

/// The first position that is a candidate and that no candidate beats, where
/// `candidate[k]` says whether entry `k` is a candidate and `beats[j][i]`
/// whether entry `j` outranks entry `i`.
pub fn pick_maximal(candidate: &Vec<bool>, beats: &Vec<Vec<bool>>) -> (r: Option<usize>)
    ensures
        match r {
            Some(i) => first_top(candidate@, rows(beats@), 0) == Some(i as int),
            None => first_top(candidate@, rows(beats@), 0) is None,
        },
        r matches Some(i) ==> is_top(candidate@, rows(beats@), i as int),
{
    let ghost bs = rows(beats@);
    let n = candidate.len();
    let mut i: usize = 0;
    while i < n
        invariant
            n == candidate.len(),
            i <= n,
            bs == rows(beats@),
            first_top(candidate@, bs, 0) == first_top(candidate@, bs, i as int),
        decreases n - i,
    {
        if candidate[i] {
            let mut top = true;
            let mut j: usize = 0;
            while j < n
                invariant
                    n == candidate.len(),
                    i < n,
                    j <= n,
                    bs == rows(beats@),
                    candidate@[i as int],
                    top <==> forall|k: int|
                        0 <= k < j && #[trigger] candidate@[k] ==> !beats_at(bs, k, i as int),
                decreases n - j,
            {
                if candidate[j] && j < beats.len() && i < beats[j].len() && beats[j][i] {
                    top = false;
                }
                proof {
                    if j < beats@.len() {
                        assert(bs[j as int] == beats@[j as int]@);
                    }
                }
                j = j + 1;
            }
            if top {
                assert(is_top(candidate@, bs, i as int));
                return Some(i);
            }
        }
        i = i + 1;
    }
    None
}

proof fn lemma_first_top_is_first_maximal(
    c: Seq<char>,
    es: Seq<Seq<char>>,
    candidate: Seq<bool>,
    beats: Seq<Seq<bool>>,
    start: int,
)
    requires
        candidate.len() == es.len(),
        0 <= start,
        forall|i: int| 0 <= i < es.len() ==> is_top(candidate, beats, i) == is_maximal(c, es, i),
    ensures
        first_top(candidate, beats, start) == first_maximal(c, es, start),
    decreases es.len() - start,
{
    if start < es.len() {
        lemma_first_top_is_first_maximal(c, es, candidate, beats, start + 1);
    }
}

/// Resolves `c` against the catalog entries: the text of the chosen entry and
/// the version it reads as, or `None` where no candidate is maximal (in
/// particular, where no entry both reads as a version and satisfies `c`).
/// Entries that are no version are passed over.
pub fn resolve_entry(c: &VersionConstraint, entries: &Vec<String>) -> (r: Option<(String, Version)>)
    ensures
        match r {
            Some((s, v)) => {
                &&& resolved(c@, entries@.map_values(|e: String| e@)) == Some(s@)
                &&& lenient_version(s@) == Some(v@)
            },
            None => resolved(c@, entries@.map_values(|e: String| e@)) is None,
        },
{
    let ghost es = entries@.map_values(|e: String| e@);
    let n = entries.len();
    let mut cands: Vec<Option<Version>> = Vec::new();
    let mut flags: Vec<bool> = Vec::new();
    let mut i: usize = 0;
    while i < n
        invariant
            n == entries.len(),
            es == entries@.map_values(|e: String| e@),
            i <= n,
            cands.len() == i,
            flags.len() == i,
            forall|k: int| 0 <= k < i ==> (#[trigger] flags@[k] <==> is_candidate(c@, es[k])),
            forall|k: int| 0 <= k < i ==> (#[trigger] cands@[k] is Some <==> flags@[k]),
            forall|k: int|
                0 <= k < i && #[trigger] cands@[k] is Some ==> lenient_version(es[k]) == Some(
                    cands@[k]->0@,
                ),
        decreases n - i,
    {
        let cand = match to_version(entries[i].as_str()) {
            Some(v) => {
                if c.matches(&v) {
                    Some(v)
                } else {
                    None
                }
            },
            None => None,
        };
        flags.push(cand.is_some());
        cands.push(cand);
        i = i + 1;
    }
    let mut beats: Vec<Vec<bool>> = Vec::new();
    let mut j: usize = 0;
    while j < n
        invariant
            n == entries.len(),
            cands.len() == n,
            flags.len() == n,
            j <= n,
            beats.len() == j,
            forall|k: int| 0 <= k < n ==> (#[trigger] flags@[k] <==> is_candidate(c@, es[k])),
            forall|k: int| 0 <= k < n ==> (#[trigger] cands@[k] is Some <==> flags@[k]),
            forall|k: int|
                0 <= k < n && #[trigger] cands@[k] is Some ==> lenient_version(es[k]) == Some(
                    cands@[k]->0@,
                ),
            forall|a: int| 0 <= a < j ==> #[trigger] beats@[a]@.len() == n,
            forall|a: int, b: int|
                0 <= a < j && 0 <= b < n && flags@[a] && flags@[b] ==> (#[trigger] beats@[a]@[b]
                    <==> outranks(lenient_version(es[a])->0, lenient_version(es[b])->0)),
        decreases n - j,
    {
        let mut row: Vec<bool> = Vec::new();
        let mut k: usize = 0;
        while k < n
            invariant
                n == entries.len(),
                cands.len() == n,
                j < n,
                k <= n,
                row.len() == k,
                forall|m: int| 0 <= m < n ==> (#[trigger] cands@[m] is Some <==> flags@[m]),
                forall|m: int|
                    0 <= m < n && #[trigger] cands@[m] is Some ==> lenient_version(es[m]) == Some(
                        cands@[m]->0@,
                    ),
                forall|b: int|
                    0 <= b < k && flags@[j as int] && flags@[b] ==> (#[trigger] row@[b]
                        <==> outranks(lenient_version(es[j as int])->0, lenient_version(es[b])->0)),
            decreases n - k,
        {
            let cell = match (&cands[j], &cands[k]) {
                (Some(vj), Some(vk)) => match vj.cmp_precedence(vk) {
                    Some(Ordering::Greater) => true,
                    _ => false,
                },
                _ => false,
            };
            row.push(cell);
            k = k + 1;
        }
        beats.push(row);
        j = j + 1;
    }
    let ghost bs = rows(beats@);
    proof {
    assert forall|a: int| 0 <= a < n implies is_top(flags@, bs, a) == is_maximal(c@, es, a) by {
        if is_top(flags@, bs, a) {
            assert forall|b: int| 0 <= b < es.len() && is_candidate(c@, #[trigger] es[b]) implies !outranks(
                lenient_version(es[b])->0,
                lenient_version(es[a])->0,
            ) by {
                assert(flags@[b]);
                assert(bs[b] == beats@[b]@);
            }
        }
        if is_maximal(c@, es, a) {
            assert forall|b: int| 0 <= b < n && #[trigger] flags@[b] implies !beats_at(bs, b, a) by {
                assert(is_candidate(c@, es[b]));
                assert(bs[b] == beats@[b]@);
            }
        }
    }
    lemma_first_top_is_first_maximal(c@, es, flags@, bs, 0);
    }
    match pick_maximal(&flags, &beats) {
        Some(i) => {
            let v = cands.remove(i);
            let s = entries[i].clone();
            match v {
                Some(v) => Some((s, v)),
                None => None,
            }
        },
        None => None,
    }
}

/// Where one candidate is maximal, resolution returns a candidate that no
/// candidate outranks; where no entry is a candidate, it resolves to nothing.
pub proof fn lemma_resolved_is_maximum(c: Seq<char>, entries: Seq<Seq<char>>)
    ensures
        match resolved(c, entries) {
            Some(s) => {
                &&& is_candidate(c, s)
                &&& exists|i: int| 0 <= i < entries.len() && entries[i] == s
                &&& forall|j: int|
                    0 <= j < entries.len() && is_candidate(c, #[trigger] entries[j]) ==> !outranks(
                        lenient_version(entries[j])->0,
                        lenient_version(s)->0,
                    )
            },
            None => forall|j: int| 0 <= j < entries.len() ==> !is_maximal(c, entries, j),
        },
        (forall|j: int| 0 <= j < entries.len() ==> !is_candidate(c, #[trigger] entries[j]))
            ==> resolved(c, entries) is None,
{
    lemma_first_maximal_bounds(c, entries, 0);
}

/// Index `k` of `entries` after an entry was inserted at `at`.
spec fn shifted(k: int, at: int) -> int {
    if k < at {
        k
    } else {
        k + 1
    }
}

proof fn lemma_maximal_after_insert(
    c: Seq<char>,
    entries: Seq<Seq<char>>,
    at: int,
    junk: Seq<char>,
    k: int,
)
    requires
        0 <= at <= entries.len(),
        lenient_version(junk) is None,
        0 <= k < entries.len(),
    ensures
        is_maximal(c, entries.insert(at, junk), shifted(k, at)) == is_maximal(c, entries, k),
        !is_maximal(c, entries.insert(at, junk), at),
{
    let e2 = entries.insert(at, junk);
    let k2 = shifted(k, at);
    assert(e2[k2] == entries[k]);
    assert(e2[at] == junk);
    if is_maximal(c, entries, k) {
        assert forall|j: int|
            0 <= j < e2.len() && is_candidate(c, #[trigger] e2[j]) implies !outranks(
            lenient_version(e2[j])->0,
            lenient_version(e2[k2])->0,
        ) by {
            if j < at {
                assert(e2[j] == entries[j]);
            } else if j > at {
                assert(e2[j] == entries[j - 1]);
            }
        }
    }
    if is_maximal(c, e2, k2) {
        assert forall|j: int|
            0 <= j < entries.len() && is_candidate(c, #[trigger] entries[j]) implies !outranks(
            lenient_version(entries[j])->0,
            lenient_version(entries[k])->0,
        ) by {
            assert(entries[j] == e2[shifted(j, at)]);
        }
    }
}

proof fn lemma_first_maximal_after_insert(
    c: Seq<char>,
    entries: Seq<Seq<char>>,
    at: int,
    junk: Seq<char>,
    start: int,
)
    requires
        0 <= at <= entries.len(),
        lenient_version(junk) is None,
        0 <= start <= entries.len(),
    ensures
        first_maximal(c, entries.insert(at, junk), shifted(start, at)) == match first_maximal(
            c,
            entries,
            start,
        ) {
            Some(i) => Some(shifted(i, at)),
            None => None,
        },
        start == at ==> first_maximal(c, entries.insert(at, junk), at) == first_maximal(
            c,
            entries.insert(at, junk),
            at + 1,
        ),
    decreases entries.len() - start,
{
    let e2 = entries.insert(at, junk);
    if start < entries.len() {
        lemma_maximal_after_insert(c, entries, at, junk, start);
        lemma_first_maximal_after_insert(c, entries, at, junk, start + 1);
        if start + 1 == at {
            assert(shifted(start + 1, at) == at + 1);
        }
    } else {
        lemma_maximal_after_insert_end(c, entries, at, junk);
    }
    if start == at && at < e2.len() {
        lemma_maximal_junk(c, entries, at, junk);
    }
}

proof fn lemma_maximal_junk(c: Seq<char>, entries: Seq<Seq<char>>, at: int, junk: Seq<char>)
    requires
        0 <= at <= entries.len(),
        lenient_version(junk) is None,
    ensures
        !is_maximal(c, entries.insert(at, junk), at),
{
    assert(entries.insert(at, junk)[at] == junk);
}

proof fn lemma_maximal_after_insert_end(
    c: Seq<char>,
    entries: Seq<Seq<char>>,
    at: int,
    junk: Seq<char>,
)
    requires
        0 <= at <= entries.len(),
        lenient_version(junk) is None,
    ensures
        first_maximal(c, entries.insert(at, junk), shifted(entries.len() as int, at)) is None,
{
    let e2 = entries.insert(at, junk);
    let s = shifted(entries.len() as int, at);
    if s < e2.len() {
        assert(s == at);
        lemma_maximal_junk(c, entries, at, junk);
        assert(first_maximal(c, e2, s + 1) is None);
    }
}

/// An entry that does not read as a version changes nothing: inserting it
/// anywhere in a catalog leaves the resolved entry as it was.
pub proof fn lemma_unparseable_entry_ignored(
    c: Seq<char>,
    entries: Seq<Seq<char>>,
    at: int,
    junk: Seq<char>,
)
    requires
        0 <= at <= entries.len(),
        lenient_version(junk) is None,
    ensures
        resolved(c, entries.insert(at, junk)) == resolved(c, entries),
{
    let e2 = entries.insert(at, junk);
    lemma_first_maximal_after_insert(c, entries, at, junk, 0);
    if at == 0 {
        lemma_first_maximal_after_insert(c, entries, at, junk, 0);
        assert(first_maximal(c, e2, 0) == first_maximal(c, e2, 1));
    }
    match first_maximal(c, entries, 0) {
        Some(i) => {
            lemma_first_maximal_bounds(c, entries, 0);
            assert(e2[shifted(i, at)] == entries[i]);
        },
        None => {},
    }
}

/// Entry `i` ranks at least as high as entry `j`.
pub open spec fn ranks_at_least(entries: Seq<Seq<char>>, i: int, j: int) -> bool {
    !outranks(lenient_version(entries[j])->0, lenient_version(entries[i])->0)
}

/// On the candidates of the list, precedence is a total preorder: of two
/// candidates one ranks at least as high as the other, and ranking at least
/// as high is transitive. `semver` documents its precedence as a total order.
pub open spec fn precedence_is_total_on(c: Seq<char>, entries: Seq<Seq<char>>) -> bool {
    &&& forall|i: int, j: int|
        0 <= i < entries.len() && 0 <= j < entries.len() && is_candidate(c, entries[i])
            && is_candidate(c, entries[j]) ==> #[trigger] ranks_at_least(entries, i, j)
            || ranks_at_least(entries, j, i)
    &&& forall|i: int, j: int, k: int|
        0 <= i < entries.len() && 0 <= j < entries.len() && 0 <= k < entries.len()
            && is_candidate(c, entries[i]) && is_candidate(c, entries[j]) && is_candidate(
            c,
            entries[k],
        ) && #[trigger] ranks_at_least(entries, i, j) && #[trigger] ranks_at_least(entries, j, k)
            ==> ranks_at_least(entries, i, k)
}

pub open spec fn is_top_of_prefix(c: Seq<char>, entries: Seq<Seq<char>>, n: int, m: int) -> bool {
    &&& 0 <= m < entries.len()
    &&& is_candidate(c, entries[m])
    &&& forall|j: int|
        0 <= j < n && is_candidate(c, #[trigger] entries[j]) ==> ranks_at_least(entries, m, j)
}

proof fn lemma_prefix_has_top(c: Seq<char>, entries: Seq<Seq<char>>, n: int)
    requires
        precedence_is_total_on(c, entries),
        0 <= n <= entries.len(),
    ensures
        (exists|i: int| 0 <= i < n && is_candidate(c, #[trigger] entries[i])) ==> exists|m: int|
            #[trigger] is_top_of_prefix(c, entries, n, m),
    decreases n,
{
    if n > 0 {
        lemma_prefix_has_top(c, entries, n - 1);
        let k = n - 1;
        if exists|i: int| 0 <= i < n - 1 && is_candidate(c, #[trigger] entries[i]) {
            let m = choose|m: int| #[trigger] is_top_of_prefix(c, entries, n - 1, m);
            if is_candidate(c, entries[k]) && !ranks_at_least(entries, m, k) {
                assert(ranks_at_least(entries, k, m));
                assert(ranks_at_least(entries, k, k));
                assert forall|j: int|
                    0 <= j < n && is_candidate(c, #[trigger] entries[j]) implies ranks_at_least(
                    entries,
                    k,
                    j,
                ) by {
                    if j < k {
                        assert(ranks_at_least(entries, m, j));
                    }
                }
                assert(is_top_of_prefix(c, entries, n, k));
            } else {
                assert(is_top_of_prefix(c, entries, n, m));
            }
        } else if is_candidate(c, entries[k]) {
            assert(ranks_at_least(entries, k, k));
            assert(is_top_of_prefix(c, entries, n, k));
        }
    }
}

/// Where precedence is a total preorder on the candidates, as `semver`
/// documents it, a catalog with at least one candidate always resolves.
pub proof fn lemma_candidate_resolves(c: Seq<char>, entries: Seq<Seq<char>>, i: int)
    requires
        precedence_is_total_on(c, entries),
        0 <= i < entries.len(),
        is_candidate(c, entries[i]),
    ensures
        resolved(c, entries) is Some,
{
    lemma_prefix_has_top(c, entries, entries.len() as int);
    let m = choose|m: int| #[trigger] is_top_of_prefix(c, entries, entries.len() as int, m);
    assert(is_maximal(c, entries, m));
    lemma_first_maximal_bounds(c, entries, 0);
}

} // verus!
