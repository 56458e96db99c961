use crate::timeseries::{EnsembleList, EnsembleSeries, MergedSeries, ModelTimes, TimeSeries, ValidTime};
use std::collections::HashMap;
use vstd::prelude::*;

verus! {

/// An element can take part in a merge if it has both a valid time and a lead
/// time.
pub open spec fn usable<T: ModelTimes>(item: T) -> bool {
    item.valid_at() is Some && item.lead() is Some
}

/// The element `e` of run `r` exists and is usable.
pub open spec fn candidate<T: ModelTimes>(runs: Seq<Seq<T>>, r: int, e: int) -> bool {
    0 <= r < runs.len() && 0 <= e < runs[r].len() && usable(runs[r][e])
}

/// Place `(r1, e1)` is met before place `(r2, e2)` when the runs are walked in
/// their order, each from its first element to its last.
pub open spec fn before(r1: int, e1: int, r2: int, e2: int) -> bool {
    r1 < r2 || (r1 == r2 && e1 < e2)
}

/// The element at `(r1, e1)` is kept rather than the one at `(r2, e2)`: its
/// lead time is shorter, or the same and it is not met later.
pub open spec fn preferred<T: ModelTimes>(
    runs: Seq<Seq<T>>,
    r1: int,
    e1: int,
    r2: int,
    e2: int,
) -> bool {
    let a = runs[r1][e1].lead().unwrap();
    let b = runs[r2][e2].lead().unwrap();
    a < b || (a == b && !before(r2, e2, r1, e1))
}

/// The element at `(r, e)` is the one that a merge keeps for its valid time:
/// it is preferred to every candidate with the same valid time.
pub open spec fn wins<T: ModelTimes>(runs: Seq<Seq<T>>, r: int, e: int) -> bool {
    &&& candidate(runs, r, e)
    &&& forall|r2: int, e2: int|
        #[trigger] candidate(runs, r2, e2) && runs[r2][e2].valid_at() == runs[r][e].valid_at()
            ==> preferred(runs, r, e, r2, e2)
}

/// `item` is an element of `runs` that wins.
pub open spec fn chosen<T: ModelTimes>(runs: Seq<Seq<T>>, item: T) -> bool {
    exists|r: int, e: int| #[trigger] wins(runs, r, e) && item == runs[r][e]
}

/// Every element has a valid time, and the valid times strictly ascend.
pub open spec fn ascending<T: ValidTime>(items: Seq<T>) -> bool {
    &&& forall|k: int| 0 <= k < items.len() ==> (#[trigger] items[k]).valid_at() is Some
    &&& forall|i: int, j: int|
        0 <= i < j < items.len() ==> (#[trigger] items[i]).valid_at().unwrap() < (
        #[trigger] items[j]).valid_at().unwrap()
}

/// Some element of `items` has the valid time `time`.
pub open spec fn holds_time<T: ValidTime>(items: Seq<T>, time: Option<i64>) -> bool {
    exists|k: int| 0 <= k < items.len() && (#[trigger] items[k]).valid_at() == time
}

/// `out` is the merge of `runs`: strictly ascending by valid time, made of
/// winners only, and with an element for the valid time of every candidate.
pub open spec fn is_merge_of<T: ModelTimes>(runs: Seq<Seq<T>>, out: Seq<T>) -> bool {
    &&& ascending(out)
    &&& forall|k: int| 0 <= k < out.len() ==> chosen(runs, #[trigger] out[k])
    &&& forall|r: int, e: int| #[trigger]
        candidate(runs, r, e) ==> holds_time(out, runs[r][e].valid_at())
}

/// The series of each run of an ensemble, without the start times.
pub open spec fn series_of<T: ValidTime>(data: Seq<(i64, TimeSeries<T>)>) -> Seq<Seq<T>> {
    Seq::new(data.len(), |r: int| data[r].1.data@)
}

/// The element at `(r, e)` is a candidate met before `(rl, el)` and preferred
/// to every candidate with its valid time that is met before `(rl, el)`.
spec fn leads_until<T: ModelTimes>(runs: Seq<Seq<T>>, rl: int, el: int, r: int, e: int) -> bool {
    &&& candidate(runs, r, e)
    &&& before(r, e, rl, el)
    &&& forall|r2: int, e2: int|
        #[trigger] candidate(runs, r2, e2) && before(r2, e2, rl, el) && runs[r2][e2].valid_at()
            == runs[r][e].valid_at() ==> preferred(runs, r, e, r2, e2)
}


/// What holds of the pool when the elements before `(rl, el)` have been
/// taken in: it holds, under each valid time met so far, the element that
/// leads for it; `origin` says where that element comes from.
spec fn pool_inv<T: ModelTimes>(
    runs: Seq<Seq<T>>,
    rl: int,
    el: int,
    pool: Map<i64, T>,
    origin: Map<i64, (int, int)>,
) -> bool {
    &&& forall|t: i64| #[trigger]
        pool.contains_key(t) ==> origin.contains_key(t) && leads_until(
            runs,
            rl,
            el,
            origin[t].0,
            origin[t].1,
        ) && pool[t] == runs[origin[t].0][origin[t].1] && pool[t].valid_at() == Some(t)
    &&& forall|r: int, e: int| #[trigger]
        candidate(runs, r, e) && before(r, e, rl, el) ==> pool.contains_key(
            runs[r][e].valid_at().unwrap(),
        )
}

/// The valid times met so far, each once, are the keys of the pool.
spec fn keys_inv<T>(pool: Map<i64, T>, times: Seq<i64>) -> bool {
    &&& times.no_duplicates()
    &&& forall|t: i64| pool.contains_key(t) <==> times.contains(t)
}

proof fn lemma_skip<T: ModelTimes>(
    runs: Seq<Seq<T>>,
    r: int,
    e: int,
    pool: Map<i64, T>,
    origin: Map<i64, (int, int)>,
)
    requires
        pool_inv(runs, r, e, pool, origin),
        !candidate(runs, r, e),
    ensures
        pool_inv(runs, r, e + 1, pool, origin),
{
    assert forall|r2: int, e2: int| #[trigger]
        candidate(runs, r2, e2) implies before(r2, e2, r, e + 1) == before(r2, e2, r, e) by {}
}

proof fn lemma_keep<T: ModelTimes>(
    runs: Seq<Seq<T>>,
    r: int,
    e: int,
    pool: Map<i64, T>,
    origin: Map<i64, (int, int)>,
)
    requires
        pool_inv(runs, r, e, pool, origin),
        candidate(runs, r, e),
        pool.contains_key(runs[r][e].valid_at().unwrap()),
        pool[runs[r][e].valid_at().unwrap()].lead().unwrap() <= runs[r][e].lead().unwrap(),
    ensures
        pool_inv(runs, r, e + 1, pool, origin),
{
    assert forall|t: i64| #[trigger] pool.contains_key(t) implies leads_until(
        runs,
        r,
        e + 1,
        origin[t].0,
        origin[t].1,
    ) by {
        assert(leads_until(runs, r, e, origin[t].0, origin[t].1));
    }
}

proof fn lemma_put<T: ModelTimes>(
    runs: Seq<Seq<T>>,
    r: int,
    e: int,
    pool: Map<i64, T>,
    origin: Map<i64, (int, int)>,
)
    requires
        pool_inv(runs, r, e, pool, origin),
        candidate(runs, r, e),
        pool.contains_key(runs[r][e].valid_at().unwrap()) ==> runs[r][e].lead().unwrap()
            < pool[runs[r][e].valid_at().unwrap()].lead().unwrap(),
    ensures
        pool_inv(
            runs,
            r,
            e + 1,
            pool.insert(runs[r][e].valid_at().unwrap(), runs[r][e]),
            origin.insert(runs[r][e].valid_at().unwrap(), (r, e)),
        ),
{
    let v = runs[r][e].valid_at().unwrap();
    let pool2 = pool.insert(v, runs[r][e]);
    let origin2 = origin.insert(v, (r, e));
    assert forall|t: i64| #[trigger] pool2.contains_key(t) implies origin2.contains_key(t)
        && leads_until(runs, r, e + 1, origin2[t].0, origin2[t].1) && pool2[t]
        == runs[origin2[t].0][origin2[t].1] && pool2[t].valid_at() == Some(t) by {
        if t != v {
            assert(pool.contains_key(t));
            assert(leads_until(runs, r, e, origin[t].0, origin[t].1));
        } else {
            if pool.contains_key(v) {
                assert(leads_until(runs, r, e, origin[v].0, origin[v].1));
            }
            assert forall|r2: int, e2: int|
                #[trigger] candidate(runs, r2, e2) && before(r2, e2, r, e + 1)
                    && runs[r2][e2].valid_at() == runs[r][e].valid_at() implies preferred(
                runs,
                r,
                e,
                r2,
                e2,
            ) by {
                if before(r2, e2, r, e) {
                    assert(pool.contains_key(v));
                }
            }
        }
    }
    assert forall|r2: int, e2: int| #[trigger]
        candidate(runs, r2, e2) && before(r2, e2, r, e + 1) implies pool2.contains_key(
        runs[r2][e2].valid_at().unwrap(),
    ) by {
        if before(r2, e2, r, e) {
            assert(pool.contains_key(runs[r2][e2].valid_at().unwrap()));
        }
    }
}

proof fn lemma_next_run<T: ModelTimes>(
    runs: Seq<Seq<T>>,
    r: int,
    pool: Map<i64, T>,
    origin: Map<i64, (int, int)>,
)
    requires
        0 <= r < runs.len(),
        pool_inv(runs, r, runs[r].len() as int, pool, origin),
    ensures
        pool_inv(runs, r + 1, 0, pool, origin),
{
    assert forall|r2: int, e2: int| #[trigger]
        candidate(runs, r2, e2) implies before(r2, e2, r + 1, 0) == before(
        r2,
        e2,
        r,
        runs[r].len() as int,
    ) by {}
}

/// The elements of the pool, taken out in ascending order of their valid
/// times, are the merge.
proof fn lemma_done<T: ModelTimes>(
    runs: Seq<Seq<T>>,
    pool: Map<i64, T>,
    origin: Map<i64, (int, int)>,
    sorted: Seq<i64>,
    out: Seq<T>,
)
    requires
        pool_inv(runs, runs.len() as int, 0, pool, origin),
        forall|i: int, j: int| 0 <= i < j < sorted.len() ==> sorted[i] < sorted[j],
        forall|t: i64| pool.contains_key(t) <==> sorted.contains(t),
        out.len() == sorted.len(),
        forall|k: int| 0 <= k < out.len() ==> #[trigger] out[k] == pool[sorted[k]],
    ensures
        is_merge_of(runs, out),
{
    assert forall|r2: int, e2: int| #[trigger]
        candidate(runs, r2, e2) implies before(r2, e2, runs.len() as int, 0) by {}
    assert forall|k: int| 0 <= k < out.len() implies chosen(runs, #[trigger] out[k])
        && out[k].valid_at() == Some(sorted[k]) by {
        let t = sorted[k];
        assert(sorted.contains(t));
        assert(pool.contains_key(t));
        assert(leads_until(runs, runs.len() as int, 0, origin[t].0, origin[t].1));
        assert(wins(runs, origin[t].0, origin[t].1));
    }
    assert(ascending(out)) by {
        assert forall|i: int, j: int| 0 <= i < j < out.len() implies (#[trigger] out[i])
            .valid_at().unwrap() < (#[trigger] out[j]).valid_at().unwrap() by {
            assert(out[i].valid_at() == Some(sorted[i]));
            assert(out[j].valid_at() == Some(sorted[j]));
        }
    }
    assert forall|r: int, e: int| #[trigger] candidate(runs, r, e) implies holds_time(
        out,
        runs[r][e].valid_at(),
    ) by {
        let t = runs[r][e].valid_at().unwrap();
        assert(pool.contains_key(t));
        assert(sorted.contains(t));
        let k = choose|k: int| 0 <= k < sorted.len() && sorted[k] == t;
        assert(out[k].valid_at() == runs[r][e].valid_at());
    }
}

/// A strictly climbing sequence of indices does not fall behind its places.
proof fn lemma_climb_low(f: Seq<int>, k: int)
    requires
        forall|i: int, j: int| 0 <= i < j < f.len() ==> f[i] < f[j],
        forall|i: int| 0 <= i < f.len() ==> f[i] >= 0,
        0 <= k < f.len(),
    ensures
        f[k] >= k,
    decreases k,
{
    if k > 0 {
        lemma_climb_low(f, k - 1);
    }
}

/// A strictly climbing sequence of indices below `n`, itself of length `n`,
/// does not run ahead of its places.
proof fn lemma_climb_high(f: Seq<int>, k: int)
    requires
        forall|i: int, j: int| 0 <= i < j < f.len() ==> f[i] < f[j],
        forall|i: int| 0 <= i < f.len() ==> f[i] < f.len(),
        0 <= k < f.len(),
    ensures
        f[k] <= k,
    decreases f.len() - k,
{
    if k < f.len() - 1 {
        lemma_climb_high(f, k + 1);
    }
}

/// The place in `b` of the valid time of `a[k]`.
spec fn place_in<T: ValidTime>(a: Seq<T>, b: Seq<T>, k: int) -> int {
    choose|j: int| 0 <= j < b.len() && (#[trigger] b[j]).valid_at() == a[k].valid_at()
}

/// An ascending series whose valid times all occur in another ascending
/// series is no longer than it.
proof fn lemma_no_longer<T: ValidTime>(a: Seq<T>, b: Seq<T>)
    requires
        ascending(a),
        ascending(b),
        forall|k: int| 0 <= k < a.len() ==> holds_time(b, (#[trigger] a[k]).valid_at()),
    ensures
        a.len() <= b.len(),
{
    if a.len() > 0 {
        let f = Seq::new(a.len(), |k: int| place_in(a, b, k));
        assert forall|i: int| 0 <= i < f.len() implies 0 <= f[i] < b.len() && b[f[i]].valid_at()
            == a[i].valid_at() by {
            assert(holds_time(b, a[i].valid_at()));
        }
        assert forall|i: int, j: int| 0 <= i < j < f.len() implies f[i] < f[j] by {
            assert(b[f[i]].valid_at() == a[i].valid_at());
            assert(b[f[j]].valid_at() == a[j].valid_at());
            if f[i] > f[j] {
                assert(b[f[j]].valid_at().unwrap() < b[f[i]].valid_at().unwrap());
            }
        }
        lemma_climb_low(f, a.len() - 1);
    }
}

/// Two ascending series with the same valid times have them at the same
/// places.
proof fn lemma_same_places<T: ValidTime>(a: Seq<T>, b: Seq<T>, k: int)
    requires
        ascending(a),
        ascending(b),
        forall|i: int| 0 <= i < a.len() ==> holds_time(b, (#[trigger] a[i]).valid_at()),
        forall|i: int| 0 <= i < b.len() ==> holds_time(a, (#[trigger] b[i]).valid_at()),
        0 <= k < a.len(),
    ensures
        a.len() == b.len(),
        a[k].valid_at() == b[k].valid_at(),
{
    lemma_no_longer(a, b);
    lemma_no_longer(b, a);
    let f = Seq::new(a.len(), |i: int| place_in(a, b, i));
    assert forall|i: int| 0 <= i < f.len() implies 0 <= f[i] < b.len() && b[f[i]].valid_at()
        == a[i].valid_at() by {
        assert(holds_time(b, a[i].valid_at()));
    }
    assert forall|i: int, j: int| 0 <= i < j < f.len() implies f[i] < f[j] by {
        assert(b[f[i]].valid_at() == a[i].valid_at());
        assert(b[f[j]].valid_at() == a[j].valid_at());
        if f[i] > f[j] {
            assert(b[f[j]].valid_at().unwrap() < b[f[i]].valid_at().unwrap());
        }
    }
    lemma_climb_low(f, k);
    lemma_climb_high(f, k);
}

/// The output of a merge strictly ascends by valid time, so no two of its
/// elements share a valid time; each is a usable element of the input, and
/// every valid time of a usable element of the input occurs in it.
pub proof fn lemma_merge_one_per_time<T: ModelTimes>(runs: Seq<Seq<T>>, out: Seq<T>)
    requires
        is_merge_of(runs, out),
    ensures
        forall|i: int, j: int|
            0 <= i < j < out.len() ==> (#[trigger] out[i]).valid_at().unwrap() < (
            #[trigger] out[j]).valid_at().unwrap(),
        forall|i: int, j: int|
            0 <= i < out.len() && 0 <= j < out.len() && i != j ==> (#[trigger] out[i]).valid_at()
                != (#[trigger] out[j]).valid_at(),
        forall|k: int| 0 <= k < out.len() ==> usable(#[trigger] out[k]) && chosen(runs, out[k]),
        forall|r: int, e: int| #[trigger]
            candidate(runs, r, e) ==> holds_time(out, runs[r][e].valid_at()),
{
    assert forall|i: int, j: int|
        0 <= i < out.len() && 0 <= j < out.len() && i != j implies (#[trigger] out[i]).valid_at()
        != (#[trigger] out[j]).valid_at() by {
        if i < j {
            assert(out[i].valid_at().unwrap() < out[j].valid_at().unwrap());
        } else {
            assert(out[j].valid_at().unwrap() < out[i].valid_at().unwrap());
        }
    }
    assert forall|k: int| 0 <= k < out.len() implies usable(#[trigger] out[k]) by {
        assert(chosen(runs, out[k]));
        let (r, e) = choose|r: int, e: int| #[trigger] wins(runs, r, e) && out[k] == runs[r][e];
        assert(candidate(runs, r, e));
    }
}

/// The element that a merge keeps for a valid time has a lead time no longer
/// than that of any usable element of the input with that valid time, and of
/// those with its own lead time it is the one that is met first.
pub proof fn lemma_merge_shortest_lead<T: ModelTimes>(
    runs: Seq<Seq<T>>,
    out: Seq<T>,
    k: int,
    r: int,
    e: int,
)
    requires
        is_merge_of(runs, out),
        0 <= k < out.len(),
        candidate(runs, r, e),
        runs[r][e].valid_at() == out[k].valid_at(),
    ensures
        out[k].lead() is Some,
        out[k].lead().unwrap() <= runs[r][e].lead().unwrap(),
        exists|r0: int, e0: int| #[trigger]
            candidate(runs, r0, e0) && out[k] == runs[r0][e0] && (out[k].lead()
                == runs[r][e].lead() ==> !before(r, e, r0, e0)),
{
    assert(chosen(runs, out[k]));
    let (r0, e0) = choose|r0: int, e0: int| #[trigger]
        wins(runs, r0, e0) && out[k] == runs[r0][e0];
    assert(preferred(runs, r0, e0, r, e));
    assert(candidate(runs, r0, e0) && out[k] == runs[r0][e0] && (out[k].lead()
        == runs[r][e].lead() ==> !before(r, e, r0, e0)));
}

/// The runs determine their merge: two series that are each a merge of the
/// same runs are equal.
pub proof fn lemma_merge_unique<T: ModelTimes>(runs: Seq<Seq<T>>, a: Seq<T>, b: Seq<T>)
    requires
        is_merge_of(runs, a),
        is_merge_of(runs, b),
    ensures
        a == b,
{
    assert forall|i: int| 0 <= i < a.len() implies holds_time(b, (#[trigger] a[i]).valid_at()) by {
        assert(chosen(runs, a[i]));
        let (r, e) = choose|r: int, e: int| #[trigger] wins(runs, r, e) && a[i] == runs[r][e];
        assert(candidate(runs, r, e));
    }
    assert forall|i: int| 0 <= i < b.len() implies holds_time(a, (#[trigger] b[i]).valid_at()) by {
        assert(chosen(runs, b[i]));
        let (r, e) = choose|r: int, e: int| #[trigger] wins(runs, r, e) && b[i] == runs[r][e];
        assert(candidate(runs, r, e));
    }
    lemma_no_longer(a, b);
    lemma_no_longer(b, a);
    assert forall|k: int| 0 <= k < a.len() implies a[k] == b[k] by {
        lemma_same_places(a, b, k);
        assert(chosen(runs, a[k]));
        assert(chosen(runs, b[k]));
        let (r1, e1) = choose|r: int, e: int| #[trigger] wins(runs, r, e) && a[k] == runs[r][e];
        let (r2, e2) = choose|r: int, e: int| #[trigger] wins(runs, r, e) && b[k] == runs[r][e];
        assert(candidate(runs, r1, e1));
        assert(candidate(runs, r2, e2));
        assert(preferred(runs, r1, e1, r2, e2));
        assert(preferred(runs, r2, e2, r1, e1));
        assert(r1 == r2 && e1 == e2);
    }
    assert(a =~= b);
}

/// No two usable elements at different places have both the valid time and
/// the lead time in common.
pub open spec fn no_ties<T: ModelTimes>(runs: Seq<Seq<T>>) -> bool {
    forall|r1: int, e1: int, r2: int, e2: int|
        #[trigger] candidate(runs, r1, e1) && #[trigger] candidate(runs, r2, e2)
            && runs[r1][e1].valid_at() == runs[r2][e2].valid_at() && runs[r1][e1].lead()
            == runs[r2][e2].lead() ==> r1 == r2 && e1 == e2
}

/// `item` is a usable element of `runs`.
pub open spec fn offered<T: ModelTimes>(runs: Seq<Seq<T>>, item: T) -> bool {
    exists|r: int, e: int| #[trigger] candidate(runs, r, e) && runs[r][e] == item
}

/// Every usable element of `a` is a usable element of `b`.
pub open spec fn covered_by<T: ModelTimes>(a: Seq<Seq<T>>, b: Seq<Seq<T>>) -> bool {
    forall|r: int, e: int| #[trigger] candidate(a, r, e) ==> offered(b, a[r][e])
}

/// Without ties the order of the runs, and of the elements in them, does not
/// matter: two ensembles with the same usable elements have the same merge.
pub proof fn lemma_merge_ignores_order<T: ModelTimes>(a: Seq<Seq<T>>, b: Seq<Seq<T>>, out: Seq<T>)
    requires
        no_ties(b),
        covered_by(a, b),
        covered_by(b, a),
        is_merge_of(a, out),
    ensures
        is_merge_of(b, out),
{
    assert forall|k: int| 0 <= k < out.len() implies chosen(b, #[trigger] out[k]) by {
        assert(chosen(a, out[k]));
        let (r, e) = choose|r: int, e: int| #[trigger] wins(a, r, e) && out[k] == a[r][e];
        assert(candidate(a, r, e));
        assert(offered(b, a[r][e]));
        let (rb, eb) = choose|rb: int, eb: int| #[trigger]
            candidate(b, rb, eb) && b[rb][eb] == a[r][e];
        assert forall|r2: int, e2: int|
            #[trigger] candidate(b, r2, e2) && b[r2][e2].valid_at()
                == b[rb][eb].valid_at() implies preferred(b, rb, eb, r2, e2) by {
            assert(offered(a, b[r2][e2]));
            let (ra, ea) = choose|ra: int, ea: int| #[trigger]
                candidate(a, ra, ea) && a[ra][ea] == b[r2][e2];
            assert(preferred(a, r, e, ra, ea));
        }
        assert(wins(b, rb, eb));
    }
    assert forall|r: int, e: int| #[trigger] candidate(b, r, e) implies holds_time(
        out,
        b[r][e].valid_at(),
    ) by {
        assert(offered(a, b[r][e]));
        let (ra, ea) = choose|ra: int, ea: int| #[trigger]
            candidate(a, ra, ea) && a[ra][ea] == b[r][e];
        assert(holds_time(out, a[ra][ea].valid_at()));
    }
}

/// Merging what is already merged changes nothing: a single run whose
/// elements are all usable and strictly ascend by valid time is its own merge.
pub proof fn lemma_merge_of_merged<T: ModelTimes>(run: Seq<T>, out: Seq<T>)
    requires
        ascending(run),
        forall|e: int| 0 <= e < run.len() ==> usable(#[trigger] run[e]),
        is_merge_of(seq![run], out),
    ensures
        out == run,
{
    let runs = seq![run];
    assert forall|k: int| 0 <= k < run.len() implies chosen(runs, #[trigger] run[k]) by {
        assert(candidate(runs, 0, k));
        assert forall|r2: int, e2: int|
            #[trigger] candidate(runs, r2, e2) && runs[r2][e2].valid_at()
                == runs[0][k].valid_at() implies preferred(runs, 0, k, r2, e2) by {
            assert(r2 == 0);
            if e2 < k {
                assert(run[e2].valid_at().unwrap() < run[k].valid_at().unwrap());
            } else if k < e2 {
                assert(run[k].valid_at().unwrap() < run[e2].valid_at().unwrap());
            }
        }
        assert(wins(runs, 0, k));
    }
    assert forall|r: int, e: int| #[trigger] candidate(runs, r, e) implies holds_time(
        run,
        runs[r][e].valid_at(),
    ) by {
        assert(r == 0);
        assert(run[e].valid_at() == runs[r][e].valid_at());
    }
    assert(is_merge_of(runs, run));
    lemma_merge_unique(runs, out, run);
}

/// Merging a single run whose elements are all usable and have valid times
/// of their own only puts it in order: the merge has the elements of the run,
/// each once.
pub proof fn lemma_merge_sorts_single_run<T: ModelTimes>(run: Seq<T>, out: Seq<T>)
    requires
        forall|e: int| 0 <= e < run.len() ==> usable(#[trigger] run[e]),
        forall|i: int, j: int|
            0 <= i < j < run.len() ==> (#[trigger] run[i]).valid_at() != (
            #[trigger] run[j]).valid_at(),
        is_merge_of(seq![run], out),
    ensures
        ascending(out),
        out.len() == run.len(),
        forall|e: int| 0 <= e < run.len() ==> out.contains(#[trigger] run[e]),
        forall|k: int| 0 <= k < out.len() ==> run.contains(#[trigger] out[k]),
{
    let runs = seq![run];
    assert forall|k: int| 0 <= k < out.len() implies run.contains(#[trigger] out[k]) by {
        assert(chosen(runs, out[k]));
        let (r, e) = choose|r: int, e: int| #[trigger] wins(runs, r, e) && out[k] == runs[r][e];
        assert(candidate(runs, r, e));
        assert(run[e] == out[k]);
    }
    assert forall|e: int| 0 <= e < run.len() implies out.contains(#[trigger] run[e]) by {
        assert(candidate(runs, 0, e));
        assert(holds_time(out, runs[0][e].valid_at()));
        let k = choose|k: int|
            0 <= k < out.len() && (#[trigger] out[k]).valid_at() == run[e].valid_at();
        assert(chosen(runs, out[k]));
        let (r2, e2) = choose|r: int, e: int| #[trigger]
            wins(runs, r, e) && out[k] == runs[r][e];
        assert(candidate(runs, r2, e2));
        assert(r2 == 0);
        if e2 < e {
            assert(run[e2].valid_at() != run[e].valid_at());
        } else if e < e2 {
            assert(run[e].valid_at() != run[e2].valid_at());
        }
        assert(out[k] == run[e]);
    }
    assert(run.no_duplicates()) by {
        assert forall|i: int, j: int| 0 <= i < run.len() && 0 <= j < run.len() && i != j implies run[i] != run[j] by {
            if i < j {
                assert(run[i].valid_at() != run[j].valid_at());
            } else {
                assert(run[j].valid_at() != run[i].valid_at());
            }
        }
    }
    assert(out.no_duplicates()) by {
        assert forall|i: int, j: int| 0 <= i < out.len() && 0 <= j < out.len() && i != j implies out[i] != out[j] by {
            if i < j {
                assert(out[i].valid_at().unwrap() < out[j].valid_at().unwrap());
            } else {
                assert(out[j].valid_at().unwrap() < out[i].valid_at().unwrap());
            }
        }
    }
    run.unique_seq_to_set();
    out.unique_seq_to_set();
    assert(run.to_set() =~= out.to_set());
}

/// Put the valid times in ascending order.
fn sort_times(times: &Vec<i64>) -> (sorted: Vec<i64>)
    requires
        times@.no_duplicates(),
    ensures
        forall|i: int, j: int| 0 <= i < j < sorted.len() ==> sorted[i] < sorted[j],
        forall|t: i64| sorted@.contains(t) <==> times@.contains(t),
{
    let mut sorted: Vec<i64> = Vec::new();
    let mut k: usize = 0;
    while k < times.len()
        invariant
            k <= times.len(),
            times@.no_duplicates(),
            forall|i: int, j: int| 0 <= i < j < sorted.len() ==> sorted[i] < sorted[j],
            forall|t: i64| sorted@.contains(t) <==> times@.take(k as int).contains(t),
        decreases times.len() - k,
    {
        let time = times[k];
        let ghost before = sorted@;
        let ghost met = times@.take(k as int);
        let ghost upto = times@.take(k + 1);
        proof {
            if before.contains(time) {
                let j = choose|j: int| 0 <= j < met.len() && met[j] == time;
                assert(times@[j] == times@[k as int]);
            }
        }
        let mut pos: usize = 0;
        while pos < sorted.len() && sorted[pos] < time
            invariant
                pos <= sorted.len(),
                sorted@ == before,
                forall|i: int, j: int| 0 <= i < j < sorted.len() ==> sorted[i] < sorted[j],
                forall|i: int| 0 <= i < pos ==> sorted[i] < time,
            decreases sorted.len() - pos,
        {
            pos += 1;
        }
        proof {
            if pos < sorted.len() {
                assert(before.contains(before[pos as int]));
            }
        }
        sorted.insert(pos, time);
        proof {
            assert forall|t: i64| sorted@.contains(t) <==> upto.contains(t) by {
                if sorted@.contains(t) {
                    let i = choose|i: int| 0 <= i < sorted@.len() && sorted@[i] == t;
                    if i < pos {
                        assert(before[i] == t);
                    } else if i > pos {
                        assert(before[i - 1] == t);
                    }
                    if before.contains(t) {
                        let j = choose|j: int| 0 <= j < met.len() && met[j] == t;
                        assert(upto[j] == t);
                    } else {
                        assert(upto[k as int] == t);
                    }
                }
                if upto.contains(t) {
                    let j = choose|j: int| 0 <= j < upto.len() && upto[j] == t;
                    if j < k {
                        assert(met[j] == t);
                        assert(before.contains(t));
                        let i = choose|i: int| 0 <= i < before.len() && before[i] == t;
                        if i < pos {
                            assert(sorted@[i] == t);
                        } else {
                            assert(sorted@[i + 1] == t);
                        }
                    } else {
                        assert(sorted@[pos as int] == t);
                    }
                }
            }
        }
        k += 1;
    }
    proof {
        assert(times@.take(k as int) =~= times@);
    }
    sorted
}

/// Take one element into the pool: skip it if it is not usable, put it in
/// under its valid time if that is new, and else let it replace the element
/// with its valid time only if its lead time is strictly shorter.
fn absorb<T: ModelTimes>(
    pool: &mut HashMap<i64, T>,
    times: &mut Vec<i64>,
    item: T,
    Ghost(runs): Ghost<Seq<Seq<T>>>,
    Ghost(r): Ghost<int>,
    Ghost(e): Ghost<int>,
    Ghost(origin): Ghost<Map<i64, (int, int)>>,
) -> (origin2: Ghost<Map<i64, (int, int)>>)
    requires
        0 <= r < runs.len(),
        0 <= e < runs[r].len(),
        item == runs[r][e],
        pool_inv(runs, r, e, old(pool)@, origin),
        keys_inv(old(pool)@, old(times)@),
    ensures
        pool_inv(runs, r, e + 1, final(pool)@, origin2@),
        keys_inv(final(pool)@, final(times)@),
{
    broadcast use vstd::std_specs::hash::group_hash_axioms;

    let valid = item.valid_time();
    let lead = item.lead_time();
    match (valid, lead) {
        (Some(v), Some(l)) => {
            // Whether a lead time is stored for this valid time, and whether the new one is shorter.
            let stored: Option<bool> = match pool.get(&v) {
                Some(kept) => match kept.lead_time() {
                    Some(kept_lead) => Some(l < kept_lead),
                    None => Some(false),
                },
                None => None,
            };
            proof {
                if pool@.contains_key(v) {
                    assert(leads_until(runs, r, e, origin[v].0, origin[v].1));
                }
            }
            match stored {
                Some(false) => {
                    proof {
                        lemma_keep(runs, r, e, pool@, origin);
                    }
                    Ghost(origin)
                },
                Some(true) => {
                    proof {
                        lemma_put(runs, r, e, pool@, origin);
                        assert(times@.contains(v));
                    }
                    let ghost held = pool@;
                    pool.insert(v, item);
                    proof {
                        assert forall|t: i64| final(pool)@.contains_key(t) <==> times@.contains(
                            t,
                        ) by {
                            assert(final(pool)@.contains_key(t) <==> held.contains_key(t));
                        }
                    }
                    Ghost(origin.insert(v, (r, e)))
                },
                None => {
                    proof {
                        lemma_put(runs, r, e, pool@, origin);
                    }
                    let ghost before = times@;
                    let ghost held = pool@;
                    pool.insert(v, item);
                    times.push(v);
                    proof {
                        assert(!before.contains(v));
                        assert(times@.no_duplicates()) by {
                            assert forall|i: int, j: int|
                                0 <= i < times@.len() && 0 <= j < times@.len() && i
                                    != j implies times@[i] != times@[j] by {
                                if i < before.len() {
                                    assert(before.contains(before[i]));
                                }
                                if j < before.len() {
                                    assert(before.contains(before[j]));
                                }
                            }
                        }
                        assert forall|t: i64| final(pool)@.contains_key(t) <==> times@.contains(
                            t,
                        ) by {
                            assert(final(pool)@.contains_key(t) <==> (held.contains_key(t) || t
                                == v));
                            if times@.contains(t) {
                                let i = choose|i: int| 0 <= i < times@.len() && times@[i] == t;
                                if i < before.len() {
                                    assert(before[i] == t);
                                    assert(before.contains(t));
                                }
                            }
                            if before.contains(t) {
                                let i = choose|i: int| 0 <= i < before.len() && before[i] == t;
                                assert(times@[i] == t);
                            }
                            assert(times@[before.len() as int] == v);
                        }
                    }
                    Ghost(origin.insert(v, (r, e)))
                },
            }
        },
        _ => {
            proof {
                lemma_skip(runs, r, e, pool@, origin);
            }
            Ghost(origin)
        },
    }
}

impl<T: ModelTimes> EnsembleSeries<T> {
    /// Transform an `EnsembleSeries` into a `MergedSeries`: for each valid
    /// time the usable element with the shortest lead time, and of several
    /// with that lead time the first, in ascending order of valid time.
    ///
    /// The runs are expected in order of ascending start time.
    pub fn merge(self) -> (out: MergedSeries<T>)
        ensures
            out.meta == self.meta,
            is_merge_of(series_of(self.data@), out.data.data@),
    {
        broadcast use vstd::std_specs::hash::group_hash_axioms;

        let EnsembleList { meta, data } = self;
        let ghost runs = series_of(data@);
        // The element kept for each valid time, and the valid times in the order in which
        // they were first met.
        let mut pool: HashMap<i64, T> = HashMap::new();
        let mut times: Vec<i64> = Vec::new();
        let ghost mut origin: Map<i64, (int, int)> = Map::empty();
        for run in it: data.into_iter()
            invariant
                it.seq() == data@,
                runs == series_of(data@),
                pool_inv(runs, it.index() as int, 0, pool@, origin),
                keys_inv(pool@, times@),
        {
            let ghost r = it.index() as int;
            let (_init_time, series) = run;
            let TimeSeries { data: items } = series;
            assert(items@ == runs[r]);
            for item in jt: items.into_iter()
                invariant
                    0 <= r < runs.len(),
                    jt.seq() == runs[r],
                    pool_inv(runs, r, jt.index() as int, pool@, origin),
                    keys_inv(pool@, times@),
            {
                let Ghost(next) = absorb(
                    &mut pool,
                    &mut times,
                    item,
                    Ghost(runs),
                    Ghost(r),
                    Ghost(jt.index() as int),
                    Ghost(origin),
                );
                proof {
                    origin = next;
                }
            }
            proof {
                lemma_next_run(runs, r, pool@, origin);
            }
        }

        let sorted = sort_times(&times);
        let ghost full = pool@;
        proof {
            assert forall|j: int| 0 <= j < sorted.len() implies full.contains_key(
                #[trigger] sorted[j],
            ) by {
                assert(sorted@.contains(sorted[j]));
            }
        }
        let mut data: Vec<T> = Vec::new();
        let mut k: usize = 0;
        while k < sorted.len()
            invariant
                k <= sorted.len(),
                data.len() == k,
                forall|i: int, j: int| 0 <= i < j < sorted.len() ==> sorted[i] < sorted[j],
                forall|t: i64| full.contains_key(t) <==> sorted@.contains(t),
                forall|j: int| 0 <= j < sorted.len() ==> full.contains_key(#[trigger] sorted[j]),
                forall|i: int| 0 <= i < k ==> #[trigger] data[i] == full[sorted[i]],
                forall|j: int|
                    k <= j < sorted.len() ==> pool@.contains_key(#[trigger] sorted[j])
                        && pool@[sorted[j]] == full[sorted[j]],
            decreases sorted.len() - k,
        {
            let ghost left = pool@;
            let taken = pool.remove(&sorted[k]);
            proof {
                assert(left.contains_key(sorted[k as int]));
                assert forall|j: int| k < j < sorted.len() implies pool@.contains_key(
                    #[trigger] sorted[j],
                ) && pool@[sorted[j]] == full[sorted[j]] by {
                    assert(sorted[k as int] < sorted[j]);
                    assert(left.contains_key(sorted[j]));
                }
            }
            match taken {
                Some(element) => {
                    data.push(element);
                },
                None => {
                    // Every valid time that was met has its element in the pool.
                    proof {
                        assert(false);
                    }
                },
            }
            k += 1;
        }
        proof {
            lemma_done(runs, full, origin, sorted@, data@);
        }
        MergedSeries { meta, data: TimeSeries { data } }
    }
}

} // verus!
