//! Keyframe picks over candidate frames: the sharpest frame of a motion
//! window, thinning a pick list down to a cap, and topping it up to a floor.
//!
//! A candidate's sharpness is given by its order key: an integer that sorts
//! candidates exactly as their sharpness scores do (`f32::total_cmp`).

use vstd::prelude::*;

verus! {

// ---------------------------------------------------------------------------
// Ascending index lists
// ---------------------------------------------------------------------------

/// The indices `0 <= i < k` with `p(i)`, in increasing order.
pub open spec fn ascending(p: spec_fn(int) -> bool, k: int) -> Seq<usize>
    decreases k,
{
    if k <= 0 {
        seq![]
    } else if p(k - 1) {
        ascending(p, k - 1).push((k - 1) as usize)
    } else {
        ascending(p, k - 1)
    }
}

pub open spec fn strictly_increasing(s: Seq<usize>) -> bool {
    forall|i: int, j: int| 0 <= i < j < s.len() ==> s[i] < s[j]
}

/// The distinct members of `s` below `n`, in increasing order.
pub open spec fn sorted_members(s: Seq<usize>, n: int) -> Seq<usize> {
    ascending(|i: int| s.contains(i as usize), n)
}

pub proof fn lemma_ascending_shape(p: spec_fn(int) -> bool, k: int)
    requires
        k <= usize::MAX,
    ensures
        strictly_increasing(ascending(p, k)),
        ascending(p, k).len() <= if k >= 0 { k } else { 0 },
        forall|i: int| 0 <= i < ascending(p, k).len() ==> ascending(p, k)[i] < k,
        forall|v: usize| #[trigger] ascending(p, k).contains(v) <==> (v < k && p(v as int)),
    decreases k,
{
    if k > 0 {
        lemma_ascending_shape(p, k - 1);
        let prev = ascending(p, k - 1);
        let s = ascending(p, k);
        assert forall|v: usize| #[trigger] s.contains(v) <==> (v < k && p(v as int)) by {
            if s.contains(v) {
                let j = choose|j: int| 0 <= j < s.len() && #[trigger] s[j] == v;
                if j < prev.len() {
                    assert(prev[j] == v);
                    assert(prev.contains(v));
                } else {
                    assert(p(k - 1) && v == k - 1);
                }
            }
            if v < k && p(v as int) {
                if v == k - 1 {
                    assert(s[prev.len() as int] == v);
                } else {
                    assert(prev.contains(v));
                    let j = choose|j: int| 0 <= j < prev.len() && #[trigger] prev[j] == v;
                    assert(s[j] == v);
                }
            }
        }
    }
}

/// Marking one more index adds exactly one entry.
pub proof fn lemma_ascending_add(p: spec_fn(int) -> bool, q: spec_fn(int) -> bool, b: int, k: int)
    requires
        0 <= b < k,
        !p(b),
        forall|i: int| #[trigger] q(i) == (p(i) || i == b),
    ensures
        ascending(q, k).len() == ascending(p, k).len() + 1,
    decreases k,
{
    if k - 1 > b {
        lemma_ascending_add(p, q, b, k - 1);
    } else {
        lemma_ascending_same(p, q, k - 1);
    }
}

/// Predicates that agree below `k` list the same indices.
pub proof fn lemma_ascending_same(p: spec_fn(int) -> bool, q: spec_fn(int) -> bool, k: int)
    requires
        forall|i: int| 0 <= i < k ==> #[trigger] p(i) == q(i),
    ensures
        ascending(p, k) == ascending(q, k),
    decreases k,
{
    if k > 0 {
        lemma_ascending_same(p, q, k - 1);
    }
}

/// When every index below `k` is listed, the list has `k` entries.
pub proof fn lemma_ascending_full(p: spec_fn(int) -> bool, k: int)
    requires
        k >= 0,
        forall|i: int| 0 <= i < k ==> #[trigger] p(i),
    ensures
        ascending(p, k).len() == k,
    decreases k,
{
    if k > 0 {
        lemma_ascending_full(p, k - 1);
    }
}

pub open spec fn marked(m: Seq<bool>) -> spec_fn(int) -> bool {
    |i: int| 0 <= i < m.len() && m[i]
}

/// The indices whose mark is set, in increasing order.
fn marked_indices(marks: &Vec<bool>) -> (r: Vec<usize>)
    ensures
        r@ == ascending(marked(marks@), marks@.len() as int),
{
    let mut r: Vec<usize> = Vec::new();
    let mut i: usize = 0;
    while i < marks.len()
        invariant
            i <= marks@.len(),
            r@ == ascending(marked(marks@), i as int),
        decreases marks.len() - i,
    {
        if marks[i] {
            r.push(i);
        }
        i += 1;
    }
    r
}

/// One mark per candidate, set for the indices listed in `keeps`.
fn marks_of(keeps: &Vec<usize>, n: usize) -> (m: Vec<bool>)
    requires
        forall|j: int| 0 <= j < keeps@.len() ==> keeps@[j] < n,
    ensures
        m@.len() == n,
        forall|i: int| 0 <= i < n ==> #[trigger] m@[i] == keeps@.contains(i as usize),
{
    let mut m: Vec<bool> = Vec::new();
    let mut i: usize = 0;
    while i < n
        invariant
            i <= n,
            m@.len() == i,
            forall|t: int| 0 <= t < i ==> !#[trigger] m@[t],
        decreases n - i,
    {
        m.push(false);
        i += 1;
    }
    let mut j: usize = 0;
    while j < keeps.len()
        invariant
            j <= keeps@.len(),
            m@.len() == n,
            forall|t: int| 0 <= t < keeps@.len() ==> keeps@[t] < n,
            forall|t: int| 0 <= t < n ==> #[trigger] m@[t] == keeps@.take(j as int).contains(t as usize),
        decreases keeps.len() - j,
    {
        let k = keeps[j];
        m.set(k, true);
        proof {
            assert(keeps@.take(j + 1) == keeps@.take(j as int).push(k));
            assert forall|t: int| 0 <= t < n implies #[trigger] m@[t] == keeps@.take(j + 1).contains(
                t as usize,
            ) by {
                if t as usize == k {
                    assert(keeps@.take(j + 1)[j as int] == k);
                } else {
                    if keeps@.take(j + 1).contains(t as usize) {
                        let w = choose|w: int|
                            0 <= w < keeps@.take(j + 1).len() && #[trigger] keeps@.take(j + 1)[w]
                                == t as usize;
                        assert(keeps@.take(j as int)[w] == t as usize);
                    }
                }
            }
        }
        j += 1;
    }
    proof {
        assert(keeps@.take(keeps@.len() as int) == keeps@);
    }
    m
}

// ---------------------------------------------------------------------------
// Sharpest frame of a window
// ---------------------------------------------------------------------------

/// Candidate `i` lies in the window `start..=end` and is at least as sharp as `floor`.
pub open spec fn eligible(keys: Seq<u32>, start: int, end: int, floor: u32, i: int) -> bool {
    start <= i <= end && 0 <= i < keys.len() && keys[i] >= floor
}

/// `i` is the sharpest eligible candidate, the last one among equals.
pub open spec fn is_window_pick(keys: Seq<u32>, start: int, end: int, floor: u32, i: int) -> bool {
    &&& eligible(keys, start, end, floor, i)
    &&& forall|j: int| #[trigger]
        eligible(keys, start, end, floor, j) ==> keys[j] <= keys[i] && (j > i ==> keys[j] < keys[i])
}

/// The sharpest candidate of `start..=end` whose key reaches `floor`; among
/// equally sharp ones the last. `None` when no candidate of the window qualifies.
pub fn pick_sharpest(keys: &[u32], start: usize, end: usize, floor: u32) -> (r: Option<usize>)
    requires
        end < usize::MAX,
    ensures
        r matches Some(i) ==> is_window_pick(keys@, start as int, end as int, floor, i as int),
        r is None <==> !exists|j: int| eligible(keys@, start as int, end as int, floor, j),
{
    let stop: usize = if end < keys.len() {
        end + 1
    } else {
        keys.len()
    };
    let mut best: Option<usize> = None;
    let mut i: usize = start;
    while i < stop
        invariant
            stop <= keys@.len(),
            stop == if end < keys@.len() { end + 1 } else { keys@.len() as int },
            start <= i || stop <= i,
            best matches Some(b) ==> eligible(keys@, start as int, end as int, floor, b as int)
                && b < i,
            forall|j: int|
                #![trigger eligible(keys@, start as int, end as int, floor, j)]
                start <= j < i && eligible(keys@, start as int, end as int, floor, j) ==> (
                best matches Some(b) && keys@[j] <= keys@[b as int] && (j > b ==> keys@[j]
                    < keys@[b as int])),
        decreases stop - i,
    {
        if keys[i] >= floor {
            match best {
                None => best = Some(i),
                Some(b) => if keys[i] >= keys[b] {
                    best = Some(i);
                },
            }
        }
        i += 1;
    }
    proof {
        if best is None {
            assert forall|j: int| !eligible(keys@, start as int, end as int, floor, j) by {
                if eligible(keys@, start as int, end as int, floor, j) {
                    assert(start <= j < i);
                }
            }
        } else {
            let b = best->0;
            assert forall|j: int| #[trigger]
                eligible(keys@, start as int, end as int, floor, j) implies keys@[j] <= keys@[b as int]
                && (j > b ==> keys@[j] < keys@[b as int]) by {
                assert(start <= j < i);
            }
        }
    }
    best
}

/// The sharpest candidate of `start..=end`, whatever its score.
pub fn pick_least_bad(keys: &[u32], start: usize, end: usize) -> (r: Option<usize>)
    requires
        end < usize::MAX,
    ensures
        r matches Some(i) ==> is_window_pick(keys@, start as int, end as int, 0, i as int),
        r is None <==> !exists|j: int| eligible(keys@, start as int, end as int, 0, j),
{
    pick_sharpest(keys, start, end, 0)
}

// ---------------------------------------------------------------------------
// Thinning a pick list down to a cap
// ---------------------------------------------------------------------------

/// Distance between neighbours `i` and `i + 1`.
pub open spec fn gap(ks: Seq<usize>, i: int) -> int {
    ks[i + 1] - ks[i]
}

/// `p` starts the first pair of neighbours whose gap is the smallest.
pub open spec fn is_closest_pair(ks: Seq<usize>, p: int) -> bool {
    &&& 0 <= p < ks.len() - 1
    &&& forall|j: int| 0 <= j < ks.len() - 1 ==> gap(ks, p) <= #[trigger] gap(ks, j)
    &&& forall|j: int| 0 <= j < p ==> #[trigger] gap(ks, j) > gap(ks, p)
}

pub open spec fn closest_pair(ks: Seq<usize>) -> int {
    choose|p: int| is_closest_pair(ks, p)
}

/// Which member of the closest pair leaves: the less sharp one, the later one on a tie.
pub open spec fn thin_drop(ks: Seq<usize>, keys: Seq<u32>) -> int {
    let p = closest_pair(ks);
    if keys[ks[p] as int] >= keys[ks[p + 1] as int] {
        p + 1
    } else {
        p
    }
}

/// `ks` after dropping one member of the closest pair at a time until at most `max` remain.
pub open spec fn thinned(ks: Seq<usize>, keys: Seq<u32>, max: int) -> Seq<usize>
    decreases ks.len(),
{
    if ks.len() <= max || ks.len() < 2 {
        ks
    } else {
        let d = thin_drop(ks, keys);
        if 0 <= d < ks.len() {
            thinned(ks.remove(d), keys, max)
        } else {
            ks
        }
    }
}

pub proof fn lemma_closest_pair_unique(ks: Seq<usize>, p: int, q: int)
    requires
        is_closest_pair(ks, p),
        is_closest_pair(ks, q),
    ensures
        p == q,
{
    if p < q {
        assert(gap(ks, p) > gap(ks, q));
        assert(gap(ks, q) <= gap(ks, p));
    } else if q < p {
        assert(gap(ks, q) > gap(ks, p));
        assert(gap(ks, p) <= gap(ks, q));
    }
}

/// Among the first `m` gaps there is a first smallest one.
proof fn lemma_first_min_gap(ks: Seq<usize>, m: int) -> (p: int)
    requires
        1 <= m <= ks.len() - 1,
    ensures
        0 <= p < m,
        forall|j: int| 0 <= j < m ==> gap(ks, p) <= #[trigger] gap(ks, j),
        forall|j: int| 0 <= j < p ==> #[trigger] gap(ks, j) > gap(ks, p),
    decreases m,
{
    if m == 1 {
        0
    } else {
        let q = lemma_first_min_gap(ks, m - 1);
        if gap(ks, m - 1) < gap(ks, q) {
            m - 1
        } else {
            q
        }
    }
}

pub proof fn lemma_closest_pair_exists(ks: Seq<usize>)
    requires
        ks.len() >= 2,
    ensures
        is_closest_pair(ks, closest_pair(ks)),
{
    let p = lemma_first_min_gap(ks, ks.len() - 1);
    assert(is_closest_pair(ks, p));
}

proof fn lemma_remove_keeps_increasing(ks: Seq<usize>, d: int)
    requires
        strictly_increasing(ks),
        0 <= d < ks.len(),
    ensures
        strictly_increasing(ks.remove(d)),
        forall|v: usize| #[trigger] ks.remove(d).contains(v) ==> ks.contains(v),
{
    let r = ks.remove(d);
    assert forall|i: int, j: int| 0 <= i < j < r.len() implies r[i] < r[j] by {
        let a = if i < d { i } else { i + 1 };
        let b = if j < d { j } else { j + 1 };
        assert(r[i] == ks[a] && r[j] == ks[b]);
    }
    assert forall|v: usize| #[trigger] r.contains(v) implies ks.contains(v) by {
        let i = choose|i: int| 0 <= i < r.len() && #[trigger] r[i] == v;
        let a = if i < d { i } else { i + 1 };
        assert(ks[a] == v);
    }
}

/// Thinning keeps the list increasing, takes only members of it, and leaves
/// exactly `max` of them when there were more.
pub proof fn law_thinning_caps_and_keeps_order(ks: Seq<usize>, keys: Seq<u32>, max: int)
    requires
        strictly_increasing(ks),
        max >= 1,
    ensures
        strictly_increasing(thinned(ks, keys, max)),
        thinned(ks, keys, max).len() == if ks.len() <= max { ks.len() as int } else { max },
        forall|v: usize| #[trigger] thinned(ks, keys, max).contains(v) ==> ks.contains(v),
    decreases ks.len(),
{
    if ks.len() > max {
        lemma_closest_pair_exists(ks);
        let d = thin_drop(ks, keys);
        lemma_remove_keeps_increasing(ks, d);
        law_thinning_caps_and_keeps_order(ks.remove(d), keys, max);
    }
}

/// `keeps` sorted and deduplicated, then thinned to at most `max_keep` picks:
/// while too many remain, the closer of two neighbouring picks goes, keeping
/// the sharper one (the earlier one on a tie).
pub fn thin_to_max(keeps: Vec<usize>, keys: &[u32], max_keep: usize) -> (r: Vec<usize>)
    requires
        forall|j: int| 0 <= j < keeps@.len() ==> keeps@[j] < keys@.len(),
        max_keep >= 1 || keeps@.len() == 0,
    ensures
        r@ == thinned(sorted_members(keeps@, keys@.len() as int), keys@, max_keep as int),
{
    let n = keys.len();
    let marks = marks_of(&keeps, n);
    let mut ks = marked_indices(&marks);
    proof {
        lemma_ascending_same(marked(marks@), |i: int| keeps@.contains(i as usize), n as int);
        lemma_ascending_shape(marked(marks@), n as int);
        if max_keep == 0 {
            assert forall|i: int| 0 <= i < n implies !#[trigger] marked(marks@)(i) by {
                assert(!keeps@.contains(i as usize));
            }
            lemma_ascending_same(marked(marks@), |i: int| false, n as int);
            lemma_ascending_shape(|i: int| false, n as int);
            if ks@.len() > 0 {
                assert(ks@.contains(ks@[0]));
            }
        }
    }
    let ghost target = thinned(ks@, keys@, max_keep as int);
    while ks.len() > max_keep
        invariant
            n == keys@.len(),
            strictly_increasing(ks@),
            forall|j: int| 0 <= j < ks@.len() ==> ks@[j] < n,
            thinned(ks@, keys@, max_keep as int) == target,
            max_keep >= 1 || ks@.len() == 0,
        decreases ks.len(),
    {
        let mut pair: usize = 0;
        let mut best_gap: usize = usize::MAX;
        let mut i: usize = 0;
        while i < ks.len() - 1
            invariant
                ks@.len() >= 2,
                i <= ks@.len() - 1,
                strictly_increasing(ks@),
                forall|j: int| 0 <= j < ks@.len() ==> ks@[j] < n,
                n <= usize::MAX,
                i == 0 ==> pair == 0 && best_gap == usize::MAX,
                i > 0 ==> pair < i && best_gap == gap(ks@, pair as int),
                forall|j: int| 0 <= j < i ==> best_gap <= #[trigger] gap(ks@, j),
                forall|j: int| 0 <= j < pair ==> #[trigger] gap(ks@, j) > best_gap,
            decreases ks.len() - 1 - i,
        {
            let g = ks[i + 1] - ks[i];
            if g < best_gap {
                best_gap = g;
                pair = i;
            }
            i += 1;
        }
        proof {
            assert(is_closest_pair(ks@, pair as int));
            lemma_closest_pair_exists(ks@);
            lemma_closest_pair_unique(ks@, pair as int, closest_pair(ks@));
        }
        let a = ks[pair];
        let b = ks[pair + 1];
        let drop = if keys[a] >= keys[b] {
            pair + 1
        } else {
            pair
        };
        proof {
            lemma_remove_keeps_increasing(ks@, drop as int);
            assert forall|j: int| 0 <= j < ks@.remove(drop as int).len() implies ks@.remove(
                drop as int,
            )[j] < n by {
                assert(ks@.remove(drop as int).contains(ks@.remove(drop as int)[j]));
            }
        }
        ks.remove(drop);
    }
    ks
}

// ---------------------------------------------------------------------------
// Topping a pick list up to a floor
// ---------------------------------------------------------------------------

/// Candidate `a` ranks above `b` when a list is topped up: candidates at or
/// above the blur floor first, then the sharper, then the earlier.
pub open spec fn ranks_above(keys: Seq<u32>, floor: u32, a: int, b: int) -> bool {
    let ea = keys[a] >= floor;
    let eb = keys[b] >= floor;
    (ea && !eb) || (ea == eb && (keys[a] > keys[b] || (keys[a] == keys[b] && a < b)))
}

/// How many picks a list of `len` entries lacks to reach `min_keep`.
pub open spec fn fill_need(len: int, min_keep: int) -> int {
    if len < min_keep {
        min_keep - len
    } else {
        0
    }
}

/// The unmarked candidate that ranks above every other unmarked one.
fn best_unmarked(marks: &Vec<bool>, keys: &[u32], floor: u32) -> (r: Option<usize>)
    requires
        marks@.len() == keys@.len(),
    ensures
        r is None <==> forall|i: int| 0 <= i < marks@.len() ==> #[trigger] marks@[i],
        r matches Some(b) ==> b < marks@.len() && !marks@[b as int] && forall|u: int|
            0 <= u < marks@.len() && !#[trigger] marks@[u] && u != b ==> ranks_above(
                keys@,
                floor,
                b as int,
                u,
            ),
{
    let mut best: Option<usize> = None;
    let mut i: usize = 0;
    while i < marks.len()
        invariant
            marks@.len() == keys@.len(),
            i <= marks@.len(),
            best is None ==> forall|j: int| 0 <= j < i ==> #[trigger] marks@[j],
            best matches Some(b) ==> b < i && !marks@[b as int] && forall|u: int|
                0 <= u < i && !#[trigger] marks@[u] && u != b ==> ranks_above(
                    keys@,
                    floor,
                    b as int,
                    u,
                ),
        decreases marks.len() - i,
    {
        if !marks[i] {
            match best {
                None => best = Some(i),
                Some(b) => {
                    let ei = keys[i] >= floor;
                    let eb = keys[b] >= floor;
                    let above = (ei && !eb) || (ei == eb && keys[i] > keys[b]);
                    if above {
                        best = Some(i);
                    }
                },
            }
        }
        i += 1;
    }
    best
}

/// `keeps` topped up to `min_keep` picks with the best-ranked unused
/// candidates (see [`ranks_above`]), then sorted and deduplicated.
pub fn fill_sharpest(keeps: Vec<usize>, keys: &[u32], min_keep: usize, floor: u32) -> (r: Vec<
    usize,
>)
    requires
        forall|j: int| 0 <= j < keeps@.len() ==> keeps@[j] < keys@.len(),
    ensures
        strictly_increasing(r@),
        forall|v: usize| #[trigger] r@.contains(v) ==> v < keys@.len(),
        forall|v: usize| keeps@.contains(v) ==> #[trigger] r@.contains(v),
        ({
            let base = sorted_members(keeps@, keys@.len() as int).len() as int;
            let need = fill_need(keeps@.len() as int, min_keep as int);
            r@.len() == base + if need <= keys@.len() - base {
                need
            } else {
                keys@.len() - base
            }
        }),
        forall|a: usize, u: usize|
            #![trigger r@.contains(a), r@.contains(u)]
            r@.contains(a) && !keeps@.contains(a) && u < keys@.len() && !r@.contains(u)
                ==> ranks_above(keys@, floor, a as int, u as int),
{
    let n = keys.len();
    let mut marks = marks_of(&keeps, n);
    let ghost base = sorted_members(keeps@, n as int).len() as int;
    proof {
        lemma_ascending_same(marked(marks@), |i: int| keeps@.contains(i as usize), n as int);
    }
    let mut count: usize = keeps.len();
    let ghost mut added: int = 0;
    while count < min_keep
        invariant
            n == keys@.len(),
            marks@.len() == n,
            forall|i: int| 0 <= i < n && keeps@.contains(i as usize) ==> #[trigger] marks@[i],
            count == keeps@.len() + added,
            added >= 0,
            added == 0 || count <= min_keep,
            ascending(marked(marks@), n as int).len() == base + added,
            forall|a: int, u: int|
                #![trigger marks@[a], marks@[u]]
                0 <= a < n && 0 <= u < n && marks@[a] && !keeps@.contains(a as usize)
                    && !marks@[u] ==> ranks_above(keys@, floor, a, u),
        ensures
            count >= min_keep || forall|i: int| 0 <= i < n ==> #[trigger] marks@[i],
            marks@.len() == n,
            forall|i: int| 0 <= i < n && keeps@.contains(i as usize) ==> #[trigger] marks@[i],
            count == keeps@.len() + added,
            added >= 0,
            added == 0 || count <= min_keep,
            ascending(marked(marks@), n as int).len() == base + added,
            forall|a: int, u: int|
                #![trigger marks@[a], marks@[u]]
                0 <= a < n && 0 <= u < n && marks@[a] && !keeps@.contains(a as usize)
                    && !marks@[u] ==> ranks_above(keys@, floor, a, u),
        decreases n - ascending(marked(marks@), n as int).len(),
    {
        proof {
            lemma_ascending_shape(marked(marks@), n as int);
        }
        match best_unmarked(&marks, keys, floor) {
            None => {
                break;
            },
            Some(b) => {
                let ghost old_marks = marks@;
                marks.set(b, true);
                proof {
                    assert forall|i: int| #[trigger] marked(marks@)(i) == (marked(old_marks)(i) || i
                        == b) by {
                        if 0 <= i < n && i != b {
                            assert(marks@[i] == old_marks[i]);
                        }
                    }
                    lemma_ascending_add(marked(old_marks), marked(marks@), b as int, n as int);
                    lemma_ascending_shape(marked(marks@), n as int);
                    assert forall|a: int, u: int|
                        #![trigger marks@[a], marks@[u]]
                        0 <= a < n && 0 <= u < n && marks@[a] && !keeps@.contains(a as usize)
                            && !marks@[u] implies ranks_above(keys@, floor, a, u) by {
                        assert(!old_marks[u]);
                        if a != b {
                            assert(old_marks[a]);
                        }
                    }
                    added = added + 1;
                }
                count += 1;
            },
        }
    }
    let r = marked_indices(&marks);
    proof {
        lemma_ascending_shape(marked(marks@), n as int);
        assert forall|v: usize| keeps@.contains(v) implies #[trigger] r@.contains(v) by {
            assert(marks@[v as int]);
        }
        if count < min_keep {
            lemma_ascending_full(marked(marks@), n as int);
        }
        assert forall|a: usize, u: usize|
            #![trigger r@.contains(a), r@.contains(u)]
            r@.contains(a) && !keeps@.contains(a) && u < keys@.len() && !r@.contains(u)
                implies ranks_above(keys@, floor, a as int, u as int) by {
            assert(marks@[a as int]);
            assert(!marks@[u as int]);
        }
    }
    r
}

} // verus!
