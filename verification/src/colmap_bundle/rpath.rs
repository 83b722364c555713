//! Decide which LC_RPATH entries to drop. Duplicate `@rpath/` makes dyld abort.

use vstd::prelude::*;

use crate::text::str_is;

verus! {

broadcast use vstd::string::group_string_axioms;

/// Scanning `existing` in order: the entries kept so far and those to delete.
/// A bare `@rpath/` or a repeat of a kept entry is deleted.
pub open spec fn triage(existing: Seq<Seq<char>>) -> (Seq<Seq<char>>, Seq<Seq<char>>)
    decreases existing.len(),
{
    if existing.len() == 0 {
        (seq![], seq![])
    } else {
        let (keep, delete) = triage(existing.drop_last());
        let e = existing.last();
        if e == "@rpath/"@ || keep.contains(e) {
            (keep, delete.push(e))
        } else {
            (keep.push(e), delete)
        }
    }
}

/// `wanted` entries not already in `existing`, in the given order.
pub open spec fn missing(existing: Seq<Seq<char>>, wanted: Seq<Seq<char>>) -> Seq<Seq<char>>
    decreases wanted.len(),
{
    if wanted.len() == 0 {
        seq![]
    } else {
        let rest = missing(existing, wanted.drop_last());
        if existing.contains(wanted.last()) {
            rest
        } else {
            rest.push(wanted.last())
        }
    }
}

pub open spec fn strings(v: Seq<String>) -> Seq<Seq<char>> {
    v.map_values(|s: String| s@)
}

fn contains_string(list: &Vec<String>, item: &str) -> (r: bool)
    ensures
        r == strings(list@).contains(item@),
{
    let mut i: usize = 0;
    while i < list.len()
        invariant
            i <= list@.len(),
            forall|k: int| 0 <= k < i ==> list@[k]@ != item@,
        decreases list.len() - i,
    {
        if str_is(list[i].as_str(), item) {
            assert(strings(list@)[i as int] == item@);
            return true;
        }
        i += 1;
    }
    assert forall|k: int| 0 <= k < strings(list@).len() implies strings(list@)[k] != item@ by {
        assert(strings(list@)[k] == list@[k]@);
    }
    false
}

/// Returns rpath values that should be deleted, in the order `install_name_tool` must see them.
pub fn rpaths_to_delete(existing: &[String]) -> (r: Vec<String>)
    ensures
        strings(r@) == triage(existing@.map_values(|s: String| s@)).1,
{
    let ghost all = existing@.map_values(|s: String| s@);
    let mut keep: Vec<String> = Vec::new();
    let mut delete: Vec<String> = Vec::new();
    let mut i: usize = 0;
    while i < existing.len()
        invariant
            i <= existing@.len(),
            all == existing@.map_values(|s: String| s@),
            (strings(keep@), strings(delete@)) == triage(all.take(i as int)),
        decreases existing.len() - i,
    {
        let entry = &existing[i];
        assert(all.take(i + 1).drop_last() =~= all.take(i as int));
        assert(all.take(i + 1).last() == entry@);
        let ghost k0 = strings(keep@);
        let ghost d0 = strings(delete@);
        if str_is(entry.as_str(), "@rpath/") || contains_string(&keep, entry.as_str()) {
            delete.push(entry.clone());
            assert(strings(delete@) =~= d0.push(entry@));
        } else {
            keep.push(entry.clone());
            assert(strings(keep@) =~= k0.push(entry@));
        }
        i += 1;
    }
    assert(all.take(existing@.len() as int) =~= all);
    delete
}

/// Returns wanted rpaths that are not already present, in the given order.
pub fn rpaths_to_add(existing: &[String], wanted: &[&str]) -> (r: Vec<String>)
    ensures
        strings(r@) == missing(
            existing@.map_values(|s: String| s@),
            wanted@.map_values(|s: &str| s@),
        ),
{
    let ghost ex = existing@.map_values(|s: String| s@);
    let ghost wa = wanted@.map_values(|s: &str| s@);
    let mut out: Vec<String> = Vec::new();
    let mut i: usize = 0;
    while i < wanted.len()
        invariant
            i <= wanted@.len(),
            ex == existing@.map_values(|s: String| s@),
            wa == wanted@.map_values(|s: &str| s@),
            strings(out@) == missing(ex, wa.take(i as int)),
        decreases wanted.len() - i,
    {
        let entry: &str = wanted[i];
        assert(wa.take(i + 1).drop_last() =~= wa.take(i as int));
        assert(wa.take(i + 1).last() == entry@);
        let mut present = false;
        let mut j: usize = 0;
        while j < existing.len()
            invariant
                j <= existing@.len(),
                ex == existing@.map_values(|s: String| s@),
                present == (exists|k: int| 0 <= k < j && ex[k] == entry@),
            decreases existing.len() - j,
        {
            assert(ex[j as int] == existing@[j as int]@);
            if str_is(existing[j].as_str(), entry) {
                present = true;
            }
            j += 1;
        }
        assert(present == ex.contains(entry@));
        let ghost o0 = strings(out@);
        if !present {
            out.push(entry.to_owned());
            assert(strings(out@) =~= o0.push(entry@));
        }
        i += 1;
    }
    assert(wa.take(wanted@.len() as int) =~= wa);
    out
}

/// Every existing entry is either kept or deleted; kept entries are distinct
/// and never the bare `@rpath/`.
pub proof fn law_triage_partitions(existing: Seq<Seq<char>>)
    ensures
        triage(existing).0.len() + triage(existing).1.len() == existing.len(),
        !triage(existing).0.contains("@rpath/"@),
        forall|a: int, b: int|
            0 <= a < b < triage(existing).0.len() ==> triage(existing).0[a] != triage(
                existing,
            ).0[b],
        forall|e: Seq<char>| #[trigger] existing.contains(e) && e != "@rpath/"@ ==> triage(
            existing,
        ).0.contains(e),
    decreases existing.len(),
{
    if existing.len() > 0 {
        let init = existing.drop_last();
        law_triage_partitions(init);
        let (keep, delete) = triage(init);
        let e = existing.last();
        if !(e == "@rpath/"@ || keep.contains(e)) {
            let nk = keep.push(e);
            assert forall|a: int, b: int| 0 <= a < b < nk.len() implies nk[a] != nk[b] by {
                if b == nk.len() - 1 {
                    assert(keep.contains(nk[a]));
                }
            }
            assert forall|x: Seq<char>| #[trigger] nk.contains(x) implies x != "@rpath/"@ by {
                if x != e {
                    let k = choose|k: int| 0 <= k < nk.len() && nk[k] == x;
                    assert(keep[k] == x);
                }
            }
        }
        assert forall|x: Seq<char>| #[trigger] existing.contains(x) && x != "@rpath/"@ implies triage(
            existing,
        ).0.contains(x) by {
            let k = choose|k: int| 0 <= k < existing.len() && existing[k] == x;
            if k < existing.len() - 1 {
                assert(init[k] == x);
                assert(init.contains(x));
                let kk = choose|j: int| 0 <= j < keep.len() && keep[j] == x;
                if !(e == "@rpath/"@ || keep.contains(e)) {
                    assert(keep.push(e)[kk] == x);
                }
            } else {
                if !keep.contains(e) {
                    assert(keep.push(e)[keep.len() as int] == e);
                }
            }
        }
    }
}

/// Added entries are wanted and missing; every missing wanted entry is added.
pub proof fn law_add_only_missing(existing: Seq<Seq<char>>, wanted: Seq<Seq<char>>)
    ensures
        forall|e: Seq<char>| #[trigger] missing(existing, wanted).contains(e) ==> wanted.contains(e)
            && !existing.contains(e),
        forall|e: Seq<char>| #[trigger] wanted.contains(e) && !existing.contains(e) ==> missing(
            existing,
            wanted,
        ).contains(e),
    decreases wanted.len(),
{
    if wanted.len() > 0 {
        let init = wanted.drop_last();
        law_add_only_missing(existing, init);
        let rest = missing(existing, init);
        let w = wanted.last();
        assert forall|e: Seq<char>| #[trigger] missing(existing, wanted).contains(e) implies wanted.contains(e)
            && !existing.contains(e) by {
            if rest.contains(e) {
                let k = choose|k: int| 0 <= k < init.len() && init[k] == e;
                assert(wanted[k] == e);
            } else {
                assert(e == w);
                assert(wanted[wanted.len() - 1] == e);
            }
        }
        assert forall|e: Seq<char>| #[trigger] wanted.contains(e) && !existing.contains(e) implies missing(
            existing,
            wanted,
        ).contains(e) by {
            let k = choose|k: int| 0 <= k < wanted.len() && wanted[k] == e;
            if k < wanted.len() - 1 {
                assert(init[k] == e);
                assert(init.contains(e));
                let j = choose|j: int| 0 <= j < rest.len() && rest[j] == e;
                if !existing.contains(w) {
                    assert(rest.push(w)[j] == e);
                }
            } else {
                assert(rest.push(w)[rest.len() as int] == e);
            }
        }
    }
}

} // verus!
