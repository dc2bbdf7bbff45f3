//! Sample times of a run: their normal form, and the order in which a run
//! hands them out while the continuous part is integrated step by step.
//!
//! Times on the integration axis are order keys: integers that compare as the
//! times do.

use vstd::prelude::*;

verus! {

/// Each entry is smaller than every later one.
pub open spec fn strictly_increasing(s: Seq<i64>) -> bool {
    forall|i: int, j: int| 0 <= i < j < s.len() ==> s[i] < s[j]
}

/// The times that a run from `ini_t` reports: those of `smp_t` that are not
/// before `ini_t`.
pub open spec fn sample_set(smp_t: Seq<i64>, ini_t: i64) -> Set<i64> {
    Set::new(|x: i64| smp_t.contains(x) && x >= ini_t)
}

/// `r` is `smp_t` in normal form: ascending, without repetition, and without
/// the times before `ini_t`.
pub open spec fn is_normalized(r: Seq<i64>, smp_t: Seq<i64>, ini_t: i64) -> bool {
    &&& strictly_increasing(r)
    &&& forall|x: i64| r.contains(x) <==> (smp_t.contains(x) && x >= ini_t)
}

/// The normal form of a list of sample times is unique.
pub proof fn lemma_normal_form_unique(a: Seq<i64>, b: Seq<i64>, smp_t: Seq<i64>, ini_t: i64)
    requires
        is_normalized(a, smp_t, ini_t),
        is_normalized(b, smp_t, ini_t),
    ensures
        a == b,
    decreases a.len(),
{
    if a.len() == 0 {
        if b.len() > 0 {
            assert(b.contains(b[0]));
            assert(a.contains(b[0]));
        }
        assert(a =~= b);
    } else {
        let la = a.last();
        assert(a.contains(la));
        assert(b.contains(la));
        assert(b.len() > 0);
        let lb = b.last();
        assert(b.contains(lb));
        assert(a.contains(lb));
        assert(la == lb) by {
            let ia = choose|i: int| 0 <= i < a.len() && a[i] == lb;
            let ib = choose|i: int| 0 <= i < b.len() && b[i] == la;
            assert(a[ia] <= a[a.len() - 1]);
            assert(b[ib] <= b[b.len() - 1]);
        }
        let a2 = a.drop_last();
        let b2 = b.drop_last();
        let smp2 = a2;
        assert forall|x: i64| b2.contains(x) <==> a2.contains(x) by {
            if b2.contains(x) {
                let i = choose|i: int| 0 <= i < b2.len() && b2[i] == x;
                assert(b[i] == x);
                assert(b.contains(x));
                assert(a.contains(x));
                let k = choose|k: int| 0 <= k < a.len() && a[k] == x;
                assert(x < lb);
                assert(a2[k] == x);
            }
            if a2.contains(x) {
                let i = choose|i: int| 0 <= i < a2.len() && a2[i] == x;
                assert(a[i] == x);
                assert(a.contains(x));
                assert(b.contains(x));
                let k = choose|k: int| 0 <= k < b.len() && b[k] == x;
                assert(x < la);
                assert(b2[k] == x);
            }
        }
        let low: i64 = i64::MIN;
        assert(is_normalized(a2, smp2, low)) by {
            assert forall|i: int, j: int| 0 <= i < j < a2.len() implies a2[i] < a2[j] by {
                assert(a2[i] == a[i] && a2[j] == a[j]);
            }
        }
        assert(is_normalized(b2, smp2, low)) by {
            assert forall|i: int, j: int| 0 <= i < j < b2.len() implies b2[i] < b2[j] by {
                assert(b2[i] == b[i] && b2[j] == b[j]);
            }
        }
        lemma_normal_form_unique(a2, b2, smp2, low);
        assert(a =~= a2.push(la));
        assert(b =~= b2.push(lb));
    }
}

/// A normal form has as many entries as there are distinct sample times not
/// before `ini_t`.
pub proof fn lemma_normal_form_count(r: Seq<i64>, smp_t: Seq<i64>, ini_t: i64)
    requires
        is_normalized(r, smp_t, ini_t),
    ensures
        sample_set(smp_t, ini_t).finite(),
        r.len() == sample_set(smp_t, ini_t).len(),
{
    assert(r.no_duplicates());
    r.unique_seq_to_set();
    assert(r.to_set() =~= sample_set(smp_t, ini_t));
}

/// Puts `x` into the ascending list `v` unless it is there already.
pub(crate) fn insert_sorted(v: &mut Vec<i64>, x: i64)
    requires
        strictly_increasing(old(v)@),
    ensures
        strictly_increasing(final(v)@),
        forall|y: i64| final(v)@.contains(y) <==> (old(v)@.contains(y) || y == x),
{
    let mut p: usize = 0;
    while p < v.len() && v[p] < x
        invariant
            p <= v.len(),
            v@ == old(v)@,
            forall|j: int| 0 <= j < p ==> v[j] < x,
        decreases v.len() - p,
    {
        p += 1;
    }
    if p < v.len() && v[p] == x {
        assert(v@.contains(x));
        return ;
    }
    let ghost before = v@;
    v.insert(p, x);
    proof {
        let after = v@;
        assert forall|i: int, j: int| 0 <= i < j < after.len() implies after[i] < after[j] by {
            if i < p && j > p {
                assert(after[j] == before[j - 1]);
            }
        }
        assert forall|y: i64| after.contains(y) <==> (before.contains(y) || y == x) by {
            if after.contains(y) {
                let i = choose|i: int| 0 <= i < after.len() && after[i] == y;
                if i < p {
                    assert(before[i] == y);
                } else if i > p {
                    assert(before[i - 1] == y);
                }
            }
            if before.contains(y) {
                let i = choose|i: int| 0 <= i < before.len() && before[i] == y;
                if i < p {
                    assert(after[i] == y);
                } else {
                    assert(after[i + 1] == y);
                }
            }
            if y == x {
                assert(after[p as int] == y);
            }
        }
    }
}

/// Sorts the sample times ascending, drops repetitions, and drops the times
/// before `ini_t`.
pub fn normalize_sample_times(smp_t: &Vec<i64>, ini_t: i64) -> (r: Vec<i64>)
    ensures
        is_normalized(r@, smp_t@, ini_t),
{
    let mut r: Vec<i64> = Vec::new();
    let mut i: usize = 0;
    while i < smp_t.len()
        invariant
            i <= smp_t.len(),
            strictly_increasing(r@),
            forall|x: i64| r@.contains(x) <==> (smp_t@.subrange(0, i as int).contains(x) && x >= ini_t),
        decreases smp_t.len() - i,
    {
        let x = smp_t[i];
        let ghost seen = smp_t@.subrange(0, i as int);
        let ghost seen_next = smp_t@.subrange(0, i + 1);
        let ghost r_before = r@;
        if x >= ini_t {
            insert_sorted(&mut r, x);
        }
        proof {
            assert(seen_next =~= seen.push(x));
            assert forall|y: i64| r@.contains(y) <==> (seen_next.contains(y) && y >= ini_t) by {
                if seen_next.contains(y) {
                    let k = choose|k: int| 0 <= k < seen_next.len() && seen_next[k] == y;
                    if k < i {
                        assert(seen[k] == y);
                    }
                }
                if seen.contains(y) {
                    let k = choose|k: int| 0 <= k < seen.len() && seen[k] == y;
                    assert(seen_next[k] == y);
                }
                assert(seen_next[i as int] == x);
            }
        }
        i += 1;
    }
    assert(smp_t@.subrange(0, i as int) =~= smp_t@);
    r
}

} // verus!
