//! Observations, and the index tables that tie each of them to a sample time
//! of the simulation.
//!
//! Observation times are order keys. Observed values are never computed on
//! here: they keep whatever type the caller gives them.

use crate::sampling::insert_sorted;
use crate::sampling::is_normalized;
use crate::sampling::strictly_increasing;
use vstd::prelude::*;

verus! {

/// A set of observations: for each, the state component it observes, its
/// time, its value, and optionally the errors of time and value.
#[derive(Clone, Debug)]
pub struct Data<V> {
    pub obs: Vec<(usize, i64, V, Option<V>, Option<V>)>,
}

/// The times of the observations, in their order.
pub open spec fn observation_times<V>(obs: Seq<(usize, i64, V, Option<V>, Option<V>)>) -> Seq<i64> {
    Seq::new(obs.len(), |k: int| obs[k].1)
}

/// The position of the time `t` in `smp_t`: that of its last occurrence, and
/// zero where it does not occur.
pub open spec fn time_index(smp_t: Seq<i64>, t: i64) -> int
    decreases smp_t.len(),
{
    if smp_t.len() == 0 {
        0
    } else if smp_t.last() == t {
        smp_t.len() - 1
    } else {
        time_index(smp_t.drop_last(), t)
    }
}

/// Where `t` occurs in `smp_t`, `time_index` points at it; in an ascending
/// list without repetition it is the only such position.
pub proof fn lemma_time_index_finds(smp_t: Seq<i64>, t: i64)
    requires
        smp_t.contains(t),
    ensures
        0 <= time_index(smp_t, t) < smp_t.len(),
        smp_t[time_index(smp_t, t)] == t,
        strictly_increasing(smp_t) ==> forall|j: int| 0 <= j < smp_t.len() && smp_t[j] == t ==> j == time_index(smp_t, t),
    decreases smp_t.len(),
{
    let j0 = choose|j: int| 0 <= j < smp_t.len() && smp_t[j] == t;
    if smp_t.last() != t {
        let p = smp_t.drop_last();
        assert(p[j0] == t);
        lemma_time_index_finds(p, t);
        assert(smp_t[time_index(p, t)] == p[time_index(p, t)]);
    }
}

impl<V: Copy> Data<V> {
    pub fn new(obs: Vec<(usize, i64, V, Option<V>, Option<V>)>) -> (r: Self)
        ensures
            r.obs == obs,
    {
        Self { obs }
    }

    /// The distinct observation times, ascending.
    pub fn make_sampling_time(&self) -> (r: Vec<i64>)
        ensures
            is_normalized(r@, observation_times(self.obs@), i64::MIN),
    {
        let mut r: Vec<i64> = Vec::new();
        let mut i: usize = 0;
        let ghost times = observation_times(self.obs@);
        while i < self.obs.len()
            invariant
                i <= self.obs.len(),
                times == observation_times(self.obs@),
                strictly_increasing(r@),
                forall|x: i64| r@.contains(x) <==> times.subrange(0, i as int).contains(x),
            decreases self.obs.len() - i,
        {
            let t = self.obs[i].1;
            let ghost seen = times.subrange(0, i as int);
            let ghost seen_next = times.subrange(0, i + 1);
            insert_sorted(&mut r, t);
            proof {
                assert(times[i as int] == t);
                assert forall|y: i64| r@.contains(y) <==> seen_next.contains(y) by {
                    if seen_next.contains(y) {
                        let k = choose|k: int| 0 <= k < seen_next.len() && seen_next[k] == y;
                        if k < i {
                            assert(seen[k] == y);
                        }
                    }
                    if seen.contains(y) {
                        let k = choose|k: int| 0 <= k < seen.len() && seen[k] == y;
                        assert(seen_next[k] == y);
                    }
                    assert(seen_next[i as int] == t);
                }
            }
            i += 1;
        }
        assert(times.subrange(0, i as int) =~= times);
        r
    }

    /// The observed values, in the order of the observations.
    pub fn make_arr_obs_y(&self) -> (r: Vec<V>)
        ensures
            r@ == Seq::new(self.obs.len() as nat, |k: int| self.obs[k].2),
    {
        let mut r: Vec<V> = Vec::new();
        let mut i: usize = 0;
        while i < self.obs.len()
            invariant
                i <= self.obs.len(),
                r.len() == i,
                forall|k: int| 0 <= k < i ==> r[k] == self.obs[k].2,
            decreases self.obs.len() - i,
        {
            r.push(self.obs[i].2);
            i += 1;
        }
        assert(r@ =~= Seq::new(self.obs.len() as nat, |k: int| self.obs[k].2));
        r
    }

    /// For each observation, the position of its time in `vec_smp_t` and the
    /// state component it observes.
    pub fn make_ty_index(&self, vec_smp_t: &Vec<i64>) -> (r: Vec<(usize, usize)>)
        ensures
            r@ == Seq::new(self.obs.len() as nat, |k: int| (time_index(vec_smp_t@, self.obs[k].1) as usize, self.obs[k].0)),
    {
        let mut r: Vec<(usize, usize)> = Vec::new();
        let mut i: usize = 0;
        while i < self.obs.len()
            invariant
                i <= self.obs.len(),
                r.len() == i,
                forall|k: int| 0 <= k < i ==> r[k] == (time_index(vec_smp_t@, self.obs[k].1) as usize, self.obs[k].0),
            decreases self.obs.len() - i,
        {
            let y_index = self.obs[i].0;
            let obs_t = self.obs[i].1;
            let mut t_index: usize = 0;
            let mut j: usize = 0;
            while j < vec_smp_t.len()
                invariant
                    j <= vec_smp_t.len(),
                    t_index as int == time_index(vec_smp_t@.subrange(0, j as int), obs_t),
                decreases vec_smp_t.len() - j,
            {
                proof {
                    let s = vec_smp_t@.subrange(0, j + 1);
                    assert(s.drop_last() =~= vec_smp_t@.subrange(0, j as int));
                    assert(s.last() == vec_smp_t[j as int]);
                }
                if obs_t == vec_smp_t[j] {
                    t_index = j;
                }
                j += 1;
            }
            assert(vec_smp_t@.subrange(0, j as int) =~= vec_smp_t@);
            r.push((t_index, y_index));
            i += 1;
        }
        assert(r@ =~= Seq::new(self.obs.len() as nat, |k: int| (time_index(vec_smp_t@, self.obs[k].1) as usize, self.obs[k].0)));
        r
    }
}

} // verus!
