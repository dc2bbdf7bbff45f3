//! The tables that an objective is evaluated with: which sample times the
//! simulation reports at, which record and component each observation is
//! compared with, and which parameters the optimiser sets.

use crate::data::lemma_time_index_finds;
use crate::data::observation_times;
use crate::data::time_index;
use crate::data::Data;
use crate::run::SampleSchedule;
use crate::sampling::is_normalized;
use crate::sampling::lemma_normal_form_unique;
use vstd::prelude::*;

verus! {

/// Why the simulated values could not be read off a trajectory.
#[derive(Clone, Copy, Debug, PartialEq, Eq)]
pub enum ObjectiveError {
    /// An observation points at a record or a component that the trajectory
    /// does not have.
    IndexOutOfRange,
}

/// The assignments that put the vector `x` into the parameters at the
/// positions `x_index`, in order, as far as both reach.
pub open spec fn spec_setx<V>(x_index: Seq<usize>, x: Seq<V>) -> Seq<(usize, V)> {
    Seq::new(if x_index.len() <= x.len() { x_index.len() } else { x.len() }, |i: int| (x_index[i], x[i]))
}

/// The parameters `p` after the assignments `a` were made in order.
pub open spec fn spec_assign<V>(p: Seq<V>, a: Seq<(usize, V)>) -> Seq<V>
    decreases a.len(),
{
    if a.len() == 0 {
        p
    } else {
        let q = spec_assign(p, a.drop_last());
        if a.last().0 < q.len() {
            q.update(a.last().0 as int, a.last().1)
        } else {
            q
        }
    }
}

/// The value that the assignments `a` leave at position `j`: that of the last
/// assignment to `j`, if there is one.
pub open spec fn last_assigned<V>(a: Seq<(usize, V)>, j: int) -> Option<V>
    decreases a.len(),
{
    if a.len() == 0 {
        None
    } else if a.last().0 == j {
        Some(a.last().1)
    } else {
        last_assigned(a.drop_last(), j)
    }
}

/// After the assignments, each parameter holds what was last assigned to it,
/// and is unchanged where nothing was.
pub proof fn lemma_assign_at<V>(p: Seq<V>, a: Seq<(usize, V)>, j: int)
    requires
        0 <= j < p.len(),
    ensures
        spec_assign(p, a).len() == p.len(),
        spec_assign(p, a)[j] == (match last_assigned(a, j) {
            Some(v) => v,
            None => p[j],
        }),
    decreases a.len(),
{
    if a.len() > 0 {
        lemma_assign_at(p, a.drop_last(), j);
    }
}

/// Setting the same vector twice leaves the parameters as setting it once
/// does: an objective that is evaluated again at the same vector runs the
/// model with the same parameters.
pub proof fn lemma_setting_twice_changes_nothing<V>(p: Seq<V>, x_index: Seq<usize>, x: Seq<V>)
    ensures
        spec_assign(spec_assign(p, spec_setx(x_index, x)), spec_setx(x_index, x)) == spec_assign(p, spec_setx(x_index, x)),
{
    let a = spec_setx(x_index, x);
    let once = spec_assign(p, a);
    let twice = spec_assign(once, a);
    lemma_assign_keeps_length(p, a);
    lemma_assign_keeps_length(once, a);
    assert forall|j: int| 0 <= j < once.len() implies twice[j] == once[j] by {
        lemma_assign_at(p, a, j);
        lemma_assign_at(once, a, j);
    }
    assert(twice =~= once);
}

/// Assignments do not change the number of parameters.
pub proof fn lemma_assign_keeps_length<V>(p: Seq<V>, a: Seq<(usize, V)>)
    ensures
        spec_assign(p, a).len() == p.len(),
    decreases a.len(),
{
    if a.len() > 0 {
        lemma_assign_keeps_length(p, a.drop_last());
    }
}

/// Makes the assignments `a` to the parameters `p`, in order.
pub fn assign<V: Copy>(p: &mut Vec<V>, a: &Vec<(usize, V)>)
    requires
        forall|k: int| 0 <= k < a.len() ==> (#[trigger] a[k]).0 < old(p).len(),
    ensures
        final(p)@ == spec_assign(old(p)@, a@),
{
    let mut k: usize = 0;
    assert(a@.subrange(0, 0) =~= Seq::<(usize, V)>::empty());
    while k < a.len()
        invariant
            k <= a.len(),
            p.len() == old(p).len(),
            forall|i: int| 0 <= i < a.len() ==> (#[trigger] a[i]).0 < p.len(),
            p@ == spec_assign(old(p)@, a@.subrange(0, k as int)),
        decreases a.len() - k,
    {
        let (index, value) = a[k];
        proof {
            let next = a@.subrange(0, k + 1);
            assert(next.drop_last() =~= a@.subrange(0, k as int));
            assert(next.last() == a[k as int]);
        }
        p.set(index, value);
        k += 1;
    }
    assert(a@.subrange(0, k as int) =~= a@);
}

/// The fixed part of a least-squares objective.
#[derive(Clone, Debug)]
pub struct Objective<V> {
    pub data: Data<V>,
    pub len_x: usize,
    /// The distinct observation times, ascending: the sample times of every
    /// simulation run.
    pub vec_smp_t: Vec<i64>,
    /// The observed values, in the order of the observations.
    pub arr_obs_y: Vec<V>,
    /// For each observation, the record and the component it is compared with.
    pub ty_index: Vec<(usize, usize)>,
    /// The positions, in the model's parameters, of those that are optimised.
    pub x_index: Vec<usize>,
    pub x_bounds: Option<Vec<(V, V)>>,
}

impl<V: Copy> Objective<V> {
    /// The tables agree with the observations.
    pub open spec fn wf(self) -> bool {
        &&& self.len_x == self.x_index.len()
        &&& is_normalized(self.vec_smp_t@, observation_times(self.data.obs@), i64::MIN)
        &&& self.arr_obs_y@ == Seq::new(self.data.obs.len() as nat, |k: int| self.data.obs[k].2)
        &&& self.ty_index@ == Seq::new(
            self.data.obs.len() as nat,
            |k: int| (time_index(self.vec_smp_t@, self.data.obs[k].1) as usize, self.data.obs[k].0),
        )
    }

    /// Every observation points into the trajectory `y`.
    pub open spec fn indices_in_range(self, y: Seq<Vec<V>>) -> bool {
        forall|k: int| 0 <= k < self.ty_index.len() ==> {
            &&& (#[trigger] self.ty_index[k]).0 < y.len()
            &&& self.ty_index[k].1 < y[self.ty_index[k].0 as int].len()
        }
    }

    /// Builds the tables from the observations and from what the model
    /// exposes to the optimiser.
    pub fn new(data: Data<V>, x_index: Vec<usize>, x_bounds: Option<Vec<(V, V)>>) -> (r: Self)
        ensures
            r.wf(),
            r.data == data,
            r.x_index == x_index,
            r.x_bounds == x_bounds,
    {
        let vec_smp_t = data.make_sampling_time();
        let arr_obs_y = data.make_arr_obs_y();
        let ty_index = data.make_ty_index(&vec_smp_t);
        let len_x = x_index.len();
        Self { data, len_x, vec_smp_t, arr_obs_y, ty_index, x_index, x_bounds }
    }

    /// The assignments that put the vector `new_x` into the model: for each
    /// optimised parameter its position and its new value, in order. A vector
    /// of another length is used as far as both reach.
    pub fn setx(&self, new_x: &Vec<V>) -> (r: Vec<(usize, V)>)
        ensures
            r@ == spec_setx(self.x_index@, new_x@),
    {
        let mut r: Vec<(usize, V)> = Vec::new();
        let mut i: usize = 0;
        while i < self.x_index.len() && i < new_x.len()
            invariant
                i <= self.x_index.len(),
                i <= new_x.len(),
                r.len() == i,
                forall|j: int| 0 <= j < i ==> r[j] == (self.x_index[j], new_x[j]),
            decreases self.x_index.len() - i,
        {
            r.push((self.x_index[i], new_x[i]));
            i += 1;
        }
        assert(r@ =~= spec_setx(self.x_index@, new_x@));
        r
    }

    /// The simulated value for each observation, read off the trajectory `y`
    /// of a run at the sample times `vec_smp_t`.
    ///
    /// Fails exactly when some observation points outside the trajectory.
    pub fn sim_y(&self, y: &Vec<Vec<V>>) -> (r: Result<Vec<V>, ObjectiveError>)
        ensures
            r.is_ok() <==> self.indices_in_range(y@),
            r matches Err(e) ==> e == ObjectiveError::IndexOutOfRange,
            r matches Ok(v) ==> {
                &&& v.len() == self.ty_index.len()
                &&& forall|k: int| 0 <= k < v.len() ==> v[k] == y[self.ty_index[k].0 as int][self.ty_index[k].1 as int]
            },
    {
        let mut v: Vec<V> = Vec::new();
        let mut k: usize = 0;
        while k < self.ty_index.len()
            invariant
                k <= self.ty_index.len(),
                v.len() == k,
                forall|j: int| 0 <= j < k ==> {
                    &&& (#[trigger] self.ty_index[j]).0 < y.len()
                    &&& self.ty_index[j].1 < y[self.ty_index[j].0 as int].len()
                },
                forall|j: int| 0 <= j < k ==> v[j] == y[self.ty_index[j].0 as int][self.ty_index[j].1 as int],
            decreases self.ty_index.len() - k,
        {
            let (t_index, y_index) = self.ty_index[k];
            if t_index >= y.len() {
                assert(!((#[trigger] self.ty_index[k as int]).0 < y.len()));
                return Err(ObjectiveError::IndexOutOfRange);
            }
            let row = &y[t_index];
            if y_index >= row.len() {
                assert(!(self.ty_index[k as int].1 < y[(#[trigger] self.ty_index[k as int]).0 as int].len()));
                return Err(ObjectiveError::IndexOutOfRange);
            }
            v.push(row[y_index]);
            k += 1;
        }
        Ok(v)
    }
}

/// A run that starts no later than the first observation holds, for every
/// observation, a record at exactly its time, and `time_index` finds it.
pub proof fn lemma_every_observation_has_its_record<V>(
    obs: Seq<(usize, i64, V, Option<V>, Option<V>)>,
    smp_t: Seq<i64>,
    ini_t: i64,
    run: SampleSchedule,
    k: int,
)
    requires
        is_normalized(smp_t, observation_times(obs), i64::MIN),
        forall|j: int| 0 <= j < obs.len() ==> (#[trigger] obs[j]).1 >= ini_t,
        run.wf(),
        run.spec_is_finished(),
        is_normalized(run.samples@, smp_t, ini_t),
        0 <= k < obs.len(),
    ensures
        0 <= time_index(smp_t, obs[k].1) < run.spec_times().len(),
        run.spec_times()[time_index(smp_t, obs[k].1)] == obs[k].1,
{
    let times = observation_times(obs);
    assert forall|x: i64| smp_t.contains(x) implies x >= ini_t by {
        assert(times.contains(x));
        let j = choose|j: int| 0 <= j < times.len() && times[j] == x;
        assert(obs[j].1 >= ini_t);
    }
    assert(is_normalized(smp_t, smp_t, ini_t));
    lemma_normal_form_unique(run.samples@, smp_t, smp_t, ini_t);
    assert(times[k] == obs[k].1);
    assert(times.contains(obs[k].1));
    assert(smp_t.contains(obs[k].1));
    lemma_time_index_finds(smp_t, obs[k].1);
}

} // verus!
