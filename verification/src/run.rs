//! The time bookkeeping of one simulation run: where the run stands, where
//! the current continuous segment ends, and which sample times are handed out
//! after each accepted integration step.

use crate::sampling::is_normalized;
use crate::sampling::lemma_normal_form_count;
use crate::sampling::normalize_sample_times;
use crate::sampling::sample_set;
use crate::sampling::strictly_increasing;
use vstd::prelude::*;

verus! {

/// What one accepted integration step releases.
#[derive(Debug)]
pub struct StepOutcome {
    /// The sample times that lie inside the step, ascending; each is reported
    /// by interpolation within the step.
    pub due: Vec<i64>,
    /// The step has passed the end of the segment.
    pub segment_done: bool,
}

/// The sample times of a run in normal form, and how far the run has come.
#[derive(Debug)]
pub struct SampleSchedule {
    /// The sample times, ascending and distinct, none before the start.
    pub samples: Vec<i64>,
    /// How many of them have been handed out.
    pub emitted: usize,
    /// The end of the run: the last sample time, or the start if there is none.
    pub end_t: i64,
    /// The time of the discrete event at which the run stands.
    pub cur_t: i64,
    /// The end of the continuous segment that is being integrated.
    pub seg_end: i64,
    /// The time that the integration has reached within the segment: the
    /// start of the next step.
    pub step_t: i64,
}

impl SampleSchedule {
    pub open spec fn wf(self) -> bool {
        &&& strictly_increasing(self.samples@)
        &&& self.emitted <= self.samples.len()
        &&& self.seg_end <= self.end_t
        &&& self.samples.len() > 0 ==> self.end_t == self.samples@.last()
        &&& forall|i: int| 0 <= i < self.emitted ==> (#[trigger] self.samples[i]) < self.end_t
        &&& forall|i: int| self.emitted <= i < self.samples.len() ==> (#[trigger] self.samples[i]) >= self.cur_t
        &&& forall|i: int| self.emitted <= i < self.samples.len() ==> (#[trigger] self.samples[i]) >= self.step_t || self.samples[i] >= self.seg_end
    }

    /// The run has reached its end.
    pub open spec fn spec_is_finished(self) -> bool {
        self.cur_t >= self.end_t
    }

    /// The times of the records of a finished run: the sample times, or the
    /// end alone where there are none.
    pub open spec fn spec_times(self) -> Seq<i64> {
        if self.samples.len() == 0 {
            seq![self.end_t]
        } else {
            self.samples@
        }
    }

    /// Starts a run at `ini_t` that reports at the times `smp_t`.
    pub fn begin(smp_t: &Vec<i64>, ini_t: i64) -> (r: SampleSchedule)
        ensures
            r.wf(),
            is_normalized(r.samples@, smp_t@, ini_t),
            r.emitted == 0,
            r.cur_t == ini_t,
            r.seg_end == ini_t,
            r.step_t == ini_t,
            r.end_t == (if r.samples.len() == 0 { ini_t } else { r.samples@.last() }),
    {
        let samples = normalize_sample_times(smp_t, ini_t);
        let n = samples.len();
        let end_t: i64 = if n == 0 { ini_t } else { samples[n - 1] };
        proof {
            assert forall|i: int| 0 <= i < samples.len() implies (#[trigger] samples[i]) >= ini_t by {
                assert(samples@.contains(samples[i]));
            }
        }
        SampleSchedule { samples, emitted: 0, end_t, cur_t: ini_t, seg_end: ini_t, step_t: ini_t }
    }

    /// The run stands at or after its end: no segment is left to integrate.
    pub fn is_finished(&self) -> (r: bool)
        ensures
            r == self.spec_is_finished(),
    {
        self.cur_t >= self.end_t
    }

    /// Opens the continuous segment from the current event to `next_t`, or to
    /// the end of the run if that comes first. Returns the end of the segment.
    pub fn begin_segment(&mut self, next_t: i64) -> (r: i64)
        requires
            old(self).wf(),
        ensures
            final(self).wf(),
            r == (if next_t < old(self).end_t { next_t } else { old(self).end_t }),
            *final(self) == (SampleSchedule { seg_end: r, step_t: old(self).cur_t, ..*old(self) }),
    {
        let seg_end: i64 = if next_t < self.end_t { next_t } else { self.end_t };
        self.seg_end = seg_end;
        self.step_t = self.cur_t;
        seg_end
    }

    /// Records an accepted integration step that reached `new_t`.
    ///
    /// Hands out, in order, every pending sample time that lies before both
    /// `new_t` and the end of the segment; each of them lies inside the step,
    /// from its start up to but not including `new_t`. Once the step has
    /// passed the end of the segment, the run stands at that end.
    pub fn after_step(&mut self, new_t: i64) -> (r: StepOutcome)
        requires
            old(self).wf(),
        ensures
            final(self).wf(),
            final(self).samples == old(self).samples,
            final(self).end_t == old(self).end_t,
            final(self).seg_end == old(self).seg_end,
            final(self).step_t == new_t,
            r.segment_done == (new_t > old(self).seg_end),
            final(self).cur_t == (if r.segment_done { old(self).seg_end } else { old(self).cur_t }),
            old(self).emitted <= final(self).emitted <= old(self).samples.len(),
            r.due@ == old(self).samples@.subrange(old(self).emitted as int, final(self).emitted as int),
            forall|i: int| old(self).emitted <= i < final(self).emitted ==> old(self).step_t <= (#[trigger] old(self).samples[i]) < new_t && old(self).samples[i] < old(self).seg_end,
            final(self).emitted < old(self).samples.len() ==> !(old(self).samples[final(self).emitted as int] < new_t && old(self).samples[final(self).emitted as int] < old(self).seg_end),
    {
        let mut due: Vec<i64> = Vec::new();
        let ghost start = self.emitted;
        while self.emitted < self.samples.len() && self.samples[self.emitted] < new_t && self.samples[self.emitted] < self.seg_end
            invariant
                self.wf(),
                self.samples == old(self).samples,
                self.end_t == old(self).end_t,
                self.seg_end == old(self).seg_end,
                self.cur_t == old(self).cur_t,
                start == old(self).emitted,
                self.step_t == old(self).step_t,
                start <= self.emitted <= self.samples.len(),
                due@ == self.samples@.subrange(start as int, self.emitted as int),
                forall|i: int| start <= i < self.emitted ==> self.step_t <= (#[trigger] self.samples[i]) < new_t && self.samples[i] < self.seg_end,
            decreases self.samples.len() - self.emitted,
        {
            let s = self.samples[self.emitted];
            due.push(s);
            self.emitted = self.emitted + 1;
            assert(due@ =~= self.samples@.subrange(start as int, self.emitted as int));
        }
        self.step_t = new_t;
        proof {
            assert forall|i: int| self.emitted <= i < self.samples.len() implies (#[trigger] self.samples[i]) >= self.step_t || self.samples[i] >= self.seg_end by {
                if i > self.emitted {
                    assert(self.samples[self.emitted as int] < self.samples[i]);
                }
            }
        }
        let segment_done = new_t > self.seg_end;
        if segment_done {
            self.cur_t = self.seg_end;
            proof {
                assert forall|i: int| self.emitted <= i < self.samples.len() implies (#[trigger] self.samples[i]) >= self.cur_t by {
                    if i > self.emitted {
                        assert(self.samples[self.emitted as int] < self.samples[i]);
                    }
                }
            }
        }
        StepOutcome { due, segment_done }
    }

    /// The times of the records of the finished run, the final record last.
    pub fn finish(self) -> (r: Vec<i64>)
        requires
            self.wf(),
            self.spec_is_finished(),
        ensures
            r@ == self.spec_times(),
            r.len() == self.emitted + 1,
            strictly_increasing(r@),
            r@.last() == self.end_t,
    {
        proof {
            self.lemma_finished_all_but_last();
        }
        if self.samples.len() == 0 {
            let mut r: Vec<i64> = Vec::new();
            r.push(self.end_t);
            assert(r@ =~= seq![self.end_t]);
            r
        } else {
            self.samples
        }
    }

    /// At the end of a run every sample time but the last has been handed
    /// out, and the last is the end of the run.
    pub proof fn lemma_finished_all_but_last(self)
        requires
            self.wf(),
            self.spec_is_finished(),
        ensures
            self.samples.len() > 0 ==> self.emitted + 1 == self.samples.len(),
            self.samples.len() == 0 ==> self.emitted == 0,
    {
        let n = self.samples.len() as int;
        if n > 0 {
            let e = self.emitted as int;
            if e == n {
                assert(self.samples[n - 1] < self.end_t);
            } else if e + 1 < n {
                assert(self.samples[e] >= self.cur_t);
                assert(self.samples[e] < self.samples[n - 1]);
            }
        }
    }
}

/// A finished run holds one record for each distinct sample time that is not
/// before the start, and a single record where there is none.
pub proof fn lemma_sample_count(run: SampleSchedule, smp_t: Seq<i64>, ini_t: i64)
    requires
        run.wf(),
        run.spec_is_finished(),
        is_normalized(run.samples@, smp_t, ini_t),
    ensures
        sample_set(smp_t, ini_t).finite(),
        run.spec_times().len() == (if sample_set(smp_t, ini_t).len() > 0 {
            sample_set(smp_t, ini_t).len()
        } else {
            1
        }),
        run.spec_times().len() == run.emitted + 1,
{
    lemma_normal_form_count(run.samples@, smp_t, ini_t);
    run.lemma_finished_all_but_last();
}

/// The times of the records of a run are strictly increasing.
pub proof fn lemma_monotone_emission(run: SampleSchedule)
    requires
        run.wf(),
    ensures
        strictly_increasing(run.spec_times()),
{
}

} // verus!
