//! Beats: periodic discrete events on exact time, and the schedule that arms them.

use crate::exact::Exact;
use vstd::arithmetic::div_mod::lemma_basic_div;
use vstd::arithmetic::div_mod::lemma_div_plus_one;
use vstd::prelude::*;

verus! {

/// A discrete event source: it may fire at `start`, then every `interval`, as
/// long as the firing time does not pass `end`.
#[derive(Clone, Copy, Debug)]
pub struct Beat {
    pub start: Exact,
    pub end: Exact,
    pub interval: Exact,
    pub initial_active: bool,
}

impl Beat {
    pub open spec fn wf(self) -> bool {
        &&& self.start.wf()
        &&& self.end.wf()
        &&& self.interval.wf()
    }

    /// The first time at which the beat is armed in a run that starts at `ini_t`.
    pub open spec fn first_time(self, ini_t: Exact) -> Exact {
        if ini_t.units() < self.start.units() {
            self.start
        } else {
            ini_t
        }
    }
}

/// Why a schedule could not be built or advanced.
#[derive(Clone, Copy, Debug, PartialEq, Eq)]
pub enum ScheduleError {
    /// A sum of two exact times left the range of a decimal.
    Overflow,
}

/// The next discrete event of a run.
#[derive(Clone, Copy, Debug)]
pub enum NextEvent {
    /// A beat is armed at this time, before the end of the run.
    Beat(Exact),
    /// No beat is armed before the end of the run, which is at this time.
    End(Exact),
}

impl NextEvent {
    /// The time of the event.
    pub open spec fn spec_time(self) -> Exact {
        match self {
            NextEvent::Beat(t) => t,
            NextEvent::End(t) => t,
        }
    }

    /// The time of the event.
    pub fn time(&self) -> (t: Exact)
        ensures
            t == self.spec_time(),
    {
        match self {
            NextEvent::Beat(t) => *t,
            NextEvent::End(t) => *t,
        }
    }
}

/// The earliest of a non-empty sequence of times: the first among those that
/// no other precedes.
pub open spec fn earliest(s: Seq<Exact>) -> Exact
    recommends
        s.len() > 0,
    decreases s.len(),
{
    if s.len() <= 1 {
        s[0]
    } else {
        let e = earliest(s.drop_last());
        if s.last().units() < e.units() {
            s.last()
        } else {
            e
        }
    }
}

/// `s[k]` is the earliest time in `s`, and the first entry that early.
pub open spec fn is_first_minimum(s: Seq<Exact>, k: int) -> bool {
    &&& 0 <= k < s.len()
    &&& forall|j: int| 0 <= j < s.len() ==> s[k].units() <= #[trigger] s[j].units()
    &&& forall|j: int| 0 <= j < k ==> s[k].units() < #[trigger] s[j].units()
}

/// `earliest` picks the first minimum.
pub proof fn lemma_earliest_is_first_minimum(s: Seq<Exact>)
    requires
        s.len() > 0,
    ensures
        exists|k: int| is_first_minimum(s, k) && earliest(s) == s[k],
    decreases s.len(),
{
    if s.len() == 1 {
        assert(is_first_minimum(s, 0));
    } else {
        let p = s.drop_last();
        lemma_earliest_is_first_minimum(p);
        let k0 = choose|k: int| is_first_minimum(p, k) && earliest(p) == p[k];
        let last = s.len() - 1;
        if s.last().units() < earliest(p).units() {
            assert forall|j: int| 0 <= j < s.len() implies s[last].units() <= #[trigger] s[j].units() by {
                if j < last {
                    assert(p[j] == s[j]);
                    assert(p[k0].units() <= p[j].units());
                }
            }
            assert forall|j: int| 0 <= j < last implies s[last].units() < #[trigger] s[j].units() by {
                assert(p[j] == s[j]);
                assert(p[k0].units() <= p[j].units());
            }
            assert(is_first_minimum(s, last));
        } else {
            assert(p[k0] == s[k0]);
            assert forall|j: int| 0 <= j < s.len() implies s[k0].units() <= #[trigger] s[j].units() by {
                if j < last {
                    assert(p[j] == s[j]);
                    assert(p[k0].units() <= p[j].units());
                }
            }
            assert forall|j: int| 0 <= j < k0 implies s[k0].units() < #[trigger] s[j].units() by {
                assert(p[j] == s[j]);
                assert(p[k0].units() < p[j].units());
            }
            assert(is_first_minimum(s, k0));
        }
    }
}

/// The exact-time state of a run: the beats, the run's end, and for each beat
/// the next time at which it is armed.
#[derive(Clone, Debug)]
pub struct BeatSchedule {
    pub beats: Vec<Beat>,
    pub ini_t: Exact,
    pub end_t: Exact,
    /// A time after the end of the run; a beat parked here never fires again.
    pub stopped: Exact,
    pub next_t: Vec<Exact>,
    /// The activation flags the run starts with.
    pub initial_act: Vec<bool>,
}

impl BeatSchedule {
    pub open spec fn wf(self) -> bool {
        &&& self.ini_t.wf()
        &&& self.end_t.wf()
        &&& self.stopped.wf()
        &&& self.next_t.len() == self.beats.len()
        &&& self.initial_act.len() == self.beats.len()
        &&& forall|i: int| 0 <= i < self.beats.len() ==> (#[trigger] self.beats[i]).wf()
        &&& forall|i: int| 0 <= i < self.next_t.len() ==> (#[trigger] self.next_t[i]).wf()
    }

    /// Where beat `i` is armed after the model has set its flag: an inactive
    /// beat stays; an active one moves on by its interval if the new armed
    /// time does not pass the beat's end, and is parked otherwise. `None`
    /// where the sum overflows.
    pub open spec fn advance_one(self, active: bool, i: int) -> Option<Exact> {
        if !active {
            Some(self.next_t[i])
        } else {
            match self.next_t[i].spec_checked_add(self.beats[i].interval) {
                None => None,
                Some(moved) => if moved.units() <= self.beats[i].end.units() {
                    Some(moved)
                } else {
                    Some(self.stopped)
                },
            }
        }
    }

    /// The instant at which beat `i` is armed after the model has set its
    /// flag, where the sum is exact; `evaluate_condition` arms it there
    /// whenever the sum fits.
    pub open spec fn armed_units_after(self, active: bool, i: int) -> int {
        if !active {
            self.next_t[i].units()
        } else if self.next_t[i].units() + self.beats[i].interval.units() <= self.beats[i].end.units() {
            self.next_t[i].units() + self.beats[i].interval.units()
        } else {
            self.stopped.units()
        }
    }

    /// Some active beat cannot be advanced within the range of a decimal.
    pub open spec fn advance_overflows(self, act: Seq<bool>) -> bool {
        exists|i: int| 0 <= i < self.beats.len() && (#[trigger] self.advance_one(act[i], i)).is_none()
    }

    /// The armed times after the model has set the flags `act`.
    pub open spec fn spec_advanced(self, act: Seq<bool>) -> Seq<Exact> {
        Seq::new(self.beats.len() as nat, |i: int| self.advance_one(act[i], i).unwrap())
    }

    /// The next discrete event: the earliest armed time if it lies before the
    /// end of the run, else the end. Without beats it is the end.
    pub open spec fn spec_next_event(self) -> NextEvent {
        if self.next_t.len() == 0 {
            NextEvent::End(self.end_t)
        } else {
            let e = earliest(self.next_t@);
            if e.units() < self.end_t.units() {
                NextEvent::Beat(e)
            } else {
                NextEvent::End(self.end_t)
            }
        }
    }

    /// Builds the schedule of a run from `ini_t` to `end_t`.
    ///
    /// Fails exactly when `end_t + 1` is no decimal.
    pub fn initialize_times(ini_t: Exact, end_t: Exact, beats: Vec<Beat>) -> (r: Result<BeatSchedule, ScheduleError>)
        requires
            ini_t.wf(),
            end_t.wf(),
            forall|i: int| 0 <= i < beats.len() ==> (#[trigger] beats[i]).wf(),
        ensures
            r.is_err() <==> end_t.spec_checked_add(Exact { mantissa: 1, scale: 0 }).is_none(),
            r matches Err(e) ==> e == ScheduleError::Overflow,
            r matches Ok(s) ==> {
                &&& s.wf()
                &&& s.beats == beats
                &&& s.ini_t == ini_t
                &&& s.end_t == end_t
                &&& Some(s.stopped) == end_t.spec_checked_add(Exact { mantissa: 1, scale: 0 })
                &&& s.next_t@ == Seq::new(beats.len() as nat, |i: int| beats[i].first_time(ini_t))
                &&& s.initial_act@ == Seq::new(beats.len() as nat, |i: int| beats[i].initial_active)
            },
    {
        let one = Exact::from_whole(1);
        let stopped = match end_t.checked_add(&one) {
            Some(s) => s,
            None => {
                return Err(ScheduleError::Overflow);
            },
        };
        let mut next_t: Vec<Exact> = Vec::new();
        let mut initial_act: Vec<bool> = Vec::new();
        let mut i: usize = 0;
        while i < beats.len()
            invariant
                i <= beats.len(),
                ini_t.wf(),
                next_t.len() == i,
                initial_act.len() == i,
                forall|j: int| 0 <= j < beats.len() ==> (#[trigger] beats[j]).wf(),
                forall|j: int| 0 <= j < i ==> next_t[j] == (#[trigger] beats[j]).first_time(ini_t),
                forall|j: int| 0 <= j < i ==> initial_act[j] == (#[trigger] beats[j]).initial_active,
            decreases beats.len() - i,
        {
            let b = beats[i];
            if ini_t.lt(&b.start) {
                next_t.push(b.start);
            } else {
                next_t.push(ini_t);
            }
            initial_act.push(b.initial_active);
            i += 1;
        }
        assert(next_t@ =~= Seq::new(beats.len() as nat, |i: int| beats[i].first_time(ini_t)));
        assert(initial_act@ =~= Seq::new(beats.len() as nat, |i: int| beats[i].initial_active));
        Ok(BeatSchedule { beats, ini_t, end_t, stopped, next_t, initial_act })
    }

    /// Takes the activation flags that the model has set, arms every active
    /// beat at its next time, and returns the next discrete event.
    ///
    /// Fails exactly when advancing some active beat overflows; the schedule
    /// is then left as it was. Where the sum of an active beat's armed time
    /// and interval fits, the beat is armed at exactly that sum or parked.
    pub fn evaluate_condition(&mut self, act: &Vec<bool>) -> (r: Result<NextEvent, ScheduleError>)
        requires
            old(self).wf(),
            act.len() == old(self).beats.len(),
        ensures
            r.is_err() <==> old(self).advance_overflows(act@),
            r matches Err(e) ==> e == ScheduleError::Overflow && *final(self) == *old(self),
            r matches Ok(event) ==> {
                &&& final(self).wf()
                &&& final(self).beats == old(self).beats
                &&& final(self).ini_t == old(self).ini_t
                &&& final(self).end_t == old(self).end_t
                &&& final(self).stopped == old(self).stopped
                &&& final(self).initial_act == old(self).initial_act
                &&& final(self).next_t@ == old(self).spec_advanced(act@)
                &&& event == final(self).spec_next_event()
                &&& event.spec_time().wf()
                &&& forall|i: int|
                    0 <= i < act.len() && (act[i] ==> old(self).next_t[i].sum_fits(old(self).beats[i].interval))
                        ==> (#[trigger] final(self).next_t[i]).units() == old(self).armed_units_after(act[i], i)
            },
    {
        let n = self.beats.len();
        let mut next: Vec<Exact> = Vec::new();
        let mut i: usize = 0;
        while i < n
            invariant
                i <= n,
                n == self.beats.len(),
                act.len() == n,
                self.wf(),
                next.len() == i,
                forall|j: int| 0 <= j < i ==> (#[trigger] self.advance_one(act[j], j)) == Some(next[j]),
                forall|j: int| 0 <= j < i ==> (#[trigger] next[j]).wf(),
                forall|j: int|
                    0 <= j < i && (act[j] ==> self.next_t[j].sum_fits(self.beats[j].interval))
                        ==> (#[trigger] next[j]).units() == self.armed_units_after(act[j], j),
            decreases n - i,
        {
            let b = self.beats[i];
            let armed = self.next_t[i];
            if act[i] {
                let moved = match armed.checked_add(&b.interval) {
                    Some(t) => t,
                    None => {
                        assert(self.advance_one(act[i as int], i as int).is_none());
                        return Err(ScheduleError::Overflow);
                    },
                };
                proof {
                    if armed.sum_fits(b.interval) {
                        self.lemma_fire_moves_by_interval(true, i as int);
                    }
                }
                if moved.le(&b.end) {
                    next.push(moved);
                } else {
                    next.push(self.stopped);
                }
            } else {
                next.push(armed);
            }
            i += 1;
        }
        assert(next@ =~= self.spec_advanced(act@));
        assert(!self.advance_overflows(act@));
        self.next_t = next;
        let event = self.next_event();
        Ok(event)
    }

    /// The activation flags of a model that fires each beat exactly when the
    /// run stands on its armed time.
    pub fn on_time(&self, cur_t: &Exact) -> (act: Vec<bool>)
        requires
            self.wf(),
            cur_t.wf(),
        ensures
            self.fires_on_time(*cur_t, act@),
    {
        let mut act: Vec<bool> = Vec::new();
        let mut i: usize = 0;
        while i < self.next_t.len()
            invariant
                i <= self.next_t.len(),
                self.wf(),
                cur_t.wf(),
                act.len() == i,
                forall|j: int| 0 <= j < i ==> act[j] == (cur_t.units() == (#[trigger] self.next_t[j]).units()),
            decreases self.next_t.len() - i,
        {
            let armed = self.next_t[i];
            act.push(cur_t.same_instant(&armed));
            i += 1;
        }
        act
    }

    /// The next discrete event.
    pub fn next_event(&self) -> (event: NextEvent)
        requires
            self.wf(),
        ensures
            event == self.spec_next_event(),
            event.spec_time().wf(),
    {
        let n = self.next_t.len();
        if n == 0 {
            return NextEvent::End(self.end_t);
        }
        let mut e = self.next_t[0];
        let mut i: usize = 1;
        assert(self.next_t@.subrange(0, 1).len() == 1);
        assert(self.next_t@.subrange(0, 1)[0] == self.next_t[0]);
        while i < n
            invariant
                1 <= i <= n,
                n == self.next_t.len(),
                self.wf(),
                e.wf(),
                e == earliest(self.next_t@.subrange(0, i as int)),
            decreases n - i,
        {
            let c = self.next_t[i];
            proof {
                let s = self.next_t@.subrange(0, i + 1);
                assert(s.drop_last() =~= self.next_t@.subrange(0, i as int));
                assert(s.last() == c);
            }
            if c.lt(&e) {
                e = c;
            }
            i += 1;
        }
        assert(self.next_t@.subrange(0, n as int) =~= self.next_t@);
        if e.lt(&self.end_t) {
            NextEvent::Beat(e)
        } else {
            NextEvent::End(self.end_t)
        }
    }
}

/// How often a beat fires from the armed instant `t` on, when it fires each
/// time the run reaches its armed time: once at `t`, and again from
/// `t + interval` on unless that passes `end`. All three in units.
pub open spec fn firings_from(t: int, end: int, interval: int) -> nat
    decreases end - t,
    when interval > 0
{
    if t + interval <= end {
        1 + firings_from(t + interval, end, interval)
    } else {
        1
    }
}

/// A beat that fires on its exact armed times fires
/// `floor((end - start) / interval) + 1` times over `[start, end]`.
pub proof fn lemma_firing_count(start: int, end: int, interval: int)
    requires
        interval > 0,
        start <= end,
    ensures
        firings_from(start, end, interval) == (end - start) / interval + 1,
    decreases end - start,
{
    if start + interval <= end {
        lemma_firing_count(start + interval, end, interval);
        lemma_div_plus_one(end - start - interval, interval);
        assert(interval + (end - start - interval) == end - start);
    } else {
        lemma_basic_div(end - start, interval);
    }
}

/// How often a beat that is armed at `armed` still fires: not at all once it
/// is parked at `stopped`.
pub open spec fn firings_left(armed: int, end: int, interval: int, stopped: int) -> nat {
    if armed == stopped {
        0
    } else {
        firings_from(armed, end, interval)
    }
}

impl BeatSchedule {
    /// The flags `act` are those of a model that fires a beat exactly when the
    /// run stands on its armed time.
    pub open spec fn fires_on_time(self, cur_t: Exact, act: Seq<bool>) -> bool {
        &&& act.len() == self.beats.len()
        &&& forall|i: int| 0 <= i < self.beats.len() ==> act[i] == (cur_t.units() == (#[trigger] self.next_t[i]).units())
    }

    /// An active beat whose sum is exact is armed one interval later, or
    /// parked if that would pass its end; an inactive beat stays.
    pub proof fn lemma_fire_moves_by_interval(self, active: bool, i: int)
        requires
            self.wf(),
            0 <= i < self.beats.len(),
            active ==> self.next_t[i].adds_exactly(self.beats[i].interval),
        ensures
            self.advance_one(active, i).is_some(),
            self.advance_one(active, i).unwrap().units() == self.armed_units_after(active, i),
    {
    }

    /// Each firing uses up exactly one of the firings a beat has left, and
    /// nothing else does. So a beat that is armed at its start fires
    /// `floor((end - start) / interval) + 1` times before it is parked.
    pub proof fn lemma_firing_uses_one(self, active: bool, i: int)
        requires
            self.wf(),
            0 <= i < self.beats.len(),
            self.beats[i].interval.units() > 0,
            self.beats[i].end.units() < self.stopped.units(),
            self.next_t[i].units() <= self.beats[i].end.units(),
        ensures
            firings_left(
                self.next_t[i].units(),
                self.beats[i].end.units(),
                self.beats[i].interval.units(),
                self.stopped.units(),
            ) == (if active { 1nat } else { 0nat }) + firings_left(
                self.armed_units_after(active, i),
                self.beats[i].end.units(),
                self.beats[i].interval.units(),
                self.stopped.units(),
            ),
            self.next_t[i].units() == self.beats[i].start.units() ==> firings_left(
                self.next_t[i].units(),
                self.beats[i].end.units(),
                self.beats[i].interval.units(),
                self.stopped.units(),
            ) == (self.beats[i].end.units() - self.beats[i].start.units()) / self.beats[i].interval.units() + 1,
    {
        lemma_firing_count(self.next_t[i].units(), self.beats[i].end.units(), self.beats[i].interval.units());
    }

    /// Where a beat fires only when the run stands on its armed time, its
    /// armed time never moves back, and a parked beat stays parked.
    pub proof fn lemma_armed_times_monotone(self, cur_t: Exact, active: bool, i: int)
        requires
            self.wf(),
            0 <= i < self.beats.len(),
            active == (cur_t.units() == self.next_t[i].units()),
            cur_t.units() <= self.end_t.units(),
            self.end_t.units() < self.stopped.units(),
            self.beats[i].interval.units() >= 0,
        ensures
            self.next_t[i].units() <= self.armed_units_after(active, i),
            self.next_t[i].units() == self.stopped.units() ==> self.armed_units_after(active, i) == self.stopped.units(),
    {
    }
}

} // verus!
