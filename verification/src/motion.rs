//! Step schedules of a stepper-motor controller: how far an acceleration
//! runs, how a movement of a number of steps is split into phases, and the
//! decisions that a movement over a distance starts with.
use vstd::prelude::*;

use crate::controller::StepperView;

verus! {

/// Abstract progress of an acceleration.
pub struct AccelerationView {
    /// Most steps the acceleration may take.
    pub limit: nat,
    /// Steps taken so far; the length of the acceleration curve.
    pub taken: nat,
    /// The acceleration stopped because the motor reached its target speed.
    pub stopped: bool,
}

impl AccelerationView {
    /// No further step follows: the target speed was reached, or the limit
    /// of steps is used up.
    pub open spec fn finished(self) -> bool {
        self.stopped || self.taken >= self.limit
    }

    /// The progress after the next step's time is known; `below_min` tells
    /// whether that time is below the time per step at the target speed.
    pub open spec fn recorded(self, below_min: bool) -> AccelerationView {
        if below_min {
            AccelerationView { stopped: true, ..self }
        } else {
            AccelerationView { taken: self.taken + 1, ..self }
        }
    }
}

/// An acceleration in progress: the motor takes steps of shrinking duration,
/// the `i`-th of them numbered from 1, until it reaches its target speed or
/// has taken `limit` steps.
pub struct Acceleration {
    limit: u64,
    taken: u64,
    stopped: bool,
}

impl View for Acceleration {
    type V = AccelerationView;

    closed spec fn view(&self) -> AccelerationView {
        AccelerationView {
            limit: self.limit as nat,
            taken: self.taken as nat,
            stopped: self.stopped,
        }
    }
}

impl Acceleration {
    #[verifier::type_invariant]
    spec fn taken_within_limit(self) -> bool {
        self.taken <= self.limit
    }

    /// An acceleration that may take at most `limit` steps.
    pub fn new(limit: u64) -> (a: Self)
        ensures
            a@ == (AccelerationView { limit: limit as nat, taken: 0, stopped: false }),
    {
        Acceleration { limit, taken: 0, stopped: false }
    }

    /// The number of the next step, counted from 1, or `None` when the
    /// acceleration is finished.
    pub fn next_index(&self) -> (i: Option<u64>)
        ensures
            i == (if self@.finished() { None } else { Some((self@.taken + 1) as u64) }),
    {
        proof {
            use_type_invariant(self);
        }
        if self.stopped || self.taken >= self.limit {
            None
        } else {
            Some(self.taken + 1)
        }
    }

    /// Records the next step: `below_min` tells whether its time is below the
    /// time per step at the target speed, in which case the acceleration
    /// stops without it. Returns whether the step is to be taken.
    pub fn record(&mut self, below_min: bool) -> (take: bool)
        requires
            !old(self)@.finished(),
        ensures
            take == !below_min,
            final(self)@ == old(self)@.recorded(below_min),
    {
        proof {
            use_type_invariant(&*self);
        }
        if below_min {
            self.stopped = true;
            false
        } else {
            self.taken = self.taken + 1;
            true
        }
    }

    /// The number of steps taken so far.
    pub fn taken(&self) -> (n: u64)
        ensures
            n == self@.taken,
            n <= self@.limit,
    {
        proof {
            use_type_invariant(self);
        }
        self.taken
    }

    /// The most steps this acceleration may take.
    pub fn limit(&self) -> (n: u64)
        ensures
            n == self@.limit,
    {
        self.limit
    }
}

/// `curve` is an acceleration curve of at most `limit` steps whose step times
/// `step_time` gave: its `j`-th entry is the time that `step_time` gave for
/// step `j + 1`, none of them below the time per step at the target speed;
/// and when the curve is shorter than the limit, `step_time` reported the
/// next step as below that time.
pub open spec fn is_acceleration_curve<T, F: Fn(u64) -> (T, bool)>(
    step_time: F,
    limit: u64,
    curve: Seq<T>,
) -> bool {
    &&& curve.len() <= limit
    &&& forall|j: int|
        0 <= j < curve.len() ==> call_ensures(step_time, ((j + 1) as u64,), (#[trigger] curve[j], false))
    &&& curve.len() < limit ==> exists|t: T|
        #[trigger] call_ensures(step_time, ((curve.len() + 1) as u64,), (t, true))
}

/// The step times of an acceleration of at most `limit` steps: `step_time`
/// gives, for the step numbered `i` from 1, its time and whether that time is
/// below the time per step at the target speed, at which the acceleration
/// stops.
pub fn acceleration_curve<T, F: Fn(u64) -> (T, bool)>(limit: u64, step_time: F) -> (curve: Vec<T>)
    requires
        forall|i: u64| 1 <= i <= limit ==> call_requires(step_time, (i,)),
    ensures
        is_acceleration_curve(step_time, limit, curve@),
{
    let mut run = Acceleration::new(limit);
    let mut curve: Vec<T> = Vec::new();
    let ghost mut stop_time: Option<T> = None;
    loop
        invariant
            run@.limit == limit,
            run@.taken == curve@.len(),
            run@.taken <= limit,
            forall|i: u64| 1 <= i <= limit ==> call_requires(step_time, (i,)),
            forall|j: int|
                0 <= j < curve@.len() ==> call_ensures(step_time, ((j + 1) as u64,), (#[trigger] curve@[j], false)),
            run@.stopped ==> stop_time is Some && call_ensures(
                step_time,
                ((curve@.len() + 1) as u64,),
                (stop_time->0, true),
            ),
        ensures
            run@.finished(),
            run@.taken == curve@.len(),
            run@.taken <= limit,
            forall|j: int|
                0 <= j < curve@.len() ==> call_ensures(step_time, ((j + 1) as u64,), (#[trigger] curve@[j], false)),
            run@.stopped ==> stop_time is Some && call_ensures(
                step_time,
                ((curve@.len() + 1) as u64,),
                (stop_time->0, true),
            ),
        decreases (limit - run@.taken) + (if run@.stopped { 0int } else { 1int }),
    {
        match run.next_index() {
            None => break,
            Some(i) => {
                let (t, below_min) = step_time(i);
                if run.record(below_min) {
                    curve.push(t);
                } else {
                    proof {
                        stop_time = Some(t);
                    }
                }
            },
        }
    }
    proof {
        if curve@.len() < limit {
            let t = stop_time->0;
            assert(call_ensures(step_time, ((curve@.len() + 1) as u64,), (t, true)));
        }
    }
    curve
}

/// An acceleration never takes more steps than its limit: recording a step
/// of an unfinished acceleration keeps the count within the limit.
pub proof fn lemma_acceleration_within_limit(a: AccelerationView, below_min: bool)
    requires
        a.taken <= a.limit,
        !a.finished(),
    ensures
        a.recorded(below_min).taken <= a.recorded(below_min).limit,
        a.recorded(below_min).limit == a.limit,
        below_min ==> a.recorded(below_min).finished(),
{
}

/// A step whose time is below the time per step at the target speed ends the
/// acceleration without that step: it is finished with the steps it had.
pub proof fn lemma_acceleration_stops(a: AccelerationView, below_min: bool)
    requires
        !a.finished(),
        below_min,
    ensures
        a.recorded(below_min).finished(),
        a.recorded(below_min).taken == a.taken,
{
}

/// The phases of a movement over a number of steps: accelerate, cruise,
/// possibly one extra step, cruise again, and decelerate along the
/// acceleration curve.
#[derive(Clone, Copy, Debug, PartialEq, Eq, Structural)]
pub struct StepsPlan {
    /// Steps of the acceleration.
    pub accel: u64,
    /// Steps at constant speed, in each of the two cruise phases.
    pub cruise: u64,
    /// One step between the two cruise phases, for an odd number of steps.
    pub odd_step: bool,
    /// The extra step takes the time of the last step of the acceleration
    /// curve; otherwise, the time per step at constant speed.
    pub odd_step_from_curve: bool,
    /// Steps of the deceleration.
    pub decel: u64,
}

/// The number of steps that a plan moves.
pub open spec fn plan_total(p: StepsPlan) -> int {
    p.accel + p.cruise + (if p.odd_step { 1int } else { 0int }) + p.cruise + p.decel
}

/// The plan of a movement of `stepcount` steps whose acceleration took
/// `curve_len` steps.
pub open spec fn spec_steps_plan(stepcount: u64, curve_len: u64) -> StepsPlan {
    StepsPlan {
        accel: curve_len,
        cruise: (stepcount / 2 - curve_len) as u64,
        odd_step: stepcount % 2 == 1,
        odd_step_from_curve: curve_len > 0,
        decel: curve_len,
    }
}

/// The most steps that the acceleration of a movement of `stepcount` steps
/// may take: half of them, so that the deceleration fits.
pub fn accel_limit(stepcount: u64) -> (limit: u64)
    ensures
        limit == stepcount / 2,
{
    stepcount / 2
}

/// The plan of a movement of `stepcount` steps whose acceleration took
/// `curve_len` steps.
pub fn steps_plan(stepcount: u64, curve_len: u64) -> (p: StepsPlan)
    requires
        curve_len <= stepcount / 2,
    ensures
        p == spec_steps_plan(stepcount, curve_len),
        p.accel == curve_len,
        p.decel == curve_len,
        p.accel + 2 * p.cruise + (if p.odd_step { 1int } else { 0int }) + p.decel == stepcount,
        p.odd_step == (stepcount % 2 == 1),
        p.odd_step_from_curve == (curve_len > 0),
{
    proof {
        lemma_plan_phases(stepcount, curve_len);
    }
    StepsPlan {
        accel: curve_len,
        cruise: stepcount / 2 - curve_len,
        odd_step: stepcount % 2 == 1,
        odd_step_from_curve: curve_len > 0,
        decel: curve_len,
    }
}

/// The acceleration curve and the plan of a movement of `stepcount` steps:
/// the acceleration may take half of the steps, with step times from
/// `step_time` as for `acceleration_curve`, and the plan splits the
/// movement around the curve it took.
pub fn steps_schedule<T, F: Fn(u64) -> (T, bool)>(stepcount: u64, step_time: F) -> (schedule: (
    Vec<T>,
    StepsPlan,
))
    requires
        forall|i: u64| 1 <= i <= stepcount / 2 ==> call_requires(step_time, (i,)),
    ensures
        is_acceleration_curve(step_time, (stepcount / 2) as u64, schedule.0@),
        schedule.1 == spec_steps_plan(stepcount, schedule.0@.len() as u64),
        plan_total(schedule.1) == stepcount,
{
    let limit = accel_limit(stepcount);
    let curve = acceleration_curve(limit, step_time);
    let plan = steps_plan(stepcount, curve.len() as u64);
    proof {
        lemma_plan_moves_stepcount(stepcount, curve@.len() as u64);
    }
    (curve, plan)
}

/// The step times of a movement planned by `plan` around the acceleration
/// curve `curve`, in the order the motor takes them: the curve, the first
/// cruise at `cruise_time`, the extra step of an odd count (with the time of
/// the curve's last step, or `cruise_time` after an empty curve), the second
/// cruise, and the curve once more, in the same order.
pub open spec fn movement_times<T>(curve: Seq<T>, plan: StepsPlan, cruise_time: T) -> Seq<T> {
    let cruise = Seq::new(plan.cruise as nat, |k: int| cruise_time);
    let odd = if plan.odd_step {
        seq![if plan.odd_step_from_curve { curve.last() } else { cruise_time }]
    } else {
        Seq::<T>::empty()
    };
    curve + cruise + odd + cruise + curve
}

/// Appends `from` to `out`.
fn push_all<T: Copy>(out: &mut Vec<T>, from: &Vec<T>)
    ensures
        final(out)@ == old(out)@ + from@,
{
    let ghost start = out@;
    let mut k: usize = 0;
    while k < from.len()
        invariant
            k <= from@.len(),
            out@ == start + from@.subrange(0, k as int),
        decreases from@.len() - k,
    {
        out.push(from[k]);
        k = k + 1;
        assert(from@.subrange(0, k as int) =~= from@.subrange(0, (k - 1) as int).push(from@[k - 1]));
    }
    assert(from@.subrange(0, k as int) =~= from@);
}

/// Appends `n` copies of `x` to `out`.
fn push_repeated<T: Copy>(out: &mut Vec<T>, x: T, n: u64)
    ensures
        final(out)@ == old(out)@ + Seq::new(n as nat, |k: int| x),
{
    let ghost start = out@;
    let mut k: u64 = 0;
    while k < n
        invariant
            k <= n,
            out@ == start + Seq::new(k as nat, |j: int| x),
        decreases n - k,
    {
        out.push(x);
        k = k + 1;
        assert(Seq::new(k as nat, |j: int| x) =~= Seq::new((k - 1) as nat, |j: int| x).push(x));
    }
}

/// The acceleration curve and the step times of a whole movement of
/// `stepcount` steps, in the order the motor takes them: the acceleration
/// takes its step times from `step_time` as for `acceleration_curve`, with at
/// most half of the steps, and the cruise runs at `cruise_time`.
pub fn movement<T: Copy, F: Fn(u64) -> (T, bool)>(stepcount: u64, step_time: F, cruise_time: T) -> (res: (
    Vec<T>,
    Vec<T>,
))
    requires
        forall|i: u64| 1 <= i <= stepcount / 2 ==> call_requires(step_time, (i,)),
    ensures
        is_acceleration_curve(step_time, (stepcount / 2) as u64, res.0@),
        res.1@ == movement_times(
            res.0@,
            spec_steps_plan(stepcount, res.0@.len() as u64),
            cruise_time,
        ),
        res.1@.len() == stepcount,
        res.0@.len() <= stepcount / 2,
        res.1@.subrange(0, res.0@.len() as int) == res.0@,
        res.1@.subrange(stepcount - res.0@.len(), stepcount as int) == res.0@,
        forall|k: int|
            res.0@.len() <= k < stepcount - res.0@.len() && !(stepcount % 2 == 1 && k == stepcount / 2)
                ==> res.1@[k] == cruise_time,
        stepcount % 2 == 1 ==> res.1@[(stepcount / 2) as int] == (if res.0@.len() > 0 {
            res.0@.last()
        } else {
            cruise_time
        }),
{
    let (curve, plan) = steps_schedule(stepcount, step_time);
    let mut times: Vec<T> = Vec::new();
    push_all(&mut times, &curve);
    push_repeated(&mut times, cruise_time, plan.cruise);
    if plan.odd_step {
        if plan.odd_step_from_curve {
            times.push(curve[curve.len() - 1]);
        } else {
            times.push(cruise_time);
        }
    }
    push_repeated(&mut times, cruise_time, plan.cruise);
    push_all(&mut times, &curve);
    proof {
        lemma_plan_moves_stepcount(stepcount, curve@.len() as u64);
        assert(times@ =~= movement_times(curve@, plan, cruise_time));
        lemma_movement_shape(stepcount, curve@, cruise_time);
    }
    (curve, times)
}

/// An acceleration towards a slower target, or with a smaller limit, takes
/// a prefix of the steps of one towards a faster target: where two runs of
/// the same motor give the same time to each step, and a step below the
/// faster target's time per step is below the slower one's too, the curve
/// of the run with the smaller limit and the slower target is a prefix of
/// the other curve.
pub proof fn lemma_slower_acceleration_is_prefix<T, F1: Fn(u64) -> (T, bool), F2: Fn(u64) -> (T, bool)>(
    slow: F1,
    fast: F2,
    slow_limit: u64,
    fast_limit: u64,
    slow_curve: Seq<T>,
    fast_curve: Seq<T>,
)
    requires
        is_acceleration_curve(slow, slow_limit, slow_curve),
        is_acceleration_curve(fast, fast_limit, fast_curve),
        slow_limit <= fast_limit,
        forall|i: u64, r1: (T, bool), r2: (T, bool)|
            #![trigger call_ensures(slow, (i,), r1), call_ensures(fast, (i,), r2)]
            1 <= i <= slow_limit && call_ensures(slow, (i,), r1) && call_ensures(fast, (i,), r2)
                ==> r1.0 == r2.0 && (r2.1 ==> r1.1),
    ensures
        slow_curve.len() <= fast_curve.len(),
        slow_curve == fast_curve.subrange(0, slow_curve.len() as int),
{
    if fast_curve.len() < slow_curve.len() {
        let n = fast_curve.len();
        let t = choose|t: T| #[trigger] call_ensures(fast, ((n + 1) as u64,), (t, true));
        assert(call_ensures(fast, ((n + 1) as u64,), (t, true)));
        assert(call_ensures(slow, (((n as int) + 1) as u64,), (slow_curve[n as int], false)));
    }
    assert forall|j: int| 0 <= j < slow_curve.len() implies slow_curve[j] == fast_curve[j] by {
        assert(call_ensures(slow, ((j + 1) as u64,), (slow_curve[j], false)));
        assert(call_ensures(fast, ((j + 1) as u64,), (fast_curve[j], false)));
    }
    assert(slow_curve =~= fast_curve.subrange(0, slow_curve.len() as int));
}

/// The phases of a movement of `stepcount` steps whose acceleration took
/// `curve_len` steps: it decelerates over as many steps as it accelerated,
/// cruises equally long before and after the middle, takes one extra step
/// exactly for an odd count, and that extra step keeps the last step time of
/// the acceleration whenever the acceleration took a step.
pub proof fn lemma_plan_phases(stepcount: u64, curve_len: u64)
    requires
        curve_len <= stepcount / 2,
    ensures
        spec_steps_plan(stepcount, curve_len).accel == curve_len,
        spec_steps_plan(stepcount, curve_len).decel == curve_len,
        curve_len + 2 * spec_steps_plan(stepcount, curve_len).cruise + (if stepcount % 2 == 1 {
            1int
        } else {
            0int
        }) + curve_len == stepcount,
        spec_steps_plan(stepcount, curve_len).odd_step == (stepcount % 2 == 1),
        spec_steps_plan(stepcount, curve_len).odd_step_from_curve == (curve_len > 0),
{
}

/// The step times of a movement of `stepcount` steps around an acceleration
/// curve `curve`: there are `stepcount` of them; the first and the last
/// `curve.len()` are the curve, in its own order; every other one is the
/// cruise time, except, for an odd count, the middle one at `stepcount / 2`,
/// which is the curve's last time, or the cruise time after an empty curve.
pub proof fn lemma_movement_shape<T>(stepcount: u64, curve: Seq<T>, cruise_time: T)
    requires
        curve.len() <= stepcount / 2,
    ensures
        ({
            let times = movement_times(
                curve,
                spec_steps_plan(stepcount, curve.len() as u64),
                cruise_time,
            );
            &&& times.len() == stepcount
            &&& times.subrange(0, curve.len() as int) == curve
            &&& times.subrange(stepcount - curve.len(), stepcount as int) == curve
            &&& forall|k: int|
                curve.len() <= k < stepcount - curve.len() && !(stepcount % 2 == 1 && k == stepcount
                    / 2) ==> times[k] == cruise_time
            &&& stepcount % 2 == 1 ==> times[(stepcount / 2) as int] == (if curve.len() > 0 {
                curve.last()
            } else {
                cruise_time
            })
        }),
{
    let n = curve.len() as int;
    let p = spec_steps_plan(stepcount, curve.len() as u64);
    let c = p.cruise as int;
    let h = (stepcount / 2) as int;
    let o: int = if p.odd_step { 1 } else { 0 };
    let cruise = Seq::new(p.cruise as nat, |k: int| cruise_time);
    let odd = if p.odd_step {
        seq![if p.odd_step_from_curve { curve.last() } else { cruise_time }]
    } else {
        Seq::<T>::empty()
    };
    let times = movement_times(curve, p, cruise_time);
    assert(times == curve + cruise + odd + cruise + curve);
    assert(c == h - n);
    assert(stepcount == 2 * h + o);
    assert(times.len() == 2 * n + 2 * c + o);
    assert(times.subrange(0, n) =~= curve);
    assert(times.subrange(stepcount - n, stepcount as int) =~= curve);
    assert forall|k: int|
        n <= k < stepcount - n && !(stepcount % 2 == 1 && k == stepcount / 2) implies times[k]
        == cruise_time by {
        if k < n + c {
            assert(times[k] == cruise[k - n]);
        } else {
            assert(k >= n + c + o);
            assert(times[k] == cruise[k - n - c - o]);
        }
    }
    if stepcount % 2 == 1 {
        assert(times[h] == odd[0]);
    }
}

/// A movement of `stepcount` steps moves exactly `stepcount` steps, whatever
/// the length of its acceleration, and decelerates over as many steps as it
/// accelerated.
pub proof fn lemma_plan_moves_stepcount(stepcount: u64, curve_len: u64)
    requires
        curve_len <= stepcount / 2,
    ensures
        plan_total(spec_steps_plan(stepcount, curve_len)) == stepcount,
        spec_steps_plan(stepcount, curve_len).accel == spec_steps_plan(stepcount, curve_len).decel,
{
}

/// A movement of `stepcount` steps moves the position of a controller by
/// `stepcount` steps in its direction when its step pin drives, and leaves it
/// in place otherwise, whatever the length of the acceleration.
pub proof fn lemma_steps_move_position(v: StepperView, stepcount: u64, curve_len: u64)
    requires
        curve_len <= stepcount / 2,
    ensures
        v.advanced(plan_total(spec_steps_plan(stepcount, curve_len)) as nat).pos == v.pos
            + stepcount * v.step_delta(),
        v.advanced(plan_total(spec_steps_plan(stepcount, curve_len)) as nat).dir == v.dir,
{
    lemma_plan_moves_stepcount(stepcount, curve_len);
    crate::controller::lemma_advanced(v, stepcount as nat);
}

/// The sign of a distance to drive.
#[derive(Clone, Copy, Debug, PartialEq, Eq, Structural)]
pub enum Sign {
    /// The distance is zero.
    Zero,
    /// The distance is positive.
    Positive,
    /// The distance is negative.
    Negative,
    /// The distance compares with nothing (not a number).
    Unordered,
}

/// How a movement over a distance starts.
#[derive(Clone, Copy, Debug, PartialEq, Eq, Structural)]
pub enum DriveStart {
    /// Nothing to move: the distance travelled is zero.
    Finished,
    /// Set the direction to the given value, then move.
    Turn(bool),
    /// Move in the current direction.
    Keep,
}

/// How a movement over a distance of sign `sign` starts: a positive distance
/// turns the motor right, a negative one turns it left.
pub fn drive_start(sign: Sign) -> (start: DriveStart)
    ensures
        start == (match sign {
            Sign::Zero => DriveStart::Finished,
            Sign::Positive => DriveStart::Turn(true),
            Sign::Negative => DriveStart::Turn(false),
            Sign::Unordered => DriveStart::Keep,
        }),
{
    match sign {
        Sign::Zero => DriveStart::Finished,
        Sign::Positive => DriveStart::Turn(true),
        Sign::Negative => DriveStart::Turn(false),
        Sign::Unordered => DriveStart::Keep,
    }
}

/// The curve `curve` driven backwards, as a measurement drives its
/// acceleration curve.
pub fn reversed<T: Copy>(curve: &Vec<T>) -> (r: Vec<T>)
    ensures
        r@ == curve@.reverse(),
{
    let n = curve.len();
    let mut r: Vec<T> = Vec::new();
    let mut k: usize = 0;
    while k < n
        invariant
            n == curve@.len(),
            k <= n,
            r@.len() == k,
            forall|j: int| 0 <= j < k ==> r@[j] == curve@[n - 1 - j],
        decreases n - k,
    {
        r.push(curve[n - 1 - k]);
        k = k + 1;
    }
    assert(r@ =~= curve@.reverse());
    r
}

/// Whether every entry of `flags` holds: a group of components accepts a
/// set of distances when each of its components accepts its own.
pub fn all_valid(flags: &[bool]) -> (valid: bool)
    ensures
        valid == (forall|i: int| 0 <= i < flags@.len() ==> flags@[i]),
{
    let mut valid = true;
    let mut k: usize = 0;
    while k < flags.len()
        invariant
            k <= flags@.len(),
            valid == (forall|i: int| 0 <= i < k ==> flags@[i]),
        decreases flags@.len() - k,
    {
        valid = valid && flags[k];
        k = k + 1;
    }
    valid
}

} // verus!
