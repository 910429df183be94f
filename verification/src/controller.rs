//! Position and direction bookkeeping of a stepper-motor controller.
//!
//! The controller drives a motor through two GPIO pins: one that sets the
//! direction and one that receives a pulse per step. Whether a pin could be
//! claimed is decided when the controller is made; the state below records
//! it, and every change of direction or position is made only through a pin
//! that drives.
use vstd::prelude::*;

verus! {

/// Pin number that marks a pin which is not connected.
pub const PIN_ERR: u8 = 0xFF;

/// What a controller holds on one of its GPIO pins.
#[derive(Clone, Copy, Debug, PartialEq, Eq, Structural)]
pub enum PinMode {
    /// The pin could not be claimed.
    Missing,
    /// The pin is claimed as an output.
    Output,
    /// The pin is claimed as an input.
    Input,
}

/// The value that `u64` `n` takes as an `i64`: itself where it fits, and
/// otherwise the value that lies 2^64 below it.
pub open spec fn as_signed(n: u64) -> int {
    if n <= i64::MAX { n as int } else { n - 0x1_0000_0000_0000_0000int }
}

/// Remainder of the division of `a` by `b` as integer division on the
/// machine computes it: the quotient is rounded toward zero, so that the
/// remainder takes the sign of `a` and is smaller than `b` in magnitude.
pub open spec fn rem_toward_zero(a: int, b: int) -> int {
    if a >= 0 { a % b } else { -((-a) % b) }
}

/// Abstract state of a controller.
pub struct StepperView {
    /// Number of the direction pin.
    pub pin_dir: u8,
    /// Number of the step pin.
    pub pin_step: u8,
    /// Number of the measuring pin.
    pub pin_mes: u8,
    /// Current direction: `true` for right, `false` for left.
    pub dir: bool,
    /// Absolute position in steps since the controller was made.
    pub pos: int,
    /// The direction pin.
    pub dir_pin: PinMode,
    /// The step pin.
    pub step_pin: PinMode,
}

impl StepperView {
    /// One step in the current direction; nothing moves without a step pin
    /// that drives.
    pub open spec fn stepped(self) -> StepperView {
        if self.step_pin is Output {
            StepperView { pos: self.pos + if self.dir { 1int } else { -1int }, ..self }
        } else {
            self
        }
    }

    /// The state after a change of direction to `dir`; the direction can only
    /// change through a direction pin that drives.
    pub open spec fn with_dir(self, dir: bool) -> StepperView {
        if self.dir_pin is Output {
            StepperView { dir, ..self }
        } else {
            self
        }
    }

    /// The state after `n` steps in the current direction.
    pub open spec fn advanced(self, n: nat) -> StepperView
        decreases n,
    {
        if n == 0 {
            self
        } else {
            self.advanced((n - 1) as nat).stepped()
        }
    }

    /// Position change of one step.
    pub open spec fn step_delta(self) -> int {
        if self.step_pin is Output {
            if self.dir { 1int } else { -1int }
        } else {
            0int
        }
    }

    /// The next step keeps the position within the range of an `i64`.
    pub open spec fn can_step(self) -> bool {
        i64::MIN <= self.pos + self.step_delta() <= i64::MAX
    }
}

/// State of a stepper-motor controller that drives its motor through a
/// direction pin and a step pin.
pub struct StepperState {
    /// Pin for controlling the direction.
    pub pin_dir: u8,
    /// Pin for the step pulses.
    pub pin_step: u8,
    /// Pin for measuring distances.
    pub pin_mes: u8,
    dir: bool,
    pos: i64,
    sys_dir: PinMode,
    sys_step: PinMode,
}

impl View for StepperState {
    type V = StepperView;

    closed spec fn view(&self) -> StepperView {
        StepperView {
            pin_dir: self.pin_dir,
            pin_step: self.pin_step,
            pin_mes: self.pin_mes,
            dir: self.dir,
            pos: self.pos as int,
            dir_pin: self.sys_dir,
            step_pin: self.sys_step,
        }
    }
}

impl StepperState {
    /// A controller on the pins `pin_dir` and `pin_step`, holding them as
    /// `sys_dir` and `sys_step`; it starts at position 0 turning right, with
    /// no measuring pin.
    pub fn new(pin_dir: u8, pin_step: u8, sys_dir: PinMode, sys_step: PinMode) -> (s: Self)
        ensures
            s@ == (StepperView {
                pin_dir,
                pin_step,
                pin_mes: PIN_ERR,
                dir: true,
                pos: 0,
                dir_pin: sys_dir,
                step_pin: sys_step,
            }),
    {
        StepperState {
            pin_dir,
            pin_step,
            pin_mes: PIN_ERR,
            dir: true,
            pos: 0,
            sys_dir,
            sys_step,
        }
    }

    /// The current direction (`true` for right, `false` for left).
    pub fn get_dir(&self) -> (dir: bool)
        ensures
            dir == self@.dir,
    {
        self.dir
    }

    /// The absolute position in steps.
    pub fn get_pos(&self) -> (pos: i64)
        ensures
            pos == self@.pos,
    {
        self.pos
    }

    /// Number of the direction pin.
    pub fn get_pin_dir(&self) -> (pin: u8)
        ensures
            pin == self@.pin_dir,
    {
        self.pin_dir
    }

    /// Number of the step pin.
    pub fn get_pin_step(&self) -> (pin: u8)
        ensures
            pin == self@.pin_step,
    {
        self.pin_step
    }

    /// Number of the measuring pin.
    pub fn get_pin_mes(&self) -> (pin: u8)
        ensures
            pin == self@.pin_mes,
    {
        self.pin_mes
    }

    /// How the direction pin is held.
    pub fn dir_pin(&self) -> (mode: PinMode)
        ensures
            mode == self@.dir_pin,
    {
        self.sys_dir
    }

    /// How the step pin is held.
    pub fn step_pin(&self) -> (mode: PinMode)
        ensures
            mode == self@.step_pin,
    {
        self.sys_step
    }

    /// Whether the next step keeps the position within the range of an
    /// `i64`.
    pub fn can_step(&self) -> (ok: bool)
        ensures
            ok == self@.can_step(),
            ok == (self@.step_pin is Output ==> if self@.dir {
                self@.pos < i64::MAX
            } else {
                self@.pos > i64::MIN
            }),
    {
        match self.sys_step {
            PinMode::Output => if self.dir {
                self.pos < i64::MAX
            } else {
                self.pos > i64::MIN
            },
            _ => true,
        }
    }

    /// Sets the direction; returns whether it changed through a driving
    /// direction pin, which must then be set high for right and low for
    /// left.
    pub fn set_dir(&mut self, dir: bool) -> (applied: bool)
        ensures
            applied == (old(self)@.dir_pin is Output),
            final(self)@ == old(self)@.with_dir(dir),
    {
        match self.sys_dir {
            PinMode::Output => {
                self.dir = dir;
                true
            },
            _ => false,
        }
    }

    /// Counts one step in the current direction; returns whether the step
    /// pin drives, in which case it must receive one pulse.
    pub fn step(&mut self) -> (pulse: bool)
        requires
            old(self)@.can_step(),
        ensures
            pulse == (old(self)@.step_pin is Output),
            final(self)@ == old(self)@.stepped(),
            final(self)@.pos == old(self)@.pos + (if old(self)@.step_pin is Output {
                if old(self)@.dir { 1int } else { -1int }
            } else {
                0int
            }),
    {
        match self.sys_step {
            PinMode::Output => {
                if self.dir {
                    self.pos = self.pos + 1;
                } else {
                    self.pos = self.pos - 1;
                }
                true
            },
            _ => false,
        }
    }

    /// Stops the motor; the number of steps it took to stop.
    pub fn stop(&mut self) -> (steps: u64)
        ensures
            steps == 0,
            *final(self) == *old(self),
    {
        0
    }

    /// The position within the current rotation, in steps, of a motor with
    /// `n_s` steps per rotation: the absolute position modulo `n_s` taken as
    /// an `i64`, with the sign of the absolute position.
    pub fn rel_steps(&self, n_s: u64) -> (rel: i64)
        requires
            n_s != 0,
            !(n_s == u64::MAX && self@.pos == i64::MIN),
        ensures
            rel == rem_toward_zero(self@.pos, as_signed(n_s)),
    {
        assert(n_s <= i64::MAX ==> (n_s as i64) == n_s) by (bit_vector);
        assert(n_s > i64::MAX ==> (n_s as i64) == n_s - 0x1_0000_0000_0000_0000int) by (bit_vector);
        let n = n_s as i64;
        self.pos % n
    }
}

/// The position within a rotation lies strictly inside one rotation on the
/// side of the absolute position, and differs from the absolute position by
/// whole rotations.
pub proof fn lemma_rel_within_rotation(a: int, b: int)
    requires
        b != 0,
    ensures
        -(if b < 0 { -b } else { b }) < rem_toward_zero(a, b) < (if b < 0 { -b } else { b }),
        a >= 0 ==> rem_toward_zero(a, b) >= 0,
        a <= 0 ==> rem_toward_zero(a, b) <= 0,
        (a - rem_toward_zero(a, b)) % b == 0,
{
    let m = if b < 0 { -b } else { b };
    assert(0int % b == 0) by (nonlinear_arith) requires b != 0;
    assert(0 <= a % b < m && 0 <= (-a) % b < m) by (nonlinear_arith)
        requires b != 0, m == (if b < 0 { -b } else { b });
    assert(a == b * (a / b) + a % b) by (nonlinear_arith) requires b != 0;
    assert(-a == b * ((-a) / b) + (-a) % b) by (nonlinear_arith) requires b != 0;
    let k = if a >= 0 { a / b } else { -((-a) / b) };
    assert(a - rem_toward_zero(a, b) == b * k) by (nonlinear_arith)
        requires
            a == b * (a / b) + a % b,
            -a == b * ((-a) / b) + (-a) % b,
            k == (if a >= 0 { a / b } else { -((-a) / b) }),
            rem_toward_zero(a, b) == (if a >= 0 { a % b } else { -((-a) % b) });
    assert((b * k) % b == 0) by (nonlinear_arith) requires b != 0;
}

/// A controller can take its next step exactly when the position after it
/// fits in an `i64`: a step right needs the position below `i64::MAX`, a step
/// left needs it above `i64::MIN`, and without a driving step pin it can
/// always step, as nothing moves. (The position of every controller lies in
/// the range of an `i64`: `lemma_pos_in_range`.)
pub proof fn lemma_can_step_bounds(v: StepperView)
    requires
        i64::MIN <= v.pos <= i64::MAX,
    ensures
        v.can_step() == (v.step_pin is Output ==> if v.dir {
            v.pos + 1 <= i64::MAX
        } else {
            v.pos - 1 >= i64::MIN
        }),
        v.step_pin is Output ==> v.stepped().pos == v.pos + (if v.dir { 1int } else { -1int }),
        !(v.step_pin is Output) ==> v.stepped() == v,
        i64::MIN < v.pos < i64::MAX ==> v.can_step(),
{
}

/// The position of a controller always fits in an `i64`.
pub proof fn lemma_pos_in_range(s: &StepperState)
    ensures
        i64::MIN <= s@.pos <= i64::MAX,
{
}

/// A sequence of steps moves the position by the change of one step for
/// each of them, and changes nothing else.
pub proof fn lemma_advanced(v: StepperView, n: nat)
    ensures
        v.advanced(n).pos == v.pos + n * v.step_delta(),
        v.advanced(n) == (StepperView { pos: v.pos + n * v.step_delta(), ..v }),
    decreases n,
{
    if n > 0 {
        let w = v.advanced((n - 1) as nat);
        lemma_advanced(v, (n - 1) as nat);
        assert(w.step_delta() == v.step_delta());
        assert(w.stepped() == (StepperView { pos: w.pos + w.step_delta(), ..w }));
        assert((n - 1) * v.step_delta() + v.step_delta() == n * v.step_delta()) by (nonlinear_arith);
        assert(v.advanced(n) == w.stepped());
    } else {
        assert(n * v.step_delta() == 0) by (nonlinear_arith) requires n == 0;
    }
}

/// A step taken after turning back undoes the step before it.
pub proof fn lemma_turn_back_undoes_step(v: StepperView)
    requires
        v.dir_pin is Output,
    ensures
        v.stepped().with_dir(!v.dir).stepped().pos == v.pos,
        v.stepped().with_dir(!v.dir).stepped().dir == !v.dir,
{
}

/// Of two changes of direction, the later one decides.
pub proof fn lemma_last_dir_wins(v: StepperView, first: bool, second: bool)
    ensures
        v.with_dir(first).with_dir(second) == v.with_dir(second),
{
}

} // verus!
