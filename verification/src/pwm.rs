//! The two control strategies: a threshold control with a dead band, and a
//! time-proportioning control that turns the temperature error into the
//! lengths of the on and off pulses of a relay.
//!
//! Times are milliseconds since the epoch. A strategy is first asked for a
//! decision, the mode to switch to and the delay after which to switch, and
//! is then told which decision was put into effect.

use crate::units::floor_div;
use crate::units::scaled;
use crate::units::UNITS_PER_DEGREE;
use vstd::prelude::*;

verus! {

/// Half the width of the dead band of the threshold control: 0.1 degree.
pub const DEAD_BAND: i64 = 100_000_000;

/// Lower bound of the bias: -0.7 degree.
pub const BIAS_MIN: i64 = -700_000_000;

/// Upper bound of the bias: 0.3 degree.
pub const BIAS_MAX: i64 = 300_000_000;

/// At this error or below a relay that is on stays on: -0.9 degree.
pub const STAY_ON_AT: i64 = -900_000_000;

/// At this error or above a relay that is off stays off: -0.1 degree.
pub const STAY_OFF_AT: i64 = -100_000_000;

/// Number of evaluations over which the bias is averaged.
pub const AVG_INTERVAL: i64 = 40;

/// Pulse length per degree of error: ten minutes, in milliseconds.
pub const PULSE_MS_PER_DEGREE: i64 = 600_000;

/// A decision with a delay of this many milliseconds or more is not
/// scheduled.
pub const SCHEDULE_LIMIT_MS: u32 = 60_000;

/// A control strategy.
pub trait Control: Sized {
    /// The state in which an evaluation leaves the strategy.
    spec fn evaluated(
        &self,
        current_temp: i64,
        target_temp: i64,
        future_target_temp: i64,
        current_time: i64,
    ) -> Self;

    /// The decision of an evaluation: the mode to switch to, and the delay
    /// in milliseconds after which to switch.
    spec fn decided(
        &self,
        current_temp: i64,
        target_temp: i64,
        future_target_temp: i64,
        current_time: i64,
    ) -> (bool, u32);

    /// The state in which a decision that was put into effect leaves the
    /// strategy.
    spec fn committed(&self, mode_on: bool, delay_ms: u32, current_time: i64) -> Self;

    /// Evaluates the strategy for a reading, the target now and the target
    /// to come.
    fn get_mode(
        &mut self,
        current_temp: i64,
        target_temp: i64,
        future_target_temp: i64,
        current_time: i64,
    ) -> (r: (bool, u32))
        ensures
            *final(self) == old(self).evaluated(
                current_temp,
                target_temp,
                future_target_temp,
                current_time,
            ),
            r == old(self).decided(current_temp, target_temp, future_target_temp, current_time),
    ;

    /// Records the decision that was put into effect.
    fn set_output(&mut self, mode_on: bool, delay_ms: u32, current_time: i64)
        requires
            current_time + delay_ms <= i64::MAX,
        ensures
            *final(self) == old(self).committed(mode_on, delay_ms, current_time),
    ;
}

/// Threshold control: off above the dead band around the target, on below
/// it, unchanged within.
#[derive(Debug, Clone, Copy, PartialEq, Eq, Structural)]
pub struct SimpleControl {
    /// The mode that was last put into effect.
    pub is_on: bool,
    /// When on was last put into effect.
    pub last_on_time: Option<i64>,
    /// When off was last put into effect.
    pub last_off_time: Option<i64>,
}

impl SimpleControl {
    /// A control whose relay is off.
    pub fn new() -> (r: SimpleControl)
        ensures
            r == (SimpleControl { is_on: false, last_on_time: None, last_off_time: None }),
    {
        SimpleControl { is_on: false, last_on_time: None, last_off_time: None }
    }
}

impl Control for SimpleControl {
    open spec fn evaluated(
        &self,
        current_temp: i64,
        target_temp: i64,
        future_target_temp: i64,
        current_time: i64,
    ) -> SimpleControl {
        *self
    }

    open spec fn decided(
        &self,
        current_temp: i64,
        target_temp: i64,
        future_target_temp: i64,
        current_time: i64,
    ) -> (bool, u32) {
        if current_temp - target_temp > DEAD_BAND {
            (false, 0u32)
        } else if current_temp - target_temp < -DEAD_BAND {
            (true, 0u32)
        } else {
            (self.is_on, 0u32)
        }
    }

    open spec fn committed(&self, mode_on: bool, delay_ms: u32, current_time: i64) -> SimpleControl {
        SimpleControl {
            is_on: mode_on,
            last_on_time: if mode_on {
                Some(current_time)
            } else {
                self.last_on_time
            },
            last_off_time: if mode_on {
                self.last_off_time
            } else {
                Some(current_time)
            },
        }
    }

    fn get_mode(
        &mut self,
        current_temp: i64,
        target_temp: i64,
        future_target_temp: i64,
        current_time: i64,
    ) -> (r: (bool, u32)) {
        let dt: i128 = current_temp as i128 - target_temp as i128;
        if dt > DEAD_BAND as i128 {
            (false, 0)
        } else if dt < -(DEAD_BAND as i128) {
            (true, 0)
        } else {
            (self.is_on, 0)
        }
    }

    fn set_output(&mut self, mode_on: bool, delay_ms: u32, current_time: i64) {
        self.is_on = mode_on;
        if mode_on {
            self.last_on_time = Some(current_time);
        } else {
            self.last_off_time = Some(current_time);
        }
    }
}

/// The dead band: once a decision of the threshold control was put into
/// effect, readings within the dead band around the target give that same
/// mode again, with no delay.
pub proof fn lemma_dead_band_holds(
    control: SimpleControl,
    mode_on: bool,
    delay_ms: u32,
    commit_time: i64,
    current_temp: i64,
    target_temp: i64,
    future_target_temp: i64,
    current_time: i64,
)
    requires
        -DEAD_BAND <= current_temp - target_temp <= DEAD_BAND,
    ensures
        control.committed(mode_on, delay_ms, commit_time).decided(
            current_temp,
            target_temp,
            future_target_temp,
            current_time,
        ) == (mode_on, 0u32),
        control.decided(current_temp, target_temp, future_target_temp, current_time) == (
            control.is_on,
            0u32,
        ),
{
}

/// Time-proportioning control.
#[derive(Debug, Clone, Copy, PartialEq, Eq, Structural)]
pub struct PWMControl {
    /// The mode the relay is in.
    pub is_on: bool,
    /// When the relay came into that mode.
    pub is_on_time: i64,
    /// The smoothed temperature, once there was a reading.
    pub smooth_t: Option<i64>,
    /// The bias that is added to the temperature error.
    pub initial_offset: i64,
    /// The mode that is scheduled.
    pub new_mode: bool,
    /// When the scheduled mode takes effect.
    pub new_mode_time: i64,
    /// When on was last decided.
    pub last_on_time: Option<i64>,
    /// When off was last decided.
    pub last_off_time: Option<i64>,
}

/// The value within `lo` and `hi` that is nearest to `x`.
pub open spec fn clamped(x: int, lo: int, hi: int) -> int {
    if x < lo {
        lo
    } else if x > hi {
        hi
    } else {
        x
    }
}

/// The smoothed temperature after a reading: the reading itself at first,
/// then the mean of the reading and the smoothed temperature so far.
pub open spec fn smoothed(before: Option<i64>, reading: i64) -> int {
    match before {
        None => reading as int,
        Some(s) => (s + reading) / 2,
    }
}

/// The bias after an evaluation that adapts it. The distance to the target
/// counts where the relay is on above the target or off below it; the bias
/// moves a fortieth of the way towards the bias with that distance added,
/// and stays within its bounds.
pub open spec fn adapted(bias: int, above_target: int, is_on: bool) -> int {
    let offset = if (is_on && above_target > 0) || (!is_on && above_target < 0) {
        bias + above_target
    } else {
        bias
    };
    clamped(((AVG_INTERVAL - 1) * bias + offset) / (AVG_INTERVAL as int), BIAS_MIN as int, BIAS_MAX as int)
}

/// The length in milliseconds of the pulse that the relay spends in its
/// mode at the error `dt`: while on, ten minutes for each degree that the
/// error lies below zero; while off, ten minutes for each degree that it
/// lies above minus one degree.
pub open spec fn pulse_ms(dt: int, is_on: bool) -> int {
    if is_on {
        (-dt * PULSE_MS_PER_DEGREE) / (UNITS_PER_DEGREE as int)
    } else {
        ((UNITS_PER_DEGREE + dt) * PULSE_MS_PER_DEGREE) / (UNITS_PER_DEGREE as int)
    }
}

/// The decision at the error `dt` for a relay that has been in its mode
/// for `elapsed_ms`.
pub open spec fn pulse_decision(is_on: bool, dt: int, elapsed_ms: int) -> (bool, u32) {
    if dt <= STAY_ON_AT && is_on {
        (true, 0u32)
    } else if dt >= STAY_OFF_AT && !is_on {
        (false, 0u32)
    } else {
        (!is_on, clamped(pulse_ms(dt, is_on) - elapsed_ms, 0, u32::MAX as int) as u32)
    }
}

impl PWMControl {
    /// A control with the given bias, whose relay is off and is scheduled
    /// to go on at the first evaluation.
    pub fn new(initial_offset: i64) -> (r: PWMControl)
        ensures
            r == (PWMControl {
                is_on: false,
                is_on_time: 0,
                smooth_t: None,
                initial_offset,
                new_mode: true,
                new_mode_time: 0,
                last_on_time: None,
                last_off_time: None,
            }),
    {
        PWMControl {
            is_on: false,
            is_on_time: 0,
            smooth_t: None,
            initial_offset,
            new_mode: true,
            new_mode_time: 0,
            last_on_time: None,
            last_off_time: None,
        }
    }

    /// The bias.
    pub fn get_avg_offset(&self) -> (r: i64)
        ensures
            r == self.initial_offset,
    {
        self.initial_offset
    }

    /// Whether the bias lies within its bounds.
    pub open spec fn bias_in_bounds(&self) -> bool {
        BIAS_MIN <= self.initial_offset <= BIAS_MAX
    }

    /// The mode the relay is in at `current_time`: the scheduled mode once
    /// its time has come.
    pub open spec fn mode_at(&self, current_time: i64) -> bool {
        if current_time >= self.new_mode_time {
            self.new_mode
        } else {
            self.is_on
        }
    }

    /// Since when the relay is in the mode it is in at `current_time`. The
    /// time of the scheduled mode counts only where it changed the mode.
    pub open spec fn mode_since(&self, current_time: i64) -> i64 {
        if current_time >= self.new_mode_time && self.is_on != self.new_mode {
            self.new_mode_time
        } else {
            self.is_on_time
        }
    }

    /// Adapts the bias to the distance `above_target` of the smoothed
    /// temperature from the target.
    fn update_avg_offset(&mut self, above_target: i128, is_on: bool)
        requires
            -0x1_0000_0000_0000_0000 <= above_target <= 0x1_0000_0000_0000_0000,
        ensures
            final(self).initial_offset == adapted(
                old(self).initial_offset as int,
                above_target as int,
                is_on,
            ),
            *final(self) == (PWMControl { initial_offset: final(self).initial_offset, ..*old(self) }),
            final(self).bias_in_bounds(),
    {
        let mut offset: i128 = self.get_avg_offset() as i128;
        if (is_on && above_target > 0) || (!is_on && above_target < 0) {
            offset = offset + above_target;
        }
        let blended = floor_div(
            scaled(self.initial_offset as i128, AVG_INTERVAL - 1) + offset,
            AVG_INTERVAL as i128,
        );
        self.initial_offset = if blended < BIAS_MIN as i128 {
            BIAS_MIN
        } else if blended > BIAS_MAX as i128 {
            BIAS_MAX
        } else {
            blended as i64
        };
    }
}

impl Control for PWMControl {
    open spec fn evaluated(
        &self,
        current_temp: i64,
        target_temp: i64,
        future_target_temp: i64,
        current_time: i64,
    ) -> PWMControl {
        let smooth = smoothed(self.smooth_t, current_temp);
        PWMControl {
            is_on: self.mode_at(current_time),
            is_on_time: self.mode_since(current_time),
            smooth_t: Some(smooth as i64),
            initial_offset: if future_target_temp == target_temp {
                adapted(
                    self.initial_offset as int,
                    smooth - future_target_temp,
                    self.mode_at(current_time),
                ) as i64
            } else {
                self.initial_offset
            },
            new_mode: self.new_mode,
            new_mode_time: self.new_mode_time,
            last_on_time: self.last_on_time,
            last_off_time: self.last_off_time,
        }
    }

    open spec fn decided(
        &self,
        current_temp: i64,
        target_temp: i64,
        future_target_temp: i64,
        current_time: i64,
    ) -> (bool, u32) {
        pulse_decision(
            self.mode_at(current_time),
            smoothed(self.smooth_t, current_temp) - future_target_temp + self.initial_offset,
            current_time - self.mode_since(current_time),
        )
    }

    open spec fn committed(&self, mode_on: bool, delay_ms: u32, current_time: i64) -> PWMControl {
        PWMControl {
            new_mode: if delay_ms < SCHEDULE_LIMIT_MS {
                mode_on
            } else {
                self.new_mode
            },
            new_mode_time: if delay_ms < SCHEDULE_LIMIT_MS {
                (current_time + delay_ms) as i64
            } else {
                self.new_mode_time
            },
            last_on_time: if mode_on {
                Some(current_time)
            } else {
                self.last_on_time
            },
            last_off_time: if mode_on {
                self.last_off_time
            } else {
                Some(current_time)
            },
            ..*self
        }
    }

    fn get_mode(
        &mut self,
        current_temp: i64,
        target_temp: i64,
        future_target_temp: i64,
        current_time: i64,
    ) -> (r: (bool, u32)) {
        if current_time >= self.new_mode_time {
            if self.is_on != self.new_mode {
                self.is_on_time = self.new_mode_time;
            }
            self.is_on = self.new_mode;
        }
        let smooth: i64 = match self.smooth_t {
            None => current_temp,
            Some(s) => floor_div(s as i128 + current_temp as i128, 2) as i64,
        };
        self.smooth_t = Some(smooth);

        let above_target: i128 = smooth as i128 - future_target_temp as i128;
        let offset = self.get_avg_offset();
        let dt: i128 = above_target + offset as i128;

        if future_target_temp == target_temp {
            self.update_avg_offset(above_target, self.is_on);
        }
        if dt <= STAY_ON_AT as i128 && self.is_on {
            return (true, 0);
        }
        if dt >= STAY_OFF_AT as i128 && !self.is_on {
            return (false, 0);
        }
        let elapsed: i128 = current_time as i128 - self.is_on_time as i128;
        let pulse_width: i128 = if self.is_on {
            floor_div(scaled(-dt, PULSE_MS_PER_DEGREE), UNITS_PER_DEGREE as i128)
        } else {
            floor_div(
                scaled(UNITS_PER_DEGREE as i128 + dt, PULSE_MS_PER_DEGREE),
                UNITS_PER_DEGREE as i128,
            )
        };
        let wait: i128 = pulse_width - elapsed;
        if wait <= 0 {
            (!self.is_on, 0)
        } else if wait > u32::MAX as i128 {
            (!self.is_on, u32::MAX)
        } else {
            (!self.is_on, wait as u32)
        }
    }

    fn set_output(&mut self, mode_on: bool, delay_ms: u32, current_time: i64) {
        if delay_ms < SCHEDULE_LIMIT_MS {
            self.new_mode = mode_on;
            self.new_mode_time = current_time + delay_ms as i64;
        }
        if mode_on {
            self.last_on_time = Some(current_time);
        } else {
            self.last_off_time = Some(current_time);
        }
    }
}

/// The strategy of one room: one of the two.
#[derive(Debug, Clone, Copy, PartialEq, Eq, Structural)]
pub enum RoomControl {
    PWM(PWMControl),
    Simple(SimpleControl),
}

impl Control for RoomControl {
    open spec fn evaluated(
        &self,
        current_temp: i64,
        target_temp: i64,
        future_target_temp: i64,
        current_time: i64,
    ) -> RoomControl {
        match *self {
            RoomControl::PWM(c) => RoomControl::PWM(
                c.evaluated(current_temp, target_temp, future_target_temp, current_time),
            ),
            RoomControl::Simple(c) => RoomControl::Simple(
                c.evaluated(current_temp, target_temp, future_target_temp, current_time),
            ),
        }
    }

    open spec fn decided(
        &self,
        current_temp: i64,
        target_temp: i64,
        future_target_temp: i64,
        current_time: i64,
    ) -> (bool, u32) {
        match *self {
            RoomControl::PWM(c) => c.decided(
                current_temp,
                target_temp,
                future_target_temp,
                current_time,
            ),
            RoomControl::Simple(c) => c.decided(
                current_temp,
                target_temp,
                future_target_temp,
                current_time,
            ),
        }
    }

    open spec fn committed(&self, mode_on: bool, delay_ms: u32, current_time: i64) -> RoomControl {
        match *self {
            RoomControl::PWM(c) => RoomControl::PWM(c.committed(mode_on, delay_ms, current_time)),
            RoomControl::Simple(c) => RoomControl::Simple(
                c.committed(mode_on, delay_ms, current_time),
            ),
        }
    }

    fn get_mode(
        &mut self,
        current_temp: i64,
        target_temp: i64,
        future_target_temp: i64,
        current_time: i64,
    ) -> (r: (bool, u32)) {
        match *self {
            RoomControl::PWM(c) => {
                let mut c = c;
                let r = c.get_mode(current_temp, target_temp, future_target_temp, current_time);
                *self = RoomControl::PWM(c);
                r
            },
            RoomControl::Simple(c) => {
                let mut c = c;
                let r = c.get_mode(current_temp, target_temp, future_target_temp, current_time);
                *self = RoomControl::Simple(c);
                r
            },
        }
    }

    fn set_output(&mut self, mode_on: bool, delay_ms: u32, current_time: i64) {
        match *self {
            RoomControl::PWM(c) => {
                let mut c = c;
                c.set_output(mode_on, delay_ms, current_time);
                *self = RoomControl::PWM(c);
            },
            RoomControl::Simple(c) => {
                let mut c = c;
                c.set_output(mode_on, delay_ms, current_time);
                *self = RoomControl::Simple(c);
            },
        }
    }
}

/// One evaluation: what the strategy is given.
pub struct Reading {
    pub current_temp: i64,
    pub target_temp: i64,
    pub future_target_temp: i64,
    pub current_time: i64,
}

impl PWMControl {
    /// The state after an evaluation whose decision was put into effect.
    pub open spec fn stepped(&self, reading: Reading) -> PWMControl {
        let decision = self.decided(
            reading.current_temp,
            reading.target_temp,
            reading.future_target_temp,
            reading.current_time,
        );
        self.evaluated(
            reading.current_temp,
            reading.target_temp,
            reading.future_target_temp,
            reading.current_time,
        ).committed(decision.0, decision.1, reading.current_time)
    }

    /// The state after a run of evaluations, each put into effect.
    pub open spec fn ran(&self, readings: Seq<Reading>) -> PWMControl
        decreases readings.len(),
    {
        if readings.len() == 0 {
            *self
        } else {
            self.ran(readings.drop_last()).stepped(readings.last())
        }
    }

    /// An evaluation and a commit each keep a bias that lies within its
    /// bounds there, and an evaluation whose two targets agree brings any
    /// bias there.
    pub proof fn lemma_bias_kept(
        &self,
        reading: Reading,
        mode_on: bool,
        delay_ms: u32,
        commit_time: i64,
    )
        ensures
            self.committed(mode_on, delay_ms, commit_time).initial_offset == self.initial_offset,
            self.bias_in_bounds() || reading.future_target_temp == reading.target_temp
                ==> self.evaluated(
                reading.current_temp,
                reading.target_temp,
                reading.future_target_temp,
                reading.current_time,
            ).bias_in_bounds(),
    {
    }

    /// The bias stays within its bounds, whatever the readings.
    pub proof fn lemma_bias_stays_in_bounds(&self, readings: Seq<Reading>)
        requires
            self.bias_in_bounds(),
        ensures
            self.ran(readings).bias_in_bounds(),
        decreases readings.len(),
    {
        if readings.len() > 0 {
            self.lemma_bias_stays_in_bounds(readings.drop_last());
            let before = self.ran(readings.drop_last());
            let reading = readings.last();
            let decision = before.decided(
                reading.current_temp,
                reading.target_temp,
                reading.future_target_temp,
                reading.current_time,
            );
            before.lemma_bias_kept(reading, decision.0, decision.1, reading.current_time);
        }
    }
}

/// The duty cycle: at an error between the two at which the relay stays as
/// it is, an on pulse and an off pulse together last ten minutes, less at
/// most a millisecond of rounding, and the on pulse has the share of them
/// that the error has of a degree below zero. Where the temperature is at
/// the target, the error is the bias.
pub proof fn lemma_duty_cycle(dt: int)
    requires
        STAY_ON_AT < dt < STAY_OFF_AT,
    ensures
        pulse_ms(dt, true) == (-dt * PULSE_MS_PER_DEGREE) / (UNITS_PER_DEGREE as int),
        PULSE_MS_PER_DEGREE - 1 <= pulse_ms(dt, true) + pulse_ms(dt, false)
            <= PULSE_MS_PER_DEGREE,
        0 < pulse_ms(dt, true) < PULSE_MS_PER_DEGREE,
{
    let a = -dt * PULSE_MS_PER_DEGREE;
    let b = (UNITS_PER_DEGREE + dt) * PULSE_MS_PER_DEGREE;
    let u = UNITS_PER_DEGREE as int;
    assert(a == -dt * 600_000);
    assert(b == (1_000_000_000 + dt) * 600_000);
    assert(a + b == 600_000 * u);
    assert(a / u + b / u <= 600_000 && a / u + b / u >= 600_000 - 1) by (nonlinear_arith)
        requires
            a + b == 600_000 * u,
            u > 0,
    ;
    assert(0 < a / u < 600_000) by (nonlinear_arith)
        requires
            u == 1_000_000_000,
            100_000_000 * 600_000 < a < 900_000_000 * 600_000,
    ;
}

} // verus!
