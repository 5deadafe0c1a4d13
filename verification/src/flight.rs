//! Arming, failsafe and heading hold.
//!
//! Every tick asks the same questions: is the control input fresh and armed, has
//! that just changed, may the motors run, and which heading is to be held.
//! [`FlightState`] answers them; the flight loops do the sensor reads, the
//! control arithmetic and the motor output.
//!
//! On the brushed drone a tick starts with the control input, so that it counts
//! whether or not the sensor can be read. On the brushless drone it starts with
//! the sensor, and a failed read is no tick at all: nothing is asked, and its
//! motors, left without commands, stop by the ESCs' own failsafe.

use crate::control::{Flags, ARMED, FAILSAFE};
use crate::radio::{AXIS_SPAN, THROTTLE_SPAN};
use crate::single::{Single, Vector};
use crate::telemetry;
use crate::telemetry_verbose;
use crate::tuning::RatePids;
use vstd::prelude::*;

verus! {

/// Age at which control input counts as stale, in microseconds.
pub const STALE_AFTER_US: u64 = 500_000;

/// Throttle percentage below which the motors stay off.
pub const IDLE_PERCENT: u8 = 5;

/// Throttle percentage below which the heading target follows the attitude.
pub const NEAR_GROUND_PERCENT: u8 = 15;

/// Bit pattern of the yaw stick deflection from which the stick steers: 0.1.
pub const YAW_STICK_ACTIVE_BITS: u32 = 0x3dcc_cccd;

/// Where the throttle stands.
#[derive(Clone, Copy, Debug, PartialEq, Eq, Structural)]
pub enum ThrottleZone {
    /// below the idle cutoff
    Idle,
    /// running, but still close to the ground
    NearGround,
    Flying,
}

/// The zone of a throttle of `part` out of `whole`.
pub open spec fn throttle_zone(part: int, whole: int) -> ThrottleZone {
    if part * 100 < IDLE_PERCENT * whole {
        ThrottleZone::Idle
    } else if part * 100 < NEAR_GROUND_PERCENT * whole {
        ThrottleZone::NearGround
    } else {
        ThrottleZone::Flying
    }
}

impl ThrottleZone {
    /// The zone of a throttle in percent.
    pub fn of_percent(percent: u8) -> (r: ThrottleZone)
        ensures
            r == throttle_zone(percent as int, 100),
    {
        if percent < IDLE_PERCENT {
            ThrottleZone::Idle
        } else if percent < NEAR_GROUND_PERCENT {
            ThrottleZone::NearGround
        } else {
            ThrottleZone::Flying
        }
    }

    /// The zone of a throttle in radio channel steps.
    pub fn of_steps(steps: u16) -> (r: ThrottleZone)
        ensures
            r == throttle_zone(steps as int, THROTTLE_SPAN as int),
    {
        let scaled: u32 = steps as u32 * 100;
        if scaled < IDLE_PERCENT as u32 * THROTTLE_SPAN as u32 {
            ThrottleZone::Idle
        } else if scaled < NEAR_GROUND_PERCENT as u32 * THROTTLE_SPAN as u32 {
            ThrottleZone::NearGround
        } else {
            ThrottleZone::Flying
        }
    }
}

/// Whether a yaw deflection in radio channel steps steers: a tenth of full
/// deflection or more, to either side.
pub fn yaw_steps_active(yaw: i16) -> (r: bool)
    ensures
        r == (yaw as int * 10 >= AXIS_SPAN || yaw as int * 10 <= -AXIS_SPAN),
{
    let scaled: i32 = yaw as i32 * 10;
    scaled >= AXIS_SPAN as i32 || scaled <= -(AXIS_SPAN as i32)
}

/// Whether a yaw deflection between -1 and 1 steers.
pub fn yaw_stick_active(yaw: Single) -> (r: bool)
    ensures
        r == (Single { bits: YAW_STICK_ACTIVE_BITS }).at_most(yaw.absolute()),
{
    Single { bits: YAW_STICK_ACTIVE_BITS }.le(yaw.abs())
}

/// The latest control input: its arm switch and when it came in, in microseconds.
#[derive(Clone, Copy, Debug, PartialEq, Eq, Structural)]
pub struct LinkInput {
    pub armed: bool,
    pub received_at: u64,
}

/// A change of the armed state.
#[derive(Clone, Copy, Debug, PartialEq, Eq, Structural)]
pub enum ArmEdge {
    /// just armed: the rate controllers start afresh
    Armed,
    /// just disarmed
    Disarmed,
}

/// What the control input amounts to in this tick.
#[derive(Clone, Copy, Debug, PartialEq, Eq, Structural)]
pub struct LinkStatus {
    pub fresh: bool,
    pub armed: bool,
    pub edge: Option<ArmEdge>,
}

impl LinkStatus {
    /// Whether the motors are to be switched off at once, before anything else
    /// in the tick can fail.
    pub fn stop_motors(&self) -> (r: bool)
        ensures
            r == !self.armed,
    {
        !self.armed
    }

    /// The telemetry of the tick, given the attitude in degrees and the motor
    /// duties, if they were set.
    pub fn telemetry(
        &self,
        degrees: (Single, Single, Single),
        motors: Option<(u16, u16, u16, u16)>,
    ) -> (r: telemetry::TelemetryPacket)
        ensures
            r == (telemetry::TelemetryPacket {
                roll: degrees.0,
                pitch: degrees.1,
                yaw: degrees.2,
                motors: match motors {
                    Some(duties) => duties,
                    None => (0, 0, 0, 0),
                },
                flags: Flags { byte: self.flag_byte() },
            }),
    {
        let duties: (u16, u16, u16, u16) = match motors {
            Some(duties) => duties,
            None => (0, 0, 0, 0),
        };
        telemetry::TelemetryPacket::new(
            degrees.0,
            degrees.1,
            degrees.2,
            duties,
            self.armed,
            !self.fresh,
        )
    }

    /// The longer telemetry of the tick. `flown` holds the motor duties and the
    /// torques behind them, if the motors were set.
    pub fn telemetry_verbose(
        &self,
        degrees: (Single, Single, Single),
        flown: Option<((u16, u16, u16, u16), Vector)>,
        gyro: Vector,
        gyro_bias: Vector,
        dt: Single,
        accel: Vector,
    ) -> (r: telemetry_verbose::TelemetryPacket)
        ensures
            r == (telemetry_verbose::TelemetryPacket {
                roll: degrees.0,
                pitch: degrees.1,
                yaw: degrees.2,
                motors: match flown {
                    Some((duties, _)) => duties,
                    None => (0, 0, 0, 0),
                },
                flags: Flags { byte: self.flag_byte() },
                gyro,
                torques: match flown {
                    Some((_, torques)) => torques,
                    None => Vector::zero(),
                },
                gyro_bias,
                dt,
                accel,
            }),
    {
        let (duties, torques): ((u16, u16, u16, u16), Vector) = match flown {
            Some((duties, torques)) => (duties, torques),
            None => ((0, 0, 0, 0), Vector::zeros()),
        };
        telemetry_verbose::TelemetryPacket::new(
            degrees.0,
            degrees.1,
            degrees.2,
            duties,
            self.armed,
            !self.fresh,
            gyro,
            torques,
            gyro_bias,
            dt,
            accel,
        )
    }

    /// The flags of the tick: armed, and failsafe when the input is not fresh.
    pub open spec fn flag_byte(self) -> u8 {
        ((if self.armed {
            ARMED as int
        } else {
            0
        }) + (if self.fresh {
            0
        } else {
            FAILSAFE as int
        })) as u8
    }
}

/// Sticks and heading of a tick with a known attitude.
#[derive(Clone, Copy, Debug)]
pub struct Steering {
    pub zone: ThrottleZone,
    /// whether the yaw stick steers
    pub yaw_active: bool,
    /// the current heading
    pub actual_yaw: Single,
}

/// What to do with the motors in this tick.
#[derive(Clone, Copy, Debug)]
pub enum Action {
    /// switch them off
    Off,
    /// leave them as they are: armed, but without an attitude to act on
    Keep,
    /// run the control loops towards this heading; `yaw_feedforward` when the
    /// yaw stick adds to the commanded rate
    Fly { target_yaw: Single, yaw_feedforward: bool },
}

/// Whether there is input and it is younger than the stale age.
pub open spec fn is_fresh(link: Option<LinkInput>, now: u64) -> bool {
    link matches Some(input) && now - input.received_at < STALE_AFTER_US
}

/// Whether there is fresh input with its arm switch on.
pub open spec fn is_armed(link: Option<LinkInput>, now: u64) -> bool {
    is_fresh(link, now) && link->0.armed
}

/// What the loop remembers from tick to tick.
#[derive(Clone, Copy, Debug)]
pub struct FlightState {
    /// armed in the previous tick
    pub last_armed: bool,
    /// a heading has been latched since arming
    pub yaw_init: bool,
    /// the heading to hold
    pub target_yaw: Single,
}

impl FlightState {
    /// The state after the tick's control input is known.
    pub open spec fn after_link(self, armed: bool) -> FlightState {
        FlightState {
            last_armed: armed,
            yaw_init: if armed && !self.last_armed {
                false
            } else {
                self.yaw_init
            },
            target_yaw: self.target_yaw,
        }
    }

    /// The change of the armed state that a tick brings.
    pub open spec fn edge(self, armed: bool) -> Option<ArmEdge> {
        if armed && !self.last_armed {
            Some(ArmEdge::Armed)
        } else if !armed && self.last_armed {
            Some(ArmEdge::Disarmed)
        } else {
            None
        }
    }

    /// The rate controllers after the tick's control input is known: afresh in
    /// the tick that arms, otherwise as they were.
    pub open spec fn pids_after_link(self, armed: bool, pids: RatePids) -> RatePids {
        if self.edge(armed) == Some(ArmEdge::Armed) {
            pids.cleared()
        } else {
            pids
        }
    }

    /// The state once the attitude of the tick is known, or known to be missing.
    /// Armed, the target follows the heading until the drone flies with its yaw
    /// stick centred; otherwise nothing changes.
    pub open spec fn after_steering(self, steering: Option<Steering>) -> FlightState {
        match steering {
            Some(s) if self.last_armed => FlightState {
                last_armed: self.last_armed,
                yaw_init: true,
                target_yaw: if !self.yaw_init || s.zone != ThrottleZone::Flying || s.yaw_active {
                    s.actual_yaw
                } else {
                    self.target_yaw
                },
            },
            _ => self,
        }
    }

    /// The motors are off unless armed, stay as they are without an attitude,
    /// and run above the idle throttle.
    pub open spec fn action(self, steering: Option<Steering>) -> Action {
        if !self.last_armed {
            Action::Off
        } else {
            match steering {
                None => Action::Keep,
                Some(s) => if s.zone == ThrottleZone::Idle {
                    Action::Off
                } else {
                    Action::Fly {
                        target_yaw: self.after_steering(steering).target_yaw,
                        yaw_feedforward: s.yaw_active,
                    }
                },
            }
        }
    }

    /// Disarmed, with no heading.
    pub fn new() -> (r: FlightState)
        ensures
            r == (FlightState {
                last_armed: false,
                yaw_init: false,
                target_yaw: Single { bits: 0 },
            }),
    {
        FlightState { last_armed: false, yaw_init: false, target_yaw: Single { bits: 0 } }
    }

    /// Takes in the tick's control input.
    pub fn observe_link(&mut self, link: Option<LinkInput>, now: u64) -> (r: LinkStatus)
        requires
            link matches Some(input) ==> input.received_at <= now,
        ensures
            r.fresh == is_fresh(link, now),
            r.armed == is_armed(link, now),
            r.edge == old(self).edge(r.armed),
            *final(self) == old(self).after_link(r.armed),
    {
        let (fresh, armed): (bool, bool) = match link {
            Some(input) => {
                let fresh: bool = now - input.received_at < STALE_AFTER_US;
                (fresh, fresh && input.armed)
            },
            None => (false, false),
        };
        let edge: Option<ArmEdge> = if !self.last_armed && armed {
            self.yaw_init = false;
            Some(ArmEdge::Armed)
        } else if self.last_armed && !armed {
            Some(ArmEdge::Disarmed)
        } else {
            None
        };
        self.last_armed = armed;
        LinkStatus { fresh, armed, edge }
    }

    /// Takes in the tick's control input, and starts the rate controllers afresh
    /// when it arms.
    pub fn observe_link_and_reset(
        &mut self,
        link: Option<LinkInput>,
        now: u64,
        pids: &mut RatePids,
    ) -> (r: LinkStatus)
        requires
            link matches Some(input) ==> input.received_at <= now,
        ensures
            r.fresh == is_fresh(link, now),
            r.armed == is_armed(link, now),
            r.edge == old(self).edge(r.armed),
            *final(self) == old(self).after_link(r.armed),
            *final(pids) == old(self).pids_after_link(r.armed, *old(pids)),
            r.edge == Some(ArmEdge::Armed) ==> *final(pids) == old(pids).cleared(),
            r.edge != Some(ArmEdge::Armed) ==> *final(pids) == *old(pids),
            old(pids).well_formed() ==> final(pids).well_formed(),
    {
        let status: LinkStatus = self.observe_link(link, now);
        match status.edge {
            Some(ArmEdge::Armed) => {
                pids.reset();
            },
            _ => {},
        }
        status
    }

    /// Decides about the motors, given sticks and heading unless the attitude is
    /// missing.
    pub fn decide(&mut self, steering: Option<Steering>) -> (r: Action)
        ensures
            *final(self) == old(self).after_steering(steering),
            r == old(self).action(steering),
            !old(self).last_armed ==> r is Off,
            old(self).last_armed && steering is None ==> r is Keep,
            old(self).last_armed && steering is Some ==> (r is Off <==> steering->0.zone
                == ThrottleZone::Idle),
            r matches Action::Fly { target_yaw, yaw_feedforward } ==> target_yaw
                == final(self).target_yaw && yaw_feedforward == steering->0.yaw_active,
    {
        if !self.last_armed {
            return Action::Off;
        }
        match steering {
            None => Action::Keep,
            Some(s) => {
                if !self.yaw_init {
                    self.target_yaw = s.actual_yaw;
                    self.yaw_init = true;
                }
                if s.zone != ThrottleZone::Flying {
                    self.target_yaw = s.actual_yaw;
                }
                if s.yaw_active {
                    self.target_yaw = s.actual_yaw;
                }
                if s.zone == ThrottleZone::Idle {
                    return Action::Off;
                }
                Action::Fly { target_yaw: self.target_yaw, yaw_feedforward: s.yaw_active }
            },
        }
    }
}

/// One tick as the loop sees it: the input it found, and sticks and heading
/// unless the sensor read failed.
pub struct Tick {
    pub link: Option<LinkInput>,
    pub now: u64,
    pub steering: Option<Steering>,
}

/// The state after one tick.
pub open spec fn tick_state(state: FlightState, tick: Tick) -> FlightState {
    state.after_link(is_armed(tick.link, tick.now)).after_steering(tick.steering)
}

/// What a tick that starts in `state` does with the motors.
pub open spec fn tick_action(state: FlightState, tick: Tick) -> Action {
    state.after_link(is_armed(tick.link, tick.now)).action(tick.steering)
}

/// The state after a sequence of ticks.
pub open spec fn run_state(state: FlightState, ticks: Seq<Tick>) -> FlightState
    decreases ticks.len(),
{
    if ticks.len() == 0 {
        state
    } else {
        tick_state(run_state(state, ticks.drop_last()), ticks.last())
    }
}

/// Whether the motors run after a sequence of ticks, given whether they ran
/// before it.
pub open spec fn running_after(state: FlightState, running: bool, ticks: Seq<Tick>) -> bool
    decreases ticks.len(),
{
    if ticks.len() == 0 {
        running
    } else {
        let before = ticks.drop_last();
        match tick_action(run_state(state, before), ticks.last()) {
            Action::Off => false,
            Action::Keep => running_after(state, running, before),
            Action::Fly { .. } => true,
        }
    }
}

/// Whatever happened before, the motors run after a tick only if it found
/// control input that was there, younger than half a second and armed.
pub proof fn law_motors_need_fresh_armed_input(
    state: FlightState,
    running: bool,
    ticks: Seq<Tick>,
)
    requires
        ticks.len() > 0,
        running_after(state, running, ticks),
    ensures
        ticks.last().link is Some,
        ticks.last().now - ticks.last().link->0.received_at < STALE_AFTER_US,
        ticks.last().link->0.armed,
{
}

/// Motors at rest start only above the idle throttle: if they run after a
/// sequence of ticks, one of these ticks had the throttle up with a known
/// attitude, and no tick since lacked fresh armed input.
pub proof fn law_motors_start_above_idle(state: FlightState, ticks: Seq<Tick>)
    requires
        running_after(state, false, ticks),
    ensures
        exists|i: int|
            0 <= i < ticks.len() && throttle_up(#[trigger] ticks[i]) && armed_since(ticks, i),
    decreases ticks.len(),
{
    let last = ticks.len() - 1;
    let before = ticks.drop_last();
    if tick_action(run_state(state, before), ticks.last()) is Keep {
        law_motors_start_above_idle(state, before);
        let i = choose|i: int|
            0 <= i < before.len() && throttle_up(#[trigger] before[i]) && armed_since(before, i);
        assert forall|k: int| i <= k < ticks.len() implies is_armed(
            (#[trigger] ticks[k]).link,
            ticks[k].now,
        ) by {
            if k < last {
                assert(is_armed(before[k].link, before[k].now));
            }
        }
        assert(ticks[i] == before[i]);
        assert(armed_since(ticks, i));
    } else {
        assert(armed_since(ticks, last));
    }
}

/// Whether a tick had the throttle above idle with a known attitude.
pub open spec fn throttle_up(tick: Tick) -> bool {
    tick.steering matches Some(s) && s.zone != ThrottleZone::Idle
}

/// Whether every tick from `i` on found fresh armed input.
pub open spec fn armed_since(ticks: Seq<Tick>, i: int) -> bool {
    forall|k: int| i <= k < ticks.len() ==> is_armed((#[trigger] ticks[k]).link, ticks[k].now)
}

/// Once control input stops, the motors are off from the first tick on that is
/// half a second or more after the last input. On the brushed drone, where a
/// tick without a sensor reading is a tick, that holds even if the sensor has
/// stopped as well.
pub proof fn law_lost_link_stops_motors(
    state: FlightState,
    running: bool,
    ticks: Seq<Tick>,
    last: LinkInput,
)
    requires
        ticks.len() > 0,
        ticks.last().link == Some(last),
        ticks.last().now - last.received_at >= STALE_AFTER_US,
    ensures
        !running_after(state, running, ticks),
        !run_state(state, ticks).last_armed,
{
}

/// Heading hold: while the drone flies armed with its yaw stick centred, the
/// target heading stays the one that was latched, however long that lasts and
/// whatever the attitude does.
pub proof fn law_heading_is_held(state: FlightState, ticks: Seq<Tick>)
    requires
        state.last_armed,
        state.yaw_init,
        forall|i: int|
            0 <= i < ticks.len() ==> {
                &&& is_armed((#[trigger] ticks[i]).link, ticks[i].now)
                &&& ticks[i].steering matches Some(s) ==> s.zone == ThrottleZone::Flying
                    && !s.yaw_active
            },
    ensures
        run_state(state, ticks) == state,
    decreases ticks.len(),
{
    if ticks.len() > 0 {
        let before = ticks.drop_last();
        assert forall|i: int| 0 <= i < before.len() implies {
            &&& is_armed((#[trigger] before[i]).link, before[i].now)
            &&& before[i].steering matches Some(s) ==> s.zone == ThrottleZone::Flying
                && !s.yaw_active
        } by {
            assert(before[i] == ticks[i]);
        }
        law_heading_is_held(state, before);
        assert(is_armed(ticks[ticks.len() - 1].link, ticks[ticks.len() - 1].now));
    }
}

/// A heading from before a disarm is never flown again: the first tick with an
/// attitude after arming takes the current heading, whatever the sticks say and
/// however many sensor reads failed in between.
pub proof fn law_arming_forgets_heading(state: FlightState, ticks: Seq<Tick>)
    requires
        !state.last_armed,
        ticks.len() > 0,
        forall|i: int|
            0 <= i < ticks.len() ==> is_armed((#[trigger] ticks[i]).link, ticks[i].now),
        forall|i: int| 0 <= i < ticks.len() - 1 ==> (#[trigger] ticks[i]).steering is None,
        ticks.last().steering is Some,
    ensures
        run_state(state, ticks).target_yaw == ticks.last().steering->0.actual_yaw,
{
    let before = ticks.drop_last();
    assert forall|i: int| 0 <= i < before.len() implies is_armed(
        (#[trigger] before[i]).link,
        before[i].now,
    ) && before[i].steering is None by {
        assert(before[i] == ticks[i]);
    }
    lemma_no_heading_without_attitude(state, before);
    assert(is_armed(ticks[ticks.len() - 1].link, ticks[ticks.len() - 1].now));
}

/// Nothing of an earlier flight reaches the rate controllers: whatever they
/// held before, the tick that arms leaves them in one and the same state.
pub proof fn law_arming_forgets_control_errors(
    state: FlightState,
    pids: RatePids,
    other: RatePids,
)
    requires
        !state.last_armed,
        pids.same_settings(other),
    ensures
        state.pids_after_link(true, pids) == state.pids_after_link(true, other),
        state.pids_after_link(true, pids) == pids.cleared(),
{
}

/// Armed ticks without an attitude latch no heading.
proof fn lemma_no_heading_without_attitude(state: FlightState, ticks: Seq<Tick>)
    requires
        !state.last_armed,
        forall|i: int|
            0 <= i < ticks.len() ==> is_armed((#[trigger] ticks[i]).link, ticks[i].now)
                && ticks[i].steering is None,
    ensures
        ticks.len() == 0 ==> run_state(state, ticks) == state,
        ticks.len() > 0 ==> run_state(state, ticks).last_armed && !run_state(state, ticks).yaw_init,
    decreases ticks.len(),
{
    if ticks.len() > 0 {
        let before = ticks.drop_last();
        assert forall|i: int| 0 <= i < before.len() implies is_armed(
            (#[trigger] before[i]).link,
            before[i].now,
        ) && before[i].steering is None by {
            assert(before[i] == ticks[i]);
        }
        lemma_no_heading_without_attitude(state, before);
        assert(is_armed(ticks[ticks.len() - 1].link, ticks[ticks.len() - 1].now));
    }
}

/// The motors run when they should: armed and with a known attitude, every throttle
/// above idle flies. The target is the current heading while the drone is near the
/// ground, while the yaw stick steers and while no heading has been latched, and
/// otherwise the heading latched before; the stick adds to the commanded rate
/// exactly while it steers.
pub proof fn law_armed_throttle_flies(state: &mut FlightState, s: Steering, r: Action)
    requires
        old(state).last_armed,
        s.zone == ThrottleZone::NearGround || s.zone == ThrottleZone::Flying,
        call_ensures(FlightState::decide, (state, Some(s)), r),
    ensures
        r matches Action::Fly { target_yaw, yaw_feedforward } && {
            &&& yaw_feedforward == s.yaw_active
            &&& s.zone == ThrottleZone::NearGround || s.yaw_active || !old(state).yaw_init
                ==> target_yaw == s.actual_yaw
            &&& s.zone == ThrottleZone::Flying && !s.yaw_active && old(state).yaw_init
                ==> target_yaw == old(state).target_yaw
            &&& final(state).target_yaw == target_yaw
        },
        final(state).last_armed && final(state).yaw_init,
{
}

/// The motors rest when they should: disarmed whatever the sticks say, and armed at
/// idle throttle, where the current heading is latched all the same. Armed without
/// an attitude they are left alone. Except for that latch nothing is remembered.
pub proof fn law_motors_rest_unless_flying(
    state: &mut FlightState,
    steering: Option<Steering>,
    r: Action,
)
    requires
        call_ensures(FlightState::decide, (state, steering), r),
        !old(state).last_armed || steering is None || steering->0.zone == ThrottleZone::Idle,
    ensures
        !old(state).last_armed || steering is Some ==> r is Off,
        old(state).last_armed && steering is None ==> r is Keep,
        !old(state).last_armed || steering is None ==> *final(state) == *old(state),
        old(state).last_armed && steering is Some ==> {
            &&& final(state).target_yaw == steering->0.actual_yaw
            &&& final(state).yaw_init
            &&& final(state).last_armed
        },
{
}

/// Control input counts for half a second: it is fresh exactly while it is younger
/// than that, and arms exactly while it is fresh with its arm switch on.
pub proof fn law_input_counts_for_half_a_second(
    state: &mut FlightState,
    link: Option<LinkInput>,
    now: u64,
    r: LinkStatus,
)
    requires
        call_ensures(FlightState::observe_link, (state, link, now), r),
    ensures
        link is None ==> !r.fresh && !r.armed,
        link matches Some(input) ==> {
            &&& r.fresh == (now - input.received_at < 500_000)
            &&& r.armed == (input.armed && now - input.received_at < 500_000)
        },
        final(state).last_armed == r.armed,
{
}

/// A change of the armed state is noticed in the tick that brings it, once, and in
/// its direction. Arming forgets whether a heading was latched; nothing else
/// touches the latch or the heading.
pub proof fn law_arm_edges_are_changes(
    state: &mut FlightState,
    link: Option<LinkInput>,
    now: u64,
    r: LinkStatus,
)
    requires
        call_ensures(FlightState::observe_link, (state, link, now), r),
    ensures
        r.edge is Some <==> r.armed != old(state).last_armed,
        r.edge == Some(ArmEdge::Armed) <==> r.armed && !old(state).last_armed,
        r.edge == Some(ArmEdge::Disarmed) <==> !r.armed && old(state).last_armed,
        r.edge == Some(ArmEdge::Armed) ==> !final(state).yaw_init,
        r.edge != Some(ArmEdge::Armed) ==> final(state).yaw_init == old(state).yaw_init,
        final(state).target_yaw == old(state).target_yaw,
{
}

/// The rate controllers start afresh in the tick that arms and in no other: then
/// every axis has no accumulated error, no derivative and no previous error, with
/// its gains, limit and leak kept; in any other tick they stay as they were.
pub proof fn law_arming_alone_resets_the_controllers(
    state: &mut FlightState,
    link: Option<LinkInput>,
    now: u64,
    pids: &mut RatePids,
    r: LinkStatus,
)
    requires
        call_ensures(FlightState::observe_link_and_reset, (state, link, now, pids), r),
    ensures
        r.armed && !old(state).last_armed ==> {
            &&& final(pids).roll.integral.bits == 0 && final(pids).roll.d_filter.bits == 0
            &&& final(pids).pitch.integral.bits == 0 && final(pids).pitch.d_filter.bits == 0
            &&& final(pids).yaw.integral.bits == 0 && final(pids).yaw.d_filter.bits == 0
            &&& final(pids).roll.prev_error.nan()
            &&& final(pids).pitch.prev_error.nan()
            &&& final(pids).yaw.prev_error.nan()
            &&& final(pids).roll.kp == old(pids).roll.kp && final(pids).roll.ki
                == old(pids).roll.ki && final(pids).roll.kd == old(pids).roll.kd
            &&& final(pids).pitch.kp == old(pids).pitch.kp && final(pids).pitch.ki
                == old(pids).pitch.ki && final(pids).pitch.kd == old(pids).pitch.kd
            &&& final(pids).yaw.kp == old(pids).yaw.kp && final(pids).yaw.ki
                == old(pids).yaw.ki && final(pids).yaw.kd == old(pids).yaw.kd
            &&& final(pids).roll.integral_limit == old(pids).roll.integral_limit
            &&& final(pids).pitch.integral_limit == old(pids).pitch.integral_limit
            &&& final(pids).yaw.integral_limit == old(pids).yaw.integral_limit
            &&& final(pids).roll.leak == old(pids).roll.leak
            &&& final(pids).pitch.leak == old(pids).pitch.leak
            &&& final(pids).yaw.leak == old(pids).yaw.leak
        },
        !r.armed || old(state).last_armed ==> *final(pids) == *old(pids),
{
}

/// Taking in the control input with and without the rate controllers comes to the
/// same.
pub proof fn law_reset_changes_no_decision(
    state: &mut FlightState,
    other: &mut FlightState,
    link: Option<LinkInput>,
    now: u64,
    pids: &mut RatePids,
    r: LinkStatus,
    s: LinkStatus,
)
    requires
        *old(state) == *old(other),
        call_ensures(FlightState::observe_link_and_reset, (state, link, now, pids), r),
        call_ensures(FlightState::observe_link, (other, link, now), s),
    ensures
        r == s,
        *final(state) == *final(other),
{
}

/// A drone that has just been switched on is disarmed and has latched no heading.
pub proof fn law_flight_starts_disarmed(r: FlightState)
    requires
        call_ensures(FlightState::new, (), r),
    ensures
        !r.last_armed,
        !r.yaw_init,
        r.target_yaw.bits == 0,
{
}

/// The zones of the throttle: idle ends at five percent and the ground at fifteen,
/// both on ground control's percentages and on the radio's steps, of which 1639
/// make full throttle.
pub proof fn law_zones_end_at_five_and_fifteen_percent(
    percent: u8,
    steps: u16,
    p: ThrottleZone,
    s: ThrottleZone,
)
    requires
        call_ensures(ThrottleZone::of_percent, (percent,), p),
        call_ensures(ThrottleZone::of_steps, (steps,), s),
    ensures
        p == ThrottleZone::Idle <==> percent < 5,
        p == ThrottleZone::Flying <==> percent >= 15,
        s == ThrottleZone::Idle <==> 100 * steps < 5 * 1639,
        s == ThrottleZone::Flying <==> 100 * steps >= 15 * 1639,
{
}

/// The yaw stick steers from a tenth of its deflection on, to either side: from 82
/// of the radio's 820 steps, and from 0.1 on ground control's sticks. One that
/// reports no number does not steer.
pub proof fn law_yaw_steers_from_a_tenth_on(
    steps: i16,
    stick: Single,
    by_steps: bool,
    by_stick: bool,
)
    requires
        call_ensures(yaw_steps_active, (steps,), by_steps),
        call_ensures(yaw_stick_active, (stick,), by_stick),
    ensures
        by_steps == (steps >= 82 || steps <= -82),
        by_stick == (0x3dcc_cccd <= stick.bits % 0x8000_0000 <= 0x7f80_0000),
{
    crate::single::lemma_value_order(stick.absolute(), Single { bits: YAW_STICK_ACTIVE_BITS });
}

/// The telemetry of a tick tells it as it was: the attitude in its order, the
/// duties that were set or zeros, armed as the input was, failsafe exactly when it
/// was not fresh, and no FIFO overflow. Unless armed, the motors are stopped.
pub proof fn law_telemetry_tells_the_tick(
    status: LinkStatus,
    degrees: (Single, Single, Single),
    motors: Option<(u16, u16, u16, u16)>,
    r: telemetry::TelemetryPacket,
    stop: bool,
)
    requires
        call_ensures(LinkStatus::telemetry, (&status, degrees, motors), r),
        call_ensures(LinkStatus::stop_motors, (&status,), stop),
    ensures
        r.roll == degrees.0 && r.pitch == degrees.1 && r.yaw == degrees.2,
        motors matches Some(duties) ==> r.motors == duties,
        motors is None ==> r.motors == (0u16, 0u16, 0u16, 0u16),
        r.flags.byte % 2 == 1 <==> status.armed,
        r.flags.byte / 2 % 2 == 1 <==> !status.fresh,
        r.flags.byte < 4,
        stop == !status.armed,
{
}

/// The longer telemetry of a tick tells the same, and hands on the raw inputs and
/// the torques, which are zero unless the motors were set.
pub proof fn law_long_telemetry_tells_the_tick(
    status: LinkStatus,
    degrees: (Single, Single, Single),
    flown: Option<((u16, u16, u16, u16), Vector)>,
    gyro: Vector,
    gyro_bias: Vector,
    dt: Single,
    accel: Vector,
    r: telemetry_verbose::TelemetryPacket,
)
    requires
        call_ensures(
            LinkStatus::telemetry_verbose,
            (&status, degrees, flown, gyro, gyro_bias, dt, accel),
            r,
        ),
    ensures
        r.roll == degrees.0 && r.pitch == degrees.1 && r.yaw == degrees.2,
        flown matches Some(set) ==> r.motors == set.0 && r.torques == set.1,
        flown is None ==> r.motors == (0u16, 0u16, 0u16, 0u16),
        flown is None ==> r.torques.x.bits == 0 && r.torques.y.bits == 0 && r.torques.z.bits == 0,
        r.gyro == gyro && r.gyro_bias == gyro_bias && r.dt == dt && r.accel == accel,
        r.flags.byte % 2 == 1 <==> status.armed,
        r.flags.byte / 2 % 2 == 1 <==> !status.fresh,
        r.flags.byte < 4,
{
}

/// Whatever happened before, the motors run after every tick that found fresh armed
/// input, a known attitude and the throttle above idle.
pub proof fn law_motors_run_when_asked(state: FlightState, running: bool, ticks: Seq<Tick>)
    requires
        ticks.len() > 0,
        ticks.last().link is Some,
        ticks.last().link->0.armed,
        ticks.last().now - ticks.last().link->0.received_at < 500_000,
        ticks.last().steering is Some,
        ticks.last().steering->0.zone != ThrottleZone::Idle,
    ensures
        running_after(state, running, ticks),
{
}

} // verus!
