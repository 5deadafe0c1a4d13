//! Settings of the rate controllers.

use crate::pid::Pid;
use crate::single::{lemma_value_order, Single};
use vstd::prelude::*;

verus! {

/// Bit pattern of the proportional gain on roll and pitch: 0.05.
pub const KP_ROLL_PITCH_BITS: u32 = 0x3d4c_cccd;

/// Bit pattern of the integral gain on roll and pitch: 0.3.
pub const KI_ROLL_PITCH_BITS: u32 = 0x3e99_999a;

/// Bit pattern of the derivative gain on roll and pitch: 0.001.
pub const KD_ROLL_PITCH_BITS: u32 = 0x3a83_126f;

/// Bit pattern of the proportional gain on yaw: 0.3.
pub const KP_YAW_BITS: u32 = 0x3e99_999a;

/// Bit pattern of the integral gain on yaw: 0.05.
pub const KI_YAW_BITS: u32 = 0x3d4c_cccd;

/// Bit pattern of the derivative gain on yaw: 0.001.
pub const KD_YAW_BITS: u32 = 0x3a83_126f;

/// Bit pattern of the bound on the accumulated error: 0.3.
pub const INTEGRAL_LIMIT_BITS: u32 = 0x3e99_999a;

/// Bit pattern of the decay of the accumulated error per second: 1. A lasting
/// error settles at an equilibrium instead of winding up to the limit.
pub const INTEGRAL_LEAK_BITS: u32 = 0x3f80_0000;

/// The two drones.
#[derive(Clone, Copy, Debug, PartialEq, Eq, Structural)]
pub enum Drone {
    /// brushed motors, flown from ground control
    Brushed,
    /// brushless motors, flown from a radio; only its proportional terms are in
    /// use until each of the others has been tried on its own
    Brushless,
}

/// The rate controllers of an axis pair and of yaw.
#[derive(Clone, Copy, Debug)]
pub struct RatePids {
    pub roll: Pid,
    pub pitch: Pid,
    pub yaw: Pid,
}

/// A gain, or none on a drone that does not use it.
pub open spec fn gain(drone: Drone, bits: u32) -> Single {
    Single {
        bits: if drone == Drone::Brushed {
            bits
        } else {
            0
        },
    }
}

impl RatePids {
    /// The controllers that a drone starts with. Their limit is valid, so that
    /// they can be updated with any error and any time step.
    pub fn new(drone: Drone) -> (r: RatePids)
        ensures
            r.roll.kp.bits == KP_ROLL_PITCH_BITS,
            r.roll.ki == gain(drone, KI_ROLL_PITCH_BITS),
            r.roll.kd == gain(drone, KD_ROLL_PITCH_BITS),
            r.yaw.kp.bits == KP_YAW_BITS,
            r.yaw.ki == gain(drone, KI_YAW_BITS),
            r.yaw.kd == gain(drone, KD_YAW_BITS),
            r.pitch == r.roll,
            r.roll.integral_limit.bits == INTEGRAL_LIMIT_BITS,
            r.yaw.integral_limit.bits == INTEGRAL_LIMIT_BITS,
            r.roll.leak.bits == INTEGRAL_LEAK_BITS,
            r.yaw.leak.bits == INTEGRAL_LEAK_BITS,
            r.roll == r.roll.cleared(),
            r.yaw == r.yaw.cleared(),
            r.well_formed(),
    {
        let on: bool = drone == Drone::Brushed;
        let limit: Single = Single { bits: INTEGRAL_LIMIT_BITS };
        let leak: Single = Single { bits: INTEGRAL_LEAK_BITS };
        let none: Single = Single { bits: 0 };
        proof {
            lemma_value_order(none, limit);
        }
        let roll: Pid = Pid::new(
            Single { bits: KP_ROLL_PITCH_BITS },
            if on {
                Single { bits: KI_ROLL_PITCH_BITS }
            } else {
                none
            },
            if on {
                Single { bits: KD_ROLL_PITCH_BITS }
            } else {
                none
            },
            limit,
            leak,
        );
        let yaw: Pid = Pid::new(
            Single { bits: KP_YAW_BITS },
            if on {
                Single { bits: KI_YAW_BITS }
            } else {
                none
            },
            if on {
                Single { bits: KD_YAW_BITS }
            } else {
                none
            },
            limit,
            leak,
        );
        RatePids { roll, pitch: roll, yaw }
    }

    /// Every controller can be updated, and keeps its accumulated error in bounds.
    pub open spec fn well_formed(self) -> bool {
        &&& self.roll.well_formed() && self.roll.bounded()
        &&& self.pitch.well_formed() && self.pitch.bounded()
        &&& self.yaw.well_formed() && self.yaw.bounded()
    }

    /// The controllers with their settings and no past.
    pub open spec fn cleared(self) -> RatePids {
        RatePids {
            roll: self.roll.cleared(),
            pitch: self.pitch.cleared(),
            yaw: self.yaw.cleared(),
        }
    }

    /// Whether two sets of controllers have the same settings.
    pub open spec fn same_settings(self, other: RatePids) -> bool {
        &&& self.roll.same_settings(other.roll)
        &&& self.pitch.same_settings(other.pitch)
        &&& self.yaw.same_settings(other.yaw)
    }

    /// Starts all controllers afresh, as on arming.
    pub fn reset(&mut self)
        ensures
            *final(self) == old(self).cleared(),
            old(self).well_formed() ==> final(self).well_formed(),
    {
        self.roll.reset();
        self.pitch.reset();
        self.yaw.reset();
    }
}

/// The controllers that a drone starts with: 0.05 on roll and pitch and 0.3 on yaw
/// for the error, a limit of 0.3 and a leak of one on every axis; on the brushed
/// drone 0.3 and 0.001 on roll and pitch and 0.05 and 0.001 on yaw for the other
/// two terms, which are off on the brushless one. None of them has a past.
pub proof fn law_drones_start_with_their_gains(drone: Drone, r: RatePids)
    requires
        call_ensures(RatePids::new, (drone,), r),
    ensures
        r.roll.kp.bits == 0x3d4c_cccd && r.pitch.kp.bits == 0x3d4c_cccd,
        r.yaw.kp.bits == 0x3e99_999a,
        drone == Drone::Brushed ==> {
            &&& r.roll.ki.bits == 0x3e99_999a && r.roll.kd.bits == 0x3a83_126f
            &&& r.pitch.ki.bits == 0x3e99_999a && r.pitch.kd.bits == 0x3a83_126f
            &&& r.yaw.ki.bits == 0x3d4c_cccd && r.yaw.kd.bits == 0x3a83_126f
        },
        drone == Drone::Brushless ==> {
            &&& r.roll.ki.bits == 0 && r.roll.kd.bits == 0
            &&& r.pitch.ki.bits == 0 && r.pitch.kd.bits == 0
            &&& r.yaw.ki.bits == 0 && r.yaw.kd.bits == 0
        },
        r.roll.integral_limit.bits == 0x3e99_999a && r.roll.leak.bits == 0x3f80_0000,
        r.pitch.integral_limit.bits == 0x3e99_999a && r.pitch.leak.bits == 0x3f80_0000,
        r.yaw.integral_limit.bits == 0x3e99_999a && r.yaw.leak.bits == 0x3f80_0000,
        r.roll.integral.bits == 0 && r.roll.d_filter.bits == 0 && r.roll.prev_error.nan(),
        r.pitch.integral.bits == 0 && r.pitch.d_filter.bits == 0 && r.pitch.prev_error.nan(),
        r.yaw.integral.bits == 0 && r.yaw.d_filter.bits == 0 && r.yaw.prev_error.nan(),
{
}

/// A reset takes the past off every axis and leaves every setting.
pub proof fn law_reset_clears_every_axis(pids: &mut RatePids, axis: int)
    requires
        call_ensures(RatePids::reset, (pids,), ()),
        0 <= axis < 3,
    ensures
        ({
            let (before, after) = if axis == 0 {
                (old(pids).roll, final(pids).roll)
            } else if axis == 1 {
                (old(pids).pitch, final(pids).pitch)
            } else {
                (old(pids).yaw, final(pids).yaw)
            };
            &&& after.integral.bits == 0 && after.d_filter.bits == 0 && after.prev_error.nan()
            &&& after.kp == before.kp && after.ki == before.ki && after.kd == before.kd
            &&& after.integral_limit == before.integral_limit && after.leak == before.leak
        }),
{
}

} // verus!
