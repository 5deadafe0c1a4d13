//! Accelerometer calibration by tumbling, and what a calibration session reports.
//!
//! The frame is held in six orientations in turn. Whichever of them puts an axis
//! at +1 g and whichever puts it at -1 g give that axis its bias (the middle) and
//! its scale (half the swing), so none of them has to be precise.

use crate::single::{lemma_value_order, Single, Vector};
use vstd::prelude::*;

verus! {

/// Readings averaged per pose.
pub const SAMPLES: u32 = 1000;

/// Time to take up a pose in seconds.
pub const POSE_HOLD_SECS: u64 = 15;

/// Number of poses.
pub const POSE_COUNT: usize = 6;

/// Bit pattern of positive infinity.
pub const INFINITY_BITS: u32 = 0x7f80_0000;

/// Bit pattern of negative infinity.
pub const NEG_INFINITY_BITS: u32 = 0xff80_0000;

/// Bit pattern of one.
pub const ONE_BITS: u32 = 0x3f80_0000;

/// What the drone tells ground control during calibration.
#[derive(Clone, Copy, Debug, PartialEq, Eq, Structural)]
pub enum CalibrationMode {
    Level,
    FrontUp,
    BackUp,
    RightSide,
    LeftSide,
    UpsideDown,
    /// turn the drone through as many orientations as possible
    MagRotate,
    /// calibrated and saved
    Ended,
    /// not saved
    Failed,
}

impl CalibrationMode {
    /// The prompt for the person who holds the drone.
    pub open spec fn prompt(self) -> Seq<char> {
        match self {
            CalibrationMode::Level => "level"@,
            CalibrationMode::FrontUp => "front side up"@,
            CalibrationMode::BackUp => "back side up"@,
            CalibrationMode::RightSide => "right side up"@,
            CalibrationMode::LeftSide => "left side up"@,
            CalibrationMode::UpsideDown => "upside down"@,
            CalibrationMode::MagRotate => "rotate"@,
            CalibrationMode::Ended => "ended"@,
            CalibrationMode::Failed => "failed"@,
        }
    }

    pub fn name(&self) -> (r: &'static str)
        ensures
            r@ == self.prompt(),
    {
        match self {
            CalibrationMode::Level => "level",
            CalibrationMode::FrontUp => "front side up",
            CalibrationMode::BackUp => "back side up",
            CalibrationMode::RightSide => "right side up",
            CalibrationMode::LeftSide => "left side up",
            CalibrationMode::UpsideDown => "upside down",
            CalibrationMode::MagRotate => "rotate",
            CalibrationMode::Ended => "ended",
            CalibrationMode::Failed => "failed",
        }
    }
}

/// The poses in the order in which they are taken up.
pub open spec fn poses() -> Seq<CalibrationMode> {
    seq![
        CalibrationMode::Level,
        CalibrationMode::FrontUp,
        CalibrationMode::BackUp,
        CalibrationMode::RightSide,
        CalibrationMode::LeftSide,
        CalibrationMode::UpsideDown,
    ]
}

/// One-time correction of the accelerometer: `(reading - bias) / scale`.
#[derive(Clone, Copy, Debug)]
pub struct AccelBias {
    pub bias: Vector,
    pub scale: Vector,
}

impl Default for AccelBias {
    /// The correction that changes nothing.
    fn default() -> (r: AccelBias)
        ensures
            r.bias == Vector::zero(),
            r.scale == (Vector {
                x: Single { bits: ONE_BITS },
                y: Single { bits: ONE_BITS },
                z: Single { bits: ONE_BITS },
            }),
    {
        let one: Single = Single { bits: ONE_BITS };
        AccelBias {
            bias: Vector::zeros(),
            scale: Vector { x: one, y: one, z: one },
        }
    }
}

/// Largest and smallest average per axis so far.
#[derive(Clone, Copy, Debug)]
pub struct Extremes {
    pub max: Vector,
    pub min: Vector,
}

/// `max`, or `x` if that is larger.
pub open spec fn raised(max: Single, x: Single) -> Single {
    if max.below(x) {
        x
    } else {
        max
    }
}

/// `min`, or `x` if that is smaller.
pub open spec fn lowered(min: Single, x: Single) -> Single {
    if x.below(min) {
        x
    } else {
        min
    }
}

fn raise(max: Single, x: Single) -> (r: Single)
    ensures
        r == raised(max, x),
{
    if max.lt(x) {
        x
    } else {
        max
    }
}

fn lower(min: Single, x: Single) -> (r: Single)
    ensures
        r == lowered(min, x),
{
    if x.lt(min) {
        x
    } else {
        min
    }
}

impl Extremes {
    /// No average yet: the largest lies below everything, the smallest above.
    pub open spec fn none() -> Extremes {
        let low = Single { bits: NEG_INFINITY_BITS };
        let high = Single { bits: INFINITY_BITS };
        Extremes {
            max: Vector { x: low, y: low, z: low },
            min: Vector { x: high, y: high, z: high },
        }
    }

    /// The extremes with one more average.
    pub open spec fn with(self, avg: Vector) -> Extremes {
        Extremes {
            max: Vector {
                x: raised(self.max.x, avg.x),
                y: raised(self.max.y, avg.y),
                z: raised(self.max.z, avg.z),
            },
            min: Vector {
                x: lowered(self.min.x, avg.x),
                y: lowered(self.min.y, avg.y),
                z: lowered(self.min.z, avg.z),
            },
        }
    }
}

/// The extremes of a sequence of averages.
pub open spec fn extremes_of(averages: Seq<Vector>) -> Extremes
    decreases averages.len(),
{
    if averages.len() == 0 {
        Extremes::none()
    } else {
        extremes_of(averages.drop_last()).with(averages.last())
    }
}

/// What to do next.
#[derive(Clone, Copy, Debug, PartialEq, Eq, Structural)]
pub enum TumbleAction {
    /// announce the pose and wait until it has been taken up
    Place(CalibrationMode),
    /// read the accelerometer once more
    Read,
    /// average the successful readings of the pose
    Average,
    /// all poses are through
    Finished,
    /// a pose had no successful reading at all: nothing can be calibrated
    Aborted,
}

/// What happened in answer to an action.
#[derive(Clone, Copy, Debug)]
pub enum TumbleEvent {
    Placed,
    /// a reading, and whether it succeeded
    ReadDone(bool),
    /// the average of the pose
    Averaged(Vector),
}

/// Progress of a tumble calibration.
#[derive(Clone, Copy, Debug)]
pub struct TumbleCalibration {
    /// index of the current pose
    pub pose: usize,
    /// whether it has been taken up
    pub placed: bool,
    /// readings in this pose
    pub taken: u32,
    /// those that succeeded
    pub successful: u32,
    pub extremes: Extremes,
}

impl TumbleCalibration {
    pub open spec fn well_formed(self) -> bool {
        &&& self.pose <= POSE_COUNT
        &&& self.successful <= self.taken <= SAMPLES
        &&& !self.placed ==> self.taken == 0
        &&& self.pose == POSE_COUNT ==> !self.placed
    }

    /// The action that is due.
    pub open spec fn due(self) -> TumbleAction {
        if self.pose >= POSE_COUNT {
            TumbleAction::Finished
        } else if !self.placed {
            TumbleAction::Place(poses()[self.pose as int])
        } else if self.taken < SAMPLES {
            TumbleAction::Read
        } else if self.successful == 0 {
            TumbleAction::Aborted
        } else {
            TumbleAction::Average
        }
    }

    /// Whether an event answers the action that is due.
    pub open spec fn expects(self, event: TumbleEvent) -> bool {
        match event {
            TumbleEvent::Placed => self.due() is Place,
            TumbleEvent::ReadDone(_) => self.due() == TumbleAction::Read,
            TumbleEvent::Averaged(_) => self.due() == TumbleAction::Average,
        }
    }

    /// The progress after an event.
    pub open spec fn after(self, event: TumbleEvent) -> TumbleCalibration {
        match event {
            TumbleEvent::Placed => TumbleCalibration { placed: true, ..self },
            TumbleEvent::ReadDone(ok) => TumbleCalibration {
                taken: (self.taken + 1) as u32,
                successful: if ok {
                    (self.successful + 1) as u32
                } else {
                    self.successful
                },
                ..self
            },
            TumbleEvent::Averaged(avg) => TumbleCalibration {
                pose: (self.pose + 1) as usize,
                placed: false,
                taken: 0,
                successful: 0,
                extremes: self.extremes.with(avg),
            },
        }
    }

    pub fn new() -> (r: TumbleCalibration)
        ensures
            r.well_formed(),
            r == (TumbleCalibration {
                pose: 0,
                placed: false,
                taken: 0,
                successful: 0,
                extremes: Extremes::none(),
            }),
    {
        let low: Single = Single { bits: NEG_INFINITY_BITS };
        let high: Single = Single { bits: INFINITY_BITS };
        TumbleCalibration {
            pose: 0,
            placed: false,
            taken: 0,
            successful: 0,
            extremes: Extremes {
                max: Vector { x: low, y: low, z: low },
                min: Vector { x: high, y: high, z: high },
            },
        }
    }

    /// The action that is due.
    pub fn next(&self) -> (r: TumbleAction)
        ensures
            r == self.due(),
    {
        if self.pose >= POSE_COUNT {
            TumbleAction::Finished
        } else if !self.placed {
            let mode: CalibrationMode = match self.pose {
                0 => CalibrationMode::Level,
                1 => CalibrationMode::FrontUp,
                2 => CalibrationMode::BackUp,
                3 => CalibrationMode::RightSide,
                4 => CalibrationMode::LeftSide,
                _ => CalibrationMode::UpsideDown,
            };
            TumbleAction::Place(mode)
        } else if self.taken < SAMPLES {
            TumbleAction::Read
        } else if self.successful == 0 {
            TumbleAction::Aborted
        } else {
            TumbleAction::Average
        }
    }

    /// Notes that the action that was due has been performed.
    pub fn on_event(&mut self, event: TumbleEvent)
        requires
            old(self).well_formed(),
            old(self).expects(event),
        ensures
            final(self).well_formed(),
            *final(self) == old(self).after(event),
    {
        match event {
            TumbleEvent::Placed => {
                self.placed = true;
            },
            TumbleEvent::ReadDone(ok) => {
                self.taken = self.taken + 1;
                if ok {
                    self.successful = self.successful + 1;
                }
            },
            TumbleEvent::Averaged(avg) => {
                let max: Vector = self.extremes.max;
                let min: Vector = self.extremes.min;
                self.extremes = Extremes {
                    max: Vector {
                        x: raise(max.x, avg.x),
                        y: raise(max.y, avg.y),
                        z: raise(max.z, avg.z),
                    },
                    min: Vector {
                        x: lower(min.x, avg.x),
                        y: lower(min.y, avg.y),
                        z: lower(min.z, avg.z),
                    },
                };
                self.pose = self.pose + 1;
                self.placed = false;
                self.taken = 0;
                self.successful = 0;
            },
        }
    }

    /// The extremes over all poses, once all are through.
    pub fn result(&self) -> (r: Option<Extremes>)
        ensures
            r == if self.due() == TumbleAction::Finished {
                Some(self.extremes)
            } else {
                None
            },
    {
        if self.pose >= POSE_COUNT {
            Some(self.extremes)
        } else {
            None
        }
    }
}

/// The averages among a sequence of events, in order.
pub open spec fn averages_in(events: Seq<TumbleEvent>) -> Seq<Vector>
    decreases events.len(),
{
    if events.len() == 0 {
        Seq::empty()
    } else {
        match events.last() {
            TumbleEvent::Averaged(avg) => averages_in(events.drop_last()).push(avg),
            _ => averages_in(events.drop_last()),
        }
    }
}

/// Whether `states` is a calibration run: it starts at the beginning, and each
/// event answers the action that was due and leads on to the next state.
pub open spec fn is_run(states: Seq<TumbleCalibration>, events: Seq<TumbleEvent>) -> bool {
    &&& states.len() == events.len() + 1
    &&& states[0].pose == 0 && !states[0].placed && states[0].extremes == Extremes::none()
    &&& states[0].well_formed()
    &&& forall|i: int|
        0 <= i < events.len() ==> #[trigger] states[i].expects(events[i]) && states[i + 1]
            == states[i].after(events[i])
}

/// Whatever order readings succeed and fail in, the extremes of a run are the
/// extremes of the pose averages, of which there is one per finished pose.
pub proof fn law_run_collects_pose_averages(
    states: Seq<TumbleCalibration>,
    events: Seq<TumbleEvent>,
)
    requires
        is_run(states, events),
    ensures
        states.last().well_formed(),
        states.last().extremes == extremes_of(averages_in(events)),
        averages_in(events).len() == states.last().pose,
    decreases events.len(),
{
    if events.len() > 0 {
        let n = events.len() - 1;
        let states0 = states.drop_last();
        let events0 = events.drop_last();
        assert forall|i: int| 0 <= i < events0.len() implies #[trigger] states0[i].expects(
            events0[i],
        ) && states0[i + 1] == states0[i].after(events0[i]) by {
            assert(states[i].expects(events[i]));
        }
        law_run_collects_pose_averages(states0, events0);
        assert(states[n].expects(events[n]));
        assert(states0.last() == states[n]);
        assert(states.last() == states[n].after(events[n]));
        if let TumbleEvent::Averaged(avg) = events[n] {
            assert(averages_in(events) == averages_in(events0).push(avg));
            assert(averages_in(events).drop_last() =~= averages_in(events0));
        }
    }
}

/// Steps that a run has behind it, and steps of a complete run.
pub open spec fn steps_done(state: TumbleCalibration) -> int {
    state.pose * (SAMPLES + 2) + (if state.placed {
        1int
    } else {
        0
    }) + state.taken
}

/// A calibration always comes to an end: every step counts, and after six poses
/// of a thousand readings each there is none left. It ends early only in a pose
/// without a successful reading.
pub proof fn law_run_ends(state: TumbleCalibration, event: TumbleEvent)
    requires
        state.well_formed(),
        state.expects(event),
    ensures
        steps_done(state.after(event)) == steps_done(state) + 1,
        steps_done(state.after(event)) <= POSE_COUNT * (SAMPLES + 2),
        state.after(event).well_formed(),
        state.after(event).due() == TumbleAction::Finished <==> steps_done(state.after(event))
            == POSE_COUNT * (SAMPLES + 2),
{
}

/// The extremes bound every average that is a number, on every axis.
pub proof fn law_extremes_bound_averages(averages: Seq<Vector>, i: int)
    requires
        0 <= i < averages.len(),
    ensures
        !averages[i].x.nan() ==> extremes_of(averages).min.x.at_most(averages[i].x)
            && averages[i].x.at_most(extremes_of(averages).max.x),
        !averages[i].y.nan() ==> extremes_of(averages).min.y.at_most(averages[i].y)
            && averages[i].y.at_most(extremes_of(averages).max.y),
        !averages[i].z.nan() ==> extremes_of(averages).min.z.at_most(averages[i].z)
            && averages[i].z.at_most(extremes_of(averages).max.z),
    decreases averages.len(),
{
    lemma_extremes_are_numbers(averages.drop_last());
    if i < averages.len() - 1 {
        law_extremes_bound_averages(averages.drop_last(), i);
        assert(averages.drop_last()[i] == averages[i]);
    }
}

/// One axis of a vector: 0 for x, 1 for y, 2 for z.
pub open spec fn axis(v: Vector, n: int) -> Single {
    if n == 0 {
        v.x
    } else if n == 1 {
        v.y
    } else {
        v.z
    }
}

/// Whether every average is finite on every axis.
pub open spec fn all_finite(averages: Seq<Vector>) -> bool {
    forall|i: int|
        0 <= i < averages.len() ==> (#[trigger] averages[i]).x.finite() && averages[i].y.finite()
            && averages[i].z.finite()
}

/// Whether a value is an axis of one of the averages.
pub open spec fn occurs(averages: Seq<Vector>, n: int, v: Single) -> bool {
    exists|i: int| 0 <= i < averages.len() && axis(#[trigger] averages[i], n) == v
}

/// Of finite averages, each extreme is one of them.
pub proof fn law_extremes_are_averages(averages: Seq<Vector>, n: int)
    requires
        averages.len() > 0,
        all_finite(averages),
        0 <= n < 3,
    ensures
        occurs(averages, n, axis(extremes_of(averages).max, n)),
        occurs(averages, n, axis(extremes_of(averages).min, n)),
    decreases averages.len(),
{
    let before = averages.drop_last();
    let last = averages[averages.len() - 1];
    let a = axis(last, n);
    assert(a.finite());
    assert(occurs(averages, n, a));
    if before.len() == 0 {
        let low = Single { bits: NEG_INFINITY_BITS };
        let high = Single { bits: INFINITY_BITS };
        lemma_value_order(low, a);
        lemma_value_order(a, high);
        assert(extremes_of(before) == Extremes::none());
    } else {
        assert forall|i: int| 0 <= i < before.len() implies (#[trigger] before[i]).x.finite()
            && before[i].y.finite() && before[i].z.finite() by {
            assert(before[i] == averages[i]);
        }
        law_extremes_are_averages(before, n);
        lemma_occurs_later(averages, n, axis(extremes_of(before).max, n));
        lemma_occurs_later(averages, n, axis(extremes_of(before).min, n));
    }
}

/// What occurs among the averages but the last occurs among all.
proof fn lemma_occurs_later(averages: Seq<Vector>, n: int, v: Single)
    requires
        averages.len() > 0,
        occurs(averages.drop_last(), n, v),
    ensures
        occurs(averages, n, v),
{
    let before = averages.drop_last();
    let i = choose|i: int| 0 <= i < before.len() && axis(#[trigger] before[i], n) == v;
    assert(axis(averages[i], n) == v);
}

/// The order of the poses does not matter: the same finite averages in another
/// order have the same extremes, as numbers.
pub proof fn law_pose_order_does_not_matter(averages: Seq<Vector>, other: Seq<Vector>, n: int)
    requires
        averages.len() > 0,
        all_finite(averages),
        forall|v: Vector| #[trigger] averages.contains(v) <==> other.contains(v),
        0 <= n < 3,
    ensures
        axis(extremes_of(averages).max, n).equals(axis(extremes_of(other).max, n)),
        axis(extremes_of(averages).min, n).equals(axis(extremes_of(other).min, n)),
{
    assert(averages.contains(averages[0]));
    assert(other.len() > 0);
    assert forall|i: int| 0 <= i < other.len() implies (#[trigger] other[i]).x.finite()
        && other[i].y.finite() && other[i].z.finite() by {
        assert(other.contains(other[i]));
        assert(averages.contains(other[i]));
    }
    lemma_extremes_within(averages, other, n);
    assert forall|v: Vector| #[trigger] other.contains(v) implies averages.contains(v) by {}
    lemma_extremes_within(other, averages, n);
}

/// The extremes of some finite averages lie within those of any that hold them.
proof fn lemma_extremes_within(inner: Seq<Vector>, outer: Seq<Vector>, n: int)
    requires
        inner.len() > 0,
        all_finite(inner),
        all_finite(outer),
        forall|v: Vector| #[trigger] inner.contains(v) ==> outer.contains(v),
        0 <= n < 3,
    ensures
        axis(extremes_of(inner).max, n).at_most(axis(extremes_of(outer).max, n)),
        axis(extremes_of(outer).min, n).at_most(axis(extremes_of(inner).min, n)),
{
    law_extremes_are_averages(inner, n);
    let max = axis(extremes_of(inner).max, n);
    let min = axis(extremes_of(inner).min, n);
    let i = choose|i: int| 0 <= i < inner.len() && axis(#[trigger] inner[i], n) == max;
    let j = choose|j: int| 0 <= j < inner.len() && axis(#[trigger] inner[j], n) == min;
    assert(inner.contains(inner[i]) && inner.contains(inner[j]));
    let p = choose|p: int| 0 <= p < outer.len() && outer[p] == inner[i];
    let q = choose|q: int| 0 <= q < outer.len() && outer[q] == inner[j];
    assert(outer[p].x.finite() && outer[q].x.finite());
    law_extremes_bound_averages(outer, p);
    law_extremes_bound_averages(outer, q);
}

/// The extremes are never NaNs.
proof fn lemma_extremes_are_numbers(averages: Seq<Vector>)
    ensures
        !extremes_of(averages).max.x.nan() && !extremes_of(averages).min.x.nan(),
        !extremes_of(averages).max.y.nan() && !extremes_of(averages).min.y.nan(),
        !extremes_of(averages).max.z.nan() && !extremes_of(averages).min.z.nan(),
    decreases averages.len(),
{
    if averages.len() > 0 {
        lemma_extremes_are_numbers(averages.drop_last());
    } else {
        assert(!(Single { bits: INFINITY_BITS }).nan());
        assert(!(Single { bits: NEG_INFINITY_BITS }).nan());
    }
}

/// How a pass of a calibration session went.
#[derive(Clone, Copy, Debug, PartialEq, Eq, Structural)]
pub enum PassResult {
    /// there was nothing to save
    Aborted,
    /// the result could not be written to flash
    NotSaved,
    Saved,
}

/// How the accelerometer or magnetometer pass went: whether it produced a result,
/// and whether that was saved.
pub fn pass_result(produced: bool, saved: bool) -> (r: PassResult)
    ensures
        r == if !produced {
            PassResult::Aborted
        } else if !saved {
            PassResult::NotSaved
        } else {
            PassResult::Saved
        },
{
    if !produced {
        PassResult::Aborted
    } else if !saved {
        PassResult::NotSaved
    } else {
        PassResult::Saved
    }
}

/// Whether the magnetometer pass is to run: only after an accelerometer pass
/// that was saved, on a drone that has a magnetometer.
pub fn mag_pass_due(accel: PassResult, has_mag: bool) -> (r: bool)
    ensures
        r == (accel == PassResult::Saved && has_mag),
{
    accel == PassResult::Saved && has_mag
}

/// What a session reports at its end, given its passes: it succeeded exactly if
/// every pass it ran was saved.
pub fn session_report(accel: PassResult, mag: Option<PassResult>) -> (r: CalibrationMode)
    ensures
        r == if accel == PassResult::Saved && (mag matches Some(m) ==> m == PassResult::Saved) {
            CalibrationMode::Ended
        } else {
            CalibrationMode::Failed
        },
{
    let mag_ok: bool = match mag {
        Some(m) => m == PassResult::Saved,
        None => true,
    };
    if accel == PassResult::Saved && mag_ok {
        CalibrationMode::Ended
    } else {
        CalibrationMode::Failed
    }
}

/// What is due: the poses in their order, each taken up first, then read a thousand
/// times, then averaged if a reading succeeded; without one the calibration ends, and
/// after the sixth pose it is finished. Only then is there a result, the extremes.
pub proof fn law_poses_are_gone_through_in_order(
    state: TumbleCalibration,
    r: TumbleAction,
    result: Option<Extremes>,
)
    requires
        call_ensures(TumbleCalibration::next, (&state,), r),
        call_ensures(TumbleCalibration::result, (&state,), result),
    ensures
        r == TumbleAction::Place(CalibrationMode::Level) <==> state.pose == 0 && !state.placed,
        r == TumbleAction::Place(CalibrationMode::FrontUp) <==> state.pose == 1 && !state.placed,
        r == TumbleAction::Place(CalibrationMode::BackUp) <==> state.pose == 2 && !state.placed,
        r == TumbleAction::Place(CalibrationMode::RightSide) <==> state.pose == 3 && !state.placed,
        r == TumbleAction::Place(CalibrationMode::LeftSide) <==> state.pose == 4 && !state.placed,
        r == TumbleAction::Place(CalibrationMode::UpsideDown) <==> state.pose == 5
            && !state.placed,
        r == TumbleAction::Read <==> state.pose < 6 && state.placed && state.taken < 1000,
        r == TumbleAction::Average <==> state.pose < 6 && state.placed && state.taken >= 1000
            && state.successful > 0,
        r == TumbleAction::Aborted <==> state.pose < 6 && state.placed && state.taken >= 1000
            && state.successful == 0,
        r == TumbleAction::Finished <==> state.pose >= 6,
        result is Some <==> state.pose >= 6,
        result matches Some(extremes) ==> extremes.max == state.extremes.max && extremes.min
            == state.extremes.min,
{
}

/// Taking up a pose only marks it as taken up. A reading counts, and counts as
/// successful if it was; nothing else changes.
pub proof fn law_readings_are_counted(state: &mut TumbleCalibration, event: TumbleEvent)
    requires
        old(state).taken < 1000,
        old(state).successful <= old(state).taken,
        call_ensures(TumbleCalibration::on_event, (state, event), ()),
        !(event is Averaged),
    ensures
        event is Placed ==> final(state).placed && final(state).taken == old(state).taken
            && final(state).successful == old(state).successful,
        event matches TumbleEvent::ReadDone(ok) ==> {
            &&& final(state).placed == old(state).placed
            &&& final(state).taken == old(state).taken + 1
            &&& ok ==> final(state).successful == old(state).successful + 1
            &&& !ok ==> final(state).successful == old(state).successful
        },
        final(state).pose == old(state).pose,
        final(state).extremes == old(state).extremes,
{
}

/// An average ends its pose: the next one starts with nothing taken, and on every
/// axis the maximum is raised to the average if that is larger, and the minimum
/// lowered if that is smaller; an axis that is no number changes neither.
pub proof fn law_average_widens_the_extremes(state: &mut TumbleCalibration, avg: Vector, n: int)
    requires
        old(state).pose < 6,
        call_ensures(TumbleCalibration::on_event, (state, TumbleEvent::Averaged(avg)), ()),
        0 <= n < 3,
    ensures
        final(state).pose == old(state).pose + 1,
        !final(state).placed && final(state).taken == 0 && final(state).successful == 0,
        ({
            let (a, max, min, new_max, new_min) = if n == 0 {
                (
                    avg.x,
                    old(state).extremes.max.x,
                    old(state).extremes.min.x,
                    final(state).extremes.max.x,
                    final(state).extremes.min.x,
                )
            } else if n == 1 {
                (
                    avg.y,
                    old(state).extremes.max.y,
                    old(state).extremes.min.y,
                    final(state).extremes.max.y,
                    final(state).extremes.min.y,
                )
            } else {
                (
                    avg.z,
                    old(state).extremes.max.z,
                    old(state).extremes.min.z,
                    final(state).extremes.max.z,
                    final(state).extremes.min.z,
                )
            };
            &&& a.nan() ==> new_max == max && new_min == min
            &&& !a.nan() && !max.nan() && a.value() > max.value() ==> new_max == a
            &&& !a.nan() && !max.nan() && a.value() <= max.value() ==> new_max == max
            &&& !a.nan() && !min.nan() && a.value() < min.value() ==> new_min == a
            &&& !a.nan() && !min.nan() && a.value() >= min.value() ==> new_min == min
        }),
{
}

/// A calibration starts at the first pose with nothing taken; on every axis the
/// maximum starts at minus infinity and the minimum at infinity. Without one, the
/// correction subtracts nothing and divides by one.
pub proof fn law_calibration_starts_from_nothing(r: TumbleCalibration, none: AccelBias)
    requires
        call_ensures(TumbleCalibration::new, (), r),
        call_ensures(AccelBias::default, (), none),
    ensures
        r.pose == 0 && !r.placed && r.taken == 0 && r.successful == 0,
        r.extremes.max.x.bits == 0xff80_0000 && r.extremes.max.y.bits == 0xff80_0000
            && r.extremes.max.z.bits == 0xff80_0000,
        r.extremes.min.x.bits == 0x7f80_0000 && r.extremes.min.y.bits == 0x7f80_0000
            && r.extremes.min.z.bits == 0x7f80_0000,
        none.bias.x.bits == 0 && none.bias.y.bits == 0 && none.bias.z.bits == 0,
        none.scale.x.bits == 0x3f80_0000 && none.scale.y.bits == 0x3f80_0000
            && none.scale.z.bits == 0x3f80_0000,
{
}

/// A pass is saved exactly if it produced a result that was saved, and aborted exactly
/// if it produced none. The magnetometer pass follows a saved accelerometer pass on a
/// drone that has a magnetometer. A session has ended well exactly if no pass that ran
/// failed to be saved; otherwise it failed.
pub proof fn law_session_reports_what_was_saved(
    produced: bool,
    saved: bool,
    pass: PassResult,
    accel: PassResult,
    has_mag: bool,
    mag_due: bool,
    mag: Option<PassResult>,
    report: CalibrationMode,
)
    requires
        call_ensures(pass_result, (produced, saved), pass),
        call_ensures(mag_pass_due, (accel, has_mag), mag_due),
        call_ensures(session_report, (accel, mag), report),
    ensures
        pass == PassResult::Saved <==> produced && saved,
        pass == PassResult::Aborted <==> !produced,
        mag_due <==> accel == PassResult::Saved && has_mag,
        report == CalibrationMode::Ended <==> accel == PassResult::Saved && mag != Some(
            PassResult::Aborted,
        ) && mag != Some(PassResult::NotSaved),
        report == CalibrationMode::Ended || report == CalibrationMode::Failed,
{
}

/// Every mode has a prompt of its own.
pub proof fn law_prompts_tell_modes_apart(
    a: CalibrationMode,
    b: CalibrationMode,
    first: &'static str,
    second: &'static str,
)
    requires
        call_ensures(CalibrationMode::name, (&a,), first),
        call_ensures(CalibrationMode::name, (&b,), second),
    ensures
        first@ == second@ <==> a == b,
{
    reveal_strlit("level");
    reveal_strlit("front side up");
    reveal_strlit("back side up");
    reveal_strlit("right side up");
    reveal_strlit("left side up");
    reveal_strlit("upside down");
    reveal_strlit("rotate");
    reveal_strlit("ended");
    reveal_strlit("failed");
    assert("level"@[0] == 'l' && "level"@[2] == 'v');
    assert("left side up"@[0] == 'l' && "left side up"@[2] == 'f');
    assert("right side up"@[0] == 'r' && "right side up"@[1] == 'i');
    assert("rotate"@[0] == 'r' && "rotate"@[1] == 'o');
    assert("front side up"@[0] == 'f' && "front side up"@[1] == 'r');
    assert("failed"@[0] == 'f' && "failed"@[1] == 'a');
    assert("back side up"@[0] == 'b');
    assert("upside down"@[0] == 'u');
    assert("ended"@[0] == 'e');
}

} // verus!
