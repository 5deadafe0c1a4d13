//! Magnetometer calibration: which samples to keep, and when to fit.
//!
//! The calibrator keeps the raw samples that lie farthest from one another.
//! Until its buffer is full it keeps every usable sample; from then on a new
//! sample replaces the one with the smallest mean distance to its nearest
//! neighbours, if it lies farther from its own. Distances, means and the
//! least-squares fit are computed by the caller.

use crate::rounding::root_like;
use crate::single::{Single, Vector};
use vstd::prelude::*;
use vstd::relations::{sorted_by, total_ordering};
use vstd::seq_lib::lemma_sorted_unique;

verus! {

/// Bit pattern of 1.
pub const ONE_BITS: u32 = 0x3f80_0000;

/// Neighbours taken into account unless configured otherwise.
pub const DEFAULT_NEIGHBORS: usize = 2;

/// Samples after which a calibration session gives up.
pub const MAX_SAMPLES: u32 = 3000;

/// Samples that a calibration session keeps.
pub const SESSION_SAMPLES: usize = 30;

/// Bit pattern of the pre-scaler of a session: 200.
pub const SESSION_PRE_SCALER_BITS: u32 = 0x4348_0000;

/// Time between two samples of a session in milliseconds.
pub const SAMPLE_PERIOD_MS: u64 = 50;

/// Bit pattern of the mean distance that a session asks for before it fits: 0.035,
/// where the distances of a sample to its neighbours are averaged over the whole
/// buffer rather than over the neighbours.
pub const MIN_MEAN_DISTANCE_BITS: u32 = 0x3d0f_5c29;

/// The total order on bit patterns.
pub open spec fn total_leq() -> spec_fn(Single, Single) -> bool {
    |a: Single, b: Single| a.total_rank() <= b.total_rank()
}

/// Distances from the nearest to the farthest.
pub open spec fn ranked(distances: Seq<Single>) -> Seq<Single> {
    distances.sort_by(total_leq())
}

/// Whether `i` is the first index at which `means` is lowest.
pub open spec fn is_lowest(means: Seq<Single>, i: int) -> bool {
    &&& 0 <= i < means.len()
    &&& forall|j: int|
        0 <= j < means.len() ==> means[i].total_rank() <= (#[trigger] means[j]).total_rank()
    &&& forall|j: int| 0 <= j < i ==> means[i].total_rank() < (#[trigger] means[j]).total_rank()
}

proof fn lemma_total_leq_is_total()
    ensures
        total_ordering(total_leq()),
{
}

/// Sorts distances from the nearest to the farthest.
fn rank(distances: &Vec<Single>) -> (r: Vec<Single>)
    ensures
        r@ == ranked(distances@),
{
    let mut out: Vec<Single> = Vec::new();
    let mut i: usize = 0;
    assert(distances@.take(0) =~= out@);
    while i < distances.len()
        invariant
            i <= distances@.len(),
            out@.len() == i,
            sorted_by(out@, total_leq()),
            out@.to_multiset() == distances@.take(i as int).to_multiset(),
        decreases distances@.len() - i,
    {
        let x: Single = distances[i];
        let mut at: usize = out.len();
        while at > 0 && x.total_lt(out[at - 1])
            invariant
                at <= out@.len(),
                forall|j: int|
                    at <= j < out@.len() ==> x.total_rank() < (#[trigger] out@[j]).total_rank(),
            decreases at,
        {
            at -= 1;
        }
        let ghost before = out@;
        out.insert(at, x);
        i += 1;
        proof {
            broadcast use vstd::seq_lib::group_to_multiset_ensures;
            broadcast use vstd::multiset::group_multiset_axioms;

            assert(out@.remove(at as int) =~= before);
            assert(out@.contains(out@[at as int]));
            assert(out@.to_multiset() =~= before.to_multiset().insert(x));
            assert(distances@.take(i as int) =~= distances@.take(i - 1).push(x));
            let leq = total_leq();
            assert forall|a: int, b: int| 0 <= a < b < out@.len() implies #[trigger] leq(
                out@[a],
                out@[b],
            ) by {
                let oa = if a > at { a - 1 } else { a };
                let ob = if b > at { b - 1 } else { b };
                if a != at && b != at {
                    assert(leq(before[oa], before[ob]));
                } else if b == at {
                    if at >= 1 && a < at - 1 {
                        assert(leq(before[a], before[at - 1]));
                    }
                }
            }
        }
    }
    proof {
        lemma_total_leq_is_total();
        assert(distances@.take(i as int) =~= distances@);
        distances@.lemma_sort_by_ensures(total_leq());
        lemma_sorted_unique(out@, ranked(distances@), total_leq());
    }
    out
}

/// Finds the first lowest mean.
fn lowest(means: &Vec<Single>) -> (r: usize)
    requires
        means@.len() > 0,
    ensures
        is_lowest(means@, r as int),
{
    let mut best: usize = 0;
    let mut i: usize = 1;
    while i < means.len()
        invariant
            0 < i <= means@.len(),
            best < i,
            forall|j: int|
                0 <= j < i ==> means@[best as int].total_rank() <= (
                #[trigger] means@[j]).total_rank(),
            forall|j: int|
                0 <= j < best ==> means@[best as int].total_rank() < (
                #[trigger] means@[j]).total_rank(),
        decreases means@.len() - i,
    {
        if means[i].total_lt(means[best]) {
            best = i;
        }
        i += 1;
    }
    best
}

/// How far apart the kept samples and a new one lie, as computed by the caller.
pub struct Spread {
    /// mean distance of each kept sample to its nearest neighbours
    pub row_means: Vec<Single>,
    /// mean of those
    pub overall: Single,
    /// mean distance of the new sample to its nearest neighbours
    pub candidate: Single,
}

/// A buffer of the `N` most useful samples.
pub struct MagCalibrator<const N: usize> {
    /// the kept samples, divided by the pre-scaler; rows not filled yet are all ones
    pub samples: Vec<Vector>,
    /// number of rows that hold a sample
    pub filled: usize,
    /// overall mean distance when it was last computed
    pub mean_distance: Single,
    /// divisor applied to raw samples
    pub pre_scaler: Single,
    /// number of neighbours a distance is averaged over
    pub k: usize,
}

/// Whether every component can be used: neither infinite nor a NaN.
pub open spec fn usable(x: Vector) -> bool {
    x.x.finite() && x.y.finite() && x.z.finite()
}

/// The vector with the components of an array.
pub open spec fn vector_of(a: Seq<Single>) -> Vector {
    Vector { x: a[0], y: a[1], z: a[2] }
}

/// How a new sample changes the calibrator: a sample that is not usable not at
/// all, one that finds room takes the next row, and any other takes the row with
/// the lowest mean distance if its own is larger.
pub open spec fn evaluated<const N: usize>(
    before: MagCalibrator<N>,
    x: Vector,
    scaled: Vector,
    spread: Spread,
    after: MagCalibrator<N>,
) -> bool {
    &&& after.k == before.k
    &&& after.pre_scaler == before.pre_scaler
    &&& if !usable(x) {
        &&& after.samples@ == before.samples@
        &&& after.filled == before.filled
        &&& after.mean_distance == before.mean_distance
    } else if before.filled < N {
        &&& after.samples@ == before.samples@.update(before.filled as int, scaled)
        &&& after.filled == before.filled + 1
        &&& after.mean_distance == before.mean_distance
    } else {
        &&& after.filled == before.filled
        &&& after.mean_distance == spread.overall
        &&& exists|low: int| #[trigger]
            is_lowest(spread.row_means@, low) && after.samples@
                == if spread.row_means@[low].below(spread.candidate) {
                before.samples@.update(low, scaled)
            } else {
                before.samples@
            }
    }
}

/// Parameters of a calibration: offset and scale per axis.
#[derive(Clone, Copy, Debug)]
pub struct Fit {
    pub offset: Vector,
    pub scale: Vector,
}

impl Fit {
    /// Whether every parameter is finite.
    pub open spec fn finite(self) -> bool {
        &&& self.offset.x.finite() && self.offset.y.finite() && self.offset.z.finite()
        &&& self.scale.x.finite() && self.scale.y.finite() && self.scale.z.finite()
    }
}

/// The calibration that a fit gives: none if there is no fit or one of its
/// parameters is not finite, else the fit with the pre-scaler undone.
pub open spec fn calibration_of(fit: Option<Fit>, unscaled: Fit) -> Option<Fit> {
    if fit matches Some(f) && f.finite() {
        Some(unscaled)
    } else {
        None
    }
}

/// Without a pre-scaler a calibration is finite and its scale, which is made of
/// the square roots of `squares`, is not negative. There is one exactly if every
/// parameter of the fit is finite.
pub proof fn law_calibration_is_valid(fit: Fit, squares: Vector)
    requires
        root_like(squares.x, fit.scale.x),
        root_like(squares.y, fit.scale.y),
        root_like(squares.z, fit.scale.z),
    ensures
        calibration_of(Some(fit), fit) is Some <==> fit.finite(),
        calibration_of(None, fit) is None,
        calibration_of(Some(fit), fit) matches Some(c) ==> {
            &&& c.finite()
            &&& (Single { bits: 0 }).at_most(c.scale.x)
            &&& (Single { bits: 0 }).at_most(c.scale.y)
            &&& (Single { bits: 0 }).at_most(c.scale.z)
        },
{
    assert(!(Single { bits: 0 }).nan());
}

impl<const N: usize> Default for MagCalibrator<N> {
    fn default() -> (r: MagCalibrator<N>)
        ensures
            r.well_formed(),
            forall|i: int|
                0 <= i < N ==> (#[trigger] r.samples@[i]) == (Vector {
                    x: Single { bits: ONE_BITS },
                    y: Single { bits: ONE_BITS },
                    z: Single { bits: ONE_BITS },
                }),
            r.filled == 0,
            r.mean_distance == (Single { bits: 0 }),
            r.pre_scaler == (Single { bits: ONE_BITS }),
            r.k == DEFAULT_NEIGHBORS,
    {
        let one: Single = Single { bits: ONE_BITS };
        let mut samples: Vec<Vector> = Vec::new();
        let mut i: usize = 0;
        while i < N
            invariant
                i <= N,
                samples@.len() == i,
                one == (Single { bits: ONE_BITS }),
                forall|j: int|
                    0 <= j < i ==> (#[trigger] samples@[j]) == (Vector { x: one, y: one, z: one }),
            decreases N - i,
        {
            samples.push(Vector { x: one, y: one, z: one });
            i += 1;
        }
        MagCalibrator {
            samples,
            filled: 0,
            mean_distance: Single { bits: 0 },
            pre_scaler: one,
            k: DEFAULT_NEIGHBORS,
        }
    }
}

impl<const N: usize> MagCalibrator<N> {
    /// The buffer has its `N` rows and counts no more of them as filled.
    pub open spec fn well_formed(self) -> bool {
        self.samples@.len() == N && self.filled <= N
    }

    /// An empty calibrator.
    pub fn new() -> (r: MagCalibrator<N>)
        ensures
            r.well_formed(),
            forall|i: int|
                0 <= i < N ==> (#[trigger] r.samples@[i]) == (Vector {
                    x: Single { bits: ONE_BITS },
                    y: Single { bits: ONE_BITS },
                    z: Single { bits: ONE_BITS },
                }),
            r.filled == 0,
            r.mean_distance == (Single { bits: 0 }),
            r.pre_scaler == (Single { bits: ONE_BITS }),
            r.k == DEFAULT_NEIGHBORS,
    {
        Self::default()
    }

    /// Sets the number of neighbours that a distance is averaged over.
    pub fn num_neighbors(self, k: usize) -> (r: MagCalibrator<N>)
        ensures
            r == (MagCalibrator { k, ..self }),
    {
        MagCalibrator {
            samples: self.samples,
            filled: self.filled,
            mean_distance: self.mean_distance,
            pre_scaler: self.pre_scaler,
            k,
        }
    }

    /// Sets the divisor for raw samples. A value near the expected field
    /// strength keeps the fit well conditioned.
    pub fn pre_scaler(self, pre_scaler: Single) -> (r: MagCalibrator<N>)
        ensures
            r == (MagCalibrator { pre_scaler, ..self }),
    {
        MagCalibrator {
            samples: self.samples,
            filled: self.filled,
            mean_distance: self.mean_distance,
            pre_scaler,
            k: self.k,
        }
    }

    /// Whether the next usable sample has to compete with those already kept.
    pub fn is_full(&self) -> (r: bool)
        ensures
            r == (self.filled >= N),
    {
        self.filled >= N
    }

    /// For a kept sample: the distances to itself and its `k` nearest neighbours,
    /// nearest first, out of the distances to all kept samples.
    pub fn nearest(&self, distances: &Vec<Single>) -> (r: Vec<Single>)
        requires
            self.k < usize::MAX,
        ensures
            r@ == ranked(distances@).take(
                if self.k + 1 <= distances@.len() {
                    self.k + 1
                } else {
                    distances@.len() as int
                },
            ),
    {
        let mut all: Vec<Single> = rank(distances);
        proof {
            lemma_total_leq_is_total();
            distances@.lemma_sort_by_ensures(total_leq());
            distances@.to_multiset_ensures();
            ranked(distances@).to_multiset_ensures();
        }
        all.truncate(self.k + 1);
        assert(all@ =~= ranked(distances@).take(all@.len() as int));
        all
    }

    /// For a sample that is not kept: the distances to its `k` nearest
    /// neighbours, nearest first, out of the distances to all kept samples.
    pub fn nearest_to_new(&self, distances: &Vec<Single>) -> (r: Vec<Single>)
        ensures
            r@ == ranked(distances@).take(
                if self.k <= distances@.len() {
                    self.k as int
                } else {
                    distances@.len() as int
                },
            ),
    {
        let mut all: Vec<Single> = rank(distances);
        proof {
            lemma_total_leq_is_total();
            distances@.lemma_sort_by_ensures(total_leq());
            distances@.to_multiset_ensures();
            ranked(distances@).to_multiset_ensures();
        }
        all.truncate(self.k);
        assert(all@ =~= ranked(distances@).take(all@.len() as int));
        all
    }

    /// Considers a new sample.
    ///
    /// `x` is the raw sample and `scaled` its quotient by the pre-scaler.
    /// `spread` is used only when the buffer is full. A sample with a component
    /// that is infinite or a NaN is ignored.
    pub fn evaluate_sample_vec(&mut self, x: Vector, scaled: Vector, spread: &Spread)
        requires
            old(self).well_formed(),
            usable(x) && old(self).filled == N ==> N > 0 && spread.row_means@.len() == N,
        ensures
            final(self).well_formed(),
            evaluated(*old(self), x, scaled, *spread, *final(self)),
    {
        if !(x.x.is_finite() && x.y.is_finite() && x.z.is_finite()) {
            return;
        }
        if self.filled < N {
            let at: usize = self.filled;
            self.samples.set(at, scaled);
            self.filled = at + 1;
        } else {
            let low: usize = lowest(&spread.row_means);
            self.mean_distance = spread.overall;
            if spread.row_means[low].lt(spread.candidate) {
                self.samples.set(low, scaled);
            }
            assert(is_lowest(spread.row_means@, low as int));
        }
    }

    /// Considers a new sample given as an array, see [`Self::evaluate_sample_vec`].
    pub fn evaluate_sample(&mut self, x: [Single; 3], scaled: [Single; 3], spread: &Spread)
        requires
            old(self).well_formed(),
            usable(vector_of(x@)) && old(self).filled == N ==> N > 0 && spread.row_means@.len()
                == N,
        ensures
            final(self).well_formed(),
            evaluated(*old(self), vector_of(x@), vector_of(scaled@), *spread, *final(self)),
    {
        self.evaluate_sample_vec(
            Vector { x: x[0], y: x[1], z: x[2] },
            Vector { x: scaled[0], y: scaled[1], z: scaled[2] },
            spread,
        )
    }

    /// Turns a least-squares fit into a calibration. `fit` is `None` when the
    /// samples admit no fit; `unscaled` is the fit with the pre-scaler undone.
    /// There is a calibration exactly when all parameters of the fit are finite.
    pub fn perform_calibration(&self, fit: Option<Fit>, unscaled: Fit) -> (r: Option<Fit>)
        ensures
            r == calibration_of(fit, unscaled),
    {
        match fit {
            Some(f) => {
                if f.offset.x.is_finite() && f.offset.y.is_finite() && f.offset.z.is_finite()
                    && f.scale.x.is_finite() && f.scale.y.is_finite() && f.scale.z.is_finite() {
                    Some(unscaled)
                } else {
                    None
                }
            },
            None => None,
        }
    }

    /// Mean distance between the kept samples, zero until the buffer is full.
    pub fn get_mean_distance(&self) -> (r: Single)
        ensures
            r == if self.filled < N {
                Single { bits: 0 }
            } else {
                self.mean_distance
            },
    {
        if self.filled < N {
            Single { bits: 0 }
        } else {
            self.mean_distance
        }
    }
}

/// What happened in a calibration session.
#[derive(Clone, Copy, Debug)]
pub enum MagEvent {
    Started,
    /// a read failed
    ReadFailed,
    /// a sample has been considered: the mean distance after it, and the fit
    /// through the kept samples, which matters only once they cover enough
    Sampled { mean_distance: Single, fit: Option<Fit> },
}

/// What a calibration session does next.
#[derive(Clone, Copy, Debug)]
pub enum MagAction {
    /// read one more sample
    Read,
    /// calibrated
    Done(Fit),
    /// out of samples
    GaveUp,
}

/// Whether a mean distance is large enough to attempt a fit.
pub open spec fn covered(mean_distance: Single) -> bool {
    (Single { bits: MIN_MEAN_DISTANCE_BITS }).below(mean_distance)
}

/// What a session that has asked for `taken` samples does on an event: it ends
/// with the first fit once coverage is reached, else goes on while samples are
/// left.
pub open spec fn session_action(taken: int, event: MagEvent) -> MagAction {
    match event {
        MagEvent::Sampled { mean_distance, fit: Some(fit) } if covered(mean_distance) =>
            MagAction::Done(fit),
        _ => if taken < MAX_SAMPLES {
            MagAction::Read
        } else {
            MagAction::GaveUp
        },
    }
}

/// Progress of a calibration session.
pub struct MagSession {
    /// samples asked for so far
    pub taken: u32,
}

impl MagSession {
    pub fn new() -> (r: MagSession)
        ensures
            r.taken == 0,
    {
        MagSession { taken: 0 }
    }

    /// Takes in an event and says what to do next.
    pub fn on_event(&mut self, event: MagEvent) -> (r: MagAction)
        requires
            old(self).taken <= MAX_SAMPLES,
        ensures
            r == session_action(old(self).taken as int, event),
            r matches MagAction::Done(c) ==> event matches MagEvent::Sampled {
                fit: Some(f),
                ..
            } && c.offset == f.offset && c.scale == f.scale,
            final(self).taken == if r is Read {
                old(self).taken + 1
            } else {
                old(self).taken as int
            },
            final(self).taken <= MAX_SAMPLES,
    {
        if let MagEvent::Sampled { mean_distance, fit: Some(fit) } = event {
            if Self::coverage_reached(mean_distance) {
                return MagAction::Done(fit);
            }
        }
        if self.taken < MAX_SAMPLES {
            self.taken = self.taken + 1;
            MagAction::Read
        } else {
            MagAction::GaveUp
        }
    }

    /// Whether the samples are spread out enough to attempt a fit.
    pub fn coverage_reached(mean_distance: Single) -> (r: bool)
        ensures
            r == covered(mean_distance),
    {
        Single { bits: MIN_MEAN_DISTANCE_BITS }.lt(mean_distance)
    }
}

/// Whether a session that starts afresh asks for another sample after each of
/// these events.
pub open spec fn keeps_reading(events: Seq<MagEvent>) -> bool {
    forall|i: int|
        0 <= i < events.len() ==> #[trigger] session_action(i, events[i]) is Read
}

/// A session comes to an end: it asks for no more than its number of samples,
/// and as long as it asks none of them has given a fit with enough coverage.
pub proof fn law_session_ends(events: Seq<MagEvent>)
    requires
        keeps_reading(events),
    ensures
        events.len() <= MAX_SAMPLES,
        forall|i: int|
            0 <= i < events.len() ==> !((#[trigger] events[i]) matches MagEvent::Sampled {
                mean_distance,
                fit: Some(_),
            } && covered(mean_distance)),
{
    if events.len() > MAX_SAMPLES {
        assert(session_action(MAX_SAMPLES as int, events[MAX_SAMPLES as int]) is Read);
    }
    assert forall|i: int| 0 <= i < events.len() implies !((#[trigger]
    events[i]) matches MagEvent::Sampled { mean_distance, fit: Some(_) } && covered(
        mean_distance,
    )) by {
        assert(session_action(i, events[i]) is Read);
    }
}

/// The first lowest mean has one place only, so which row a sample replaces is
/// settled.
pub proof fn law_lowest_is_unique(means: Seq<Single>, i: int, j: int)
    requires
        is_lowest(means, i),
        is_lowest(means, j),
    ensures
        i == j,
{
    if i < j {
        assert(means[j].total_rank() < means[i].total_rank());
    } else if j < i {
        assert(means[i].total_rank() < means[j].total_rank());
    }
}

/// Number of usable samples in a sequence.
pub open spec fn usable_count(xs: Seq<Vector>) -> nat
    decreases xs.len(),
{
    if xs.len() == 0 {
        0
    } else {
        usable_count(xs.drop_last()) + if usable(xs.last()) {
            1nat
        } else {
            0
        }
    }
}

/// A history of a calibrator: `states[i + 1]` follows from `states[i]` by
/// considering `xs[i]`.
pub open spec fn is_history<const N: usize>(
    states: Seq<MagCalibrator<N>>,
    xs: Seq<Vector>,
    scaled: Seq<Vector>,
    spreads: Seq<Spread>,
) -> bool {
    &&& states.len() == xs.len() + 1
    &&& scaled.len() == xs.len()
    &&& spreads.len() == xs.len()
    &&& forall|i: int|
        0 <= i < xs.len() ==> #[trigger] evaluated(
            states[i],
            xs[i],
            scaled[i],
            spreads[i],
            states[i + 1],
        )
}

/// Starting empty, the buffer holds as many samples as were usable until it is
/// full, and stays full from then on. So no mean distance is reported before
/// `N` usable samples have come in.
pub proof fn law_buffer_counts_usable_samples<const N: usize>(
    states: Seq<MagCalibrator<N>>,
    xs: Seq<Vector>,
    scaled: Seq<Vector>,
    spreads: Seq<Spread>,
)
    requires
        is_history(states, xs, scaled, spreads),
        states[0].filled == 0,
    ensures
        states.last().filled == if usable_count(xs) <= N {
            usable_count(xs) as int
        } else {
            N as int
        },
    decreases xs.len(),
{
    if xs.len() > 0 {
        let n = xs.len() - 1;
        let states0 = states.drop_last();
        let xs0 = xs.drop_last();
        let scaled0 = scaled.drop_last();
        let spreads0 = spreads.drop_last();
        assert forall|i: int| 0 <= i < xs0.len() implies #[trigger] evaluated(
            states0[i],
            xs0[i],
            scaled0[i],
            spreads0[i],
            states0[i + 1],
        ) by {
            assert(evaluated(states[i], xs[i], scaled[i], spreads[i], states[i + 1]));
        }
        law_buffer_counts_usable_samples(states0, xs0, scaled0, spreads0);
        assert(evaluated(states[n], xs[n], scaled[n], spreads[n], states[n + 1]));
    }
}

/// A session is calibrated by the fit it was handed and by nothing else: it is done
/// exactly on a sample with a fit once the mean distance is above 0.035, an infinite
/// one included, and then its offset and scale are those of the fit. Nothing more
/// is asked for after that.
pub proof fn law_session_ends_with_the_fit(session: &mut MagSession, event: MagEvent, r: MagAction)
    requires
        call_ensures(MagSession::on_event, (session, event), r),
    ensures
        r matches MagAction::Done(c) ==> event matches MagEvent::Sampled {
            mean_distance,
            fit: Some(f),
        } && {
            &&& 0x3d0f_5c29 < mean_distance.bits <= 0x7f80_0000
            &&& c.offset == f.offset
            &&& c.scale == f.scale
        },
        event matches MagEvent::Sampled { mean_distance, fit: Some(f) } ==> (0x3d0f_5c29
            < mean_distance.bits <= 0x7f80_0000 ==> r == MagAction::Done(
            Fit { offset: f.offset, scale: f.scale },
        )),
        r is Done ==> final(session).taken == old(session).taken,
{
    if let MagEvent::Sampled { mean_distance, .. } = event {
        crate::single::lemma_value_order(Single { bits: MIN_MEAN_DISTANCE_BITS }, mean_distance);
    }
}

/// As long as a session is not done it asks for another sample, counting them, and
/// gives up when three thousand have been asked for. It starts having asked for none.
pub proof fn law_session_asks_for_three_thousand(
    session: &mut MagSession,
    event: MagEvent,
    r: MagAction,
    fresh: MagSession,
)
    requires
        call_ensures(MagSession::on_event, (session, event), r),
        call_ensures(MagSession::new, (), fresh),
    ensures
        fresh.taken == 0,
        !(r is Done) ==> (r is Read <==> old(session).taken < 3000),
        !(r is Done) ==> (r is GaveUp <==> old(session).taken >= 3000),
        r is Read ==> final(session).taken == old(session).taken + 1,
        r is GaveUp ==> final(session).taken == old(session).taken,
{
}

/// Enough of the field is covered from a mean distance above 0.035 on.
pub proof fn law_coverage_is_a_mean_distance(mean_distance: Single, r: bool)
    requires
        call_ensures(MagSession::coverage_reached, (mean_distance,), r),
    ensures
        r == (0x3d0f_5c29 < mean_distance.bits <= 0x7f80_0000),
{
    crate::single::lemma_value_order(Single { bits: MIN_MEAN_DISTANCE_BITS }, mean_distance);
}

/// There is a calibration exactly if there is a fit and all six of its parameters
/// are finite, and then it is the one with the pre-scaler undone.
pub proof fn law_finite_fit_calibrates<const N: usize>(
    calibrator: MagCalibrator<N>,
    fit: Option<Fit>,
    unscaled: Fit,
    r: Option<Fit>,
)
    requires
        call_ensures(MagCalibrator::<N>::perform_calibration, (&calibrator, fit, unscaled), r),
    ensures
        fit is None ==> r is None,
        fit matches Some(f) ==> (r is Some <==> {
            &&& f.offset.x.bits % 0x8000_0000 < 0x7f80_0000
            &&& f.offset.y.bits % 0x8000_0000 < 0x7f80_0000
            &&& f.offset.z.bits % 0x8000_0000 < 0x7f80_0000
            &&& f.scale.x.bits % 0x8000_0000 < 0x7f80_0000
            &&& f.scale.y.bits % 0x8000_0000 < 0x7f80_0000
            &&& f.scale.z.bits % 0x8000_0000 < 0x7f80_0000
        }),
        r matches Some(c) ==> c.offset == unscaled.offset && c.scale == unscaled.scale,
{
}

/// A sample with a component that is not finite leaves the calibrator as it was.
pub proof fn law_unusable_sample_is_ignored<const N: usize>(
    calibrator: &mut MagCalibrator<N>,
    x: Vector,
    scaled: Vector,
    spread: &Spread,
)
    requires
        call_ensures(
            MagCalibrator::<N>::evaluate_sample_vec,
            (calibrator, x, scaled, spread),
            (),
        ),
        x.x.bits % 0x8000_0000 >= 0x7f80_0000 || x.y.bits % 0x8000_0000 >= 0x7f80_0000 || x.z.bits
            % 0x8000_0000 >= 0x7f80_0000,
    ensures
        final(calibrator).samples@ == old(calibrator).samples@,
        final(calibrator).filled == old(calibrator).filled,
        final(calibrator).mean_distance == old(calibrator).mean_distance,
        final(calibrator).k == old(calibrator).k,
        final(calibrator).pre_scaler == old(calibrator).pre_scaler,
{
}

/// A usable sample that finds room is kept, scaled, in the next row; every row
/// before and behind it stays.
pub proof fn law_sample_with_room_is_kept<const N: usize>(
    calibrator: &mut MagCalibrator<N>,
    x: Vector,
    scaled: Vector,
    spread: &Spread,
    i: int,
)
    requires
        old(calibrator).samples@.len() == N,
        old(calibrator).filled < N,
        call_ensures(
            MagCalibrator::<N>::evaluate_sample_vec,
            (calibrator, x, scaled, spread),
            (),
        ),
        x.x.bits % 0x8000_0000 < 0x7f80_0000,
        x.y.bits % 0x8000_0000 < 0x7f80_0000,
        x.z.bits % 0x8000_0000 < 0x7f80_0000,
    ensures
        final(calibrator).filled == old(calibrator).filled + 1,
        final(calibrator).samples@.len() == N,
        final(calibrator).samples@[old(calibrator).filled as int] == scaled,
        0 <= i < N && i != old(calibrator).filled ==> final(calibrator).samples@[i]
            == old(calibrator).samples@[i],
        final(calibrator).mean_distance == old(calibrator).mean_distance,
        final(calibrator).k == old(calibrator).k,
        final(calibrator).pre_scaler == old(calibrator).pre_scaler,
{
}

/// In a full buffer a usable sample replaces the row that lies closest to its
/// neighbours, the first one of several, if it lies farther from its own; with row
/// `low` the lowest. Every other row stays, and the mean distance is the one handed
/// in either way.
pub proof fn law_sample_replaces_the_closest_row<const N: usize>(
    calibrator: &mut MagCalibrator<N>,
    x: Vector,
    scaled: Vector,
    spread: &Spread,
    low: int,
    i: int,
)
    requires
        old(calibrator).samples@.len() == N,
        old(calibrator).filled == N,
        spread.row_means@.len() == N,
        call_ensures(
            MagCalibrator::<N>::evaluate_sample_vec,
            (calibrator, x, scaled, spread),
            (),
        ),
        x.x.bits % 0x8000_0000 < 0x7f80_0000,
        x.y.bits % 0x8000_0000 < 0x7f80_0000,
        x.z.bits % 0x8000_0000 < 0x7f80_0000,
        0 <= low < N,
        forall|j: int|
            0 <= j < N ==> spread.row_means@[low].total_rank() <= (
            #[trigger] spread.row_means@[j]).total_rank(),
        forall|j: int|
            0 <= j < low ==> spread.row_means@[low].total_rank() < (
            #[trigger] spread.row_means@[j]).total_rank(),
    ensures
        final(calibrator).filled == N,
        final(calibrator).samples@.len() == N,
        final(calibrator).mean_distance == spread.overall,
        final(calibrator).k == old(calibrator).k,
        final(calibrator).pre_scaler == old(calibrator).pre_scaler,
        spread.row_means@[low].below(spread.candidate) ==> final(calibrator).samples@[low]
            == scaled,
        0 <= i < N && (i != low || !spread.row_means@[low].below(spread.candidate))
            ==> final(calibrator).samples@[i] == old(calibrator).samples@[i],
{
    assert(is_lowest(spread.row_means@, low));
    let at = choose|at: int| #[trigger]
        is_lowest(spread.row_means@, at) && final(calibrator).samples@
            == if spread.row_means@[at].below(spread.candidate) {
            old(calibrator).samples@.update(at, scaled)
        } else {
            old(calibrator).samples@
        };
    law_lowest_is_unique(spread.row_means@, low, at);
}

/// A sample given as an array is the vector of its three components, in order.
pub proof fn law_array_sample_is_a_vector_sample<const N: usize>(
    calibrator: &mut MagCalibrator<N>,
    other: &mut MagCalibrator<N>,
    x: [Single; 3],
    scaled: [Single; 3],
    v: Vector,
    w: Vector,
    spread: &Spread,
)
    requires
        old(calibrator).samples@ == old(other).samples@,
        old(calibrator).filled == old(other).filled,
        old(calibrator).mean_distance == old(other).mean_distance,
        call_ensures(
            MagCalibrator::<N>::evaluate_sample,
            (calibrator, x, scaled, spread),
            (),
        ),
        call_ensures(MagCalibrator::<N>::evaluate_sample_vec, (other, v, w, spread), ()),
        v.x == x@[0] && v.y == x@[1] && v.z == x@[2],
        w.x == scaled@[0] && w.y == scaled@[1] && w.z == scaled@[2],
    ensures
        final(calibrator).samples@ == final(other).samples@,
        final(calibrator).filled == final(other).filled,
        final(calibrator).mean_distance == final(other).mean_distance,
        final(calibrator).k == old(calibrator).k,
        final(calibrator).pre_scaler == old(calibrator).pre_scaler,
{
    assert(vector_of(x@) == v && vector_of(scaled@) == w);
    if usable(v) && old(calibrator).filled >= N {
        let a = choose|a: int| #[trigger]
            is_lowest(spread.row_means@, a) && final(calibrator).samples@
                == if spread.row_means@[a].below(spread.candidate) {
                old(calibrator).samples@.update(a, w)
            } else {
                old(calibrator).samples@
            };
        let b = choose|b: int| #[trigger]
            is_lowest(spread.row_means@, b) && final(other).samples@
                == if spread.row_means@[b].below(spread.candidate) {
                old(other).samples@.update(b, w)
            } else {
                old(other).samples@
            };
        law_lowest_is_unique(spread.row_means@, a, b);
    }
}

/// The nearest distances of a kept sample come in ascending order, are among those
/// handed in, number one more than the neighbours as far as there are so many, and
/// none that was left out is nearer.
pub proof fn law_nearest_are_the_smallest<const N: usize>(
    calibrator: MagCalibrator<N>,
    distances: &Vec<Single>,
    r: Vec<Single>,
    i: int,
    j: int,
)
    requires
        call_ensures(MagCalibrator::<N>::nearest, (&calibrator, distances), r),
    ensures
        calibrator.k + 1 <= distances@.len() ==> r@.len() == calibrator.k + 1,
        calibrator.k + 1 > distances@.len() ==> r@.to_multiset() == distances@.to_multiset(),
        0 <= i < j < r@.len() ==> r@[i].total_rank() <= r@[j].total_rank(),
        smallest_of(r@, distances@),
{
    lemma_ranked_prefix(distances@, r@.len() as int);
}

/// The nearest distances of a new sample are the same, but as many as the neighbours.
pub proof fn law_nearest_to_new_are_the_smallest<const N: usize>(
    calibrator: MagCalibrator<N>,
    distances: &Vec<Single>,
    r: Vec<Single>,
    i: int,
    j: int,
)
    requires
        call_ensures(MagCalibrator::<N>::nearest_to_new, (&calibrator, distances), r),
    ensures
        calibrator.k <= distances@.len() ==> r@.len() == calibrator.k,
        calibrator.k > distances@.len() ==> r@.to_multiset() == distances@.to_multiset(),
        0 <= i < j < r@.len() ==> r@[i].total_rank() <= r@[j].total_rank(),
        smallest_of(r@, distances@),
{
    lemma_ranked_prefix(distances@, r@.len() as int);
}

/// Whether `part` holds the smallest of `all`: together with some `rest` it is made
/// up of the same numbers, and none in the rest comes before one in the part.
pub open spec fn smallest_of(part: Seq<Single>, all: Seq<Single>) -> bool {
    exists|rest: Seq<Single>|
        {
            &&& #[trigger] (part + rest).to_multiset() == all.to_multiset()
            &&& forall|i: int, j: int|
                0 <= i < part.len() && 0 <= j < rest.len() ==> (#[trigger] part[i]).total_rank()
                    <= (#[trigger] rest[j]).total_rank()
        }
}

/// The first of the ranked distances are the smallest.
proof fn lemma_ranked_prefix(distances: Seq<Single>, n: int)
    ensures
        ranked(distances).len() == distances.len(),
        ranked(distances).to_multiset() == distances.to_multiset(),
        forall|i: int, j: int|
            0 <= i < j < distances.len() ==> (#[trigger] ranked(distances)[i]).total_rank() <= (
            #[trigger] ranked(distances)[j]).total_rank(),
        0 <= n <= distances.len() ==> smallest_of(ranked(distances).take(n), distances),
        ranked(distances).take(distances.len() as int) == ranked(distances),
{
    let all = ranked(distances);
    lemma_total_leq_is_total();
    distances.lemma_sort_by_ensures(total_leq());
    distances.to_multiset_ensures();
    all.to_multiset_ensures();
    assert(all.take(distances.len() as int) =~= all);
    let leq = total_leq();
    assert forall|i: int, j: int| 0 <= i < j < distances.len() implies (#[trigger]
    all[i]).total_rank() <= (#[trigger] all[j]).total_rank() by {
        assert(leq(all[i], all[j]));
    }
    if 0 <= n <= distances.len() {
        let part = all.take(n);
        let rest = all.skip(n);
        assert(part + rest =~= all);
        assert((part + rest).to_multiset() == distances.to_multiset());
        assert forall|i: int, j: int| 0 <= i < part.len() && 0 <= j < rest.len() implies (#[trigger]
        part[i]).total_rank() <= (#[trigger] rest[j]).total_rank() by {
            assert(all[i].total_rank() <= all[n + j].total_rank());
        }
    }
}

/// A calibrator starts empty, with rows of ones, no mean distance, no scaling and
/// two neighbours; both settings change themselves alone. It is full when all rows
/// are filled, and until then its mean distance is zero.
pub proof fn law_calibrator_starts_empty<const N: usize>(
    fresh: MagCalibrator<N>,
    calibrator: MagCalibrator<N>,
    k: usize,
    by_k: MagCalibrator<N>,
    scale: Single,
    by_scale: MagCalibrator<N>,
    full: bool,
    mean: Single,
    i: int,
)
    requires
        call_ensures(MagCalibrator::<N>::new, (), fresh),
        call_ensures(MagCalibrator::<N>::num_neighbors, (calibrator, k), by_k),
        call_ensures(MagCalibrator::<N>::pre_scaler, (calibrator, scale), by_scale),
        call_ensures(MagCalibrator::<N>::is_full, (&calibrator,), full),
        call_ensures(MagCalibrator::<N>::get_mean_distance, (&calibrator,), mean),
    ensures
        fresh.samples@.len() == N && fresh.filled == 0 && fresh.mean_distance.bits == 0,
        fresh.pre_scaler.bits == 0x3f80_0000 && fresh.k == 2,
        0 <= i < N ==> fresh.samples@[i].x.bits == 0x3f80_0000 && fresh.samples@[i].y.bits
            == 0x3f80_0000 && fresh.samples@[i].z.bits == 0x3f80_0000,
        by_k.k == k && by_k.pre_scaler == calibrator.pre_scaler,
        by_k.samples == calibrator.samples && by_k.filled == calibrator.filled,
        by_k.mean_distance == calibrator.mean_distance,
        by_scale.pre_scaler == scale && by_scale.k == calibrator.k,
        by_scale.samples == calibrator.samples && by_scale.filled == calibrator.filled,
        by_scale.mean_distance == calibrator.mean_distance,
        full <==> calibrator.filled >= N,
        full ==> mean == calibrator.mean_distance,
        !full ==> mean.bits == 0,
{
}

/// The default calibrator is a new one.
pub proof fn law_default_calibrator_is_new<const N: usize>(
    fresh: MagCalibrator<N>,
    default: MagCalibrator<N>,
)
    requires
        call_ensures(MagCalibrator::<N>::new, (), fresh),
        call_ensures(MagCalibrator::<N>::default, (), default),
    ensures
        default.samples@ == fresh.samples@ && default.filled == fresh.filled,
        default.mean_distance == fresh.mean_distance && default.pre_scaler == fresh.pre_scaler,
        default.k == fresh.k,
{
    assert(default.samples@ =~= fresh.samples@);
}

} // verus!
