//! The state of one gesture or one run of key presses: the points that were
//! sampled from the touch input, and what was measured at each of them.
//!
//! Input is given anew on every call, and grows from call to call while a
//! finger moves.  Where the input of a call only continues that of the call
//! before, the sampled points are kept but for the last two, and sampling
//! goes on from there.
use crate::defines::{DoubleLetterLevel, MAX_PERCENTILE};
use crate::math::{distance_spec, get_distance_int, lemma_distance_symmetric, square, Ratio};
use crate::suggest::near_keys::{distance_of, has_key, NearKeysDistanceMap};
use crate::suggest::proximity_info::{valid_touch_coordinate, ProximityInfo};
use crate::suggest::proximity_info_params::{
    CORNER_CHECK_DISTANCE_THRESHOLD_SCALE, CORNER_SCORE, CORNER_SUM_ANGLE_THRESHOLD,
    DISTANCE_BASE_SCALE, FIRST_POINT_TIME_OFFSET_MILLIS, HUNDREDTHS,
    LAST_POINT_SKIP_DISTANCE_SCALE, LOCALMIN_DISTANCE_AND_NEAR_TO_KEY_SCORE,
    LOOKUP_RADIUS_PERCENTILE, MARGIN_FOR_PREV_LOCAL_MIN, MAX_TURN_ANGLE,
    MIN_DOUBLE_LETTER_BEELINE_SPEED_PERCENTILE, NEAR_KEY_THRESHOLD_FOR_DISTANCE,
    NEAR_KEY_THRESHOLD_FOR_POINT_SCORE, NOT_LOCALMIN_DISTANCE_SCORE,
    NUM_POINTS_FOR_SPEED_CALCULATION, STRONG_DOUBLE_LETTER_TIME_MILLIS,
};
use vstd::prelude::*;
use vstd::string::*;

verus! {

/// The sampled points as lists of equal length: where each point is, when
/// it was touched, which point of the input it is, and how long the way to
/// it is along the points before it.
pub struct Samples {
    pub xs: Seq<i32>,
    pub ys: Seq<i32>,
    pub times: Seq<i32>,
    pub indices: Seq<usize>,
    pub lengths: Seq<i32>,
}

/// The length of the way to a point that is `distance` from a point at
/// `length`: their sum, capped at `i32::MAX`.
pub open spec fn next_length(length: int, distance: int) -> int {
    if length + distance < i32::MAX {
        length + distance
    } else {
        i32::MAX as int
    }
}

impl Samples {
    /// No points.
    pub open spec fn empty() -> Samples {
        Samples {
            xs: Seq::empty(),
            ys: Seq::empty(),
            times: Seq::empty(),
            indices: Seq::empty(),
            lengths: Seq::empty(),
        }
    }

    /// The number of points.
    pub open spec fn len(self) -> nat {
        self.xs.len()
    }

    /// The lists have one length.
    pub open spec fn consistent(self) -> bool {
        &&& self.ys.len() == self.xs.len()
        &&& self.times.len() == self.xs.len()
        &&& self.indices.len() == self.xs.len()
        &&& self.lengths.len() == self.xs.len()
    }

    /// The point `i` lies where a touch can lie.
    pub open spec fn in_range(self, i: int) -> bool {
        valid_touch_coordinate(self.xs[i] as int) && valid_touch_coordinate(self.ys[i] as int)
    }

    /// The point after `i` comes later in the input than `i` and is no
    /// less far along the way.
    pub open spec fn ordered(self, i: int) -> bool {
        self.indices[i] < self.indices[i + 1] && self.lengths[i] <= self.lengths[i + 1]
    }

    /// The lists have one length; each point lies where a touch can lie;
    /// the way begins with length 0 and its length never falls; and the
    /// points come in the order of the input.
    pub open spec fn wf(self) -> bool {
        &&& self.consistent()
        &&& forall|i: int| 0 <= i < self.len() ==> #[trigger] self.in_range(i)
        &&& self.len() > 0 ==> self.lengths[0] == 0
        &&& forall|i: int| 0 <= i < self.len() - 1 ==> #[trigger] self.ordered(i)
    }

    /// The first `n` points.
    pub open spec fn take(self, n: int) -> Samples {
        Samples {
            xs: self.xs.subrange(0, n),
            ys: self.ys.subrange(0, n),
            times: self.times.subrange(0, n),
            indices: self.indices.subrange(0, n),
            lengths: self.lengths.subrange(0, n),
        }
    }

    /// All points but the last.
    pub open spec fn drop_last(self) -> Samples {
        self.take(self.len() - 1)
    }

    /// The length of the way to a point at `(x, y)` that comes after these.
    pub open spec fn length_to(self, x: i32, y: i32) -> int {
        if self.len() == 0 {
            0
        } else {
            next_length(
                self.lengths.last() as int,
                distance_spec(x as int, y as int, self.xs.last() as int, self.ys.last() as int),
            )
        }
    }

    /// These points and after them the point of the input `index` at
    /// `(x, y)`, touched at `time`.
    pub open spec fn push(self, x: i32, y: i32, time: i32, index: usize) -> Samples {
        Samples {
            xs: self.xs.push(x),
            ys: self.ys.push(y),
            times: self.times.push(time),
            indices: self.indices.push(index),
            lengths: self.lengths.push(self.length_to(x, y) as i32),
        }
    }

    /// The first `n` points of `self` are those of `other`.
    pub open spec fn agrees_up_to(self, other: Samples, n: int) -> bool {
        &&& n <= self.len()
        &&& n <= other.len()
        &&& self.take(n) == other.take(n)
    }
}

/// `samples` give, for each point, the point of the input that it names:
/// the continuity of a gesture from one call to the next.
pub open spec fn input_continues(
    samples: Samples,
    input_size: usize,
    x_coordinates: Seq<i32>,
    y_coordinates: Seq<i32>,
    times: Option<Seq<i32>>,
) -> bool {
    &&& samples.len() <= input_size
    &&& forall|i: int|
        0 <= i < samples.len() ==> {
            let index = #[trigger] samples.indices[i];
            &&& index < input_size
            &&& x_coordinates[index as int] == samples.xs[i]
            &&& y_coordinates[index as int] == samples.ys[i]
            &&& (times is Some ==> times->0[index as int] == samples.times[i])
        }
}

/// A distance of `num` over `den` counts as near: it is below
/// `NEAR_KEY_THRESHOLD_FOR_DISTANCE` hundredths.
pub open spec fn is_near_distance(num: int, den: int) -> bool {
    num * HUNDREDTHS < NEAR_KEY_THRESHOLD_FOR_DISTANCE * den
}

/// The keys among the first `n` that are near `(x, y)`, each with its
/// squared distance from the point in pixels, in the order of the keys.
pub open(crate) spec fn near_keys_upto(
    layout: ProximityInfo,
    x: i32,
    y: i32,
    is_geometric: bool,
    n: nat,
) -> Seq<(usize, i64)>
    decreases n,
{
    if n == 0 {
        Seq::empty()
    } else {
        let before = near_keys_upto(layout, x, y, is_geometric, (n - 1) as nat);
        let distance = layout.squared_distance_from_center_spec(n - 1, x, y, is_geometric);
        if is_near_distance(distance, square(layout.spec_most_common_key_width())) {
            before.push(((n - 1) as usize, distance as i64))
        } else {
            before
        }
    }
}

/// The least of `start` and of the distances of `(x, y)` from the first
/// `n` keys, in squares of the most common key width.
pub open(crate) spec fn nearest_upto(
    layout: ProximityInfo,
    start: Ratio,
    x: i32,
    y: i32,
    is_geometric: bool,
    n: nat,
) -> Ratio
    decreases n,
{
    if n == 0 {
        start
    } else {
        let before = nearest_upto(layout, start, x, y, is_geometric, (n - 1) as nat);
        let distance = Ratio {
            num: layout.squared_distance_from_center_spec(n - 1, x, y, is_geometric) as i128,
            den: square(layout.spec_most_common_key_width()) as i128,
        };
        if distance.spec_less_than(&before) {
            distance
        } else {
            before
        }
    }
}

/// `other` exceeds `distance` by more than `MARGIN_FOR_PREV_LOCAL_MIN`
/// hundredths of `den`.
pub open spec fn exceeds_by_margin(other: int, distance: int, den: int) -> bool {
    other * HUNDREDTHS > distance * HUNDREDTHS + MARGIN_FOR_PREV_LOCAL_MIN * den
}

/// `key` is further away in `entries` than `distance`, by more than the
/// margin, or not among them at all.
pub open spec fn is_further_in(entries: Seq<(usize, i64)>, key: usize, distance: i64, den: int) -> bool {
    match distance_of(entries, key) {
        Some(other) => exceeds_by_margin(other as int, distance as int, den),
        None => true,
    }
}

/// The point before the current one is nearest to the key of its entry
/// `i`: the key is further from the point before it and from the current
/// point, or is not near them.
pub open spec fn is_local_min_at(
    current: Seq<(usize, i64)>,
    prev: Seq<(usize, i64)>,
    prev_prev: Seq<(usize, i64)>,
    den: int,
    i: int,
) -> bool {
    is_further_in(prev_prev, prev[i].0, prev[i].1, den) && is_further_in(
        current,
        prev[i].0,
        prev[i].1,
        den,
    )
}

/// The point before the current one is nearest to one of its near keys.
pub open spec fn prev_is_local_min(
    current: Seq<(usize, i64)>,
    prev: Seq<(usize, i64)>,
    prev_prev: Seq<(usize, i64)>,
    den: int,
) -> bool {
    exists|i: int| 0 <= i < prev.len() && #[trigger] is_local_min_at(current, prev, prev_prev, den, i)
}

/// The score of the point `(x, y)` that comes after `samples`: what the
/// point before it is worth.  It is 0 where there are less than two points
/// or the point before has no near keys.  Else `NOT_LOCALMIN_DISTANCE_SCORE`
/// is given where the point before is nearest to no key,
/// `LOCALMIN_DISTANCE_AND_NEAR_TO_KEY_SCORE` where it is and the current
/// point is near a key, and `CORNER_SCORE` is added where the last two
/// points are far apart and the path turns at the point before.
pub open(crate) spec fn point_score_spec(
    samples: Samples,
    layout: ProximityInfo,
    x: i32,
    y: i32,
    nearest: Ratio,
    sum_angle: int,
    current: Seq<(usize, i64)>,
    prev: Seq<(usize, i64)>,
    prev_prev: Seq<(usize, i64)>,
) -> int {
    let size = samples.len() as int;
    if size <= 1 || prev.len() == 0 {
        0
    } else {
        let location: int = if !prev_is_local_min(
            current,
            prev,
            prev_prev,
            square(layout.spec_most_common_key_width()),
        ) {
            NOT_LOCALMIN_DISTANCE_SCORE as int
        } else if nearest.spec_below_hundredths(NEAR_KEY_THRESHOLD_FOR_POINT_SCORE as int) {
            LOCALMIN_DISTANCE_AND_NEAR_TO_KEY_SCORE as int
        } else {
            0
        };
        let dist_prev = distance_spec(
            samples.xs[size - 1] as int,
            samples.ys[size - 1] as int,
            samples.xs[size - 2] as int,
            samples.ys[size - 2] as int,
        ) * DISTANCE_BASE_SCALE;
        let corner = dist_prev > layout.spec_most_common_key_width()
            * CORNER_CHECK_DISTANCE_THRESHOLD_SCALE && (sum_angle > CORNER_SUM_ANGLE_THRESHOLD
            || crate::math::is_sharp_turn_spec(
            x - samples.xs[size - 1],
            y - samples.ys[size - 1],
            samples.xs[size - 1] - samples.xs[size - 2],
            samples.ys[size - 1] - samples.ys[size - 2],
        ));
        location + (if corner {
            CORNER_SCORE as int
        } else {
            0
        })
    }
}

/// Where a point is put among the sampled points: at the centre of the
/// key of its code point if it has one and no position, else where it is.
pub open(crate) spec fn placed_point(
    layout: ProximityInfo,
    node_code_point: Option<char>,
    x: i32,
    y: i32,
    is_geometric: bool,
) -> (i32, i32) {
    match node_code_point {
        Some(c) => if x < 0 || y < 0 {
            match layout.key_index_spec(c) {
                Some(key) => (
                    layout.key_center_x_spec(key, None) as i32,
                    layout.key_center_y_spec(key, None, is_geometric) as i32,
                ),
                None => (x, y),
            }
        } else {
            (x, y)
        },
        None => (x, y),
    }
}

/// The last point of the input is left out: it is less than a part of the
/// most common key width away from the last of `kept`.
pub open(crate) spec fn is_skipped_last_point(
    kept: Samples,
    layout: ProximityInfo,
    x: i32,
    y: i32,
    is_last_point: bool,
) -> bool {
    is_last_point && kept.len() > 0 && distance_spec(
        x as int,
        y as int,
        kept.xs.last() as int,
        kept.ys.last() as int,
    ) * LAST_POINT_SKIP_DISTANCE_SCALE < layout.spec_most_common_key_width()
}

/// The score of the point `(x, y)` of a gesture that comes after `samples`,
/// from the keys near it and near the two points before it.
pub open(crate) spec fn sampling_score(
    samples: Samples,
    layout: ProximityInfo,
    max_point_to_key_length: Ratio,
    x: i32,
    y: i32,
    is_geometric: bool,
    sum_angle: int,
    prev: Seq<(usize, i64)>,
    prev_prev: Seq<(usize, i64)>,
) -> int {
    point_score_spec(
        samples,
        layout,
        x,
        y,
        nearest_upto(layout, max_point_to_key_length, x, y, is_geometric, layout.spec_key_count()),
        sum_angle,
        near_keys_upto(layout, x, y, is_geometric, layout.spec_key_count()),
        prev,
        prev_prev,
    )
}

/// The sampled points after the point `input_index` of the input was
/// looked at.  Where points are sampled and the score of the point is below
/// 0, the last sampled point is taken away; then the point is put after the
/// others, unless points are sampled and it is a last point that is left
/// out.
pub open(crate) spec fn pushed_samples(
    samples: Samples,
    layout: ProximityInfo,
    input_index: usize,
    node_code_point: Option<char>,
    x: i32,
    y: i32,
    time: i32,
    is_geometric: bool,
    sampling: bool,
    is_last_point: bool,
    score: int,
) -> Samples {
    let kept = if sampling && score < 0 {
        samples.drop_last()
    } else {
        samples
    };
    if sampling && is_skipped_last_point(kept, layout, x, y, is_last_point) {
        kept
    } else {
        let placed = placed_point(layout, node_code_point, x, y, is_geometric);
        kept.push(placed.0, placed.1, time, input_index)
    }
}

/// The touch input of one call: the points that were touched, each with
/// its code point, the pointer that touched it, and the turn that the path
/// takes at it.
pub struct TouchInput {
    /// The pointer whose points are looked at.
    pub pointer_id: usize,
    /// The number of points.
    pub input_size: usize,
    /// The code point of each point that is a key press.
    pub input_codes: Seq<char>,
    /// Where each point is.
    pub xs: Seq<i32>,
    pub ys: Seq<i32>,
    /// When each point was touched, if that is known.
    pub times: Option<Seq<i32>>,
    /// The pointer of each point.
    pub pointer_ids: Seq<usize>,
    /// For each point of a gesture from the third on, the angle between the
    /// step that leads to it and the step before that one, in
    /// ten-thousandths of a radian.
    pub turn_angles: Seq<i32>,
    /// Whether the points are those of a gesture, not of key presses.
    pub is_geometric: bool,
}

impl TouchInput {
    /// The point `i` is given in full and lies where a touch can lie.
    pub open spec fn valid_point(self, i: int) -> bool {
        &&& valid_touch_coordinate(self.xs[i] as int)
        &&& valid_touch_coordinate(self.ys[i] as int)
        &&& self.is_geometric ==> 0 <= self.turn_angles[i] <= MAX_TURN_ANGLE
    }

    /// Each list has an entry for each point, and each point is valid.
    /// Code points are not asked for of a gesture, nor turns of key presses.
    pub open spec fn wf(self) -> bool {
        &&& self.input_size <= self.xs.len()
        &&& self.input_size <= self.ys.len()
        &&& self.input_size <= self.pointer_ids.len()
        &&& self.times is Some ==> self.input_size <= self.times->0.len()
        &&& !self.is_geometric ==> self.input_size <= self.input_codes.len()
        &&& self.is_geometric ==> self.input_size <= self.turn_angles.len()
        &&& forall|i: int| 0 <= i < self.input_size ==> #[trigger] self.valid_point(i)
    }

    /// The key presses have no positions: the first of them has a negative
    /// coordinate.
    pub open spec fn proximity_only(self) -> bool {
        !self.is_geometric && self.input_size > 0 && (self.xs[0] < 0 || self.ys[0] < 0)
    }

    /// Where the point `i` is taken to be.
    pub open spec fn point(self, i: int) -> (i32, i32) {
        if self.proximity_only() {
            (-1i32, -1i32)
        } else {
            (self.xs[i], self.ys[i])
        }
    }

    /// When the point `i` was touched, and -1 where that is not known.
    pub open spec fn time(self, i: int) -> i32 {
        match self.times {
            Some(times) => times[i],
            None => -1i32,
        }
    }

    /// The code point of the point `i`: that of the key press, and none for
    /// a point of a gesture.
    pub open spec fn code(self, i: int) -> Option<char> {
        if self.is_geometric {
            None
        } else {
            Some(self.input_codes[i])
        }
    }

    /// The turn that counts at the point `i`.
    pub open spec fn turn(self, i: int) -> int {
        if self.is_geometric && i > 1 {
            self.turn_angles[i] as int
        } else {
            0
        }
    }

    /// The last point from `start` on and below `end` that the pointer has
    /// touched, and `start` if there is none.
    pub open spec fn last_index(self, start: int, end: int) -> int
        decreases end - start,
    {
        if end <= start {
            start
        } else if self.pointer_ids[end - 1] == self.pointer_id {
            end - 1
        } else {
            self.last_index(start, end - 1)
        }
    }
}

/// What sampling has arrived at: the sampled points, the keys near the
/// last three points that were looked at, and the sum of the turns since a
/// point was last kept.
pub struct SamplingState {
    pub samples: Samples,
    pub current: Seq<(usize, i64)>,
    pub prev: Seq<(usize, i64)>,
    pub prev_prev: Seq<(usize, i64)>,
    pub sum_angle: int,
}

/// Sampling after the point `i` of the input was looked at.  A point of
/// another pointer changes nothing.  Else the turn at the point is added
/// to the sum of turns and the point is pushed.  Where that took the last
/// sampled point away, the keys near the new point take the place of those
/// near the point that was taken away.  Where it did not, the keys near
/// each point move on by one point and the sum of turns begins again.
pub open(crate) spec fn sample_step(
    layout: ProximityInfo,
    max_point_to_key_length: Ratio,
    input: TouchInput,
    last_index: int,
    state: SamplingState,
    i: int,
) -> SamplingState {
    if input.pointer_ids[i] != input.pointer_id {
        state
    } else {
        let point = input.point(i);
        let sum_angle = state.sum_angle + input.turn(i);
        let sampling = input.is_geometric;
        let score = if sampling {
            sampling_score(
                state.samples,
                layout,
                max_point_to_key_length,
                point.0,
                point.1,
                input.is_geometric,
                sum_angle,
                state.prev,
                state.prev_prev,
            )
        } else {
            0
        };
        let samples = pushed_samples(
            state.samples,
            layout,
            i as usize,
            input.code(i),
            point.0,
            point.1,
            input.time(i),
            input.is_geometric,
            sampling,
            i == last_index,
            score,
        );
        let current = if sampling {
            near_keys_upto(layout, point.0, point.1, input.is_geometric, layout.spec_key_count())
        } else {
            state.current
        };
        if sampling && score < 0 {
            SamplingState {
                samples,
                current: state.prev,
                prev: current,
                prev_prev: state.prev_prev,
                sum_angle,
            }
        } else {
            SamplingState {
                samples,
                current: state.prev_prev,
                prev: current,
                prev_prev: state.prev,
                sum_angle: 0,
            }
        }
    }
}

/// Sampling after the points from `start` on and below `end` were looked
/// at, one after the other, beginning from `state`.
pub open(crate) spec fn sampled_through(
    layout: ProximityInfo,
    max_point_to_key_length: Ratio,
    input: TouchInput,
    last_index: int,
    state: SamplingState,
    start: int,
    end: int,
) -> SamplingState
    decreases end - start,
{
    if end <= start {
        state
    } else {
        sample_step(
            layout,
            max_point_to_key_length,
            input,
            last_index,
            sampled_through(layout, max_point_to_key_length, input, last_index, state, start, end - 1),
            end - 1,
        )
    }
}

/// The sampled points that sampling arrives at from `samples`, with no
/// keys known to be near, when the points of `input` from `start` on are
/// looked at.
pub open(crate) spec fn sampled_from(
    layout: ProximityInfo,
    max_point_to_key_length: Ratio,
    input: TouchInput,
    samples: Samples,
    start: int,
) -> Samples {
    if start >= input.input_size {
        samples
    } else {
        let last_index = input.last_index(start, input.input_size as int);
        sampled_through(
            layout,
            max_point_to_key_length,
            input,
            last_index,
            SamplingState {
                samples,
                current: Seq::empty(),
                prev: Seq::empty(),
                prev_prev: Seq::empty(),
                sum_angle: 0,
            },
            start,
            last_index + 1,
        ).samples
    }
}

/// The times as a list of the model.
pub open spec fn times_view(times: Option<Vec<i32>>) -> Option<Seq<i32>> {
    match times {
        Some(t) => Some(t@),
        None => None,
    }
}

/// The length of the step from the point `j` of the input to the next.
pub open spec fn segment_length(xs: Seq<i32>, ys: Seq<i32>, j: int) -> int {
    distance_spec(xs[j] as int, ys[j] as int, xs[j + 1] as int, ys[j + 1] as int)
}

/// The time that the step from the point `j` of the input to the next
/// took, and 0 where times are not known.
pub open spec fn segment_duration(times: Option<Seq<i32>>, j: int) -> int {
    match times {
        Some(t) => t[j + 1] - t[j],
        None => 0,
    }
}

/// The length of the steps from the point `from` of the input to the point
/// `to`.
pub open spec fn path_length(xs: Seq<i32>, ys: Seq<i32>, from: int, to: int) -> int
    decreases to - from,
{
    if to <= from {
        0
    } else {
        path_length(xs, ys, from, to - 1) + segment_length(xs, ys, to - 1)
    }
}

/// The time that the steps from the point `from` of the input to the point
/// `to` took.
pub open spec fn path_duration(times: Option<Seq<i32>>, from: int, to: int) -> int
    decreases to - from,
{
    if to <= from {
        0
    } else {
        path_duration(times, from, to - 1) + segment_duration(times, to - 1)
    }
}

/// The points of the input between which the speed at the sampled point
/// `i` is measured: up to `NUM_POINTS_FOR_SPEED_CALCULATION` points to both
/// sides of it, but not beyond the sampled points next to it nor beyond the
/// input.
pub open spec fn speed_window(samples: Samples, input_size: int, i: int) -> (int, int) {
    let index = samples.indices[i] as int;
    let back = if index > NUM_POINTS_FOR_SPEED_CALCULATION {
        index - NUM_POINTS_FOR_SPEED_CALCULATION
    } else {
        0
    };
    let from = if i > 0 && samples.indices[i - 1] > back {
        samples.indices[i - 1] as int
    } else {
        back
    };
    let forth = if index + NUM_POINTS_FOR_SPEED_CALCULATION < input_size - 1 {
        index + NUM_POINTS_FOR_SPEED_CALCULATION
    } else {
        input_size - 1
    };
    let to = if i < samples.len() - 1 && samples.indices[i + 1] < forth {
        samples.indices[i + 1] as int
    } else {
        forth
    };
    (from, to)
}

/// The length of the way along the sampled points.
pub open spec fn sum_length(samples: Samples) -> int {
    samples.lengths.last() - samples.lengths[0]
}

/// The time from the first sampled point to the last.
pub open spec fn sum_duration(samples: Samples) -> int {
    samples.times.last() - samples.times[0]
}

/// The ratio that stands for 1.
pub open spec fn one() -> Ratio {
    Ratio { num: 1, den: 1 }
}

/// The ratio that stands for 0.
pub open spec fn zero() -> Ratio {
    Ratio { num: 0, den: 1 }
}

/// The speed at the sampled point `i` as a share of the average speed:
/// the length of the steps of its window by the time they took, divided by
/// the length of the way along the sampled points by the time it took.  It
/// is 1 where one of the two times is 0.
pub open spec fn speed_rate_spec(
    samples: Samples,
    xs: Seq<i32>,
    ys: Seq<i32>,
    times: Option<Seq<i32>>,
    input_size: int,
    i: int,
) -> Ratio {
    let window = speed_window(samples, input_size, i);
    let length = path_length(xs, ys, window.0, window.1);
    let duration = path_duration(times, window.0, window.1);
    if duration == 0 || sum_duration(samples) == 0 {
        one()
    } else {
        Ratio {
            num: (length * sum_duration(samples)) as i128,
            den: (duration * sum_length(samples)) as i128,
        }
    }
}

/// The direction from the sampled point `i` to the next.
pub open spec fn direction_spec(samples: Samples, i: int) -> Direction {
    Direction {
        dx: (samples.xs[i] - samples.xs[i + 1]) as i32,
        dy: (samples.ys[i] - samples.ys[i + 1]) as i32,
    }
}

/// The distance within which points of the input count towards the beeline
/// speed of a sampled point.
pub open spec fn lookup_radius_spec(most_common_key_width: int) -> int {
    most_common_key_width * LOOKUP_RADIUS_PERCENTILE / (MAX_PERCENTILE as int)
}

/// The point of the input at which the walk back from `start` ends: the
/// first point, or the first on the way that is `radius` or more away from
/// `(x0, y0)`.  `reached` is the distance of the point `start`.
pub open spec fn walk_back(
    xs: Seq<i32>,
    ys: Seq<i32>,
    x0: i32,
    y0: i32,
    radius: int,
    start: int,
    reached: int,
) -> int
    decreases start,
{
    if start > 0 && reached < radius {
        walk_back(
            xs,
            ys,
            x0,
            y0,
            radius,
            start - 1,
            distance_spec(x0 as int, y0 as int, xs[start - 1] as int, ys[start - 1] as int),
        )
    } else {
        start
    }
}

/// The point of the input at which the walk forth from `end` ends: the
/// last point, or the first on the way that is `radius` or more away from
/// `(x0, y0)`.  `reached` is the distance of the point `end`.
pub open spec fn walk_forth(
    xs: Seq<i32>,
    ys: Seq<i32>,
    x0: i32,
    y0: i32,
    radius: int,
    input_size: int,
    end: int,
    reached: int,
) -> int
    decreases input_size - end,
{
    if end < input_size - 1 && reached < radius {
        walk_forth(
            xs,
            ys,
            x0,
            y0,
            radius,
            input_size,
            end + 1,
            distance_spec(x0 as int, y0 as int, xs[end + 1] as int, ys[end + 1] as int),
        )
    } else {
        end
    }
}

/// The points of the input between which the beeline speed at the sampled
/// point `id` is measured: those within `radius` of it, and the ends of the
/// input where the walks have reached them.
pub open spec fn beeline_window(
    samples: Samples,
    xs: Seq<i32>,
    ys: Seq<i32>,
    input_size: int,
    radius: int,
    id: int,
) -> (int, int) {
    let actual = samples.indices[id] as int;
    let back = walk_back(xs, ys, samples.xs[id], samples.ys[id], radius, actual, 0);
    let forth = walk_forth(xs, ys, samples.xs[id], samples.ys[id], radius, input_size, actual, 0);
    (
        if back > 0 && back < actual {
            back + 1
        } else {
            back
        },
        if forth > actual && forth < input_size - 1 {
            forth - 1
        } else {
            forth
        },
    )
}

/// The average speed is known and not too low to compare with: the way
/// took time, and was at least a thousandth of a pixel long for each
/// millisecond.
pub open spec fn is_speed_known(average_speed: Ratio) -> bool {
    average_speed.den > 0 && 1000 * average_speed.num >= average_speed.den
}

/// The time that passed between the points `window.0` and `window.1` of
/// the input.  The time of the first point of the input counts as
/// `FIRST_POINT_TIME_OFFSET_MILLIS` later where the sampled point is that
/// point, and the time of the last point as much earlier.
pub open spec fn beeline_time(
    times: Seq<i32>,
    input_size: int,
    actual: int,
    window: (int, int),
) -> int {
    let start_time = times[window.0] + (if window.0 == 0 && actual == 0 && input_size > 1 {
        FIRST_POINT_TIME_OFFSET_MILLIS as int
    } else {
        0
    });
    let end_time = times[window.1] - (if window.1 == input_size - 1 && input_size > 1 {
        FIRST_POINT_TIME_OFFSET_MILLIS as int
    } else {
        0
    });
    end_time - start_time
}

/// The beeline speed at the sampled point `id` as a share of the average
/// speed, and a hundredth more: the distance of the ends of its window by
/// the time between them, divided by the average speed.  It is 1 where the
/// average speed is not known, where the window has no extent and where
/// times are not known, and 0 where the time is
/// `STRONG_DOUBLE_LETTER_TIME_MILLIS` or more.
pub open spec fn beeline_speed_rate_spec(
    samples: Samples,
    most_common_key_width: int,
    average_speed: Ratio,
    xs: Seq<i32>,
    ys: Seq<i32>,
    times: Option<Seq<i32>>,
    input_size: int,
    id: int,
) -> Ratio {
    let window = beeline_window(
        samples,
        xs,
        ys,
        input_size,
        lookup_radius_spec(most_common_key_width),
        id,
    );
    if samples.len() == 0 || !is_speed_known(average_speed) || window.0 >= window.1 {
        one()
    } else {
        match times {
            None => one(),
            Some(t) => {
                let beeline = distance_spec(
                    xs[window.0] as int,
                    ys[window.0] as int,
                    xs[window.1] as int,
                    ys[window.1] as int,
                );
                let time = beeline_time(t, input_size, samples.indices[id] as int, window);
                if time >= STRONG_DOUBLE_LETTER_TIME_MILLIS {
                    zero()
                } else {
                    Ratio {
                        num: (time * average_speed.num + 100 * beeline * average_speed.den) as i128,
                        den: (100 * time * average_speed.num) as i128,
                    }
                }
            },
        }
    }
}

/// The entry of the table of distances for the sampled point `i` and the
/// key `key` is the squared distance of the point from the key's centre.
pub open(crate) spec fn is_cached_distance(
    cache: Seq<i64>,
    samples: Samples,
    layout: ProximityInfo,
    is_geometric: bool,
    i: int,
    key: int,
) -> bool {
    cache[i * layout.spec_key_count() + key] == layout.squared_distance_from_center_spec(
        key,
        samples.xs[i],
        samples.ys[i],
        is_geometric,
    )
}

/// The table of distances has a row of as many entries as there are keys
/// for each of the first `n` sampled points, and each entry is right.
pub open(crate) spec fn is_distance_table(
    cache: Seq<i64>,
    samples: Samples,
    layout: ProximityInfo,
    is_geometric: bool,
    n: int,
) -> bool {
    &&& cache.len() == n * layout.spec_key_count()
    &&& forall|i: int, key: int|
        0 <= i < n && 0 <= key < layout.spec_key_count() ==> #[trigger] is_cached_distance(
            cache,
            samples,
            layout,
            is_geometric,
            i,
            key,
        )
}

/// The direction from one sampled point to another, as the steps between
/// them on both axes.  Its angle is that of `dy / dx`; no steps stand for
/// the angle 0.
#[derive(Clone, Copy, Debug, PartialEq, Eq, Structural)]
pub struct Direction {
    pub dx: i32,
    pub dy: i32,
}

/// The state of one pointer.
pub struct ProximityInfoState {
    pub(crate) proximity_info: ProximityInfo,
    pub(crate) max_point_to_key_length: Ratio,
    pub(crate) average_speed: Ratio,
    pub(crate) is_continuous_suggestion_possible: bool,
    pub(crate) has_been_updated_by_geometric_input: bool,
    pub(crate) sampled_input_xs: Vec<i32>,
    pub(crate) sampled_input_ys: Vec<i32>,
    pub(crate) sampled_times: Vec<i32>,
    pub(crate) sampled_input_indice: Vec<usize>,
    pub(crate) sampled_length_cache: Vec<i32>,
    pub(crate) beeline_speed_percentiles: Vec<i32>,
    pub(crate) sampled_normalized_squared_length_cache: Vec<i64>,
    pub(crate) speed_rates: Vec<Ratio>,
    pub(crate) directions: Vec<Direction>,
    pub(crate) touch_position_correction_enabled: bool,
    pub(crate) input_proximities: Vec<Vec<char>>,
    pub(crate) sampled_input_size: usize,
}

impl ProximityInfoState {
    // -----------------------------------------------------------------------
    // The model
    // -----------------------------------------------------------------------
    /// The sampled points.
    pub open(crate) spec fn samples(&self) -> Samples {
        Samples {
            xs: self.sampled_input_xs@,
            ys: self.sampled_input_ys@,
            times: self.sampled_times@,
            indices: self.sampled_input_indice@,
            lengths: self.sampled_length_cache@,
        }
    }

    /// The layout that the input was last given for.
    pub open(crate) spec fn layout(&self) -> ProximityInfo {
        self.proximity_info
    }

    /// The largest distance of a point from a key that the state was given.
    pub open(crate) spec fn spec_max_point_to_key_length(&self) -> Ratio {
        self.max_point_to_key_length
    }

    /// The number of sampled points that the last call left.
    pub open(crate) spec fn spec_size(&self) -> nat {
        self.sampled_input_size as nat
    }

    /// The speed at each sampled point as a share of the average speed.
    pub open(crate) spec fn spec_speed_rates(&self) -> Seq<Ratio> {
        self.speed_rates@
    }

    /// The direction from each sampled point to the next.
    pub open(crate) spec fn spec_directions(&self) -> Seq<Direction> {
        self.directions@
    }

    /// The beeline speed at each sampled point, in percent of the average
    /// speed.
    pub open(crate) spec fn spec_beeline_speed_percentiles(&self) -> Seq<i32> {
        self.beeline_speed_percentiles@
    }

    /// The squared distance of each sampled point from each key, in pixels:
    /// one row of as many entries as there are keys for each point.
    pub open(crate) spec fn spec_squared_length_cache(&self) -> Seq<i64> {
        self.sampled_normalized_squared_length_cache@
    }

    /// The average speed along the sampled points: the length of the way by
    /// the time it took.
    pub open(crate) spec fn spec_average_speed(&self) -> Ratio {
        self.average_speed
    }

    /// The candidates for each key press.
    pub open(crate) spec fn spec_input_proximities(&self) -> Seq<Vec<char>> {
        self.input_proximities@
    }

    /// Whether the last input was a gesture.
    pub open(crate) spec fn spec_is_geometric(&self) -> bool {
        self.has_been_updated_by_geometric_input
    }

    /// Whether touches are corrected towards sweet spots.
    pub open(crate) spec fn spec_touch_position_correction_enabled(&self) -> bool {
        self.touch_position_correction_enabled
    }

    /// Whether the last input continued the input before it.
    pub open(crate) spec fn spec_is_continuous(&self) -> bool {
        self.is_continuous_suggestion_possible
    }

    /// What is measured at the sampled points of a gesture is there for
    /// each of them: its speed, its beeline speed, the direction to the next
    /// point and its distance from each key.  Nothing is measured of key
    /// presses.
    pub open(crate) spec fn wf_measures(&self) -> bool {
        if self.has_been_updated_by_geometric_input && self.samples().len() > 0 {
            &&& self.speed_rates@.len() == self.samples().len()
            &&& self.beeline_speed_percentiles@.len() == self.samples().len()
            &&& self.directions@.len() == self.samples().len() - 1
            &&& forall|i: int|
                0 <= i < self.samples().len() - 1 ==> #[trigger] self.directions@[i]
                    == direction_spec(self.samples(), i)
            &&& is_distance_table(
                self.sampled_normalized_squared_length_cache@,
                self.samples(),
                self.proximity_info,
                true,
                self.samples().len() as int,
            )
        } else {
            &&& self.speed_rates@.len() == 0
            &&& self.beeline_speed_percentiles@.len() == 0
            &&& self.directions@.len() == 0
            &&& self.sampled_normalized_squared_length_cache@.len() == 0
        }
    }

    /// Each key press has between one and `MAX_PROXIMITY_CHARS_SIZE`
    /// candidates.
    pub open(crate) spec fn wf_proximities(&self) -> bool {
        forall|i: int|
            0 <= i < self.input_proximities@.len() ==> 1 <= (#[trigger] self.input_proximities@[i])@.len()
    }

    /// The state is whole: the layout and the sampled points are well
    /// formed, the number of sampled points is right, and what is measured
    /// belongs to the sampled points.
    pub open(crate) spec fn wf(&self) -> bool {
        &&& self.wf_samples()
        &&& self.sampled_input_size == self.samples().len()
        &&& self.wf_measures()
        &&& self.wf_proximities()
        &&& -0x1_0000_0000 <= self.average_speed.num <= 0x1_0000_0000
        &&& -0x1_0000_0000 <= self.average_speed.den <= 0x1_0000_0000
    }

    /// The input continues the input that the sampled points were taken
    /// from: it is of the same kind, and each sampled point still is where
    /// and when the point of the input is that it names.
    pub open(crate) spec fn continues(&self, input: TouchInput) -> bool {
        self.has_been_updated_by_geometric_input == input.is_geometric && input_continues(
            self.samples(),
            input.input_size,
            input.xs,
            input.ys,
            input.times,
        )
    }

    /// The number of sampled points that are kept where the input
    /// continues: all but the last two.
    pub open(crate) spec fn kept_len(&self) -> int {
        if self.samples().len() >= 2 {
            self.samples().len() - 2
        } else {
            0
        }
    }

    /// The sampled points that sampling begins from: those that are kept
    /// where the input continues, and none where it begins anew.
    pub open(crate) spec fn kept_samples(&self, input: TouchInput) -> Samples {
        if self.continues(input) && self.samples().len() > 0 {
            self.samples().take(self.kept_len())
        } else {
            Samples::empty()
        }
    }

    /// The point of the input from which sampling goes on: the first of the
    /// sampled points that are not kept, and the first point where the
    /// input begins anew.
    pub open(crate) spec fn push_start(&self, input: TouchInput) -> int {
        if self.continues(input) && self.samples().len() > 0 {
            self.samples().indices[self.kept_len()] as int
        } else {
            0
        }
    }

    /// What is measured at the sampled points of the gesture `input`: the
    /// average speed; the speed at each point that was sampled anew, while
    /// the speeds at the points that were kept from `before` stay; the
    /// beeline speed at each point; and the distance of each point from
    /// each key.
    pub open(crate) spec fn measures_gesture(
        &self,
        before: &ProximityInfoState,
        input: TouchInput,
    ) -> bool {
        let samples = self.samples();
        let kept = before.kept_samples(input).len();
        &&& self.average_speed.num == sum_length(samples)
        &&& self.average_speed.den == sum_duration(samples)
        &&& self.speed_rates@.len() == samples.len()
        &&& forall|i: int|
            0 <= i < kept ==> #[trigger] self.speed_rates@[i] == before.speed_rates@[i]
        &&& forall|i: int|
            kept <= i < samples.len() ==> #[trigger] self.speed_rates@[i] == speed_rate_spec(
                samples,
                input.xs,
                input.ys,
                input.times,
                input.input_size as int,
                i,
            )
        &&& self.directions@.len() == samples.len() - 1
        &&& forall|i: int|
            0 <= i < samples.len() - 1 ==> #[trigger] self.directions@[i] == direction_spec(
                samples,
                i,
            )
        &&& self.beeline_speed_percentiles@.len() == samples.len()
        &&& forall|i: int|
            0 <= i < samples.len() ==> #[trigger] self.beeline_speed_percentiles@[i]
                == beeline_speed_rate_spec(
                samples,
                self.proximity_info.spec_most_common_key_width(),
                self.average_speed,
                input.xs,
                input.ys,
                input.times,
                input.input_size as int,
                i,
            ).spec_percent()
        &&& is_distance_table(
            self.sampled_normalized_squared_length_cache@,
            samples,
            self.proximity_info,
            true,
            samples.len() as int,
        )
    }

    /// Nothing is measured: there is no speed, no beeline speed, no
    /// direction and no distance from a key, and the average speed is that
    /// of `before`.
    pub open(crate) spec fn measures_nothing(&self, before: &ProximityInfoState) -> bool {
        &&& self.average_speed == before.average_speed
        &&& self.speed_rates@.len() == 0
        &&& self.beeline_speed_percentiles@.len() == 0
        &&& self.directions@.len() == 0
        &&& self.sampled_normalized_squared_length_cache@.len() == 0
    }

    /// The candidates of the key presses of the first pointer are those
    /// that the layout gives for each press; there are none for a gesture
    /// nor for another pointer.
    pub open(crate) spec fn has_proximities_of(&self, input: TouchInput) -> bool {
        if !input.is_geometric && input.pointer_id == 0 {
            &&& self.input_proximities@.len() == input.input_size
            &&& forall|i: int|
                0 <= i < input.input_size ==> (#[trigger] self.input_proximities@[i])@
                    == self.proximity_info.proximities_spec(
                    input.xs[i],
                    input.ys[i],
                    input.input_codes[i],
                )
        } else {
            self.input_proximities@.len() == 0
        }
    }

    /// Everything but what is measured at the sampled points.
    pub open(crate) spec fn same_but_measures(&self, other: &ProximityInfoState) -> bool {
        &&& self.proximity_info == other.proximity_info
        &&& self.max_point_to_key_length == other.max_point_to_key_length
        &&& self.is_continuous_suggestion_possible == other.is_continuous_suggestion_possible
        &&& self.has_been_updated_by_geometric_input == other.has_been_updated_by_geometric_input
        &&& self.samples() == other.samples()
        &&& self.touch_position_correction_enabled == other.touch_position_correction_enabled
        &&& self.input_proximities == other.input_proximities
        &&& self.sampled_input_size == other.sampled_input_size
    }

    /// Everything but the sampled points.
    pub open(crate) spec fn same_but_samples(&self, other: &ProximityInfoState) -> bool {
        &&& self.proximity_info == other.proximity_info
        &&& self.max_point_to_key_length == other.max_point_to_key_length
        &&& self.average_speed == other.average_speed
        &&& self.is_continuous_suggestion_possible == other.is_continuous_suggestion_possible
        &&& self.has_been_updated_by_geometric_input == other.has_been_updated_by_geometric_input
        &&& self.beeline_speed_percentiles == other.beeline_speed_percentiles
        &&& self.sampled_normalized_squared_length_cache
            == other.sampled_normalized_squared_length_cache
        &&& self.speed_rates == other.speed_rates
        &&& self.directions == other.directions
        &&& self.touch_position_correction_enabled == other.touch_position_correction_enabled
        &&& self.input_proximities == other.input_proximities
        &&& self.sampled_input_size == other.sampled_input_size
    }

    /// The layout is whole and the sampled points are well formed.
    pub open(crate) spec fn wf_samples(&self) -> bool {
        &&& self.proximity_info.wf()
        &&& self.max_point_to_key_length.wf()
        &&& self.samples().wf()
    }

    // -----------------------------------------------------------------------
    // Continuity
    // -----------------------------------------------------------------------
    /// Tells whether the input continues the input that the sampled points
    /// were taken from: whether it has a point for each of them, and each
    /// of them still is where and when the point of the input is that it
    /// names.  Times are compared where the input has times.
    pub fn check_and_return_is_continuos_suggestion_possible(
        &self,
        input_size: usize,
        x_coordinates: &Vec<i32>,
        y_coordinates: &Vec<i32>,
        times: &Option<Vec<i32>>,
    ) -> (possible: bool)
        requires
            self.samples().consistent(),
            self.spec_size() == self.samples().len(),
            input_size <= x_coordinates@.len(),
            input_size <= y_coordinates@.len(),
            times is Some ==> input_size <= times->0@.len(),
        ensures
            possible == input_continues(
                self.samples(),
                input_size,
                x_coordinates@,
                y_coordinates@,
                match *times {
                    Some(t) => Some(t@),
                    None => None,
                },
            ),
    {
        if input_size < self.sampled_input_size {
            return false;
        }
        let mut i: usize = 0;
        while i < self.sampled_input_size
            invariant
                i <= self.sampled_input_size,
                self.samples().consistent(),
                self.spec_size() == self.samples().len(),
                input_size <= x_coordinates@.len(),
                input_size <= y_coordinates@.len(),
                times is Some ==> input_size <= times->0@.len(),
                forall|k: int|
                    0 <= k < i ==> {
                        let index = #[trigger] self.samples().indices[k];
                        &&& index < input_size
                        &&& x_coordinates@[index as int] == self.samples().xs[k]
                        &&& y_coordinates@[index as int] == self.samples().ys[k]
                        &&& (times is Some ==> times->0@[index as int] == self.samples().times[k])
                    },
            decreases self.sampled_input_size - i,
        {
            let index = self.sampled_input_indice[i];
            assert(index == self.samples().indices[i as int]);
            if index >= input_size {
                return false;
            }
            if x_coordinates[index] != self.sampled_input_xs[i] || y_coordinates[index]
                != self.sampled_input_ys[i] {
                return false;
            }
            match times {
                Some(t) => {
                    if t[index] != self.sampled_times[i] {
                        return false;
                    }
                },
                None => {},
            }
            i += 1;
        }
        true
    }

    /// Takes the last sampled point away.
    fn pop_input_data(&mut self)
        requires
            old(self).samples().consistent(),
            old(self).samples().len() > 0,
        ensures
            final(self).samples() == old(self).samples().drop_last(),
            final(self).same_but_samples(old(self)),
    {
        self.sampled_input_xs.pop();
        self.sampled_input_ys.pop();
        self.sampled_times.pop();
        self.sampled_length_cache.pop();
        self.sampled_input_indice.pop();
        assert(self.sampled_input_xs@ =~= old(self).sampled_input_xs@.subrange(
            0,
            old(self).sampled_input_xs@.len() - 1,
        ));
        assert(self.sampled_input_ys@ =~= old(self).sampled_input_ys@.subrange(
            0,
            old(self).sampled_input_xs@.len() - 1,
        ));
        assert(self.sampled_times@ =~= old(self).sampled_times@.subrange(
            0,
            old(self).sampled_input_xs@.len() - 1,
        ));
        assert(self.sampled_length_cache@ =~= old(self).sampled_length_cache@.subrange(
            0,
            old(self).sampled_input_xs@.len() - 1,
        ));
        assert(self.sampled_input_indice@ =~= old(self).sampled_input_indice@.subrange(
            0,
            old(self).sampled_input_xs@.len() - 1,
        ));
    }

    /// Takes the last two sampled points away, or the only one, and returns
    /// the point of the input that the first of them was: the point at
    /// which sampling goes on.
    fn trim_last_two_touch_points(&mut self) -> (next_start_index: usize)
        requires
            old(self).samples().consistent(),
            old(self).samples().len() > 0,
        ensures
            final(self).samples() == old(self).samples().take(
                if old(self).samples().len() >= 2 {
                    old(self).samples().len() - 2
                } else {
                    0
                },
            ),
            next_start_index == old(self).samples().indices[if old(self).samples().len() >= 2 {
                old(self).samples().len() - 2
            } else {
                0
            }],
            final(self).same_but_samples(old(self)),
    {
        let len = self.sampled_input_indice.len();
        if len >= 2 {
            let next_start_index = self.sampled_input_indice[len - 2];
            self.pop_input_data();
            self.pop_input_data();
            assert(self.samples().xs =~= old(self).samples().xs.subrange(0, len - 2));
            assert(self.samples().ys =~= old(self).samples().ys.subrange(0, len - 2));
            assert(self.samples().times =~= old(self).samples().times.subrange(0, len - 2));
            assert(self.samples().indices =~= old(self).samples().indices.subrange(0, len - 2));
            assert(self.samples().lengths =~= old(self).samples().lengths.subrange(0, len - 2));
            next_start_index
        } else {
            let next_start_index = self.sampled_input_indice[0];
            self.pop_input_data();
            next_start_index
        }
    }
}

impl ProximityInfoState {
    // -----------------------------------------------------------------------
    // Sampling
    // -----------------------------------------------------------------------
    /// Finds the keys near `(x, y)`.  `current_near_keys_distances` is
    /// emptied and then given, key after key, each key whose distance from
    /// the point is below `NEAR_KEY_THRESHOLD_FOR_DISTANCE` hundredths of a
    /// square of the most common key width, with its squared distance in
    /// pixels.  Returns the least of the distances of all keys, or the
    /// largest distance that the state was given if no key is nearer.
    pub fn update_near_keys_distances(
        &self,
        x: i32,
        y: i32,
        is_geometric: bool,
        current_near_keys_distances: &mut NearKeysDistanceMap,
    ) -> (nearest: Ratio)
        requires
            self.layout().wf(),
            self.spec_max_point_to_key_length().wf(),
            valid_touch_coordinate(x as int),
            valid_touch_coordinate(y as int),
        ensures
            final(current_near_keys_distances)@ == near_keys_upto(
                self.layout(),
                x,
                y,
                is_geometric,
                self.layout().spec_key_count(),
            ),
            final(current_near_keys_distances).wf(),
            nearest == nearest_upto(
                self.layout(),
                self.spec_max_point_to_key_length(),
                x,
                y,
                is_geometric,
                self.layout().spec_key_count(),
            ),
            nearest.wf(),
    {
        current_near_keys_distances.clear();
        let mut nearest_key_distance = self.max_point_to_key_length;
        let key_count = self.proximity_info.get_key_count();
        let mut k: usize = 0;
        while k < key_count
            invariant
                k <= key_count,
                key_count == self.layout().spec_key_count(),
                self.layout().wf(),
                valid_touch_coordinate(x as int),
                valid_touch_coordinate(y as int),
                current_near_keys_distances@ == near_keys_upto(
                    self.layout(),
                    x,
                    y,
                    is_geometric,
                    k as nat,
                ),
                current_near_keys_distances.wf(),
                forall|i: int|
                    0 <= i < current_near_keys_distances@.len() ==> (
                    #[trigger] current_near_keys_distances@[i]).0 < k,
                nearest_key_distance == nearest_upto(
                    self.layout(),
                    self.max_point_to_key_length,
                    x,
                    y,
                    is_geometric,
                    k as nat,
                ),
                nearest_key_distance.wf(),
            decreases key_count - k,
        {
            let dist = self.proximity_info.get_normalized_square_distance_from_center_float_g(
                k,
                x,
                y,
                is_geometric,
            );
            if dist.below_hundredths(NEAR_KEY_THRESHOLD_FOR_DISTANCE) {
                assert(!has_key(current_near_keys_distances@, k));
                current_near_keys_distances.insert(k, dist.num as i64);
            }
            if dist.less_than(&nearest_key_distance) {
                nearest_key_distance = dist;
            }
            k += 1;
        }
        nearest_key_distance
    }

    /// Tells whether the sampled point before the current one is nearest
    /// to one of its near keys: whether there is a key near it that is
    /// further, by more than `MARGIN_FOR_PREV_LOCAL_MIN` hundredths of a
    /// square of the most common key width, or not near at all, both for
    /// the point before it and for the current point.
    pub fn is_prev_local_min(
        &self,
        current_near_keys_distances: &NearKeysDistanceMap,
        prev_near_keys_distances: &NearKeysDistanceMap,
        prev_prev_near_keys_distances: &NearKeysDistanceMap,
    ) -> (local_min: bool)
        requires
            self.layout().wf(),
            current_near_keys_distances.wf(),
            prev_near_keys_distances.wf(),
            prev_prev_near_keys_distances.wf(),
        ensures
            local_min == prev_is_local_min(
                current_near_keys_distances@,
                prev_near_keys_distances@,
                prev_prev_near_keys_distances@,
                square(self.layout().spec_most_common_key_width()),
            ),
    {
        let den: i128 = self.proximity_info.get_most_common_key_width_square() as i128;
        let margin: i128 = (MARGIN_FOR_PREV_LOCAL_MIN as i128) * den;
        let ghost cur = current_near_keys_distances@;
        let ghost prev = prev_near_keys_distances@;
        let ghost prev_prev = prev_prev_near_keys_distances@;
        let n = prev_near_keys_distances.len();
        let mut i: usize = 0;
        while i < n
            invariant
                i <= n,
                n == prev.len(),
                cur == current_near_keys_distances@,
                prev == prev_near_keys_distances@,
                prev_prev == prev_prev_near_keys_distances@,
                current_near_keys_distances.wf(),
                prev_near_keys_distances.wf(),
                prev_prev_near_keys_distances.wf(),
                den == square(self.layout().spec_most_common_key_width()),
                0 < den <= 0x100_0000_0000_0000,
                margin == MARGIN_FOR_PREV_LOCAL_MIN * den,
                forall|j: int| 0 <= j < i ==> !#[trigger] is_local_min_at(cur, prev, prev_prev, den as int, j),
            decreases n - i,
        {
            let (k, d) = prev_near_keys_distances.get_index(i);
            let threshold: i128 = (d as i128) * (HUNDREDTHS as i128) + margin;
            let is_prev_prev_near = match prev_prev_near_keys_distances.get(k) {
                Some(other) => (other as i128) * (HUNDREDTHS as i128) > threshold,
                None => true,
            };
            let is_current_near = match current_near_keys_distances.get(k) {
                Some(other) => (other as i128) * (HUNDREDTHS as i128) > threshold,
                None => true,
            };
            if is_prev_prev_near && is_current_near {
                assert(is_local_min_at(cur, prev, prev_prev, den as int, i as int));
                return true;
            }
            i += 1;
        }
        false
    }

    /// The score of the point `(x, y)`, which tells what the sampled point
    /// before it is worth: below 0, the point before is of no use.
    pub fn get_point_score(
        &self,
        x: i32,
        y: i32,
        nearest: Ratio,
        sum_angle: i128,
        current_near_keys_distances: &NearKeysDistanceMap,
        prev_near_keys_distances: &NearKeysDistanceMap,
        prev_prev_near_keys_distances: &NearKeysDistanceMap,
    ) -> (score: i32)
        requires
            self.wf_samples(),
            valid_touch_coordinate(x as int),
            valid_touch_coordinate(y as int),
            nearest.wf(),
            current_near_keys_distances.wf(),
            prev_near_keys_distances.wf(),
            prev_prev_near_keys_distances.wf(),
        ensures
            score == point_score_spec(
                self.samples(),
                self.layout(),
                x,
                y,
                nearest,
                sum_angle as int,
                current_near_keys_distances@,
                prev_near_keys_distances@,
                prev_prev_near_keys_distances@,
            ),
            -1 <= score <= 2,
    {
        let size = self.sampled_input_xs.len();
        if size <= 1 || prev_near_keys_distances.is_empty() {
            return 0;
        }
        assert(self.samples().in_range(size - 1));
        assert(self.samples().in_range(size - 2));
        let base_sample_rate: i64 = self.proximity_info.get_most_common_key_width() as i64;
        let dist_prev: i64 = (get_distance_int(
            self.sampled_input_xs[size - 1],
            self.sampled_input_ys[size - 1],
            self.sampled_input_xs[size - 2],
            self.sampled_input_ys[size - 2],
        ) as i64) * (DISTANCE_BASE_SCALE as i64);
        let corner_distance: i64 = base_sample_rate * (CORNER_CHECK_DISTANCE_THRESHOLD_SCALE as i64);
        assert(corner_distance == self.layout().spec_most_common_key_width()
            * CORNER_CHECK_DISTANCE_THRESHOLD_SCALE);
        let mut score: i32 = 0;
        if !self.is_prev_local_min(
            current_near_keys_distances,
            prev_near_keys_distances,
            prev_prev_near_keys_distances,
        ) {
            score += NOT_LOCALMIN_DISTANCE_SCORE;
        } else if nearest.below_hundredths(NEAR_KEY_THRESHOLD_FOR_POINT_SCORE) {
            score += LOCALMIN_DISTANCE_AND_NEAR_TO_KEY_SCORE;
        }
        if dist_prev > corner_distance && (
        sum_angle > CORNER_SUM_ANGLE_THRESHOLD as i128 || crate::math::is_sharp_turn(
            x - self.sampled_input_xs[size - 1],
            y - self.sampled_input_ys[size - 1],
            self.sampled_input_xs[size - 1] - self.sampled_input_xs[size - 2],
            self.sampled_input_ys[size - 1] - self.sampled_input_ys[size - 2],
        )) {
            score += CORNER_SCORE;
        }
        score
    }
}

impl ProximityInfoState {
    /// Looks at the point `input_index` of the input, at `(x, y)` and
    /// touched at `time`, and puts it after the sampled points.
    ///
    /// Of a gesture, whose points have no code point and are sampled, the
    /// keys near the point are found first, into
    /// `current_near_keys_distances`, and the point is scored.  A score
    /// below 0 takes the last sampled point away, and the result tells so.
    /// The last point of the input is left out where it is less than a
    /// `LAST_POINT_SKIP_DISTANCE_SCALE`th of the most common key width from
    /// the sampled point before it.
    ///
    /// A point with a code point and without a position is put at the
    /// centre of the key of its code point, if there is such a key.
    fn push_touch_point(
        &mut self,
        input_index: usize,
        node_code_point: Option<char>,
        x: i32,
        y: i32,
        time: i32,
        is_geometric: bool,
        do_sampling: bool,
        is_last_point: bool,
        sum_angle: i128,
        current_near_keys_distances: &mut NearKeysDistanceMap,
        prev_near_keys_distances: &NearKeysDistanceMap,
        prev_prev_near_keys_distances: &NearKeysDistanceMap,
    ) -> (popped: bool)
        requires
            old(self).wf_samples(),
            valid_touch_coordinate(x as int),
            valid_touch_coordinate(y as int),
            old(current_near_keys_distances).wf(),
            prev_near_keys_distances.wf(),
            prev_prev_near_keys_distances.wf(),
            forall|i: int|
                0 <= i < old(self).samples().len() ==> #[trigger] old(self).samples().indices[i]
                    < input_index,
        ensures
            ({
                let sampling = node_code_point is None && do_sampling;
                let score = if sampling {
                    sampling_score(
                        old(self).samples(),
                        old(self).layout(),
                        old(self).spec_max_point_to_key_length(),
                        x,
                        y,
                        is_geometric,
                        sum_angle as int,
                        prev_near_keys_distances@,
                        prev_prev_near_keys_distances@,
                    )
                } else {
                    0
                };
                &&& popped == (sampling && score < 0)
                &&& final(self).samples() == pushed_samples(
                    old(self).samples(),
                    old(self).layout(),
                    input_index,
                    node_code_point,
                    x,
                    y,
                    time,
                    is_geometric,
                    sampling,
                    is_last_point,
                    score,
                )
                &&& final(current_near_keys_distances)@ == (if sampling {
                    near_keys_upto(
                        old(self).layout(),
                        x,
                        y,
                        is_geometric,
                        old(self).layout().spec_key_count(),
                    )
                } else {
                    old(current_near_keys_distances)@
                })
            }),
            final(current_near_keys_distances).wf(),
            final(self).same_but_samples(old(self)),
            final(self).wf_samples(),
            popped ==> old(self).samples().len() >= 2 && prev_near_keys_distances@.len() > 0,
    {
        let mut size = self.sampled_input_xs.len();
        let mut popped = false;
        if node_code_point.is_none() && do_sampling {
            let nearest = self.update_near_keys_distances(
                x,
                y,
                is_geometric,
                current_near_keys_distances,
            );
            let score = self.get_point_score(
                x,
                y,
                nearest,
                sum_angle,
                current_near_keys_distances,
                prev_near_keys_distances,
                prev_prev_near_keys_distances,
            );
            if score < 0 {
                self.pop_input_data();
                size = self.sampled_input_xs.len();
                popped = true;
                proof {
                    lemma_take_wf(old(self).samples(), size as int);
                }
            }
            if is_last_point && size > 0 {
                assert(self.samples().in_range(size - 1));
                let gap: i64 = get_distance_int(
                    x,
                    y,
                    self.sampled_input_xs[size - 1],
                    self.sampled_input_ys[size - 1],
                ) as i64;
                if gap * (LAST_POINT_SKIP_DISTANCE_SCALE as i64)
                    < self.proximity_info.get_most_common_key_width() as i64 {
                    return popped;
                }
            }
        }
        let ghost kept = self.samples();
        let (px, py) = match node_code_point {
            Some(c) => {
                if x < 0 || y < 0 {
                    match self.proximity_info.get_key_index_of(c) {
                        Some(key_id) => {
                            proof {
                                self.proximity_info.lemma_key_bounds(key_id as int);
                            }
                            (
                                self.proximity_info.get_key_center_x_of_key_id_g(
                                    key_id,
                                    None,
                                    is_geometric,
                                ),
                                self.proximity_info.get_key_center_y_of_key_id_g(
                                    key_id,
                                    None,
                                    is_geometric,
                                ),
                            )
                        },
                        None => (x, y),
                    }
                } else {
                    (x, y)
                }
            },
            None => (x, y),
        };
        if size > 0 {
            assert(self.samples().in_range(size - 1));
            let distance: i64 = get_distance_int(
                px,
                py,
                self.sampled_input_xs[size - 1],
                self.sampled_input_ys[size - 1],
            ) as i64;
            let length: i64 = self.sampled_length_cache[size - 1] as i64 + distance;
            if length < i32::MAX as i64 {
                self.sampled_length_cache.push(length as i32);
            } else {
                self.sampled_length_cache.push(i32::MAX);
            }
        } else {
            self.sampled_length_cache.push(0);
        }
        self.sampled_input_xs.push(px);
        self.sampled_input_ys.push(py);
        self.sampled_times.push(time);
        self.sampled_input_indice.push(input_index);
        proof {
            assert(self.samples() == kept.push(px, py, time, input_index));
            lemma_push_wf(kept, px, py, time, input_index);
        }
        popped
    }
}

/// The first `n` of well-formed points are well formed.
pub proof fn lemma_take_wf(samples: Samples, n: int)
    requires
        samples.wf(),
        0 <= n <= samples.len(),
    ensures
        samples.take(n).wf(),
        samples.take(n).len() == n,
{
    let first = samples.take(n);
    assert forall|i: int| 0 <= i < first.len() implies #[trigger] first.in_range(i) by {
        assert(samples.in_range(i));
    }
    assert forall|i: int| 0 <= i < first.len() - 1 implies #[trigger] first.ordered(i) by {
        assert(samples.ordered(i));
    }
}

/// Well-formed points stay well formed when a point is put after them that
/// lies where a touch can lie and comes later in the input.
pub proof fn lemma_push_wf(samples: Samples, x: i32, y: i32, time: i32, index: usize)
    requires
        samples.wf(),
        valid_touch_coordinate(x as int),
        valid_touch_coordinate(y as int),
        forall|i: int| 0 <= i < samples.len() ==> #[trigger] samples.indices[i] < index,
    ensures
        samples.push(x, y, time, index).wf(),
        samples.push(x, y, time, index).len() == samples.len() + 1,
        samples.push(x, y, time, index).take(samples.len() as int) == samples,
{
    let more = samples.push(x, y, time, index);
    let n = samples.len() as int;
    if n > 0 {
        lemma_distance_symmetric(x as int, y as int, samples.xs.last() as int, samples.ys.last() as int);
    }
    assert forall|i: int| 0 <= i < more.len() implies #[trigger] more.in_range(i) by {
        if i < n {
            assert(samples.in_range(i));
        }
    }
    assert forall|i: int| 0 <= i < more.len() - 1 implies #[trigger] more.ordered(i) by {
        if i < n - 1 {
            assert(samples.ordered(i));
        } else {
            assert(samples.indices[i] < index);
        }
    }
    assert(more.take(n).xs =~= samples.xs);
    assert(more.take(n).ys =~= samples.ys);
    assert(more.take(n).times =~= samples.times);
    assert(more.take(n).indices =~= samples.indices);
    assert(more.take(n).lengths =~= samples.lengths);
}

/// Pushing a point changes none of the first `base` sampled points, as
/// long as a point that is taken away is not one of them.
pub proof fn lemma_pushed_keeps_prefix(
    samples: Samples,
    layout: ProximityInfo,
    input_index: usize,
    node_code_point: Option<char>,
    x: i32,
    y: i32,
    time: i32,
    is_geometric: bool,
    sampling: bool,
    is_last_point: bool,
    score: int,
    base: int,
)
    requires
        samples.consistent(),
        0 <= base <= samples.len(),
        sampling && score < 0 ==> base < samples.len(),
    ensures
        ({
            let pushed = pushed_samples(
                samples,
                layout,
                input_index,
                node_code_point,
                x,
                y,
                time,
                is_geometric,
                sampling,
                is_last_point,
                score,
            );
            &&& pushed.take(base) == samples.take(base)
            &&& base <= pushed.len()
            &&& !(sampling && is_last_point) ==> base < pushed.len()
        }),
{
    let kept = if sampling && score < 0 {
        samples.drop_last()
    } else {
        samples
    };
    assert(kept.take(base).xs =~= samples.take(base).xs);
    assert(kept.take(base).ys =~= samples.take(base).ys);
    assert(kept.take(base).times =~= samples.take(base).times);
    assert(kept.take(base).indices =~= samples.take(base).indices);
    assert(kept.take(base).lengths =~= samples.take(base).lengths);
    let placed = placed_point(layout, node_code_point, x, y, is_geometric);
    let more = kept.push(placed.0, placed.1, time, input_index);
    assert(more.take(base).xs =~= kept.take(base).xs);
    assert(more.take(base).ys =~= kept.take(base).ys);
    assert(more.take(base).times =~= kept.take(base).times);
    assert(more.take(base).indices =~= kept.take(base).indices);
    assert(more.take(base).lengths =~= kept.take(base).lengths);
}

impl ProximityInfoState {
    /// Samples the points of the input from `push_touch_point_start_index`
    /// on, up to the last point that the pointer `pointer_id` has touched,
    /// and puts them after the sampled points.  Returns the number of
    /// sampled points.
    ///
    /// The points of a gesture are scored one after the other, and a point
    /// takes the sampled point before it away where its score is below 0;
    /// key presses are all kept.  None of the points that were sampled
    /// before the call is taken away.
    fn update_touch_points(
        &mut self,
        input_codes: &Vec<char>,
        x_coordinates: &Vec<i32>,
        y_coordinates: &Vec<i32>,
        times: &Option<Vec<i32>>,
        pointer_ids: &Vec<usize>,
        turn_angles: &Vec<i32>,
        input_size: usize,
        is_geometric: bool,
        pointer_id: usize,
        push_touch_point_start_index: usize,
    ) -> (sampled_size: usize)
        requires
            old(self).wf_samples(),
            (TouchInput {
                pointer_id,
                input_size,
                input_codes: input_codes@,
                xs: x_coordinates@,
                ys: y_coordinates@,
                times: times_view(*times),
                pointer_ids: pointer_ids@,
                turn_angles: turn_angles@,
                is_geometric,
            }).wf(),
            forall|k: int|
                0 <= k < old(self).samples().len() ==> #[trigger] old(self).samples().indices[k]
                    < push_touch_point_start_index,
            forall|k: int|
                0 <= k < old(self).samples().len() ==> #[trigger] old(self).samples().indices[k]
                    < input_size,
        ensures
            final(self).samples() == sampled_from(
                old(self).layout(),
                old(self).spec_max_point_to_key_length(),
                TouchInput {
                    pointer_id,
                    input_size,
                    input_codes: input_codes@,
                    xs: x_coordinates@,
                    ys: y_coordinates@,
                    times: times_view(*times),
                    pointer_ids: pointer_ids@,
                    turn_angles: turn_angles@,
                    is_geometric,
                },
                old(self).samples(),
                push_touch_point_start_index as int,
            ),
            sampled_size == final(self).samples().len(),
            final(self).wf_samples(),
            final(self).same_but_samples(old(self)),
            final(self).samples().agrees_up_to(
                old(self).samples(),
                old(self).samples().len() as int,
            ),
            forall|k: int|
                0 <= k < final(self).samples().len() ==> #[trigger] final(self).samples().indices[k]
                    < input_size,
    {
        let ghost input = TouchInput {
            pointer_id,
            input_size,
            input_codes: input_codes@,
            xs: x_coordinates@,
            ys: y_coordinates@,
            times: times_view(*times),
            pointer_ids: pointer_ids@,
            turn_angles: turn_angles@,
            is_geometric,
        };
        let ghost base_samples = self.samples();
        let ghost base = self.samples().len() as int;
        assert(self.samples().take(base).xs =~= self.samples().xs);
        assert(self.samples().take(base).ys =~= self.samples().ys);
        assert(self.samples().take(base).times =~= self.samples().times);
        assert(self.samples().take(base).indices =~= self.samples().indices);
        assert(self.samples().take(base).lengths =~= self.samples().lengths);
        if push_touch_point_start_index >= input_size {
            return self.sampled_input_xs.len();
        }
        let proximity_only = !is_geometric && (x_coordinates[0] < 0 || y_coordinates[0] < 0);
        let mut last_input_index = push_touch_point_start_index;
        let mut i: usize = push_touch_point_start_index;
        while i < input_size
            invariant
                push_touch_point_start_index <= i <= input_size,
                input_size <= pointer_ids@.len(),
                input.pointer_ids == pointer_ids@,
                input.pointer_id == pointer_id,
                last_input_index == input.last_index(push_touch_point_start_index as int, i as int),
                push_touch_point_start_index <= last_input_index < input_size,
            decreases input_size - i,
        {
            if pointer_id == pointer_ids[i] {
                last_input_index = i;
            }
            i += 1;
        }
        let mut current_near_keys_distances = NearKeysDistanceMap::new();
        let mut prev_near_keys_distances = NearKeysDistanceMap::new();
        let mut prev_prev_near_keys_distances = NearKeysDistanceMap::new();
        let mut sum_angle: i128 = 0;
        let ghost layout = self.layout();
        let ghost max_length = self.spec_max_point_to_key_length();
        let ghost start_state = SamplingState {
            samples: base_samples,
            current: Seq::empty(),
            prev: Seq::empty(),
            prev_prev: Seq::empty(),
            sum_angle: 0,
        };
        let mut i: usize = push_touch_point_start_index;
        while i <= last_input_index
            invariant
                push_touch_point_start_index <= i <= last_input_index + 1,
                last_input_index < input_size,
                last_input_index == input.last_index(
                    push_touch_point_start_index as int,
                    input_size as int,
                ),
                input == (TouchInput {
                    pointer_id,
                    input_size,
                    input_codes: input_codes@,
                    xs: x_coordinates@,
                    ys: y_coordinates@,
                    times: times_view(*times),
                    pointer_ids: pointer_ids@,
                    turn_angles: turn_angles@,
                    is_geometric,
                }),
                input.wf(),
                proximity_only == input.proximity_only(),
                self.wf_samples(),
                self.same_but_samples(old(self)),
                layout == self.layout(),
                max_length == self.spec_max_point_to_key_length(),
                current_near_keys_distances.wf(),
                prev_near_keys_distances.wf(),
                prev_prev_near_keys_distances.wf(),
                0 <= sum_angle <= i * MAX_TURN_ANGLE,
                (SamplingState {
                    samples: self.samples(),
                    current: current_near_keys_distances@,
                    prev: prev_near_keys_distances@,
                    prev_prev: prev_prev_near_keys_distances@,
                    sum_angle: sum_angle as int,
                }) == sampled_through(
                    layout,
                    max_length,
                    input,
                    last_input_index as int,
                    start_state,
                    push_touch_point_start_index as int,
                    i as int,
                ),
                forall|k: int|
                    0 <= k < self.samples().len() ==> #[trigger] self.samples().indices[k] < i,
                base <= self.samples().len(),
                self.samples().take(base) == base_samples,
                base_samples.len() == base,
                i <= last_input_index && prev_near_keys_distances@.len() > 0 ==> base
                    < self.samples().len(),
                !is_geometric ==> prev_near_keys_distances@.len() == 0
                    && current_near_keys_distances@.len() == 0
                    && prev_prev_near_keys_distances@.len() == 0,
            decreases last_input_index + 1 - i,
        {
            if pointer_id == pointer_ids[i] {
                assert(input.valid_point(i as int));
                let c = if is_geometric {
                    None
                } else {
                    Some(input_codes[i])
                };
                let (x, y): (i32, i32) = if proximity_only {
                    (-1, -1)
                } else {
                    (x_coordinates[i], y_coordinates[i])
                };
                let time: i32 = match times {
                    Some(t) => t[i],
                    None => -1,
                };
                if is_geometric && i > 1 {
                    sum_angle = sum_angle + turn_angles[i] as i128;
                }
                let ghost before = self.samples();
                let ghost score = if is_geometric {
                    sampling_score(
                        before,
                        layout,
                        max_length,
                        x,
                        y,
                        is_geometric,
                        sum_angle as int,
                        prev_near_keys_distances@,
                        prev_prev_near_keys_distances@,
                    )
                } else {
                    0
                };
                let popped = self.push_touch_point(
                    i,
                    c,
                    x,
                    y,
                    time,
                    is_geometric,
                    is_geometric,
                    i == last_input_index,
                    sum_angle,
                    &mut current_near_keys_distances,
                    &prev_near_keys_distances,
                    &prev_prev_near_keys_distances,
                );
                proof {
                    lemma_pushed_keeps_prefix(
                        before,
                        layout,
                        i,
                        c,
                        x,
                        y,
                        time,
                        is_geometric,
                        is_geometric,
                        i == last_input_index,
                        score,
                        base,
                    );
                    assert(self.samples().take(base).xs =~= before.take(base).xs);
                }
                if popped {
                    std::mem::swap(&mut prev_near_keys_distances, &mut current_near_keys_distances);
                } else {
                    std::mem::swap(
                        &mut prev_near_keys_distances,
                        &mut prev_prev_near_keys_distances,
                    );
                    std::mem::swap(&mut prev_near_keys_distances, &mut current_near_keys_distances);
                    sum_angle = 0;
                }
                proof {
                    assert forall|k: int| 0 <= k < self.samples().len() implies #[trigger] self.samples().indices[k]
                        < i + 1 by {
                        if k < before.len() && k < self.samples().len() - 1 {
                            assert(self.samples().indices[k] == before.indices[k]);
                        }
                    }
                }
            }
            i += 1;
        }
        self.sampled_input_xs.len()
    }
}

/// The length of the steps from the point `from` of the input to the
/// point `to`, and the time that they took.
fn measure_path(
    x_coordinates: &Vec<i32>,
    y_coordinates: &Vec<i32>,
    times: &Option<Vec<i32>>,
    from: usize,
    to: usize,
) -> (measure: (i64, i64))
    requires
        to < x_coordinates@.len(),
        to < y_coordinates@.len(),
        times is Some ==> to < times->0@.len(),
        to - from <= 2 * NUM_POINTS_FOR_SPEED_CALCULATION,
    ensures
        measure.0 == path_length(x_coordinates@, y_coordinates@, from as int, to as int),
        measure.1 == path_duration(times_view(*times), from as int, to as int),
        0 <= measure.0 <= 4 * 0x7fff_ffff,
        -4 * 0xffff_ffff <= measure.1 <= 4 * 0xffff_ffff,
{
    let mut length: i64 = 0;
    let mut duration: i64 = 0;
    if from >= to {
        return (length, duration);
    }
    let mut j: usize = from;
    while j < to
        invariant
            from <= j <= to,
            to < x_coordinates@.len(),
            to < y_coordinates@.len(),
            times is Some ==> to < times->0@.len(),
            to - from <= 4,
            length == path_length(x_coordinates@, y_coordinates@, from as int, j as int),
            duration == path_duration(times_view(*times), from as int, j as int),
            0 <= length <= (j - from) * 0x7fff_ffff,
            -(j - from) * 0xffff_ffff <= duration <= (j - from) * 0xffff_ffff,
        decreases to - j,
    {
        length = length + get_distance_int(
            x_coordinates[j],
            y_coordinates[j],
            x_coordinates[j + 1],
            y_coordinates[j + 1],
        ) as i64;
        match times {
            Some(t) => {
                duration = duration + (t[j + 1] as i64 - t[j] as i64);
            },
            None => {},
        }
        j += 1;
    }
    (length, duration)
}

impl ProximityInfoState {
    // -----------------------------------------------------------------------
    // Speed
    // -----------------------------------------------------------------------
    /// Measures the speed at each sampled point from `last_saved_input_size`
    /// on, as a share of the average speed, and the direction from each
    /// sampled point to the next.  The speeds at the points before
    /// `last_saved_input_size` stay as they are.  Returns the average
    /// speed: the length of the way along the sampled points by the time
    /// from the first of them to the last.
    fn refresh_speed_rates(
        &mut self,
        input_size: usize,
        x_coordinates: &Vec<i32>,
        y_coordinates: &Vec<i32>,
        times: &Option<Vec<i32>>,
        last_saved_input_size: usize,
    ) -> (average_speed: Ratio)
        requires
            old(self).wf_samples(),
            old(self).samples().len() > 0,
            input_size <= x_coordinates@.len(),
            input_size <= y_coordinates@.len(),
            times is Some ==> input_size <= times->0@.len(),
            forall|k: int|
                0 <= k < old(self).samples().len() ==> #[trigger] old(self).samples().indices[k]
                    < input_size,
            last_saved_input_size <= old(self).samples().len(),
            last_saved_input_size <= old(self).spec_speed_rates().len(),
        ensures
            final(self).same_but_measures(old(self)),
            final(self).spec_beeline_speed_percentiles() == old(self).spec_beeline_speed_percentiles(),
            final(self).spec_squared_length_cache() == old(self).spec_squared_length_cache(),
            final(self).spec_average_speed() == old(self).spec_average_speed(),
            final(self).spec_speed_rates().len() == old(self).samples().len(),
            forall|i: int|
                0 <= i < last_saved_input_size ==> #[trigger] final(self).spec_speed_rates()[i]
                    == old(self).spec_speed_rates()[i],
            forall|i: int|
                last_saved_input_size <= i < old(self).samples().len() ==> #[trigger] final(self).spec_speed_rates()[i] == speed_rate_spec(
                    old(self).samples(),
                    x_coordinates@,
                    y_coordinates@,
                    times_view(*times),
                    input_size as int,
                    i,
                ),
            final(self).spec_directions().len() == old(self).samples().len() - 1,
            forall|i: int|
                0 <= i < old(self).samples().len() - 1 ==> #[trigger] final(self).spec_directions()[i] == direction_spec(old(self).samples(), i),
            average_speed.num == sum_length(old(self).samples()),
            average_speed.den == sum_duration(old(self).samples()),
    {
        let size = self.sampled_input_xs.len();
        let ghost samples = self.samples();
        let sum_duration: i64 = self.sampled_times[size - 1] as i64 - self.sampled_times[0] as i64;
        let sum_length: i64 = self.sampled_length_cache[size - 1] as i64
            - self.sampled_length_cache[0] as i64;
        self.speed_rates.truncate(last_saved_input_size);
        let mut i: usize = last_saved_input_size;
        while i < size
            invariant
                last_saved_input_size <= i <= size,
                size == samples.len(),
                samples == self.samples(),
                samples.wf(),
                self.same_but_measures(old(self)),
                self.beeline_speed_percentiles == old(self).beeline_speed_percentiles,
                self.sampled_normalized_squared_length_cache == old(self).sampled_normalized_squared_length_cache,
                self.average_speed == old(self).average_speed,
                self.directions == old(self).directions,
                input_size <= x_coordinates@.len(),
                input_size <= y_coordinates@.len(),
                times is Some ==> input_size <= times->0@.len(),
                forall|k: int| 0 <= k < samples.len() ==> #[trigger] samples.indices[k] < input_size,
                sum_duration == crate::suggest::proximity_info_state::sum_duration(samples),
                sum_length == crate::suggest::proximity_info_state::sum_length(samples),
                self.speed_rates@.len() == i,
                forall|k: int|
                    0 <= k < last_saved_input_size ==> #[trigger] self.speed_rates@[k] == old(self).speed_rates@[k],
                forall|k: int|
                    last_saved_input_size <= k < i ==> #[trigger] self.speed_rates@[k]
                        == speed_rate_spec(
                        samples,
                        x_coordinates@,
                        y_coordinates@,
                        times_view(*times),
                        input_size as int,
                        k,
                    ),
            decreases size - i,
        {
            let index = self.sampled_input_indice[i];
            assert(index == samples.indices[i as int]);
            let back: usize = if index > NUM_POINTS_FOR_SPEED_CALCULATION {
                index - NUM_POINTS_FOR_SPEED_CALCULATION
            } else {
                0
            };
            let from: usize = if i > 0 && self.sampled_input_indice[i - 1] > back {
                self.sampled_input_indice[i - 1]
            } else {
                back
            };
            let forth: usize = if input_size - 1 - index > NUM_POINTS_FOR_SPEED_CALCULATION {
                index + NUM_POINTS_FOR_SPEED_CALCULATION
            } else {
                input_size - 1
            };
            let to: usize = if i < size - 1 && self.sampled_input_indice[i + 1] < forth {
                self.sampled_input_indice[i + 1]
            } else {
                forth
            };
            proof {
                if i > 0 {
                    assert(samples.ordered(i - 1));
                }
                if i < size - 1 {
                    assert(samples.ordered(i as int));
                    assert(samples.indices[i + 1] < input_size);
                }
            }
            let (length, duration) = measure_path(x_coordinates, y_coordinates, times, from, to);
            let rate = if duration == 0 || sum_duration == 0 {
                Ratio::new(1, 1)
            } else {
                assert(-0x1_0000_0000_0000_0000_0000 <= length * sum_duration
                    <= 0x1_0000_0000_0000_0000_0000) by (nonlinear_arith)
                    requires
                        0 <= length <= 0x2_0000_0000,
                        -0x1_0000_0000 <= sum_duration <= 0x1_0000_0000,
                ;
                assert(-0x1_0000_0000_0000_0000_0000 <= duration * sum_length
                    <= 0x1_0000_0000_0000_0000_0000) by (nonlinear_arith)
                    requires
                        -0x4_0000_0000 <= duration <= 0x4_0000_0000,
                        -0x1_0000_0000 <= sum_length <= 0x1_0000_0000,
                ;
                Ratio::new(
                    (length as i128) * (sum_duration as i128),
                    (duration as i128) * (sum_length as i128),
                )
            };
            self.speed_rates.push(rate);
            i += 1;
        }
        let mut directions: Vec<Direction> = Vec::new();
        let mut i: usize = 0;
        while i + 1 < size
            invariant
                i + 1 <= size,
                size == samples.len(),
                samples == self.samples(),
                samples.wf(),
                directions@.len() == i,
                forall|k: int| 0 <= k < i ==> #[trigger] directions@[k] == direction_spec(samples, k),
            decreases size - i,
        {
            assert(samples.in_range(i as int));
            assert(samples.in_range(i + 1));
            directions.push(
                Direction {
                    dx: self.sampled_input_xs[i] - self.sampled_input_xs[i + 1],
                    dy: self.sampled_input_ys[i] - self.sampled_input_ys[i + 1],
                },
            );
            i += 1;
        }
        self.directions = directions;
        Ratio::new(sum_length as i128, sum_duration as i128)
    }
}

/// The entry for the point `a` and the key `b` lies in the rows of the
/// first `i` points of a table with `keys` entries in a row.
pub proof fn lemma_flat_index(a: int, b: int, i: int, keys: int)
    requires
        0 <= a < i,
        0 <= b < keys,
    ensures
        0 <= a * keys + b < i * keys,
        (a + 1) * keys == a * keys + keys,
{
    assert(0 <= a * keys && a * keys + keys <= i * keys && (a + 1) * keys == a * keys + keys)
        by (nonlinear_arith)
        requires
            0 <= a < i,
            0 <= keys,
    ;
}

impl ProximityInfoState {
    /// The beeline speed at the sampled point `id` as a share of the average
    /// speed, and a hundredth more.  The points of the input that lie
    /// within half of the most common key width of the sampled point, before
    /// it and after it, make its window; the distance of the two ends of
    /// the window is divided by the time between them and by the average
    /// speed.
    ///
    /// The result is 1 where the average speed is not known, where the
    /// window has no extent and where times are not known; it is 0 where
    /// the time is `STRONG_DOUBLE_LETTER_TIME_MILLIS` or more.
    pub fn calculate_beeline_speed_rate(
        &self,
        id: usize,
        input_size: usize,
        x_coordinates: &Vec<i32>,
        y_coordinates: &Vec<i32>,
        times: &Option<Vec<i32>>,
    ) -> (rate: Ratio)
        requires
            self.wf_samples(),
            id < self.samples().len(),
            input_size <= x_coordinates@.len(),
            input_size <= y_coordinates@.len(),
            times is Some ==> input_size <= times->0@.len(),
            forall|k: int|
                0 <= k < self.samples().len() ==> #[trigger] self.samples().indices[k] < input_size,
            -0x1_0000_0000 <= self.spec_average_speed().num <= 0x1_0000_0000,
            -0x1_0000_0000 <= self.spec_average_speed().den <= 0x1_0000_0000,
        ensures
            rate == beeline_speed_rate_spec(
                self.samples(),
                self.layout().spec_most_common_key_width(),
                self.spec_average_speed(),
                x_coordinates@,
                y_coordinates@,
                times_view(*times),
                input_size as int,
                id as int,
            ),
            -0x1_0000_0000_0000_0000_0000_0000 <= rate.num <= 0x1_0000_0000_0000_0000_0000_0000,
            -0x1_0000_0000_0000_0000_0000_0000 <= rate.den <= 0x1_0000_0000_0000_0000_0000_0000,
    {
        let average = self.average_speed;
        let speed_known = average.den > 0 && 1000 * average.num >= average.den;
        let key_width: i64 = self.proximity_info.get_most_common_key_width() as i64;
        let scaled_width: i64 = key_width * (LOOKUP_RADIUS_PERCENTILE as i64);
        let lookup_radius: i64 = scaled_width / (MAX_PERCENTILE as i64);
        let x0 = self.sampled_input_xs[id];
        let y0 = self.sampled_input_ys[id];
        let actual_input_index = self.sampled_input_indice[id];
        assert(actual_input_index == self.samples().indices[id as int]);
        let mut temp_beeline_distance: i64 = 0;
        let mut start: usize = actual_input_index;
        while start > 0 && temp_beeline_distance < lookup_radius
            invariant
                start <= actual_input_index < input_size,
                input_size <= x_coordinates@.len(),
                input_size <= y_coordinates@.len(),
                walk_back(
                    x_coordinates@,
                    y_coordinates@,
                    x0,
                    y0,
                    lookup_radius as int,
                    start as int,
                    temp_beeline_distance as int,
                ) == walk_back(
                    x_coordinates@,
                    y_coordinates@,
                    x0,
                    y0,
                    lookup_radius as int,
                    actual_input_index as int,
                    0,
                ),
            decreases start,
        {
            start -= 1;
            temp_beeline_distance = get_distance_int(
                x0,
                y0,
                x_coordinates[start],
                y_coordinates[start],
            ) as i64;
        }
        if start > 0 && start < actual_input_index {
            start += 1;
        }
        temp_beeline_distance = 0;
        let mut end: usize = actual_input_index;
        while end < input_size - 1 && temp_beeline_distance < lookup_radius
            invariant
                actual_input_index <= end < input_size,
                input_size <= x_coordinates@.len(),
                input_size <= y_coordinates@.len(),
                walk_forth(
                    x_coordinates@,
                    y_coordinates@,
                    x0,
                    y0,
                    lookup_radius as int,
                    input_size as int,
                    end as int,
                    temp_beeline_distance as int,
                ) == walk_forth(
                    x_coordinates@,
                    y_coordinates@,
                    x0,
                    y0,
                    lookup_radius as int,
                    input_size as int,
                    actual_input_index as int,
                    0,
                ),
            decreases input_size - end,
        {
            end += 1;
            temp_beeline_distance = get_distance_int(
                x0,
                y0,
                x_coordinates[end],
                y_coordinates[end],
            ) as i64;
        }
        if end > actual_input_index && end < input_size - 1 {
            end -= 1;
        }
        if !speed_known || start >= end {
            return Ratio::new(1, 1);
        }
        let beeline_distance: i128 = get_distance_int(
            x_coordinates[start],
            y_coordinates[start],
            x_coordinates[end],
            y_coordinates[end],
        ) as i128;
        match times {
            None => Ratio::new(1, 1),
            Some(t) => {
                let mut adjusted_start_time: i64 = t[start] as i64;
                let mut adjusted_end_time: i64 = t[end] as i64;
                if start == 0 && actual_input_index == 0 && input_size > 1 {
                    adjusted_start_time += FIRST_POINT_TIME_OFFSET_MILLIS as i64;
                }
                if end == input_size - 1 && input_size > 1 {
                    adjusted_end_time -= FIRST_POINT_TIME_OFFSET_MILLIS as i64;
                }
                let time: i128 = (adjusted_end_time - adjusted_start_time) as i128;
                if time >= STRONG_DOUBLE_LETTER_TIME_MILLIS as i128 {
                    return Ratio::new(0, 1);
                }
                assert(-0x4_0000_0000_0000_0000 <= time * average.num <= 0x4_0000_0000_0000_0000)
                    by (nonlinear_arith)
                    requires
                        -0x4_0000_0000 <= time <= 0x4_0000_0000,
                        -0x1_0000_0000 <= average.num <= 0x1_0000_0000,
                ;
                assert(-0x1_0000_0000_0000_0000 <= beeline_distance * average.den
                    <= 0x1_0000_0000_0000_0000) by (nonlinear_arith)
                    requires
                        0 <= beeline_distance <= 0x1_0000_0000,
                        -0x1_0000_0000 <= average.den <= 0x1_0000_0000,
                ;
                assert(100 * time * average.num == 100 * (time * average.num)) by (nonlinear_arith);
                assert(100 * beeline_distance * average.den == 100 * (beeline_distance
                    * average.den)) by (nonlinear_arith);
                Ratio::new(
                    time * average.num + 100 * (beeline_distance * average.den),
                    100 * (time * average.num),
                )
            },
        }
    }

    /// Measures the beeline speed at each sampled point, in percent of the
    /// average speed and rounded towards 0.
    fn refresh_beeline_speed_rates(
        &mut self,
        input_size: usize,
        x_coordinates: &Vec<i32>,
        y_coordinates: &Vec<i32>,
        times: &Option<Vec<i32>>,
    )
        requires
            old(self).wf_samples(),
            input_size <= x_coordinates@.len(),
            input_size <= y_coordinates@.len(),
            times is Some ==> input_size <= times->0@.len(),
            forall|k: int|
                0 <= k < old(self).samples().len() ==> #[trigger] old(self).samples().indices[k]
                    < input_size,
            -0x1_0000_0000 <= old(self).spec_average_speed().num <= 0x1_0000_0000,
            -0x1_0000_0000 <= old(self).spec_average_speed().den <= 0x1_0000_0000,
        ensures
            final(self).same_but_measures(old(self)),
            final(self).spec_speed_rates() == old(self).spec_speed_rates(),
            final(self).spec_directions() == old(self).spec_directions(),
            final(self).spec_squared_length_cache() == old(self).spec_squared_length_cache(),
            final(self).spec_average_speed() == old(self).spec_average_speed(),
            final(self).spec_beeline_speed_percentiles().len() == old(self).samples().len(),
            forall|i: int|
                0 <= i < old(self).samples().len() ==> #[trigger] final(self).spec_beeline_speed_percentiles()[i] == beeline_speed_rate_spec(
                    old(self).samples(),
                    old(self).layout().spec_most_common_key_width(),
                    old(self).spec_average_speed(),
                    x_coordinates@,
                    y_coordinates@,
                    times_view(*times),
                    input_size as int,
                    i,
                ).spec_percent(),
    {
        let size = self.sampled_input_xs.len();
        let mut percentiles: Vec<i32> = Vec::new();
        let mut i: usize = 0;
        while i < size
            invariant
                i <= size,
                size == self.samples().len(),
                self == old(self),
                self.wf_samples(),
                input_size <= x_coordinates@.len(),
                input_size <= y_coordinates@.len(),
                times is Some ==> input_size <= times->0@.len(),
                forall|k: int|
                    0 <= k < self.samples().len() ==> #[trigger] self.samples().indices[k]
                        < input_size,
                -0x1_0000_0000 <= self.spec_average_speed().num <= 0x1_0000_0000,
                -0x1_0000_0000 <= self.spec_average_speed().den <= 0x1_0000_0000,
                percentiles@.len() == i,
                forall|k: int|
                    0 <= k < i ==> #[trigger] percentiles@[k] == beeline_speed_rate_spec(
                        self.samples(),
                        self.layout().spec_most_common_key_width(),
                        self.spec_average_speed(),
                        x_coordinates@,
                        y_coordinates@,
                        times_view(*times),
                        input_size as int,
                        k,
                    ).spec_percent(),
            decreases size - i,
        {
            let rate = self.calculate_beeline_speed_rate(
                i,
                input_size,
                x_coordinates,
                y_coordinates,
                times,
            );
            percentiles.push(rate.percent());
            i += 1;
        }
        self.beeline_speed_percentiles = percentiles;
    }

    /// Fills the table of distances: for each sampled point, and for each
    /// key, the squared distance of the point from the centre of the key as
    /// seen from the point, in pixels.
    fn init_geometric_distance_infos(&mut self, is_geometric: bool)
        requires
            old(self).wf_samples(),
        ensures
            final(self).same_but_measures(old(self)),
            final(self).spec_speed_rates() == old(self).spec_speed_rates(),
            final(self).spec_directions() == old(self).spec_directions(),
            final(self).spec_beeline_speed_percentiles() == old(self).spec_beeline_speed_percentiles(),
            final(self).spec_average_speed() == old(self).spec_average_speed(),
            is_distance_table(
                final(self).spec_squared_length_cache(),
                old(self).samples(),
                old(self).layout(),
                is_geometric,
                old(self).samples().len() as int,
            ),
    {
        let key_count = self.proximity_info.get_key_count();
        let size = self.sampled_input_xs.len();
        let ghost samples = self.samples();
        let ghost layout = self.layout();
        let mut cache: Vec<i64> = Vec::new();
        let mut i: usize = 0;
        while i < size
            invariant
                i <= size,
                size == samples.len(),
                samples == self.samples(),
                layout == self.layout(),
                self == old(self),
                self.wf_samples(),
                key_count == layout.spec_key_count(),
                is_distance_table(cache@, samples, layout, is_geometric, i as int),
            decreases size - i,
        {
            let x = self.sampled_input_xs[i];
            let y = self.sampled_input_ys[i];
            assert(samples.in_range(i as int));
            let ghost rows = cache@;
            let mut k: usize = 0;
            while k < key_count
                invariant
                    k <= key_count,
                    i < size,
                    size == samples.len(),
                    samples == self.samples(),
                    layout == self.layout(),
                    self.wf_samples(),
                    key_count == layout.spec_key_count(),
                    x == samples.xs[i as int],
                    y == samples.ys[i as int],
                    valid_touch_coordinate(x as int),
                    valid_touch_coordinate(y as int),
                    is_distance_table(rows, samples, layout, is_geometric, i as int),
                    cache@.len() == rows.len() + k,
                    cache@.subrange(0, rows.len() as int) == rows,
                    forall|b: int|
                        0 <= b < k ==> #[trigger] cache@[rows.len() + b]
                            == layout.squared_distance_from_center_spec(
                            b,
                            x,
                            y,
                            is_geometric,
                        ),
                decreases key_count - k,
            {
                let distance = self.proximity_info.get_normalized_square_distance_from_center_float_g(
                    k,
                    x,
                    y,
                    is_geometric,
                );
                let ghost before = cache@;
                cache.push(distance.num as i64);
                k += 1;
                proof {
                    assert(cache@.subrange(0, rows.len() as int) =~= before.subrange(
                        0,
                        rows.len() as int,
                    ));
                    assert forall|b: int| 0 <= b < k implies #[trigger] cache@[rows.len() + b]
                        == layout.squared_distance_from_center_spec(b, x, y, is_geometric) by {
                        if b < k - 1 {
                            assert(cache@[rows.len() + b] == before[rows.len() + b]);
                        }
                    }
                }
            }
            i += 1;
            proof {
                let keys = key_count as int;
                assert((i - 1) * keys + keys == i * keys) by (nonlinear_arith);
                assert forall|a: int, key: int| 0 <= a < i && 0 <= key < keys implies #[trigger] is_cached_distance(
                    cache@,
                    samples,
                    layout,
                    is_geometric,
                    a,
                    key,
                ) by {
                    if a < i - 1 {
                        lemma_flat_index(a, key, i - 1, keys);
                        assert(is_cached_distance(rows, samples, layout, is_geometric, a, key));
                        assert(cache@[a * keys + key] == cache@.subrange(0, rows.len() as int)[a
                            * keys + key]);
                    } else {
                        assert(cache@[rows.len() + key] == layout.squared_distance_from_center_spec(
                            key,
                            x,
                            y,
                            is_geometric,
                        ));
                    }
                }
            }
        }
        self.sampled_normalized_squared_length_cache = cache;
    }
}

/// Of two sampled points the later comes later in the input.
pub proof fn lemma_indices_increase(samples: Samples, i: int, j: int)
    requires
        samples.wf(),
        0 <= i < j < samples.len(),
    ensures
        samples.indices[i] < samples.indices[j],
        samples.lengths[i] <= samples.lengths[j],
    decreases j - i,
{
    assert(samples.ordered(j - 1));
    if i < j - 1 {
        lemma_indices_increase(samples, i, j - 1);
    }
}

impl ProximityInfoState {
    // -----------------------------------------------------------------------
    // The state and its input
    // -----------------------------------------------------------------------
    /// The state of a pointer that has touched nothing yet, on the layout
    /// `proximity_info`.
    pub fn new(proximity_info: ProximityInfo) -> (state: ProximityInfoState)
        requires
            proximity_info.wf(),
        ensures
            state.wf(),
            state.layout() == proximity_info,
            state.samples() == Samples::empty(),
            state.spec_size() == 0,
            !state.spec_is_geometric(),
            !state.spec_is_continuous(),
            state.spec_input_proximities().len() == 0,
    {
        let touch_position_correction_enabled = proximity_info.has_touch_position_correction_data();
        ProximityInfoState {
            proximity_info,
            max_point_to_key_length: Ratio::new(0, 1),
            average_speed: Ratio::new(0, 1),
            is_continuous_suggestion_possible: false,
            has_been_updated_by_geometric_input: false,
            sampled_input_xs: Vec::new(),
            sampled_input_ys: Vec::new(),
            sampled_times: Vec::new(),
            sampled_input_indice: Vec::new(),
            sampled_length_cache: Vec::new(),
            beeline_speed_percentiles: Vec::new(),
            sampled_normalized_squared_length_cache: Vec::new(),
            speed_rates: Vec::new(),
            directions: Vec::new(),
            touch_position_correction_enabled,
            input_proximities: Vec::new(),
            sampled_input_size: 0,
        }
    }

    /// Takes the touch input of a call in.
    ///
    /// Where the input continues the input of the call before, the sampled
    /// points are kept but for the last two, and sampling goes on at the
    /// first of those two.  Where it does not, or nothing was sampled,
    /// sampling begins anew at the first point.  The points of the input
    /// that the pointer `pointer_id` has touched are then sampled, up to
    /// the last of them.
    ///
    /// At the sampled points of a gesture the speed, the beeline speed, the
    /// direction and the distance from each key are measured.  For the key
    /// presses of the first pointer the candidates of each press are
    /// worked out.
    ///
    /// Each list has an entry for each of the `input_size` points.
    /// `input_codes` is read for key presses only.  `turn_angles` is read
    /// for a gesture only: for each point from the third on it gives the
    /// angle between the step that leads to the point and the step before
    /// that one, in ten-thousandths of a radian, from 0 to
    /// `MAX_TURN_ANGLE`.  `max_point_to_key_length` is the largest distance
    /// from a key that counts, in squares of the most common key width.
    /// Coordinates lie within `MAX_TOUCH_COORDINATE`, both signs.
    pub fn init_input_params(
        &mut self,
        pointer_id: usize,
        max_point_to_key_length: Ratio,
        proximity_info: ProximityInfo,
        input_codes: Vec<char>,
        input_size: usize,
        x_coordinates: Vec<i32>,
        y_coordinates: Vec<i32>,
        times: Option<Vec<i32>>,
        pointer_ids: Vec<usize>,
        turn_angles: Vec<i32>,
        is_geometric: bool,
        locale: String,
    )
        requires
            old(self).wf(),
            proximity_info.wf(),
            max_point_to_key_length.wf(),
            (TouchInput {
                pointer_id,
                input_size,
                input_codes: input_codes@,
                xs: x_coordinates@,
                ys: y_coordinates@,
                times: times_view(times),
                pointer_ids: pointer_ids@,
                turn_angles: turn_angles@,
                is_geometric,
            }).wf(),
        ensures
            ({
                let input = TouchInput {
                    pointer_id,
                    input_size,
                    input_codes: input_codes@,
                    xs: x_coordinates@,
                    ys: y_coordinates@,
                    times: times_view(times),
                    pointer_ids: pointer_ids@,
                    turn_angles: turn_angles@,
                    is_geometric,
                };
                &&& final(self).wf()
                &&& final(self).layout() == proximity_info
                &&& final(self).spec_max_point_to_key_length() == max_point_to_key_length
                &&& final(self).spec_is_geometric() == is_geometric
                &&& final(self).spec_is_continuous() == old(self).continues(input)
                &&& final(self).samples() == sampled_from(
                    proximity_info,
                    max_point_to_key_length,
                    input,
                    old(self).kept_samples(input),
                    old(self).push_start(input),
                )
                &&& final(self).spec_size() == final(self).samples().len()
                &&& final(self).samples().wf()
                &&& old(self).continues(input) ==> final(self).samples().agrees_up_to(
                    old(self).samples(),
                    old(self).kept_len(),
                )
                &&& final(self).spec_touch_position_correction_enabled()
                    == proximity_info.spec_has_correction()
                &&& is_geometric && final(self).samples().len() > 0 ==> final(self).measures_gesture(
                    old(self),
                    input,
                )
                &&& !(is_geometric && final(self).samples().len() > 0) ==> final(self).measures_nothing(old(self))
                &&& final(self).has_proximities_of(input)
            }),
    {
        let ghost input = TouchInput {
            pointer_id,
            input_size,
            input_codes: input_codes@,
            xs: x_coordinates@,
            ys: y_coordinates@,
            times: times_view(times),
            pointer_ids: pointer_ids@,
            turn_angles: turn_angles@,
            is_geometric,
        };
        let continuous = self.has_been_updated_by_geometric_input == is_geometric
            && self.check_and_return_is_continuos_suggestion_possible(
            input_size,
            &x_coordinates,
            &y_coordinates,
            &times,
        );
        self.is_continuous_suggestion_possible = continuous;
        self.proximity_info = proximity_info;
        self.touch_position_correction_enabled =
            self.proximity_info.has_touch_position_correction_data();
        if !is_geometric && pointer_id == 0 {
            self.input_proximities = self.proximity_info.initialize_proximities(
                &input_codes,
                &x_coordinates,
                &y_coordinates,
                input_size,
                locale.as_str(),
            );
        } else {
            self.input_proximities = Vec::new();
        }
        self.max_point_to_key_length = max_point_to_key_length;
        self.sampled_input_size = 0;
        let mut push_touch_point_start_index: usize = 0;
        let mut last_saved_input_size: usize = 0;
        if continuous && !self.sampled_input_indice.is_empty() {
            proof {
                let len = old(self).samples().len() as int;
                let kept = old(self).kept_len();
                lemma_take_wf(old(self).samples(), kept);
                assert forall|k: int| 0 <= k < kept implies #[trigger] old(self).samples().take(
                    kept,
                ).indices[k] < old(self).samples().indices[kept] by {
                    lemma_indices_increase(old(self).samples(), k, kept);
                }
                assert forall|k: int| 0 <= k < kept implies #[trigger] old(self).samples().take(
                    kept,
                ).indices[k] < input_size by {
                    assert(old(self).samples().indices[k] < input_size);
                }
            }
            push_touch_point_start_index = self.trim_last_two_touch_points();
            last_saved_input_size = self.sampled_input_xs.len();
        } else {
            self.sampled_input_xs.clear();
            self.sampled_input_ys.clear();
            self.sampled_times.clear();
            self.sampled_input_indice.clear();
            self.sampled_length_cache.clear();
            self.sampled_normalized_squared_length_cache.clear();
            self.speed_rates.clear();
            self.beeline_speed_percentiles.clear();
            self.directions.clear();
            assert(self.samples() == Samples::empty());
        }
        let ghost kept_samples = self.samples();
        assert(kept_samples == old(self).kept_samples(input));
        assert(push_touch_point_start_index == old(self).push_start(input));
        self.sampled_input_size = self.update_touch_points(
            &input_codes,
            &x_coordinates,
            &y_coordinates,
            &times,
            &pointer_ids,
            &turn_angles,
            input_size,
            is_geometric,
            pointer_id,
            push_touch_point_start_index,
        );
        if self.sampled_input_size > 0 && is_geometric {
            let average_speed = self.refresh_speed_rates(
                input_size,
                &x_coordinates,
                &y_coordinates,
                &times,
                last_saved_input_size,
            );
            self.average_speed = average_speed;
            self.refresh_beeline_speed_rates(input_size, &x_coordinates, &y_coordinates, &times);
            self.init_geometric_distance_infos(is_geometric);
        } else {
            self.sampled_normalized_squared_length_cache.clear();
            self.speed_rates.clear();
            self.beeline_speed_percentiles.clear();
            self.directions.clear();
        }
        self.has_been_updated_by_geometric_input = is_geometric;
        proof {
            if old(self).continues(input) {
                let kept = old(self).kept_len();
                let now = self.samples().take(kept);
                let before = old(self).samples().take(kept);
                let base = kept_samples.take(kept);
                assert(now.xs =~= base.xs && base.xs =~= before.xs);
                assert(now.ys =~= base.ys && base.ys =~= before.ys);
                assert(now.times =~= base.times && base.times =~= before.times);
                assert(now.indices =~= base.indices && base.indices =~= before.indices);
                assert(now.lengths =~= base.lengths && base.lengths =~= before.lengths);
            }
        }
    }
}

impl ProximityInfoState {
    /// In a whole state the lists of the sampled points have one length,
    /// which is the size of the state; the way along the points begins with
    /// the length 0, and its length never falls from a point to a later
    /// one.  A gesture with sampled points has one direction less than it
    /// has points, and a speed and a beeline speed for each point; key
    /// presses have none of these.
    pub proof fn lemma_state_is_consistent(&self)
        requires
            self.wf(),
        ensures
            self.samples().xs.len() == self.spec_size(),
            self.samples().ys.len() == self.spec_size(),
            self.samples().times.len() == self.spec_size(),
            self.samples().indices.len() == self.spec_size(),
            self.samples().lengths.len() == self.spec_size(),
            self.spec_size() > 0 ==> self.samples().lengths[0] == 0,
            forall|i: int, j: int|
                0 <= i <= j < self.spec_size() ==> self.samples().lengths[i]
                    <= self.samples().lengths[j],
            self.spec_directions().len() == (if self.spec_is_geometric() && self.spec_size() > 0 {
                self.spec_size() - 1
            } else {
                0
            }),
            self.spec_speed_rates().len() == (if self.spec_is_geometric() {
                self.spec_size()
            } else {
                0
            }),
            self.spec_beeline_speed_percentiles().len() == self.spec_speed_rates().len(),
    {
        assert forall|i: int, j: int| 0 <= i <= j < self.spec_size() implies self.samples().lengths[i]
            <= self.samples().lengths[j] by {
            if i < j {
                lemma_indices_increase(self.samples(), i, j);
            }
        }
    }
}

/// The level of a beeline speed of `percentile` percent: strong at 0, a
/// double letter below `MIN_DOUBLE_LETTER_BEELINE_SPEED_PERCENTILE`.
pub open spec fn double_letter_level_spec(percentile: i32) -> DoubleLetterLevel {
    if percentile == 0 {
        DoubleLetterLevel::Strong
    } else if percentile < MIN_DOUBLE_LETTER_BEELINE_SPEED_PERCENTILE {
        DoubleLetterLevel::DoubleLetter
    } else {
        DoubleLetterLevel::NotADoubleLetter
    }
}

/// The first `length` characters of `word` are the first candidates of the
/// first `length` key presses.
pub open spec fn typed_as(proximities: Seq<Vec<char>>, word: Seq<char>, length: int) -> bool {
    &&& length <= word.len()
    &&& length <= proximities.len()
    &&& forall|i: int| 0 <= i < length ==> #[trigger] word[i] == proximities[i]@[0]
}

impl ProximityInfoState {
    // -----------------------------------------------------------------------
    // Queries
    // -----------------------------------------------------------------------
    /// The layout that the input was last given for.
    pub fn get_proximity_info(&self) -> (layout: &ProximityInfo)
        ensures
            *layout == self.layout(),
    {
        &self.proximity_info
    }

    /// The number of key presses that have candidates.
    pub fn proximity_count(&self) -> (count: usize)
        ensures
            count == self.spec_input_proximities().len(),
    {
        self.input_proximities.len()
    }

    /// The candidates of the key press `index`.
    pub fn get_proximity_code_points_at(&self, index: usize) -> (code_points: &Vec<char>)
        requires
            index < self.spec_input_proximities().len(),
        ensures
            *code_points == self.spec_input_proximities()[index as int],
    {
        &self.input_proximities[index]
    }

    /// The code point that the key press `index` was given: the first of
    /// its candidates.
    pub fn get_primary_code_point_at(&self, index: usize) -> (code_point: char)
        requires
            self.wf(),
            index < self.spec_input_proximities().len(),
        ensures
            code_point == self.spec_input_proximities()[index as int]@[0],
    {
        assert(1 <= self.input_proximities@[index as int]@.len());
        self.input_proximities[index][0]
    }

    /// The code point of the key press `index` as the layout has it on the
    /// key of that code point, if there is such a key.
    pub fn get_primary_original_code_point_at(&self, index: usize) -> (code_point: Option<char>)
        requires
            self.wf(),
            index < self.spec_input_proximities().len(),
        ensures
            code_point == (match self.layout().key_index_spec(
                self.spec_input_proximities()[index as int]@[0],
            ) {
                Some(key) => Some(self.layout().original_code_point_spec(key)),
                None => None,
            }),
    {
        let primary_code_point = self.get_primary_code_point_at(index);
        match self.proximity_info.get_key_index_of(primary_code_point) {
            Some(key_index) => self.proximity_info.get_original_code_point_of(key_index),
            None => None,
        }
    }

    /// Tells whether `word` is what was typed: whether there are `length`
    /// sampled points, and the first `length` characters of `word` are the
    /// code points that the first `length` key presses were given.
    pub fn same_as_typed(&self, word: String, length: usize) -> (same: bool)
        requires
            self.wf(),
        ensures
            same == (length == self.spec_size() && typed_as(
                self.spec_input_proximities(),
                word@,
                length as int,
            )),
    {
        if length != self.sampled_input_size {
            return false;
        }
        let text = word.as_str();
        if text.unicode_len() < length || self.input_proximities.len() < length {
            return false;
        }
        let mut i: usize = 0;
        while i < length
            invariant
                i <= length,
                self.wf(),
                text@ == word@,
                length <= text@.len(),
                length <= self.input_proximities@.len(),
                forall|k: int| 0 <= k < i ==> #[trigger] word@[k] == self.input_proximities@[k]@[0],
            decreases length - i,
        {
            assert(1 <= self.input_proximities@[i as int]@.len());
            if text.get_char(i) != self.input_proximities[i][0] {
                return false;
            }
            i += 1;
        }
        true
    }

    /// Tells whether `c` is among the candidates of the key press `index`.
    pub fn exists_code_point_in_proximity_at(&self, index: usize, c: char) -> (found: bool)
        requires
            index < self.spec_input_proximities().len(),
        ensures
            found == self.spec_input_proximities()[index as int]@.contains(c),
    {
        crate::suggest::proximity_info::has_code_point(&self.input_proximities[index], c)
    }

    /// Tells whether the code point of the key press `index` is among the
    /// candidates of a key press next to it: of the one before it, if that
    /// is not the first key press, or of the one after it, if that is a
    /// sampled point.  There is none for a key press that is not a sampled
    /// point or has no candidates.
    pub fn exists_adjacent_proximity_chars(&self, index: usize) -> (found: bool)
        requires
            self.wf(),
        ensures
            found == (index < self.spec_size() && index < self.spec_input_proximities().len() && ({
                let c = self.spec_input_proximities()[index as int]@[0];
                ||| (index >= 2 && self.spec_input_proximities()[index - 1]@.contains(c))
                ||| (index + 1 < self.spec_size() && index + 1 < self.spec_input_proximities().len()
                    && self.spec_input_proximities()[index + 1]@.contains(c))
            })),
    {
        if index >= self.sampled_input_size || index >= self.input_proximities.len() {
            return false;
        }
        let current_code_point = self.get_primary_code_point_at(index);
        if index >= 2 && self.exists_code_point_in_proximity_at(index - 1, current_code_point) {
            return true;
        }
        let right_index = index + 1;
        if right_index < self.sampled_input_size && right_index < self.input_proximities.len()
            && self.exists_code_point_in_proximity_at(right_index, current_code_point) {
            return true;
        }
        false
    }

    /// Tells whether touches are corrected towards sweet spots on the
    /// layout of the state.
    pub fn touch_positon_correction_enabled(&self) -> (enabled: bool)
        requires
            self.wf(),
        ensures
            enabled == self.spec_touch_position_correction_enabled(),
    {
        self.touch_position_correction_enabled
    }

    /// Tells whether there are sampled points.
    pub fn is_used(&self) -> (used: bool)
        ensures
            used == (self.spec_size() > 0),
    {
        self.sampled_input_size > 0
    }

    /// The number of sampled points.
    pub fn size(&self) -> (size: usize)
        ensures
            size == self.spec_size(),
    {
        self.sampled_input_size
    }

    /// The horizontal position of the sampled point `index`.
    pub fn get_input_x(&self, index: usize) -> (x: i32)
        requires
            self.wf(),
            index < self.spec_size(),
        ensures
            x == self.samples().xs[index as int],
    {
        self.sampled_input_xs[index]
    }

    /// The vertical position of the sampled point `index`.
    pub fn get_input_y(&self, index: usize) -> (y: i32)
        requires
            self.wf(),
            index < self.spec_size(),
        ensures
            y == self.samples().ys[index as int],
    {
        self.sampled_input_ys[index]
    }

    /// The point of the input that the sampled point `sampled_index` is.
    pub fn get_input_index_of_sampled_point(&self, sampled_index: usize) -> (input_index: usize)
        requires
            self.wf(),
            sampled_index < self.spec_size(),
        ensures
            input_index == self.samples().indices[sampled_index as int],
    {
        self.sampled_input_indice[sampled_index]
    }

    /// Tells whether the space key is among the keys near the sampled
    /// point `index`.
    pub fn has_space_proximity(&self, index: usize) -> (found: bool)
        requires
            self.wf(),
            index < self.spec_size(),
        ensures
            found == (self.layout().in_grid(
                self.samples().xs[index as int] as int,
                self.samples().ys[index as int] as int,
            ) && self.layout().cell_code_points(
                self.samples().xs[index as int] as int,
                self.samples().ys[index as int] as int,
            ).contains(crate::defines::KEYCODE_SPACE)),
    {
        self.proximity_info.has_space_proximity(self.get_input_x(index), self.get_input_y(index))
    }

    /// The length of the way along the sampled points up to the point
    /// `index`.
    pub fn get_length_cache(&self, index: usize) -> (length: i32)
        requires
            self.wf(),
            index < self.spec_size(),
        ensures
            length == self.samples().lengths[index as int],
    {
        self.sampled_length_cache[index]
    }

    /// Tells whether the last input was a gesture.  The speeds, the
    /// directions and the distances from the keys are there for the sampled
    /// points of a gesture only.
    pub fn has_been_updated_by_geometric_input(&self) -> (geometric: bool)
        ensures
            geometric == self.spec_is_geometric(),
    {
        self.has_been_updated_by_geometric_input
    }

    /// Tells whether the last input continued the input before it.
    pub fn is_continuous_suggestion_possible(&self) -> (possible: bool)
        ensures
            possible == self.spec_is_continuous(),
    {
        self.is_continuous_suggestion_possible
    }

    /// The speed at the sampled point `index` of a gesture, as a share of
    /// the average speed.
    pub fn get_speed_rate(&self, index: usize) -> (rate: Ratio)
        requires
            self.wf(),
            index < self.spec_speed_rates().len(),
        ensures
            rate == self.spec_speed_rates()[index as int],
    {
        self.speed_rates[index]
    }

    /// The beeline speed at the sampled point `id` of a gesture, in
    /// percent of the average speed.
    pub fn get_beeline_speed_percentile(&self, id: usize) -> (percentile: i32)
        requires
            self.wf(),
            id < self.spec_beeline_speed_percentiles().len(),
        ensures
            percentile == self.spec_beeline_speed_percentiles()[id as int],
    {
        self.beeline_speed_percentiles[id]
    }

    /// How strongly the sampled point `id` of a gesture suggests a double
    /// letter: strongly where its beeline speed is 0, and somewhat where it
    /// is below `MIN_DOUBLE_LETTER_BEELINE_SPEED_PERCENTILE` percent.
    pub fn get_double_letter_level(&self, id: usize) -> (level: DoubleLetterLevel)
        requires
            self.wf(),
            id < self.spec_beeline_speed_percentiles().len(),
        ensures
            level == double_letter_level_spec(self.spec_beeline_speed_percentiles()[id as int]),
    {
        let beeline_speed_rate = self.get_beeline_speed_percentile(id);
        if beeline_speed_rate == 0 {
            DoubleLetterLevel::Strong
        } else if beeline_speed_rate < MIN_DOUBLE_LETTER_BEELINE_SPEED_PERCENTILE {
            DoubleLetterLevel::DoubleLetter
        } else {
            DoubleLetterLevel::NotADoubleLetter
        }
    }

    /// The direction from the sampled point `index` of a gesture to the
    /// next.
    pub fn get_direction(&self, index: usize) -> (direction: Direction)
        requires
            self.wf(),
            index < self.spec_directions().len(),
        ensures
            direction == self.spec_directions()[index as int],
    {
        self.directions[index]
    }

    /// The direction from the sampled point `index0` to the sampled point
    /// `index1`, and no steps where one of them is not a sampled point.
    pub fn get_xy_direction(&self, index0: usize, index1: usize) -> (direction: Direction)
        requires
            self.wf(),
        ensures
            direction == (if index0 < self.spec_size() && index1 < self.spec_size() {
                Direction {
                    dx: (self.samples().xs[index0 as int] - self.samples().xs[index1 as int]) as i32,
                    dy: (self.samples().ys[index0 as int] - self.samples().ys[index1 as int]) as i32,
                }
            } else {
                Direction { dx: 0, dy: 0 }
            }),
    {
        if index0 >= self.sampled_input_size || index1 >= self.sampled_input_size {
            return Direction { dx: 0, dy: 0 };
        }
        assert(self.samples().in_range(index0 as int));
        assert(self.samples().in_range(index1 as int));
        Direction {
            dx: self.sampled_input_xs[index0] - self.sampled_input_xs[index1],
            dy: self.sampled_input_ys[index0] - self.sampled_input_ys[index1],
        }
    }

    /// The average speed of the last gesture: the length of the way along
    /// its sampled points by the time from the first of them to the last.
    pub fn get_average_speed(&self) -> (average_speed: Ratio)
        ensures
            average_speed == self.spec_average_speed(),
    {
        self.average_speed
    }

    /// The squared distance of the sampled point `index` of a gesture from
    /// the centre of the key `key_id`, in squares of the most common key
    /// width.
    pub fn get_point_to_key_length(&self, index: usize, key_id: usize) -> (distance: Ratio)
        requires
            self.wf(),
            self.spec_is_geometric(),
            index < self.spec_size(),
            key_id < self.layout().spec_key_count(),
        ensures
            distance.num == self.layout().squared_distance_from_center_spec(
                key_id as int,
                self.samples().xs[index as int],
                self.samples().ys[index as int],
                true,
            ),
            distance.den == square(self.layout().spec_most_common_key_width()),
    {
        let key_count = self.proximity_info.get_key_count();
        let cached = self.sampled_normalized_squared_length_cache.len();
        proof {
            lemma_flat_index(
                index as int,
                key_id as int,
                self.samples().len() as int,
                key_count as int,
            );
            assert(cached == self.samples().len() * key_count);
            assert(0 <= index * key_count) by (nonlinear_arith)
                requires
                    0 <= index,
                    0 <= key_count,
            ;
            assert(is_cached_distance(
                self.sampled_normalized_squared_length_cache@,
                self.samples(),
                self.proximity_info,
                true,
                index as int,
                key_id as int,
            ));
            assert(index * key_count <= index * key_count + key_id);
        }
        let at: usize = index * key_count + key_id;
        Ratio::new(
            self.sampled_normalized_squared_length_cache[at] as i128,
            self.proximity_info.get_most_common_key_width_square() as i128,
        )
    }
}

} // verus!
