//! The numbers that tune the sampling of touch input.
//!
//! Distances from a key's centre are measured in squares of the most common
//! key width and compared in hundredths of that unit.  Angles are measured
//! in ten-thousandths of a radian.
use vstd::prelude::*;

verus! {

/// The hundredths that make one whole.
pub const HUNDREDTHS: i64 = 100;

/// A point's distance from a key, in hundredths, below which the key counts
/// as near.
pub const NEAR_KEY_THRESHOLD_FOR_DISTANCE: i64 = 200;

/// The margin, in hundredths, by which a neighbour's distance from a key
/// must exceed a point's for the point to be the nearest of the three.
pub const MARGIN_FOR_PREV_LOCAL_MIN: i64 = 1;

/// The factor by which the distance of two sampled points is scaled before
/// it is compared with the sample rate.
pub const DISTANCE_BASE_SCALE: i32 = 100;

/// A point's distance from its nearest key, in hundredths, below which the
/// point is promoted.
pub const NEAR_KEY_THRESHOLD_FOR_POINT_SCORE: i64 = 60;

/// The factor of the sample rate that two sampled points must be apart for
/// a corner to be looked for.
pub const CORNER_CHECK_DISTANCE_THRESHOLD_SCALE: i32 = 25;

/// The score of a point whose predecessor is not nearest to any key.
pub const NOT_LOCALMIN_DISTANCE_SCORE: i32 = -1;

/// The score of a point near a key whose predecessor is nearest to a key.
pub const LOCALMIN_DISTANCE_AND_NEAR_TO_KEY_SCORE: i32 = 1;

/// The sum of turns, in ten-thousandths of a radian, above which a point is
/// a corner: the whole ten-thousandths of a quarter of pi.
pub const CORNER_SUM_ANGLE_THRESHOLD: i64 = 7853;

/// The score of a corner.
pub const CORNER_SCORE: i32 = 1;

/// The largest turn, in ten-thousandths of a radian: pi, rounded up.
pub const MAX_TURN_ANGLE: i32 = 31416;

/// The number of input points on each side of a sampled point over which
/// its speed is measured.
pub const NUM_POINTS_FOR_SPEED_CALCULATION: usize = 2;

/// The factor by which the distance of the last point from the sampled
/// point before it is scaled before it is compared with the key width.
pub const LAST_POINT_SKIP_DISTANCE_SCALE: i32 = 4;

/// The share of the most common key width, in percent, within which input
/// points count towards a sampled point's beeline speed.
pub const LOOKUP_RADIUS_PERCENTILE: i32 = 50;

/// The milliseconds by which the time of the first and of the last input
/// point is moved inwards.
pub const FIRST_POINT_TIME_OFFSET_MILLIS: i32 = 150;

/// The milliseconds that a finger must rest for a strong double letter.
pub const STRONG_DOUBLE_LETTER_TIME_MILLIS: i32 = 600;

/// The beeline speed, in percent of the average speed, below which a
/// sampled point suggests a double letter.
pub const MIN_DOUBLE_LETTER_BEELINE_SPEED_PERCENTILE: i32 = 5;

/// The divisor by which a sweet spot's distance from its key's centre is
/// scaled down for gestures.
pub const VERTICAL_SWEET_SPOT_SCALE_G_DIVISOR: i32 = 2;

} // verus!
