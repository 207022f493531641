//! The geometry of one keyboard layout: where its keys are, which keys lie
//! near each cell of the touch grid, and how far the keys are from each
//! other.  A layout is made once and read from then on.
//!
//! All lengths are whole device pixels.
use crate::defines::{KEYCODE_SPACE, MAX_KEY_COUNT_IN_A_KEYBOARD};
use crate::math::{distance_spec, get_distance_int, lemma_distance_symmetric, square, Ratio};
use crate::suggest::proximity_info_params::VERTICAL_SWEET_SPOT_SCALE_G_DIVISOR;
use std::collections::HashMap;
use vstd::prelude::*;

verus! {

broadcast use vstd::std_specs::hash::group_hash_axioms;

/// The number of code points that the grid lists for one cell, and the
/// largest number of candidates for one touch.
pub const MAX_PROXIMITY_CHARS_SIZE: usize = 16;

/// The largest size of a layout's lengths and positions.
pub const MAX_LAYOUT_COORDINATE: i32 = 0x1000_0000;

/// The bound that the coordinates of a touch lie within, both signs.
pub const MAX_TOUCH_COORDINATE: i32 = 0x4000_0000;

/// Why a layout was not made.
#[derive(Clone, Copy, Debug, PartialEq, Eq, Structural)]
pub enum LayoutError {
    /// A size of the keyboard, of the grid or of the most common key is not
    /// positive, or is above `MAX_LAYOUT_COORDINATE`.
    InvalidDimensions,
    /// The grid does not list `MAX_PROXIMITY_CHARS_SIZE` code points for
    /// each of its cells.
    InvalidProximityCharsLength,
    /// There are more than `MAX_KEY_COUNT_IN_A_KEYBOARD` keys.
    TooManyKeys,
    /// One of the lists that describe the keys is shorter than the number of
    /// keys.
    MissingKeyData,
    /// A key's rectangle or sweet spot lies beyond `MAX_LAYOUT_COORDINATE`,
    /// or a key's width or height is negative.
    CoordinateOutOfRange,
}

/// `v` is a size that a keyboard, a grid or a key can have.
pub open spec fn valid_dimension(v: int) -> bool {
    1 <= v <= MAX_LAYOUT_COORDINATE
}

/// `v` is a position within the bounds of a layout.
pub open spec fn valid_position(v: int) -> bool {
    -MAX_LAYOUT_COORDINATE <= v <= MAX_LAYOUT_COORDINATE
}

/// `v` is a width or a height within the bounds of a layout.
pub open spec fn valid_extent(v: int) -> bool {
    0 <= v <= MAX_LAYOUT_COORDINATE
}

/// `v` is a coordinate that a touch can have.  Negative coordinates say
/// that a touch has no position.
pub open spec fn valid_touch_coordinate(v: int) -> bool {
    -MAX_TOUCH_COORDINATE < v < MAX_TOUCH_COORDINATE
}

/// The lower-case form of an ASCII capital, and any other code point as it
/// is.
pub open spec fn lower_code_point(c: char) -> char {
    if 'A' <= c && c <= 'Z' {
        ((c as u8) + 32) as char
    } else {
        c
    }
}

/// Half of `d`, rounded towards 0.
pub open spec fn half_towards_zero(d: int) -> int {
    if d >= 0 {
        d / 2
    } else {
        -((-d) / 2)
    }
}

/// The last position below `n` at which `codes` holds `c`, if any.
pub open spec fn last_index_of(codes: Seq<char>, c: char, n: nat) -> Option<int>
    decreases n,
{
    if n == 0 {
        None
    } else if codes[n - 1] == c {
        Some(n - 1)
    } else {
        last_index_of(codes, c, (n - 1) as nat)
    }
}

/// The centre of a key on one axis, seen from a touch.  A key that is wider
/// than the most common key has a line of centres, which reaches `(width -
/// most_common_width) / 2` to both sides of `base`; of its two ends the one
/// on the side of the touch is the centre, and a touch at `base` keeps it.
pub open spec fn line_center(base: int, width: int, most_common_width: int, reference: Option<
    i32,
>) -> int {
    match reference {
        Some(r) => if width > most_common_width {
            let reach = (width - most_common_width) / 2;
            if r < base {
                base - reach
            } else if r > base {
                base + reach
            } else {
                r as int
            }
        } else {
            base
        },
        None => base,
    }
}

/// The centre of a key on the vertical axis, seen from a touch.  A key in
/// the bottom row, whose centre is less than its height above the lower
/// edge of the keyboard, reaches down to any touch below its centre.
pub open spec fn bottom_row_center(
    base: int,
    height: int,
    keyboard_height: int,
    reference: Option<i32>,
) -> int {
    match reference {
        Some(r) => if base + height > keyboard_height && base < r {
            r as int
        } else {
            base
        },
        None => base,
    }
}

/// The coordinate within `low ..= high` that is nearest to `v`.
pub open spec fn clamp_to(v: int, low: int, high: int) -> int {
    if v < low {
        low
    } else if v > high {
        high
    } else {
        v
    }
}

/// The squared distance of `(x, y)` from the rectangle with the corner
/// `(left, top)` and the given width and height; 0 within it.
pub open spec fn squared_length_to_edge_spec(
    left: int,
    top: int,
    width: int,
    height: int,
    x: int,
    y: int,
) -> int {
    square(x - clamp_to(x, left, left + width)) + square(y - clamp_to(y, top, top + height))
}

/// `(x, y)` lies on the key with the corner `(left, top)` and the given
/// width and height.  The key's right edge counts as part of it.
pub open spec fn is_on_key_spec(left: int, top: int, width: int, height: int, x: int, y: int) -> bool {
    &&& 0 < height
    &&& left <= x < left + width + 1
    &&& top <= y < top + height
}

/// The lower-case form of an ASCII capital, and any other code point as it
/// is.
pub fn to_ascii_lowercase(c: char) -> (lower: char)
    ensures
        lower == lower_code_point(c),
{
    if 'A' <= c && c <= 'Z' {
        ((c as u8) + 32) as char
    } else {
        c
    }
}

/// The position in the grid's list at which the code points of the cell
/// that holds `(x, y)` begin.
pub fn get_start_index_from_coordinates(
    x: i32,
    y: i32,
    cell_height: i32,
    cell_width: i32,
    grid_width: i32,
) -> (start: usize)
    requires
        0 <= x,
        0 <= y,
        0 < cell_height,
        0 < cell_width,
        0 <= grid_width,
        ((y / cell_height) * grid_width + x / cell_width) * MAX_PROXIMITY_CHARS_SIZE
            <= usize::MAX,
    ensures
        start == ((y / cell_height) * grid_width + x / cell_width) * MAX_PROXIMITY_CHARS_SIZE,
{
    let row: u128 = (y / cell_height) as u128;
    let col: u128 = (x / cell_width) as u128;
    let width: u128 = grid_width as u128;
    assert(row * width <= 0x8000_0000 * 0x8000_0000) by (nonlinear_arith)
        requires
            row <= 0x8000_0000,
            width <= 0x8000_0000,
    ;
    ((row * width + col) * 16) as usize
}

/// `map` holds, for each code point among the first `n` of `codes`, the
/// last position below `n` at which it stands, and nothing else.
pub open spec fn key_map_matches(map: Map<u32, usize>, codes: Seq<char>, n: nat) -> bool {
    forall|c: char|
        {
            let found = last_index_of(codes, c, n);
            &&& (#[trigger] map.contains_key(c as u32)) == found is Some
            &&& found is Some ==> map[c as u32] == found->0
        }
}

/// The key at position `i` of the lists lies within the bounds of a layout.
pub open spec fn key_in_range(
    key_x_coordinates: Seq<i32>,
    key_y_coordinates: Seq<i32>,
    key_widths: Seq<i32>,
    key_heights: Seq<i32>,
    sweet_spot_center_xs: Seq<i32>,
    sweet_spot_center_ys: Seq<i32>,
    sweet_spot_radii: Seq<i32>,
    i: int,
) -> bool {
    &&& valid_position(key_x_coordinates[i] as int)
    &&& valid_position(key_y_coordinates[i] as int)
    &&& valid_extent(key_widths[i] as int)
    &&& valid_extent(key_heights[i] as int)
    &&& valid_position(sweet_spot_center_xs[i] as int)
    &&& valid_position(sweet_spot_center_ys[i] as int)
    &&& valid_position(sweet_spot_radii[i] as int)
}

/// Each of the first `n` keys lies within the bounds of a layout.
pub open spec fn keys_in_range(
    key_x_coordinates: Seq<i32>,
    key_y_coordinates: Seq<i32>,
    key_widths: Seq<i32>,
    key_heights: Seq<i32>,
    sweet_spot_center_xs: Seq<i32>,
    sweet_spot_center_ys: Seq<i32>,
    sweet_spot_radii: Seq<i32>,
    n: nat,
) -> bool {
    forall|i: int|
        0 <= i < n ==> #[trigger] key_in_range(
            key_x_coordinates,
            key_y_coordinates,
            key_widths,
            key_heights,
            sweet_spot_center_xs,
            sweet_spot_center_ys,
            sweet_spot_radii,
            i,
        )
}

/// An edge and an extent of a key within the bounds of a layout.
pub open spec fn within_layout(edge: int, extent: int) -> bool {
    valid_position(edge) && valid_extent(extent)
}

/// The middle of a key and its sweet spot, both on one axis, within the
/// bounds that `new` has checked.
pub open spec fn movable(middle: int, sweet_spot: int) -> bool {
    -2 * MAX_LAYOUT_COORDINATE <= middle <= 2 * MAX_LAYOUT_COORDINATE && valid_position(sweet_spot)
}

/// What is wrong with the description of a layout, if anything: the first
/// of the faults of `LayoutError`, in their order, that it has.
pub open spec fn layout_error(
    keyboard_width: i32,
    keyboard_height: i32,
    grid_width: i32,
    grid_height: i32,
    most_common_key_width: i32,
    most_common_key_height: i32,
    proximity_chars: Seq<char>,
    key_count: usize,
    key_x_coordinates: Seq<i32>,
    key_y_coordinates: Seq<i32>,
    key_widths: Seq<i32>,
    key_heights: Seq<i32>,
    key_char_codes: Seq<char>,
    sweet_spot_center_xs: Seq<i32>,
    sweet_spot_center_ys: Seq<i32>,
    sweet_spot_radii: Seq<i32>,
) -> Option<LayoutError> {
    if !(valid_dimension(keyboard_width as int) && valid_dimension(keyboard_height as int)
        && valid_dimension(grid_width as int) && valid_dimension(grid_height as int)
        && valid_dimension(most_common_key_width as int) && valid_dimension(
        most_common_key_height as int,
    )) {
        Some(LayoutError::InvalidDimensions)
    } else if proximity_chars.len() != grid_width * grid_height * MAX_PROXIMITY_CHARS_SIZE {
        Some(LayoutError::InvalidProximityCharsLength)
    } else if key_count > MAX_KEY_COUNT_IN_A_KEYBOARD {
        Some(LayoutError::TooManyKeys)
    } else if key_x_coordinates.len() < key_count || key_y_coordinates.len() < key_count
        || key_widths.len() < key_count || key_heights.len() < key_count || key_char_codes.len()
        < key_count || sweet_spot_center_xs.len() < key_count || sweet_spot_center_ys.len()
        < key_count || sweet_spot_radii.len() < key_count {
        Some(LayoutError::MissingKeyData)
    } else if !keys_in_range(
        key_x_coordinates,
        key_y_coordinates,
        key_widths,
        key_heights,
        sweet_spot_center_xs,
        sweet_spot_center_ys,
        sweet_spot_radii,
        key_count as nat,
    ) {
        Some(LayoutError::CoordinateOutOfRange)
    } else {
        None
    }
}

/// The distance of the points `i` and `j` of a list of points.
pub open spec fn point_distance(xs: Seq<i32>, ys: Seq<i32>, i: int, j: int) -> int {
    distance_spec(xs[i] as int, ys[i] as int, xs[j] as int, ys[j] as int)
}

/// One keyboard layout.
pub struct ProximityInfo {
    pub(crate) grid_width: i32,
    pub(crate) grid_height: i32,
    pub(crate) most_common_key_width: i32,
    pub(crate) most_common_key_height: i32,
    pub(crate) most_common_key_width_square: i64,
    pub(crate) cell_width: i32,
    pub(crate) cell_height: i32,
    pub(crate) key_count: usize,
    pub(crate) keyboard_width: i32,
    pub(crate) keyboard_height: i32,
    pub(crate) keyboard_hypotenuse: i32,
    pub(crate) has_touch_position_correction_data: bool,
    pub(crate) proximity_chars: Vec<char>,
    pub(crate) key_x_coordinates: Vec<i32>,
    pub(crate) key_y_coordinates: Vec<i32>,
    pub(crate) key_widths: Vec<i32>,
    pub(crate) key_heights: Vec<i32>,
    pub(crate) key_char_codes: Vec<char>,
    pub(crate) sweet_spot_center_xs: Vec<i32>,
    pub(crate) sweet_spot_center_ys: Vec<i32>,
    pub(crate) sweet_spot_radii: Vec<i32>,
    pub(crate) sweet_spot_center_ys_g: Vec<i32>,
    pub(crate) lower_code_point_to_key_map: HashMap<u32, usize>,
    pub(crate) key_index_to_orginal_codepoint: Vec<char>,
    pub(crate) key_index_to_lower_codepoint: Vec<char>,
    pub(crate) center_xs_g: Vec<i32>,
    pub(crate) center_ys_g: Vec<i32>,
    pub(crate) key_key_distances_g: Vec<Vec<i32>>,
}

impl ProximityInfo {
    // -----------------------------------------------------------------------
    // The model
    // -----------------------------------------------------------------------
    /// The number of keys.
    pub open(crate) spec fn spec_key_count(&self) -> nat {
        self.key_count as nat
    }

    /// The code points that the grid lists, cell after cell.
    pub open(crate) spec fn spec_proximity_chars(&self) -> Seq<char> {
        self.proximity_chars@
    }

    /// The width of the most common key.
    pub open(crate) spec fn spec_most_common_key_width(&self) -> int {
        self.most_common_key_width as int
    }

    /// The sizes are within their bounds, and the cells cover the keyboard.
    pub open(crate) spec fn wf_dimensions(&self) -> bool {
        &&& valid_dimension(self.keyboard_width as int)
        &&& valid_dimension(self.keyboard_height as int)
        &&& valid_dimension(self.grid_width as int)
        &&& valid_dimension(self.grid_height as int)
        &&& valid_dimension(self.most_common_key_width as int)
        &&& valid_dimension(self.most_common_key_height as int)
        &&& self.most_common_key_width_square == self.most_common_key_width
            * self.most_common_key_width
        &&& self.cell_width == (self.keyboard_width + self.grid_width - 1) / (
        self.grid_width as int)
        &&& self.cell_height == (self.keyboard_height + self.grid_height - 1) / (
        self.grid_height as int)
        &&& 1 <= self.cell_width
        &&& 1 <= self.cell_height
        &&& self.keyboard_hypotenuse == distance_spec(
            self.keyboard_width as int,
            self.keyboard_height as int,
            0,
            0,
        )
        &&& self.proximity_chars@.len() == self.grid_width * self.grid_height
            * MAX_PROXIMITY_CHARS_SIZE
    }

    /// There is one entry for each key in every list, and each key lies
    /// within the bounds of a layout.
    pub open(crate) spec fn wf_keys(&self) -> bool {
        &&& self.key_count <= MAX_KEY_COUNT_IN_A_KEYBOARD
        &&& self.key_x_coordinates@.len() == self.key_count
        &&& self.key_y_coordinates@.len() == self.key_count
        &&& self.key_widths@.len() == self.key_count
        &&& self.key_heights@.len() == self.key_count
        &&& self.key_char_codes@.len() == self.key_count
        &&& self.sweet_spot_center_xs@.len() == self.key_count
        &&& self.sweet_spot_center_ys@.len() == self.key_count
        &&& self.sweet_spot_radii@.len() == self.key_count
        &&& self.sweet_spot_center_ys_g@.len() == self.key_count
        &&& self.key_index_to_orginal_codepoint@.len() == self.key_count
        &&& self.key_index_to_lower_codepoint@.len() == self.key_count
        &&& self.center_xs_g@.len() == self.key_count
        &&& self.center_ys_g@.len() == self.key_count
        &&& keys_in_range(
            self.key_x_coordinates@,
            self.key_y_coordinates@,
            self.key_widths@,
            self.key_heights@,
            self.sweet_spot_center_xs@,
            self.sweet_spot_center_ys@,
            self.sweet_spot_radii@,
            self.spec_key_count(),
        )
    }

    /// Whether touches are corrected towards sweet spots: there is a key,
    /// and one of the keys has a sweet spot with a radius.
    pub open(crate) spec fn spec_has_correction(&self) -> bool {
        self.key_count > 0 && exists|i: int|
            0 <= i < self.key_count && #[trigger] self.sweet_spot_radii@[i] > 0
    }

    /// What is worked out for `key`: its middle, its sweet spot for
    /// gestures, and its code point in both forms.
    pub open(crate) spec fn key_derived(&self, key: int) -> bool {
        &&& self.center_xs_g@[key] == self.key_x_coordinates@[key] + self.key_widths@[key] / 2
        &&& self.center_ys_g@[key] == self.key_y_coordinates@[key] + self.key_heights@[key] / 2
        &&& self.sweet_spot_center_ys_g@[key] == (if self.has_touch_position_correction_data {
            self.center_ys_g@[key] + half_towards_zero(
                self.sweet_spot_center_ys@[key] - self.center_ys_g@[key],
            )
        } else {
            0
        })
        &&& self.key_index_to_orginal_codepoint@[key] == self.key_char_codes@[key]
        &&& self.key_index_to_lower_codepoint@[key] == lower_code_point(self.key_char_codes@[key])
    }

    /// What is worked out for each key is right, and so is whether touches
    /// are corrected.
    pub open(crate) spec fn wf_derived(&self) -> bool {
        &&& self.has_touch_position_correction_data == self.spec_has_correction()
        &&& forall|i: int| 0 <= i < self.key_count ==> #[trigger] self.key_derived(i)
    }

    /// The map from code point to key holds, for each code point that a key
    /// has in lower case, the last such key.
    pub open(crate) spec fn wf_key_map(&self) -> bool {
        key_map_matches(
            self.lower_code_point_to_key_map@,
            self.key_index_to_lower_codepoint@,
            self.spec_key_count(),
        )
    }

    /// The point from which the distances between keys are measured: the
    /// key's sweet spot for gestures where touches are corrected, and its
    /// centre otherwise.
    pub open(crate) spec fn anchor_x(&self, key: int) -> int {
        if self.has_touch_position_correction_data {
            self.sweet_spot_center_xs@[key] as int
        } else {
            self.center_xs_g@[key] as int
        }
    }

    /// See `anchor_x`.
    pub open(crate) spec fn anchor_y(&self, key: int) -> int {
        if self.has_touch_position_correction_data {
            self.sweet_spot_center_ys_g@[key] as int
        } else {
            self.center_ys_g@[key] as int
        }
    }

    /// The distance of two keys.
    pub open(crate) spec fn key_key_distance_spec(&self, key0: int, key1: int) -> int {
        distance_spec(
            self.anchor_x(key0),
            self.anchor_y(key0),
            self.anchor_x(key1),
            self.anchor_y(key1),
        )
    }

    /// The table of distances holds the distance of each two keys.
    pub open(crate) spec fn wf_distances(&self) -> bool {
        &&& self.key_key_distances_g@.len() == self.key_count
        &&& forall|i: int|
            0 <= i < self.key_count ==> (#[trigger] self.key_key_distances_g@[i])@.len()
                == self.key_count
        &&& forall|i: int, j: int|
            0 <= i < self.key_count && 0 <= j < self.key_count
                ==> #[trigger] self.key_key_distances_g@[i]@[j] == self.key_key_distance_spec(i, j)
    }

    /// The layout is whole: what `new` has checked and worked out.
    pub open(crate) spec fn wf(&self) -> bool {
        &&& self.wf_dimensions()
        &&& self.wf_keys()
        &&& self.wf_derived()
        &&& self.wf_key_map()
        &&& self.wf_distances()
    }

    /// The centre of `key` on the horizontal axis before the touch is looked
    /// at: its sweet spot where touches are corrected, else its middle.
    pub open(crate) spec fn base_center_x(&self, key: int) -> int {
        if self.has_touch_position_correction_data {
            self.sweet_spot_center_xs@[key] as int
        } else {
            self.center_xs_g@[key] as int
        }
    }

    /// The centre of `key` on the vertical axis before the touch is looked
    /// at: its middle where touches are not corrected; else its sweet spot,
    /// for gestures the one for gestures.
    pub open(crate) spec fn base_center_y(&self, key: int, is_geometric: bool) -> int {
        if !self.has_touch_position_correction_data {
            self.center_ys_g@[key] as int
        } else if is_geometric {
            self.sweet_spot_center_ys_g@[key] as int
        } else {
            self.sweet_spot_center_ys@[key] as int
        }
    }

    /// The centre of `key` on the horizontal axis, seen from `reference`.
    pub open(crate) spec fn key_center_x_spec(&self, key: int, reference: Option<i32>) -> int {
        line_center(
            self.base_center_x(key),
            self.key_widths@[key] as int,
            self.most_common_key_width as int,
            reference,
        )
    }

    /// The centre of `key` on the vertical axis, seen from `reference`.
    pub open(crate) spec fn key_center_y_spec(
        &self,
        key: int,
        reference: Option<i32>,
        is_geometric: bool,
    ) -> int {
        bottom_row_center(
            self.base_center_y(key, is_geometric),
            self.key_heights@[key] as int,
            self.keyboard_height as int,
            reference,
        )
    }

    /// The squared distance of `(x, y)` from the centre of `key`, in
    /// pixels.  Divided by the square of the most common key width it is
    /// the normalized squared distance.
    pub open(crate) spec fn squared_distance_from_center_spec(
        &self,
        key: int,
        x: i32,
        y: i32,
        is_geometric: bool,
    ) -> int {
        square(self.key_center_x_spec(key, Some(x)) - x) + square(
            self.key_center_y_spec(key, Some(y), is_geometric) - y,
        )
    }

    /// `(x, y)` lies in a cell of the grid.
    pub open(crate) spec fn in_grid(&self, x: int, y: int) -> bool {
        &&& 0 <= x
        &&& 0 <= y
        &&& x / (self.cell_width as int) < self.grid_width
        &&& y / (self.cell_height as int) < self.grid_height
    }

    /// The position in the grid's list at which the code points of the
    /// cell that holds `(x, y)` begin.
    pub open(crate) spec fn cell_start(&self, x: int, y: int) -> int {
        ((y / (self.cell_height as int)) * self.grid_width + x / (self.cell_width as int))
            * MAX_PROXIMITY_CHARS_SIZE
    }

    /// The code points that the grid lists for the cell that holds `(x, y)`.
    pub open(crate) spec fn cell_code_points(&self, x: int, y: int) -> Seq<char> {
        self.proximity_chars@.subrange(
            self.cell_start(x, y),
            self.cell_start(x, y) + MAX_PROXIMITY_CHARS_SIZE,
        )
    }

    /// The key that the code point `c` is found on: the last key whose code
    /// point is `c` in lower case.
    pub open(crate) spec fn key_index_spec(&self, c: char) -> Option<int> {
        last_index_of(
            self.key_index_to_lower_codepoint@,
            lower_code_point(c),
            self.spec_key_count(),
        )
    }

    /// The left edge of `key`.
    pub open(crate) spec fn key_left(&self, key: int) -> int {
        self.key_x_coordinates@[key] as int
    }

    /// The upper edge of `key`.
    pub open(crate) spec fn key_top(&self, key: int) -> int {
        self.key_y_coordinates@[key] as int
    }

    /// The width of `key`.
    pub open(crate) spec fn key_width(&self, key: int) -> int {
        self.key_widths@[key] as int
    }

    /// The height of `key`.
    pub open(crate) spec fn key_height(&self, key: int) -> int {
        self.key_heights@[key] as int
    }

    /// The squared distance of `(x, y)` from the rectangle of `key`.
    pub open(crate) spec fn key_edge_distance_spec(&self, key: int, x: int, y: int) -> int {
        squared_length_to_edge_spec(
            self.key_left(key),
            self.key_top(key),
            self.key_width(key),
            self.key_height(key),
            x,
            y,
        )
    }

    /// `(x, y)` lies on `key`.
    pub open(crate) spec fn on_key_spec(&self, key: int, x: int, y: int) -> bool {
        is_on_key_spec(
            self.key_left(key),
            self.key_top(key),
            self.key_width(key),
            self.key_height(key),
            x,
            y,
        )
    }

    /// The code point `c` is on a key that `(x, y)` lies on, or from whose
    /// rectangle it is less than the most common key width away.
    pub open(crate) spec fn is_near_key_of(&self, c: char, x: int, y: int) -> bool {
        match self.key_index_spec(c) {
            Some(key) => self.on_key_spec(key, x, y) || self.key_edge_distance_spec(key, x, y)
                < square(self.most_common_key_width as int),
            None => false,
        }
    }

    /// The candidates for a touch at `(x, y)` on the key `primary` that the
    /// first `n` code points of `cell` give: `primary` first, then each
    /// code point from the space upwards whose key is near, once, up to
    /// `MAX_PROXIMITY_CHARS_SIZE` in all.
    pub open(crate) spec fn proximities_from(
        &self,
        cell: Seq<char>,
        primary: char,
        x: int,
        y: int,
        n: nat,
    ) -> Seq<char>
        decreases n,
    {
        if n == 0 {
            seq![primary]
        } else {
            let before = self.proximities_from(cell, primary, x, y, (n - 1) as nat);
            let c = cell[n - 1];
            if before.len() >= MAX_PROXIMITY_CHARS_SIZE || c < KEYCODE_SPACE || before.contains(c)
                || !self.is_near_key_of(c, x, y) {
                before
            } else {
                before.push(c)
            }
        }
    }

    /// The candidates for a touch at `(x, y)` on the key `primary`.  A
    /// touch that lies in no cell of the grid has `primary` alone.
    pub open(crate) spec fn proximities_spec(&self, x: i32, y: i32, primary: char) -> Seq<char> {
        if self.in_grid(x as int, y as int) {
            self.proximities_from(
                self.cell_code_points(x as int, y as int),
                primary,
                x as int,
                y as int,
                MAX_PROXIMITY_CHARS_SIZE as nat,
            )
        } else {
            seq![primary]
        }
    }

    /// The code point of `key` in lower case.
    pub open(crate) spec fn code_point_spec(&self, key: int) -> char {
        self.key_index_to_lower_codepoint@[key]
    }

    /// The code point of `key` as the layout gives it.
    pub open(crate) spec fn original_code_point_spec(&self, key: int) -> char {
        self.key_index_to_orginal_codepoint@[key]
    }

    /// The sweet spot of `key`: its centre and its radius.
    pub open(crate) spec fn sweet_spot_spec(&self, key: int) -> (int, int, int) {
        (
            self.sweet_spot_center_xs@[key] as int,
            self.sweet_spot_center_ys@[key] as int,
            self.sweet_spot_radii@[key] as int,
        )
    }

    /// The width and the height of the keyboard.
    pub open(crate) spec fn keyboard_size_spec(&self) -> (int, int) {
        (self.keyboard_width as int, self.keyboard_height as int)
    }

    /// The number of columns and of rows of the grid.
    pub open(crate) spec fn grid_size_spec(&self) -> (int, int) {
        (self.grid_width as int, self.grid_height as int)
    }

    /// The width and the height of the most common key.
    pub open(crate) spec fn most_common_key_size_spec(&self) -> (int, int) {
        (self.most_common_key_width as int, self.most_common_key_height as int)
    }

    /// The cells that cover `size` when it is cut into `count` parts.
    pub open spec fn cell_size_spec(size: int, count: int) -> int {
        (size + count - 1) / count
    }

    /// The layout is the one that was described: it has these sizes, this
    /// grid, and for each of the first `key_count` keys what the lists say.
    pub open(crate) spec fn describes(
        &self,
        keyboard_width: i32,
        keyboard_height: i32,
        grid_width: i32,
        grid_height: i32,
        most_common_key_width: i32,
        most_common_key_height: i32,
        proximity_chars: Seq<char>,
        key_count: usize,
        key_x_coordinates: Seq<i32>,
        key_y_coordinates: Seq<i32>,
        key_widths: Seq<i32>,
        key_heights: Seq<i32>,
        key_char_codes: Seq<char>,
        sweet_spot_center_xs: Seq<i32>,
        sweet_spot_center_ys: Seq<i32>,
        sweet_spot_radii: Seq<i32>,
    ) -> bool {
        &&& self.keyboard_width == keyboard_width
        &&& self.keyboard_height == keyboard_height
        &&& self.grid_width == grid_width
        &&& self.grid_height == grid_height
        &&& self.most_common_key_width == most_common_key_width
        &&& self.most_common_key_height == most_common_key_height
        &&& self.proximity_chars@ == proximity_chars
        &&& self.key_count == key_count
        &&& self.key_x_coordinates@ == key_x_coordinates.subrange(0, key_count as int)
        &&& self.key_y_coordinates@ == key_y_coordinates.subrange(0, key_count as int)
        &&& self.key_widths@ == key_widths.subrange(0, key_count as int)
        &&& self.key_heights@ == key_heights.subrange(0, key_count as int)
        &&& self.key_char_codes@ == key_char_codes.subrange(0, key_count as int)
        &&& self.sweet_spot_center_xs@ == sweet_spot_center_xs.subrange(0, key_count as int)
        &&& self.sweet_spot_center_ys@ == sweet_spot_center_ys.subrange(0, key_count as int)
        &&& self.sweet_spot_radii@ == sweet_spot_radii.subrange(0, key_count as int)
    }

    /// What the layout was made from: everything but what is worked out.
    pub open(crate) spec fn same_description(&self, other: &ProximityInfo) -> bool {
        &&& self.keyboard_width == other.keyboard_width
        &&& self.keyboard_height == other.keyboard_height
        &&& self.grid_width == other.grid_width
        &&& self.grid_height == other.grid_height
        &&& self.most_common_key_width == other.most_common_key_width
        &&& self.most_common_key_height == other.most_common_key_height
        &&& self.most_common_key_width_square == other.most_common_key_width_square
        &&& self.cell_width == other.cell_width
        &&& self.cell_height == other.cell_height
        &&& self.keyboard_hypotenuse == other.keyboard_hypotenuse
        &&& self.proximity_chars@ == other.proximity_chars@
        &&& self.key_count == other.key_count
        &&& self.key_x_coordinates@ == other.key_x_coordinates@
        &&& self.key_y_coordinates@ == other.key_y_coordinates@
        &&& self.key_widths@ == other.key_widths@
        &&& self.key_heights@ == other.key_heights@
        &&& self.key_char_codes@ == other.key_char_codes@
        &&& self.sweet_spot_center_xs@ == other.sweet_spot_center_xs@
        &&& self.sweet_spot_center_ys@ == other.sweet_spot_center_ys@
        &&& self.sweet_spot_radii@ == other.sweet_spot_radii@
    }

    /// The lists that describe the keys have one entry for each key, and
    /// each key lies within the bounds of a layout.
    pub open(crate) spec fn wf_described_keys(&self) -> bool {
        &&& self.key_count <= MAX_KEY_COUNT_IN_A_KEYBOARD
        &&& self.key_x_coordinates@.len() == self.key_count
        &&& self.key_y_coordinates@.len() == self.key_count
        &&& self.key_widths@.len() == self.key_count
        &&& self.key_heights@.len() == self.key_count
        &&& self.key_char_codes@.len() == self.key_count
        &&& self.sweet_spot_center_xs@.len() == self.key_count
        &&& self.sweet_spot_center_ys@.len() == self.key_count
        &&& self.sweet_spot_radii@.len() == self.key_count
        &&& keys_in_range(
            self.key_x_coordinates@,
            self.key_y_coordinates@,
            self.key_widths@,
            self.key_heights@,
            self.sweet_spot_center_xs@,
            self.sweet_spot_center_ys@,
            self.sweet_spot_radii@,
            self.spec_key_count(),
        )
    }

    /// `key` and its sweet spot lie within the bounds of a layout.
    pub open(crate) spec fn key_in_layout(&self, key: int) -> bool {
        key_in_range(
            self.key_x_coordinates@,
            self.key_y_coordinates@,
            self.key_widths@,
            self.key_heights@,
            self.sweet_spot_center_xs@,
            self.sweet_spot_center_ys@,
            self.sweet_spot_radii@,
            key,
        )
    }

    /// Where a key lies: within the bounds of a layout, and so do its
    /// centres.
    pub proof fn lemma_key_bounds(&self, key: int)
        requires
            self.wf(),
            0 <= key < self.spec_key_count(),
        ensures
            valid_position(self.key_left(key)),
            valid_position(self.key_top(key)),
            valid_extent(self.key_width(key)),
            valid_extent(self.key_height(key)),
            self.key_derived(key),
            self.key_in_layout(key),
            -2 * MAX_LAYOUT_COORDINATE <= self.base_center_x(key) <= 2 * MAX_LAYOUT_COORDINATE,
            forall|is_geometric: bool|
                -2 * MAX_LAYOUT_COORDINATE <= #[trigger] self.base_center_y(key, is_geometric) <= 2
                    * MAX_LAYOUT_COORDINATE,
    {
        assert(key_in_range(
            self.key_x_coordinates@,
            self.key_y_coordinates@,
            self.key_widths@,
            self.key_heights@,
            self.sweet_spot_center_xs@,
            self.sweet_spot_center_ys@,
            self.sweet_spot_radii@,
            key,
        ));
        assert(self.key_derived(key));
    }

    /// The cell of a touch in the grid lies within the grid's list.
    pub proof fn lemma_cell_in_list(&self, x: int, y: int)
        requires
            self.wf(),
            self.in_grid(x, y),
        ensures
            0 <= self.cell_start(x, y),
            self.cell_start(x, y) + MAX_PROXIMITY_CHARS_SIZE <= self.spec_proximity_chars().len(),
    {
        let row = y / (self.cell_height as int);
        let col = x / (self.cell_width as int);
        let gw = self.grid_width as int;
        let gh = self.grid_height as int;
        assert(0 <= row && 0 <= col);
        assert(row * gw + col + 1 <= gw * gh && 0 <= row * gw + col) by (nonlinear_arith)
            requires
                0 <= row < gh,
                0 <= col < gw,
        ;
        assert((row * gw + col) * 16 + 16 <= gw * gh * 16) by (nonlinear_arith)
            requires
                row * gw + col + 1 <= gw * gh,
        ;
    }

    // -----------------------------------------------------------------------
    // Queries
    // -----------------------------------------------------------------------
    /// Tells whether the space key is among the keys near `(x, y)`: whether
    /// the cell of the grid that holds the point lists the space.  A point
    /// with a negative coordinate, or beyond the grid, lies in no cell.
    pub fn has_space_proximity(&self, x: i32, y: i32) -> (found: bool)
        requires
            self.wf(),
        ensures
            found == (self.in_grid(x as int, y as int) && self.cell_code_points(
                x as int,
                y as int,
            ).contains(KEYCODE_SPACE)),
    {
        if x < 0 || y < 0 {
            return false;
        }
        if x / self.cell_width >= self.grid_width || y / self.cell_height >= self.grid_height {
            return false;
        }
        let listed = self.proximity_chars.len();
        proof {
            self.lemma_cell_in_list(x as int, y as int);
            assert(self.cell_start(x as int, y as int) + MAX_PROXIMITY_CHARS_SIZE <= listed);
        }
        let start_index = get_start_index_from_coordinates(
            x,
            y,
            self.cell_height,
            self.cell_width,
            self.grid_width,
        );
        let mut i: usize = 0;
        while i < MAX_PROXIMITY_CHARS_SIZE
            invariant
                i <= MAX_PROXIMITY_CHARS_SIZE,
                self.in_grid(x as int, y as int),
                start_index == self.cell_start(x as int, y as int),
                start_index + MAX_PROXIMITY_CHARS_SIZE <= self.proximity_chars@.len(),
                forall|slot: int|
                    0 <= slot < i ==> self.cell_code_points(x as int, y as int)[slot]
                        != KEYCODE_SPACE,
            decreases MAX_PROXIMITY_CHARS_SIZE - i,
        {
            assert(self.cell_code_points(x as int, y as int)[i as int]
                == self.proximity_chars@[start_index + i]);
            if self.proximity_chars[start_index + i] == KEYCODE_SPACE {
                assert(self.cell_code_points(x as int, y as int).contains(KEYCODE_SPACE));
                return true;
            }
            i += 1;
        }
        false
    }

    /// The centre of the key `key_id` on the horizontal axis: its sweet
    /// spot where touches are corrected, else its middle.  Of a key wider
    /// than the most common key, and with a reference point, it is the end
    /// of the key's line of centres on the side of the reference point.
    pub fn get_key_center_x_of_key_id_g(
        &self,
        key_id: usize,
        reference_point_x: Option<i32>,
        _is_geometric: bool,
    ) -> (center_x: i32)
        requires
            self.wf(),
            key_id < self.spec_key_count(),
        ensures
            center_x == self.key_center_x_spec(key_id as int, reference_point_x),
            -2 * MAX_LAYOUT_COORDINATE <= center_x <= 2 * MAX_LAYOUT_COORDINATE
                || reference_point_x == Some(center_x),
    {
        let center_x = if self.has_touch_position_correction_data {
            self.sweet_spot_center_xs[key_id]
        } else {
            self.center_xs_g[key_id]
        };
        let key_width = self.key_widths[key_id];
        proof {
            self.lemma_key_bounds(key_id as int);
        }
        match reference_point_x {
            Some(reference) => {
                if key_width > self.most_common_key_width {
                    let key_width_half_diff = (key_width - self.most_common_key_width) / 2;
                    if reference < center_x {
                        center_x - key_width_half_diff
                    } else if reference > center_x {
                        center_x + key_width_half_diff
                    } else {
                        reference
                    }
                } else {
                    center_x
                }
            },
            None => center_x,
        }
    }

    /// The centre of the key `key_id` on the vertical axis: its middle
    /// where touches are not corrected; else its sweet spot, for gestures
    /// the one for gestures.  A key of the bottom row reaches down to a
    /// reference point below its centre.
    pub fn get_key_center_y_of_key_id_g(
        &self,
        key_id: usize,
        reference_point_y: Option<i32>,
        is_geometric: bool,
    ) -> (center_y: i32)
        requires
            self.wf(),
            key_id < self.spec_key_count(),
        ensures
            center_y == self.key_center_y_spec(key_id as int, reference_point_y, is_geometric),
            -2 * MAX_LAYOUT_COORDINATE <= center_y <= 2 * MAX_LAYOUT_COORDINATE
                || reference_point_y == Some(center_y),
    {
        proof {
            self.lemma_key_bounds(key_id as int);
        }
        let center_y = if !self.has_touch_position_correction_data {
            self.center_ys_g[key_id]
        } else if is_geometric {
            self.sweet_spot_center_ys_g[key_id]
        } else {
            self.sweet_spot_center_ys[key_id]
        };
        match reference_point_y {
            Some(reference) => {
                if center_y + self.key_heights[key_id] > self.keyboard_height && center_y
                    < reference {
                    reference
                } else {
                    center_y
                }
            },
            None => center_y,
        }
    }

    /// The squared distance of `(x, y)` from the centre of the key `key_id`
    /// as seen from that point, in squares of the most common key width.
    pub fn get_normalized_square_distance_from_center_float_g(
        &self,
        key_id: usize,
        x: i32,
        y: i32,
        is_geometric: bool,
    ) -> (distance: Ratio)
        requires
            self.wf(),
            key_id < self.spec_key_count(),
            valid_touch_coordinate(x as int),
            valid_touch_coordinate(y as int),
        ensures
            distance.num == self.squared_distance_from_center_spec(key_id as int, x, y, is_geometric),
            distance.den == square(self.spec_most_common_key_width()),
            distance.wf(),
            0 <= distance.num <= 0x4800_0000_0000_0000,
    {
        let center_x = self.get_key_center_x_of_key_id_g(key_id, Some(x), is_geometric);
        let center_y = self.get_key_center_y_of_key_id_g(key_id, Some(y), is_geometric);
        let dx: i64 = center_x as i64 - x as i64;
        let dy: i64 = center_y as i64 - y as i64;
        assert(0 <= dx * dx <= 0x2400_0000_0000_0000) by (nonlinear_arith)
            requires
                -0x6000_0000 <= dx <= 0x6000_0000,
        ;
        assert(0 <= dy * dy <= 0x2400_0000_0000_0000) by (nonlinear_arith)
            requires
                -0x6000_0000 <= dy <= 0x6000_0000,
        ;
        assert(0 < self.most_common_key_width * self.most_common_key_width
            <= 0x4000_0000_0000_0000) by (nonlinear_arith)
            requires
                1 <= self.most_common_key_width <= 0x1000_0000,
        ;
        let num: i128 = (dx as i128) * (dx as i128) + (dy as i128) * (dy as i128);
        Ratio::new(num, self.most_common_key_width_square as i128)
    }

    /// The key that the code point `c` is found on, in either case of an
    /// ASCII letter.  Of two keys with one code point it is the later.
    pub fn get_key_index_of(&self, c: char) -> (key_index: Option<usize>)
        requires
            self.wf(),
        ensures
            match key_index {
                Some(i) => self.key_index_spec(c) == Some(i as int) && i < self.spec_key_count(),
                None => self.key_index_spec(c) is None,
            },
    {
        if self.key_count == 0 {
            return None;
        }
        let lower = to_ascii_lowercase(c);
        let code = lower as u32;
        proof {
            lemma_last_index_of(self.key_index_to_lower_codepoint@, lower, self.spec_key_count());
            assert(self.lower_code_point_to_key_map@.contains_key(lower as u32) == (last_index_of(
                self.key_index_to_lower_codepoint@,
                lower,
                self.spec_key_count(),
            ) is Some));
        }
        match self.lower_code_point_to_key_map.get(&code) {
            Some(i) => Some(*i),
            None => None,
        }
    }

    /// Tells whether a key of the layout has the code point `c`.
    pub fn is_code_point_on_keyboard(&self, c: char) -> (found: bool)
        requires
            self.wf(),
        ensures
            found == self.key_index_spec(c) is Some,
    {
        self.get_key_index_of(c).is_some()
    }

    /// The squared distance of `(x, y)` from the rectangle of the key
    /// `key_id`: 0 for a point within it.
    pub fn squared_length_to_edge(&self, key_id: usize, x: i32, y: i32) -> (distance: i128)
        requires
            self.wf(),
            key_id < self.spec_key_count(),
        ensures
            distance == self.key_edge_distance_spec(key_id as int, x as int, y as int),
            0 <= distance,
    {
        proof {
            self.lemma_key_bounds(key_id as int);
        }
        let left: i64 = self.key_x_coordinates[key_id] as i64;
        let top: i64 = self.key_y_coordinates[key_id] as i64;
        let right: i64 = left + self.key_widths[key_id] as i64;
        let bottom: i64 = top + self.key_heights[key_id] as i64;
        let px: i64 = x as i64;
        let py: i64 = y as i64;
        let edge_x: i64 = if px < left {
            left
        } else if px > right {
            right
        } else {
            px
        };
        let edge_y: i64 = if py < top {
            top
        } else if py > bottom {
            bottom
        } else {
            py
        };
        let dx: i128 = (px - edge_x) as i128;
        let dy: i128 = (py - edge_y) as i128;
        assert(0 <= dx * dx <= 0x1_0000_0000_0000_0000) by (nonlinear_arith)
            requires
                -0x1_0000_0000 <= dx <= 0x1_0000_0000,
        ;
        assert(0 <= dy * dy <= 0x1_0000_0000_0000_0000) by (nonlinear_arith)
            requires
                -0x1_0000_0000 <= dy <= 0x1_0000_0000,
        ;
        dx * dx + dy * dy
    }

    /// Tells whether `(x, y)` lies on the key `key_id`.  The key's right
    /// edge counts as part of it; its lower edge does not.
    pub fn is_on_key(&self, key_id: usize, x: i32, y: i32) -> (on_key: bool)
        requires
            self.wf(),
            key_id < self.spec_key_count(),
        ensures
            on_key == self.on_key_spec(key_id as int, x as int, y as int),
    {
        proof {
            self.lemma_key_bounds(key_id as int);
        }
        let left: i64 = self.key_x_coordinates[key_id] as i64;
        let top: i64 = self.key_y_coordinates[key_id] as i64;
        let right: i64 = left + self.key_widths[key_id] as i64 + 1;
        let bottom: i64 = top + self.key_heights[key_id] as i64;
        let px: i64 = x as i64;
        let py: i64 = y as i64;
        left < right && top < bottom && px >= left && px < right && py >= top && py < bottom
    }

    /// The candidates for a touch at `(x, y)` that was given the code point
    /// `primary_key`: that code point first, then each code point that the
    /// grid lists for the cell of the touch, if it is the space or above,
    /// is not a candidate yet, and is on a key that the touch lies on or
    /// near.  At most `MAX_PROXIMITY_CHARS_SIZE` candidates are given.
    pub fn calculate_proximities(&self, x: i32, y: i32, primary_key: char, _locale: &str) -> (proximities:
        Vec<char>)
        requires
            self.wf(),
        ensures
            proximities@ == self.proximities_spec(x, y, primary_key),
            1 <= proximities@.len() <= MAX_PROXIMITY_CHARS_SIZE,
            proximities@[0] == primary_key,
    {
        let mut proximities: Vec<char> = Vec::new();
        proximities.push(primary_key);
        if x < 0 || y < 0 {
            return proximities;
        }
        if x / self.cell_width >= self.grid_width || y / self.cell_height >= self.grid_height {
            return proximities;
        }
        let listed = self.proximity_chars.len();
        proof {
            self.lemma_cell_in_list(x as int, y as int);
            assert(self.cell_start(x as int, y as int) + MAX_PROXIMITY_CHARS_SIZE <= listed);
        }
        let start_index = get_start_index_from_coordinates(
            x,
            y,
            self.cell_height,
            self.cell_width,
            self.grid_width,
        );
        let ghost cell = self.cell_code_points(x as int, y as int);
        let mut i: usize = 0;
        while i < MAX_PROXIMITY_CHARS_SIZE
            invariant
                i <= MAX_PROXIMITY_CHARS_SIZE,
                self.wf(),
                self.in_grid(x as int, y as int),
                cell == self.cell_code_points(x as int, y as int),
                start_index == self.cell_start(x as int, y as int),
                start_index + MAX_PROXIMITY_CHARS_SIZE <= self.proximity_chars@.len(),
                proximities@ == self.proximities_from(cell, primary_key, x as int, y as int, i as nat),
                1 <= proximities@.len() <= MAX_PROXIMITY_CHARS_SIZE,
                proximities@[0] == primary_key,
            decreases MAX_PROXIMITY_CHARS_SIZE - i,
        {
            assert(cell[i as int] == self.proximity_chars@[start_index + i]);
            let c = self.proximity_chars[start_index + i];
            i += 1;
            if proximities.len() >= MAX_PROXIMITY_CHARS_SIZE || c < KEYCODE_SPACE || has_code_point(
                &proximities,
                c,
            ) {
                continue ;
            }
            match self.get_key_index_of(c) {
                Some(key_id) => {
                    let on_key = self.is_on_key(key_id, x, y);
                    let distance = self.squared_length_to_edge(key_id, x, y);
                    if on_key || distance < self.most_common_key_width_square as i128 {
                        proximities.push(c);
                    }
                },
                None => {},
            }
        }
        proximities
    }

    /// The candidates for each of the first `input_size` touches: see
    /// `calculate_proximities`.
    pub fn initialize_proximities(
        &self,
        input_codes: &Vec<char>,
        input_x_coordinates: &Vec<i32>,
        input_y_coordinates: &Vec<i32>,
        input_size: usize,
        locale: &str,
    ) -> (proximities: Vec<Vec<char>>)
        requires
            self.wf(),
            input_size <= input_codes@.len(),
            input_size <= input_x_coordinates@.len(),
            input_size <= input_y_coordinates@.len(),
        ensures
            proximities@.len() == input_size,
            forall|i: int|
                0 <= i < input_size ==> (#[trigger] proximities@[i])@ == self.proximities_spec(
                    input_x_coordinates@[i],
                    input_y_coordinates@[i],
                    input_codes@[i],
                ),
            forall|i: int|
                0 <= i < input_size ==> 1 <= (#[trigger] proximities@[i])@.len()
                    <= MAX_PROXIMITY_CHARS_SIZE,
    {
        let mut proximities: Vec<Vec<char>> = Vec::new();
        let mut i: usize = 0;
        while i < input_size
            invariant
                i <= input_size,
                self.wf(),
                input_size <= input_codes@.len(),
                input_size <= input_x_coordinates@.len(),
                input_size <= input_y_coordinates@.len(),
                proximities@.len() == i,
                forall|j: int|
                    0 <= j < i ==> (#[trigger] proximities@[j])@ == self.proximities_spec(
                        input_x_coordinates@[j],
                        input_y_coordinates@[j],
                        input_codes@[j],
                    ),
                forall|j: int|
                    0 <= j < i ==> 1 <= (#[trigger] proximities@[j])@.len()
                        <= MAX_PROXIMITY_CHARS_SIZE,
            decreases input_size - i,
        {
            let primary_key = input_codes[i];
            let x = input_x_coordinates[i];
            let y = input_y_coordinates[i];
            proximities.push(self.calculate_proximities(x, y, primary_key, locale));
            i += 1;
        }
        proximities
    }

    /// The code point of the key `key_index` in lower case, if there is
    /// such a key.
    pub fn get_code_point_of(&self, key_index: usize) -> (code_point: Option<char>)
        requires
            self.wf(),
        ensures
            code_point == (if key_index < self.spec_key_count() {
                Some(self.code_point_spec(key_index as int))
            } else {
                None
            }),
    {
        if key_index >= self.key_count {
            return None;
        }
        Some(self.key_index_to_lower_codepoint[key_index])
    }

    /// The code point of the key `key_index` as the layout gives it, if
    /// there is such a key.
    pub fn get_original_code_point_of(&self, key_index: usize) -> (code_point: Option<char>)
        requires
            self.wf(),
        ensures
            code_point == (if key_index < self.spec_key_count() {
                Some(self.original_code_point_spec(key_index as int))
            } else {
                None
            }),
    {
        if key_index >= self.key_count {
            return None;
        }
        Some(self.key_index_to_orginal_codepoint[key_index])
    }

    /// Tells whether the key `key_index` has a sweet spot: one with a
    /// radius above 0.
    pub fn has_sweet_spot_data(&self, key_index: usize) -> (has_data: bool)
        requires
            self.wf(),
            key_index < self.spec_key_count(),
        ensures
            has_data == (self.sweet_spot_spec(key_index as int).2 > 0),
    {
        self.sweet_spot_radii[key_index] > 0
    }

    /// The radius of the sweet spot of the key `key_index`.
    pub fn get_sweet_spot_radii_at(&self, key_index: usize) -> (radius: i32)
        requires
            self.wf(),
            key_index < self.spec_key_count(),
        ensures
            radius == self.sweet_spot_spec(key_index as int).2,
    {
        self.sweet_spot_radii[key_index]
    }

    /// The horizontal centre of the sweet spot of the key `key_index`.
    pub fn get_sweet_spot_center_x_at(&self, key_index: usize) -> (center_x: i32)
        requires
            self.wf(),
            key_index < self.spec_key_count(),
        ensures
            center_x == self.sweet_spot_spec(key_index as int).0,
    {
        self.sweet_spot_center_xs[key_index]
    }

    /// The vertical centre of the sweet spot of the key `key_index`.
    pub fn get_sweet_spot_center_y_at(&self, key_index: usize) -> (center_y: i32)
        requires
            self.wf(),
            key_index < self.spec_key_count(),
        ensures
            center_y == self.sweet_spot_spec(key_index as int).1,
    {
        self.sweet_spot_center_ys[key_index]
    }

    /// Tells whether touches are corrected towards sweet spots: whether
    /// there is a key, and a key with a sweet spot.
    pub fn has_touch_position_correction_data(&self) -> (has_data: bool)
        requires
            self.wf(),
        ensures
            has_data == self.spec_has_correction(),
    {
        self.has_touch_position_correction_data
    }

    /// The width of the most common key.
    pub fn get_most_common_key_width(&self) -> (width: i32)
        requires
            self.wf(),
        ensures
            width == self.most_common_key_size_spec().0,
            valid_dimension(width as int),
    {
        self.most_common_key_width
    }

    /// The square of the width of the most common key.
    pub fn get_most_common_key_width_square(&self) -> (width_square: i64)
        requires
            self.wf(),
        ensures
            width_square == square(self.most_common_key_size_spec().0),
            0 < width_square <= 0x100_0000_0000_0000,
    {
        assert(0 < self.most_common_key_width * self.most_common_key_width
            <= 0x100_0000_0000_0000) by (nonlinear_arith)
            requires
                1 <= self.most_common_key_width <= 0x1000_0000,
        ;
        self.most_common_key_width_square
    }

    /// The squared height of the most common key, in squares of its width.
    pub fn get_normalized_squared_most_common_key_hypotenuse(&self) -> (hypotenuse: Ratio)
        requires
            self.wf(),
        ensures
            hypotenuse.num == square(self.most_common_key_size_spec().1),
            hypotenuse.den == square(self.most_common_key_size_spec().0),
            hypotenuse.wf(),
    {
        let height: i128 = self.most_common_key_height as i128;
        assert(0 < height * height <= 0x100_0000_0000_0000) by (nonlinear_arith)
            requires
                1 <= height <= 0x1000_0000,
        ;
        assert(0 < self.most_common_key_width * self.most_common_key_width
            <= 0x100_0000_0000_0000) by (nonlinear_arith)
            requires
                1 <= self.most_common_key_width <= 0x1000_0000,
        ;
        Ratio::new(height * height, self.most_common_key_width_square as i128)
    }

    /// The number of keys.
    pub fn get_key_count(&self) -> (key_count: usize)
        requires
            self.wf(),
        ensures
            key_count == self.spec_key_count(),
            key_count <= MAX_KEY_COUNT_IN_A_KEYBOARD,
    {
        self.key_count
    }

    /// The height of a cell of the grid: the height of the keyboard
    /// divided by the number of rows, rounded up.
    pub fn get_cell_height(&self) -> (cell_height: i32)
        requires
            self.wf(),
        ensures
            cell_height == Self::cell_size_spec(
                self.keyboard_size_spec().1,
                self.grid_size_spec().1,
            ),
    {
        self.cell_height
    }

    /// The width of a cell of the grid: the width of the keyboard divided
    /// by the number of columns, rounded up.
    pub fn get_cell_width(&self) -> (cell_width: i32)
        requires
            self.wf(),
        ensures
            cell_width == Self::cell_size_spec(
                self.keyboard_size_spec().0,
                self.grid_size_spec().0,
            ),
    {
        self.cell_width
    }

    /// The number of rows of the grid.
    pub fn get_grid_height(&self) -> (grid_height: i32)
        requires
            self.wf(),
        ensures
            grid_height == self.grid_size_spec().1,
    {
        self.grid_height
    }

    /// The number of columns of the grid.
    pub fn get_grid_width(&self) -> (grid_width: i32)
        requires
            self.wf(),
        ensures
            grid_width == self.grid_size_spec().0,
    {
        self.grid_width
    }

    /// The height of the keyboard.
    pub fn get_keyboard_height(&self) -> (keyboard_height: i32)
        requires
            self.wf(),
        ensures
            keyboard_height == self.keyboard_size_spec().1,
    {
        self.keyboard_height
    }

    /// The width of the keyboard.
    pub fn get_keyboard_width(&self) -> (keyboard_width: i32)
        requires
            self.wf(),
        ensures
            keyboard_width == self.keyboard_size_spec().0,
    {
        self.keyboard_width
    }

    /// The diagonal of the keyboard, rounded to the nearest pixel.
    pub fn get_keyboard_hypotenuse(&self) -> (hypotenuse: i32)
        requires
            self.wf(),
        ensures
            hypotenuse == distance_spec(
                self.keyboard_size_spec().0,
                self.keyboard_size_spec().1,
                0,
                0,
            ),
    {
        self.keyboard_hypotenuse
    }

    /// The distance of the keys `key_id0` and `key_id1`: that of their
    /// sweet spots for gestures where touches are corrected, else that of
    /// their centres.
    pub fn get_key_key_distance_g(&self, key_id0: usize, key_id1: usize) -> (distance: i32)
        requires
            self.wf(),
            key_id0 < self.spec_key_count(),
            key_id1 < self.spec_key_count(),
        ensures
            distance == self.key_key_distance_spec(key_id0 as int, key_id1 as int),
    {
        assert(self.key_key_distances_g@[key_id0 as int]@.len() == self.key_count);
        self.key_key_distances_g[key_id0][key_id1]
    }

    /// The distance of two keys is the same in both directions, and each
    /// key is at distance 0 from itself.
    pub proof fn lemma_key_key_distances_symmetric(&self, key0: int, key1: int)
        requires
            self.wf(),
            0 <= key0 < self.spec_key_count(),
            0 <= key1 < self.spec_key_count(),
        ensures
            self.key_key_distance_spec(key0, key1) == self.key_key_distance_spec(key1, key0),
            self.key_key_distance_spec(key0, key0) == 0,
    {
        lemma_distance_symmetric(
            self.anchor_x(key0),
            self.anchor_y(key0),
            self.anchor_x(key1),
            self.anchor_y(key1),
        );
        lemma_distance_symmetric(
            self.anchor_x(key0),
            self.anchor_y(key0),
            self.anchor_x(key0),
            self.anchor_y(key0),
        );
    }
}

/// Tells whether `c` is among `code_points`.
pub fn has_code_point(code_points: &Vec<char>, c: char) -> (found: bool)
    ensures
        found == code_points@.contains(c),
{
    let mut i: usize = 0;
    while i < code_points.len()
        invariant
            i <= code_points.len(),
            forall|j: int| 0 <= j < i ==> code_points@[j] != c,
        decreases code_points.len() - i,
    {
        if code_points[i] == c {
            return true;
        }
        i += 1;
    }
    false
}

/// What `last_index_of` finds: a position below `n` that holds `c`, after
/// which no position below `n` holds it; and nothing only where no position
/// below `n` holds it.
pub proof fn lemma_last_index_of(codes: Seq<char>, c: char, n: nat)
    requires
        n <= codes.len(),
    ensures
        match last_index_of(codes, c, n) {
            Some(i) => 0 <= i < n && codes[i] == c && forall|j: int| i < j < n ==> codes[j] != c,
            None => forall|j: int| 0 <= j < n ==> codes[j] != c,
        },
    decreases n,
{
    if n > 0 && codes[n - 1] != c {
        lemma_last_index_of(codes, c, (n - 1) as nat);
    }
}

/// Two code points are the same where their numbers are.
pub proof fn lemma_code_points_differ(c: char, d: char)
    ensures
        (c as u32 == d as u32) == (c == d),
{
}

/// `last_index_of` looks at the first `n` code points only.
pub proof fn lemma_last_index_of_prefix(a: Seq<char>, b: Seq<char>, c: char, n: nat)
    requires
        n <= a.len(),
        n <= b.len(),
        forall|i: int| 0 <= i < n ==> a[i] == b[i],
    ensures
        last_index_of(a, c, n) == last_index_of(b, c, n),
    decreases n,
{
    if n > 0 {
        lemma_last_index_of_prefix(a, b, c, (n - 1) as nat);
    }
}

/// The first `n` numbers of `list`.
fn first_numbers(list: &Vec<i32>, n: usize) -> (first: Vec<i32>)
    requires
        n <= list@.len(),
    ensures
        first@ == list@.subrange(0, n as int),
{
    let mut first: Vec<i32> = Vec::new();
    let mut i: usize = 0;
    while i < n
        invariant
            i <= n <= list@.len(),
            first@ == list@.subrange(0, i as int),
        decreases n - i,
    {
        first.push(list[i]);
        i += 1;
        assert(first@ =~= list@.subrange(0, i as int));
    }
    first
}

/// The first `n` code points of `list`.
fn first_code_points(list: &Vec<char>, n: usize) -> (first: Vec<char>)
    requires
        n <= list@.len(),
    ensures
        first@ == list@.subrange(0, n as int),
{
    let mut first: Vec<char> = Vec::new();
    let mut i: usize = 0;
    while i < n
        invariant
            i <= n <= list@.len(),
            first@ == list@.subrange(0, i as int),
        decreases n - i,
    {
        first.push(list[i]);
        i += 1;
        assert(first@ =~= list@.subrange(0, i as int));
    }
    first
}

/// Tells whether `v` is a size that a keyboard, a grid or a key can have.
fn is_valid_dimension(v: i32) -> (valid: bool)
    ensures
        valid == valid_dimension(v as int),
{
    1 <= v && v <= MAX_LAYOUT_COORDINATE
}

/// Tells whether `v` is a position within the bounds of a layout.
fn is_valid_position(v: i32) -> (valid: bool)
    ensures
        valid == valid_position(v as int),
{
    -MAX_LAYOUT_COORDINATE <= v && v <= MAX_LAYOUT_COORDINATE
}

/// Tells whether `v` is a width or a height within the bounds of a layout.
fn is_valid_extent(v: i32) -> (valid: bool)
    ensures
        valid == valid_extent(v as int),
{
    0 <= v && v <= MAX_LAYOUT_COORDINATE
}

/// Tells whether the first `n` keys lie within the bounds of a layout.
fn check_keys_in_range(
    key_x_coordinates: &Vec<i32>,
    key_y_coordinates: &Vec<i32>,
    key_widths: &Vec<i32>,
    key_heights: &Vec<i32>,
    sweet_spot_center_xs: &Vec<i32>,
    sweet_spot_center_ys: &Vec<i32>,
    sweet_spot_radii: &Vec<i32>,
    n: usize,
) -> (in_range: bool)
    requires
        n <= key_x_coordinates@.len(),
        n <= key_y_coordinates@.len(),
        n <= key_widths@.len(),
        n <= key_heights@.len(),
        n <= sweet_spot_center_xs@.len(),
        n <= sweet_spot_center_ys@.len(),
        n <= sweet_spot_radii@.len(),
    ensures
        in_range == keys_in_range(
            key_x_coordinates@,
            key_y_coordinates@,
            key_widths@,
            key_heights@,
            sweet_spot_center_xs@,
            sweet_spot_center_ys@,
            sweet_spot_radii@,
            n as nat,
        ),
{
    let mut i: usize = 0;
    while i < n
        invariant
            i <= n,
            n <= key_x_coordinates@.len(),
            n <= key_y_coordinates@.len(),
            n <= key_widths@.len(),
            n <= key_heights@.len(),
            n <= sweet_spot_center_xs@.len(),
            n <= sweet_spot_center_ys@.len(),
            n <= sweet_spot_radii@.len(),
            keys_in_range(
                key_x_coordinates@,
                key_y_coordinates@,
                key_widths@,
                key_heights@,
                sweet_spot_center_xs@,
                sweet_spot_center_ys@,
                sweet_spot_radii@,
                i as nat,
            ),
        decreases n - i,
    {
        let x_ok = is_valid_position(key_x_coordinates[i]);
        let y_ok = is_valid_position(key_y_coordinates[i]);
        let width_ok = is_valid_extent(key_widths[i]);
        let height_ok = is_valid_extent(key_heights[i]);
        let sweet_x_ok = is_valid_position(sweet_spot_center_xs[i]);
        let sweet_y_ok = is_valid_position(sweet_spot_center_ys[i]);
        let radius_ok = is_valid_position(sweet_spot_radii[i]);
        if !(x_ok && y_ok && width_ok && height_ok && sweet_x_ok && sweet_y_ok && radius_ok) {
            assert(!key_in_range(
                key_x_coordinates@,
                key_y_coordinates@,
                key_widths@,
                key_heights@,
                sweet_spot_center_xs@,
                sweet_spot_center_ys@,
                sweet_spot_radii@,
                i as int,
            ));
            return false;
        }
        i += 1;
    }
    true
}

/// Tells whether one of `radii` is above 0.
fn any_positive(radii: &Vec<i32>) -> (found: bool)
    ensures
        found == exists|i: int| 0 <= i < radii@.len() && #[trigger] radii@[i] > 0,
{
    let mut i: usize = 0;
    while i < radii.len()
        invariant
            i <= radii.len(),
            forall|j: int| 0 <= j < i ==> !(#[trigger] radii@[j] > 0),
        decreases radii.len() - i,
    {
        if radii[i] > 0 {
            return true;
        }
        i += 1;
    }
    false
}

/// The middle of each key on one axis: its edge and half of its extent.
fn key_middles(edges: &Vec<i32>, extents: &Vec<i32>) -> (middles: Vec<i32>)
    requires
        edges@.len() == extents@.len(),
        forall|i: int|
            0 <= i < edges@.len() ==> #[trigger] within_layout(edges@[i] as int, extents@[i] as int),
    ensures
        middles@.len() == edges@.len(),
        forall|i: int| 0 <= i < edges@.len() ==> #[trigger] middles@[i] == edges@[i] + extents@[i] / 2,
{
    let mut middles: Vec<i32> = Vec::new();
    let mut i: usize = 0;
    while i < edges.len()
        invariant
            i <= edges@.len(),
            edges@.len() == extents@.len(),
            forall|k: int|
                0 <= k < edges@.len() ==> #[trigger] within_layout(
                    edges@[k] as int,
                    extents@[k] as int,
                ),
            middles@.len() == i,
            forall|j: int| 0 <= j < i ==> #[trigger] middles@[j] == edges@[j] + extents@[j] / 2,
        decreases edges@.len() - i,
    {
        assert(within_layout(edges@[i as int] as int, extents@[i as int] as int));
        middles.push(edges[i] + extents[i] / 2);
        i += 1;
    }
    middles
}

/// The sweet spot of each key for gestures on the vertical axis: the
/// middle of the key, moved halfway to the key's sweet spot.  Where touches
/// are not corrected it is 0.
fn gesture_sweet_spots(middles: &Vec<i32>, sweet_spots: &Vec<i32>, corrected: bool) -> (moved: Vec<
    i32,
>)
    requires
        middles@.len() == sweet_spots@.len(),
        forall|i: int|
            0 <= i < middles@.len() ==> #[trigger] movable(middles@[i] as int, sweet_spots@[i] as int),
    ensures
        moved@.len() == middles@.len(),
        forall|i: int|
            0 <= i < middles@.len() ==> #[trigger] moved@[i] == (if corrected {
                middles@[i] + half_towards_zero(sweet_spots@[i] - middles@[i])
            } else {
                0
            }),
{
    let mut moved: Vec<i32> = Vec::new();
    let mut i: usize = 0;
    while i < middles.len()
        invariant
            i <= middles@.len(),
            middles@.len() == sweet_spots@.len(),
            forall|k: int|
                0 <= k < middles@.len() ==> #[trigger] movable(
                    middles@[k] as int,
                    sweet_spots@[k] as int,
                ),
            moved@.len() == i,
            forall|j: int|
                0 <= j < i ==> #[trigger] moved@[j] == (if corrected {
                    middles@[j] + half_towards_zero(sweet_spots@[j] - middles@[j])
                } else {
                    0
                }),
        decreases middles@.len() - i,
    {
        assert(movable(middles@[i as int] as int, sweet_spots@[i as int] as int));
        if corrected {
            let gap: i32 = sweet_spots[i] - middles[i];
            let half: i32 = if gap >= 0 {
                gap / VERTICAL_SWEET_SPOT_SCALE_G_DIVISOR
            } else {
                -((-gap) / VERTICAL_SWEET_SPOT_SCALE_G_DIVISOR)
            };
            moved.push(middles[i] + half);
        } else {
            moved.push(0);
        }
        i += 1;
    }
    moved
}

/// The code points in lower case.
fn lower_code_points(codes: &Vec<char>) -> (lower: Vec<char>)
    ensures
        lower@.len() == codes@.len(),
        forall|i: int| 0 <= i < codes@.len() ==> #[trigger] lower@[i] == lower_code_point(codes@[i]),
{
    let mut lower: Vec<char> = Vec::new();
    let mut i: usize = 0;
    while i < codes.len()
        invariant
            i <= codes@.len(),
            lower@.len() == i,
            forall|j: int| 0 <= j < i ==> #[trigger] lower@[j] == lower_code_point(codes@[j]),
        decreases codes@.len() - i,
    {
        lower.push(to_ascii_lowercase(codes[i]));
        i += 1;
    }
    lower
}

/// The map from each of the code points to the last position at which it
/// stands.
fn key_map_of(codes: &Vec<char>) -> (map: HashMap<u32, usize>)
    ensures
        key_map_matches(map@, codes@, codes@.len()),
{
    let mut map: HashMap<u32, usize> = HashMap::new();
    let mut i: usize = 0;
    while i < codes.len()
        invariant
            i <= codes@.len(),
            key_map_matches(map@, codes@, i as nat),
        decreases codes@.len() - i,
    {
        let ghost before = map@;
        let code = codes[i];
        map.insert(code as u32, i);
        i += 1;
        proof {
            assert forall|c: char|
                {
                    let found = last_index_of(codes@, c, i as nat);
                    &&& (#[trigger] map@.contains_key(c as u32)) == found is Some
                    &&& found is Some ==> map@[c as u32] == found->0
                } by {
                assert(before.contains_key(c as u32) == last_index_of(
                    codes@,
                    c,
                    (i - 1) as nat,
                ) is Some);
                lemma_code_points_differ(c, code);
            }
        }
    }
    map
}

/// The table of the distances of each two of the points.
fn distance_table(xs: &Vec<i32>, ys: &Vec<i32>) -> (table: Vec<Vec<i32>>)
    requires
        xs@.len() == ys@.len(),
    ensures
        table@.len() == xs@.len(),
        forall|i: int| 0 <= i < xs@.len() ==> (#[trigger] table@[i])@.len() == xs@.len(),
        forall|i: int, j: int|
            0 <= i < xs@.len() && 0 <= j < xs@.len() ==> #[trigger] table@[i]@[j] == point_distance(
                xs@,
                ys@,
                i,
                j,
            ),
{
    let n = xs.len();
    let mut table: Vec<Vec<i32>> = Vec::new();
    let mut i: usize = 0;
    while i < n
        invariant
            i <= n,
            n == xs@.len(),
            n == ys@.len(),
            table@.len() == i,
            forall|a: int| 0 <= a < i ==> (#[trigger] table@[a])@.len() == n,
            forall|a: int, b: int|
                0 <= a < i && 0 <= b < n ==> #[trigger] table@[a]@[b] == point_distance(
                    xs@,
                    ys@,
                    a,
                    b,
                ),
        decreases n - i,
    {
        let mut row: Vec<i32> = Vec::new();
        let mut j: usize = 0;
        while j < n
            invariant
                i < n,
                j <= n,
                n == xs@.len(),
                n == ys@.len(),
                row@.len() == j,
                forall|b: int|
                    0 <= b < j ==> #[trigger] row@[b] == point_distance(xs@, ys@, i as int, b),
            decreases n - j,
        {
            row.push(get_distance_int(xs[i], ys[i], xs[j], ys[j]));
            j += 1;
        }
        table.push(row);
        i += 1;
    }
    table
}

impl ProximityInfo {
    /// Works out what follows from the description of the keys: the middle
    /// of each key, its sweet spot for gestures, its code point in lower
    /// case, the key of each code point, whether touches are corrected, and
    /// the distance of each two keys.  The description stays as it is.
    fn initialize_geometry(&mut self)
        requires
            old(self).wf_dimensions(),
            old(self).wf_described_keys(),
        ensures
            final(self).wf(),
            final(self).same_description(old(self)),
    {
        proof {
            assert forall|i: int| 0 <= i < self.key_count implies #[trigger] within_layout(
                self.key_x_coordinates@[i] as int,
                self.key_widths@[i] as int,
            ) && within_layout(self.key_y_coordinates@[i] as int, self.key_heights@[i] as int) by {
                assert(key_in_range(
                    self.key_x_coordinates@,
                    self.key_y_coordinates@,
                    self.key_widths@,
                    self.key_heights@,
                    self.sweet_spot_center_xs@,
                    self.sweet_spot_center_ys@,
                    self.sweet_spot_radii@,
                    i,
                ));
            }
            assert forall|i: int| 0 <= i < self.key_count implies #[trigger] within_layout(
                self.key_y_coordinates@[i] as int,
                self.key_heights@[i] as int,
            ) by {
                assert(within_layout(
                    self.key_x_coordinates@[i] as int,
                    self.key_widths@[i] as int,
                ));
            }
        }
        self.has_touch_position_correction_data = self.key_count > 0 && any_positive(
            &self.sweet_spot_radii,
        );
        self.center_xs_g = key_middles(&self.key_x_coordinates, &self.key_widths);
        self.center_ys_g = key_middles(&self.key_y_coordinates, &self.key_heights);
        proof {
            assert forall|i: int| 0 <= i < self.center_ys_g@.len() implies #[trigger] movable(
                self.center_ys_g@[i] as int,
                self.sweet_spot_center_ys@[i] as int,
            ) by {
                assert(key_in_range(
                    self.key_x_coordinates@,
                    self.key_y_coordinates@,
                    self.key_widths@,
                    self.key_heights@,
                    self.sweet_spot_center_xs@,
                    self.sweet_spot_center_ys@,
                    self.sweet_spot_radii@,
                    i,
                ));
            }
        }
        self.sweet_spot_center_ys_g = gesture_sweet_spots(
            &self.center_ys_g,
            &self.sweet_spot_center_ys,
            self.has_touch_position_correction_data,
        );
        self.key_index_to_lower_codepoint = lower_code_points(&self.key_char_codes);
        self.key_index_to_orginal_codepoint = first_code_points(
            &self.key_char_codes,
            self.key_count,
        );
        self.lower_code_point_to_key_map = key_map_of(&self.key_index_to_lower_codepoint);
        if self.has_touch_position_correction_data {
            self.key_key_distances_g = distance_table(
                &self.sweet_spot_center_xs,
                &self.sweet_spot_center_ys_g,
            );
        } else {
            self.key_key_distances_g = distance_table(&self.center_xs_g, &self.center_ys_g);
        }
        proof {
            assert(self.wf_keys());
            assert(self.wf_derived());
            assert(self.wf_distances());
        }
    }

    /// Makes a layout.  The keyboard, the grid and the most common key
    /// have the given sizes; `proximity_chars` lists, cell after cell and
    /// row after row of the grid, `MAX_PROXIMITY_CHARS_SIZE` code points of
    /// keys near the cell; the other lists give, for each of the first
    /// `key_count` keys, its rectangle, its code point and its sweet spot.
    ///
    /// Fails where the description has one of the faults of `LayoutError`,
    /// with the first of them in their order.
    pub fn new(
        keyboard_width: i32,
        keyboard_height: i32,
        grid_width: i32,
        grid_height: i32,
        most_common_key_width: i32,
        most_common_key_height: i32,
        proximity_chars: Vec<char>,
        key_count: usize,
        key_x_coordinates: Vec<i32>,
        key_y_coordinates: Vec<i32>,
        key_widths: Vec<i32>,
        key_heights: Vec<i32>,
        key_char_codes: Vec<char>,
        sweet_spot_center_xs: Vec<i32>,
        sweet_spot_center_ys: Vec<i32>,
        sweet_spot_radii: Vec<i32>,
    ) -> (result: Result<ProximityInfo, LayoutError>)
        ensures
            match result {
                Ok(layout) => {
                    &&& layout_error(
                        keyboard_width,
                        keyboard_height,
                        grid_width,
                        grid_height,
                        most_common_key_width,
                        most_common_key_height,
                        proximity_chars@,
                        key_count,
                        key_x_coordinates@,
                        key_y_coordinates@,
                        key_widths@,
                        key_heights@,
                        key_char_codes@,
                        sweet_spot_center_xs@,
                        sweet_spot_center_ys@,
                        sweet_spot_radii@,
                    ) is None
                    &&& layout.wf()
                    &&& layout.describes(
                        keyboard_width,
                        keyboard_height,
                        grid_width,
                        grid_height,
                        most_common_key_width,
                        most_common_key_height,
                        proximity_chars@,
                        key_count,
                        key_x_coordinates@,
                        key_y_coordinates@,
                        key_widths@,
                        key_heights@,
                        key_char_codes@,
                        sweet_spot_center_xs@,
                        sweet_spot_center_ys@,
                        sweet_spot_radii@,
                    )
                },
                Err(error) => layout_error(
                    keyboard_width,
                    keyboard_height,
                    grid_width,
                    grid_height,
                    most_common_key_width,
                    most_common_key_height,
                    proximity_chars@,
                    key_count,
                    key_x_coordinates@,
                    key_y_coordinates@,
                    key_widths@,
                    key_heights@,
                    key_char_codes@,
                    sweet_spot_center_xs@,
                    sweet_spot_center_ys@,
                    sweet_spot_radii@,
                ) == Some(error),
            },
    {
        if !(is_valid_dimension(keyboard_width) && is_valid_dimension(keyboard_height)
            && is_valid_dimension(grid_width) && is_valid_dimension(grid_height)
            && is_valid_dimension(most_common_key_width) && is_valid_dimension(
            most_common_key_height,
        )) {
            return Err(LayoutError::InvalidDimensions);
        }
        assert(0 < grid_width * grid_height <= 0x100_0000_0000_0000) by (nonlinear_arith)
            requires
                1 <= grid_width <= 0x1000_0000,
                1 <= grid_height <= 0x1000_0000,
        ;
        let cells: u128 = (grid_width as u128) * (grid_height as u128);
        if proximity_chars.len() as u128 != cells * 16 {
            return Err(LayoutError::InvalidProximityCharsLength);
        }
        if key_count > MAX_KEY_COUNT_IN_A_KEYBOARD {
            return Err(LayoutError::TooManyKeys);
        }
        if key_x_coordinates.len() < key_count || key_y_coordinates.len() < key_count
            || key_widths.len() < key_count || key_heights.len() < key_count
            || key_char_codes.len() < key_count || sweet_spot_center_xs.len() < key_count
            || sweet_spot_center_ys.len() < key_count || sweet_spot_radii.len() < key_count {
            return Err(LayoutError::MissingKeyData);
        }
        if !check_keys_in_range(
            &key_x_coordinates,
            &key_y_coordinates,
            &key_widths,
            &key_heights,
            &sweet_spot_center_xs,
            &sweet_spot_center_ys,
            &sweet_spot_radii,
            key_count,
        ) {
            return Err(LayoutError::CoordinateOutOfRange);
        }
        assert(0 < most_common_key_width * most_common_key_width <= 0x100_0000_0000_0000)
            by (nonlinear_arith)
            requires
                1 <= most_common_key_width <= 0x1000_0000,
        ;
        let cell_width: i32 = (keyboard_width + grid_width - 1) / grid_width;
        let cell_height: i32 = (keyboard_height + grid_height - 1) / grid_height;
        assert(1 <= cell_width) by (nonlinear_arith)
            requires
                cell_width == (keyboard_width + grid_width - 1) / (grid_width as int),
                1 <= keyboard_width,
                1 <= grid_width,
        ;
        assert(1 <= cell_height) by (nonlinear_arith)
            requires
                cell_height == (keyboard_height + grid_height - 1) / (grid_height as int),
                1 <= keyboard_height,
                1 <= grid_height,
        ;
        let mut layout = ProximityInfo {
            grid_width,
            grid_height,
            most_common_key_width,
            most_common_key_height,
            most_common_key_width_square: (most_common_key_width as i64) * (
            most_common_key_width as i64),
            cell_width,
            cell_height,
            key_count,
            keyboard_width,
            keyboard_height,
            keyboard_hypotenuse: get_distance_int(keyboard_width, keyboard_height, 0, 0),
            has_touch_position_correction_data: false,
            proximity_chars,
            key_x_coordinates: first_numbers(&key_x_coordinates, key_count),
            key_y_coordinates: first_numbers(&key_y_coordinates, key_count),
            key_widths: first_numbers(&key_widths, key_count),
            key_heights: first_numbers(&key_heights, key_count),
            key_char_codes: first_code_points(&key_char_codes, key_count),
            sweet_spot_center_xs: first_numbers(&sweet_spot_center_xs, key_count),
            sweet_spot_center_ys: first_numbers(&sweet_spot_center_ys, key_count),
            sweet_spot_radii: first_numbers(&sweet_spot_radii, key_count),
            sweet_spot_center_ys_g: Vec::new(),
            lower_code_point_to_key_map: HashMap::new(),
            key_index_to_orginal_codepoint: Vec::new(),
            key_index_to_lower_codepoint: Vec::new(),
            center_xs_g: Vec::new(),
            center_ys_g: Vec::new(),
            key_key_distances_g: Vec::new(),
        };
        proof {
            assert forall|i: int| 0 <= i < key_count implies #[trigger] key_in_range(
                layout.key_x_coordinates@,
                layout.key_y_coordinates@,
                layout.key_widths@,
                layout.key_heights@,
                layout.sweet_spot_center_xs@,
                layout.sweet_spot_center_ys@,
                layout.sweet_spot_radii@,
                i,
            ) by {
                assert(key_in_range(
                    key_x_coordinates@,
                    key_y_coordinates@,
                    key_widths@,
                    key_heights@,
                    sweet_spot_center_xs@,
                    sweet_spot_center_ys@,
                    sweet_spot_radii@,
                    i,
                ));
            }
        }
        layout.initialize_geometry();
        Ok(layout)
    }
}

} // verus!
