use vstd::prelude::*;

verus! {

/// The largest number of keys that one keyboard layout may hold.
pub const MAX_KEY_COUNT_IN_A_KEYBOARD: usize = 64;

/// The code point of the space key.
pub const KEYCODE_SPACE: char = ' ';

/// The code point of the apostrophe key.
pub const KEYCODE_SINGLE_QUOTE: char = '\'';

/// The code point of the hyphen key.
pub const KEYCODE_HYPHEN_MINUS: char = '-';

/// The top of the percentile scale.
pub const MAX_PERCENTILE: i32 = 100;

/// The largest weight that a distance may take.
pub const MAX_VALUE_FOR_WEIGHTING: i32 = 10000000;

/// How strongly a sampled point suggests that its letter is typed twice.
#[derive(Clone, Copy, Debug, PartialEq, Eq, Structural)]
pub enum DoubleLetterLevel {
    NotADoubleLetter,
    DoubleLetter,
    Strong,
}

} // verus!
