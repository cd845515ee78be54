use vstd::prelude::*;

verus! {

/// Width of the window in pixels.
pub const WIDTH: u32 = 640;

/// Height of the window in pixels.
pub const HEIGHT: u32 = 480;

pub const C64_BLACK: [u8; 3] = [0, 0, 0];

pub const C64_WHITE: [u8; 3] = [255, 255, 255];

pub const C64_RED: [u8; 3] = [136, 0, 0];

pub const C64_CYAN: [u8; 3] = [170, 255, 238];

pub const C64_VIOLET: [u8; 3] = [204, 68, 204];

pub const C64_GREEN: [u8; 3] = [0, 204, 85];

pub const C64_BLUE: [u8; 3] = [0, 0, 170];

pub const C64_YELLOW: [u8; 3] = [238, 238, 119];

pub const C64_ORANGE: [u8; 3] = [221, 136, 85];

pub const C64_BROWN: [u8; 3] = [102, 68, 0];

pub const C64_LIGHT_RED: [u8; 3] = [255, 119, 119];

pub const C64_DARK_GREY: [u8; 3] = [51, 51, 51];

pub const C64_GREY: [u8; 3] = [119, 119, 119];

pub const C64_LIGHT_GREEN: [u8; 3] = [170, 255, 102];

pub const C64_LIGHT_BLUE: [u8; 3] = [0, 136, 255];

pub const C64_LIGHT_GREY: [u8; 3] = [187, 187, 187];

/// The playback volume is one part in `VOLUME_DIVISOR` of the decoded
/// amplitude.
pub const VOLUME_DIVISOR: i16 = 50;

/// Samples per second of the track the scope is tuned for.
pub const SAMPLE_RATE: usize = 44100;

/// Frames drawn per second.
pub const TARGET_FPS: usize = 60;

/// Number of samples shown by the scope at once.
pub const WINDOW_LENGTH: u32 = 3000;

/// Largest magnitude drawn in the quietest colour.
pub const BAND_LOW: u16 = 50;

/// Largest magnitude drawn in the second colour.
pub const BAND_MID: u16 = 125;

/// Largest magnitude drawn in the third colour.
pub const BAND_HIGH: u16 = 225;

} // verus!
