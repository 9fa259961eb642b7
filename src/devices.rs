//! The kinds of LED a strip driver talks to.

use vstd::prelude::*;

verus! {

/// RGB LEDs of the WS2812 family: three bytes per LED.
pub struct Ws2812;

/// RGBW LEDs of the SK6812 family: four bytes per LED.
pub struct Sk6812w;

} // verus!
