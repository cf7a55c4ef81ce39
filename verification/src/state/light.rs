//! Geometry of the LED matrix.

use vstd::prelude::*;

verus! {

/// Size of the matrix in pixels, and the number of frames by which a
/// preview lags behind the hardware.
pub struct LightConfig {
    pub width: u32,
    pub height: u32,
    pub gui_delay: u32,
}

impl Default for LightConfig {
    fn default() -> (cfg: Self)
        ensures
            cfg.width == 20,
            cfg.height == 26,
            cfg.gui_delay == 0,
    {
        LightConfig { width: 20, height: 26, gui_delay: 0 }
    }
}

} // verus!
