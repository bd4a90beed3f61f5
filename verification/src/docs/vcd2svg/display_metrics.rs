//! The layout of a rendered waveform picture.
use vstd::prelude::*;

verus! {

/// Sizes (in pixels) and the time window of a waveform picture.
#[derive(Clone, Debug)]
pub struct DisplayMetrics {
    pub signal_width: u32,
    pub signal_height: u32,
    pub timescale_height: u32,
    pub tick_half_height: u32,
    pub timescale_midline: u32,
    pub canvas_width: u32,
    pub canvas_height: u32,
    pub shim: u32,
    pub label_size: u32,
    pub min_time: u64,
    pub max_time: u64,
}

impl Default for DisplayMetrics {
    fn default() -> (r: Self)
        ensures
            r == (DisplayMetrics {
                signal_width: 200,
                signal_height: 20,
                timescale_height: 45,
                tick_half_height: 6,
                timescale_midline: 20,
                canvas_width: 1000,
                canvas_height: 400,
                shim: 5,
                label_size: 10,
                min_time: 40,
                max_time: 102,
            }),
    {
        Self {
            signal_width: 200,
            signal_height: 20,
            timescale_height: 45,
            tick_half_height: 6,
            timescale_midline: 20,
            canvas_width: 1000,
            canvas_height: 400,
            shim: 5,
            label_size: 10,
            min_time: 40,
            max_time: 102,
        }
    }
}

impl DisplayMetrics {
    /// The baseline of signal row `index`: below the time scale, one signal
    /// height per row.  The row number is taken as a 32-bit number.
    pub fn signal_baseline(&self, index: usize) -> (r: u32)
        requires
            (index as u32) < u32::MAX,
            ((index as u32) + 1) * self.signal_height + self.timescale_height <= u32::MAX,
        ensures
            r == self.timescale_height + ((index as u32) + 1) * self.signal_height,
    {
        let row = index as u32;
        self.timescale_height + ((row + 1) * self.signal_height)
    }
}

} // verus!
