//! LED coordinator: the sole holder of the transmit timing. Every
//! animation producer reaches the encoder only through a coordinator, and
//! the exclusive borrow its methods take is the only path to a
//! transmission, so exactly one animation renders at a time and frames of
//! different animations never interleave. Requests are not interruptible
//! mid-animation, and no animation has priority over another.

use vstd::prelude::*;

use crate::animation::chase_frame_spec;
use crate::animation::render_chase;
use crate::animation::render_single_spin;
use crate::color::Color;
use crate::encoder::PulsePair;
use crate::encoder::PulseTiming;
use crate::encoder::encode_pixels;
use crate::encoder::signal_spec;

verus! {

/// Owns the pulse timing of the single physical transmit channel.
pub struct LedCoordinator {
    timing: PulseTiming,
}

impl LedCoordinator {
    /// The timing the coordinator was created with.
    pub closed spec fn timing(self) -> PulseTiming {
        self.timing
    }

    /// Take ownership of the transmit path's timing, fixed for the life
    /// of the coordinator.
    pub fn new(timing: PulseTiming) -> (c: LedCoordinator)
        ensures
            c.timing() == timing,
    {
        LedCoordinator { timing }
    }

    /// The whole chase animation, encoded and ready to transmit: exactly
    /// 36 signals, one per rendered frame, each the pulse train of that
    /// frame's twelve pixels. The caller transmits them in order, one
    /// blocking call per frame, pausing `FRAME_INTERVAL_MS` in between.
    pub fn render_chase(&mut self, colors: &Vec<Color>) -> (signals: Vec<Vec<PulsePair>>)
        ensures
            *final(self) == *old(self),
            signals@.len() == 36,
            forall|f: int|
                0 <= f < 36 ==> #[trigger] signals@[f]@ == signal_spec(
                    chase_frame_spec(colors@, f % 12),
                    old(self).timing(),
                ),
    {
        let frames = render_chase(colors);
        let mut signals: Vec<Vec<PulsePair>> = Vec::new();
        let mut f: usize = 0;
        while f < 36
            invariant
                frames@.len() == 36,
                forall|k: int|
                    0 <= k < 36 ==> #[trigger] frames@[k]@ == chase_frame_spec(colors@, k % 12),
                f <= 36,
                signals@.len() == f,
                forall|k: int|
                    0 <= k < f ==> #[trigger] signals@[k]@ == signal_spec(
                        chase_frame_spec(colors@, k % 12),
                        self.timing(),
                    ),
            decreases 36 - f,
        {
            let signal = encode_pixels(&self.timing, &frames[f]);
            signals.push(signal);
            f = f + 1;
        }
        signals
    }

    /// The degenerate chase of a single color, encoded: one lit position
    /// per step, three full rotations, 36 signals.
    pub fn render_single_spin(&mut self, color: Color) -> (signals: Vec<Vec<PulsePair>>)
        ensures
            *final(self) == *old(self),
            signals@.len() == 36,
            forall|f: int|
                0 <= f < 36 ==> #[trigger] signals@[f]@ == signal_spec(
                    chase_frame_spec(seq![color], f % 12),
                    old(self).timing(),
                ),
    {
        let frames = render_single_spin(color);
        let mut signals: Vec<Vec<PulsePair>> = Vec::new();
        let mut f: usize = 0;
        while f < 36
            invariant
                frames@.len() == 36,
                forall|k: int|
                    0 <= k < 36 ==> #[trigger] frames@[k]@ == chase_frame_spec(seq![color], k % 12),
                f <= 36,
                signals@.len() == f,
                forall|k: int|
                    0 <= k < f ==> #[trigger] signals@[k]@ == signal_spec(
                        chase_frame_spec(seq![color], k % 12),
                        self.timing(),
                    ),
            decreases 36 - f,
        {
            let signal = encode_pixels(&self.timing, &frames[f]);
            signals.push(signal);
            f = f + 1;
        }
        signals
    }
}

} // verus!
