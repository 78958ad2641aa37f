//! Animation frame generators: the chase that rotates a palette around
//! the ring, the single-color spin, the ambient rainbow gradient, and the
//! button edge detector that triggers a show.

use vstd::prelude::*;

use crate::color::Color;
use crate::color::hsv_color;
use crate::color::hsv_to_rgb;

verus! {

use vstd::arithmetic::div_mod::lemma_add_mod_noop;
use vstd::arithmetic::div_mod::lemma_mod_multiples_vanish;
use vstd::arithmetic::div_mod::lemma_small_mod;
use vstd::arithmetic::div_mod::lemma_sub_mod_noop;

/// Number of LEDs on the ring; index 0 is a fixed physical position.
pub const RING_SIZE: usize = 12;

/// Pause between two rendered frames of a triggered animation, in ms.
pub const FRAME_INTERVAL_MS: u64 = 30;

/// Period of the ambient generator's tick, in ms.
pub const AMBIENT_TICK_MS: u64 = 100;

/// Period of the button sampling, in ms.
pub const BUTTON_POLL_MS: u64 = 50;

/// Period of the roster polling, in ms.
pub const CHECKIN_POLL_MS: u64 = 1000;

/// Fixed saturation of the ambient gradient.
pub const AMBIENT_SATURATION: u8 = 175;

/// Lower bound of the ambient brightness envelope.
pub const AMBIENT_MIN_BRIGHTNESS: u8 = 15;

/// Upper bound of the ambient brightness envelope.
pub const AMBIENT_MAX_BRIGHTNESS: u8 = 55;

/// An unlit LED.
pub open spec fn black() -> Color {
    Color { r: 0, g: 0, b: 0 }
}

/// How many palette entries light up: a palette longer than the ring is
/// truncated to the ring size.
pub open spec fn lit_count(colors: Seq<Color>) -> int {
    if colors.len() <= 12 {
        colors.len() as int
    } else {
        12
    }
}

/// One chase step: palette entry `i` sits at ring position
/// `(i + offset) % 12`; every other position is off.
pub open spec fn chase_frame_spec(colors: Seq<Color>, offset: int) -> Seq<Color>
    recommends
        0 <= offset < 12,
{
    Seq::new(
        12,
        |p: int|
            if (p - offset) % 12 < lit_count(colors) {
                colors[(p - offset) % 12]
            } else {
                black()
            },
    )
}

/// Build the full 12-slot frame of one chase step.
pub fn chase_frame(colors: &Vec<Color>, offset: usize) -> (frame: Vec<Color>)
    requires
        offset < 12,
    ensures
        frame@ == chase_frame_spec(colors@, offset as int),
{
    let mut frame: Vec<Color> = Vec::new();
    while frame.len() < 12
        invariant
            frame@.len() <= 12,
            forall|p: int| 0 <= p < frame@.len() ==> #[trigger] frame@[p] == black(),
        decreases 12 - frame@.len(),
    {
        frame.push(Color { r: 0, g: 0, b: 0 });
    }

    let count: usize = if colors.len() < 12 {
        colors.len()
    } else {
        12
    };
    let mut i: usize = 0;
    while i < count
        invariant
            count == lit_count(colors@),
            count <= colors@.len(),
            count <= 12,
            offset < 12,
            frame@.len() == 12,
            i <= count,
            forall|p: int|
                0 <= p < 12 ==> #[trigger] frame@[p] == if (p - offset) % 12 < i {
                    colors@[(p - offset) % 12]
                } else {
                    black()
                },
        decreases count - i,
    {
        let p: usize = (i + offset) % 12;
        proof {
            lemma_small_mod(i as nat, 12);
            lemma_small_mod(offset as nat, 12);
            lemma_sub_mod_noop(i + offset, offset as int, 12);
            assert((p as int - offset as int) % 12 == i as int);
        }
        frame[p] = colors[i];
        proof {
            assert forall|q: int| 0 <= q < 12 implies #[trigger] frame@[q] == (if (q - offset) % 12
                < i + 1 {
                colors@[(q - offset) % 12]
            } else {
                black()
            }) by {
                if q != p as int && (q - offset) % 12 == i {
                    lemma_add_mod_noop(q - offset, offset as int, 12);
                    lemma_small_mod(q as nat, 12);
                    assert(q == p as int);
                }
            }
        }
        i = i + 1;
    }
    proof {
        assert(frame@ =~= chase_frame_spec(colors@, offset as int));
    }
    frame
}

/// The whole chase animation: three full rotations, twelve steps each, so
/// exactly 36 rendered frames; frame `f` is the chase step at offset
/// `f % 12`.
pub open spec fn chase_frames_spec(colors: Seq<Color>) -> Seq<Seq<Color>> {
    Seq::new(36, |f: int| chase_frame_spec(colors, f % 12))
}

/// Rotate the palette around the ring: three full rotations of twelve
/// steps, exactly 36 frames in order. The caller transmits one frame
/// every `FRAME_INTERVAL_MS` milliseconds.
pub fn render_chase(colors: &Vec<Color>) -> (frames: Vec<Vec<Color>>)
    ensures
        frames@.len() == 36,
        forall|f: int|
            0 <= f < 36 ==> #[trigger] frames@[f]@ == chase_frame_spec(colors@, f % 12),
{
    let mut frames: Vec<Vec<Color>> = Vec::new();
    let mut rot: usize = 0;
    while rot < 3
        invariant
            rot <= 3,
            frames@.len() == rot * 12,
            forall|f: int|
                0 <= f < frames@.len() ==> #[trigger] frames@[f]@ == chase_frame_spec(
                    colors@,
                    f % 12,
                ),
        decreases 3 - rot,
    {
        let mut offset: usize = 0;
        while offset < 12
            invariant
                rot < 3,
                offset <= 12,
                frames@.len() == rot * 12 + offset,
                forall|f: int|
                    0 <= f < frames@.len() ==> #[trigger] frames@[f]@ == chase_frame_spec(
                        colors@,
                        f % 12,
                    ),
            decreases 12 - offset,
        {
            let frame = chase_frame(colors, offset);
            frames.push(frame);
            proof {
                lemma_small_mod(offset as nat, 12);
                lemma_mod_multiples_vanish(rot as int, offset as int, 12);
                assert((rot * 12 + offset) % 12 == offset as int);
            }
            offset = offset + 1;
        }
        rot = rot + 1;
    }
    frames
}

/// The degenerate chase with a single color: one lit position per step,
/// three full rotations at the same cadence.
pub fn render_single_spin(color: Color) -> (frames: Vec<Vec<Color>>)
    ensures
        frames@.len() == 36,
        forall|f: int|
            0 <= f < 36 ==> #[trigger] frames@[f]@ == chase_frame_spec(seq![color], f % 12),
{
    let mut palette: Vec<Color> = Vec::new();
    palette.push(color);
    assert(palette@ =~= seq![color]);
    render_chase(&palette)
}

/// One frame of the ambient gradient: ring position `i` gets a hue 30
/// degrees further around the wheel, at the fixed saturation and the
/// brightness the caller's pulse envelope chose.
pub open spec fn ambient_frame_spec(hue_offset: int, brightness: int) -> Seq<Color> {
    Seq::new(12, |i: int| hsv_color((hue_offset + i * 30) % 360, 175, brightness))
}

/// Build one frame of the rotating rainbow-like ambient gradient.
pub fn ambient_frame(hue_offset: u16, brightness: u8) -> (frame: Vec<Color>)
    requires
        hue_offset < 360,
    ensures
        frame@ == ambient_frame_spec(hue_offset as int, brightness as int),
{
    let mut frame: Vec<Color> = Vec::new();
    let mut i: usize = 0;
    while i < 12
        invariant
            hue_offset < 360,
            i <= 12,
            frame@.len() == i,
            forall|j: int|
                0 <= j < i ==> #[trigger] frame@[j] == hsv_color(
                    (hue_offset + j * 30) % 360,
                    175,
                    brightness as int,
                ),
        decreases 12 - i,
    {
        let hue: u16 = (hue_offset + (i as u16) * 30) % 360;
        proof {
            lemma_small_mod(hue as nat, 360);
        }
        frame.push(hsv_to_rgb(hue, AMBIENT_SATURATION, brightness));
        i = i + 1;
    }
    proof {
        assert(frame@ =~= ambient_frame_spec(hue_offset as int, brightness as int));
    }
    frame
}

/// The ambient generator's state: a hue offset that advances one degree
/// per tick and a pulse counter that drives the brightness envelope.
#[derive(Clone, Copy, PartialEq, Eq, Structural, Debug)]
pub struct AmbientState {
    pub hue_offset: u16,
    pub pulse_counter: u32,
}

impl AmbientState {
    /// The hue offset always stays a valid angle.
    pub open spec fn wf(self) -> bool {
        self.hue_offset < 360
    }

    /// The generator starts at hue zero with an idle pulse counter.
    pub fn new() -> (s: AmbientState)
        ensures
            s.wf(),
            s.hue_offset == 0,
            s.pulse_counter == 0,
    {
        AmbientState { hue_offset: 0, pulse_counter: 0 }
    }

    /// Advance one tick: the hue moves one degree around the wheel and
    /// the pulse counter steps, wrapping at the type bound.
    pub fn advance(&mut self)
        requires
            old(self).wf(),
        ensures
            final(self).wf(),
            final(self).hue_offset == (old(self).hue_offset + 1) % 360,
            final(self).pulse_counter == if old(self).pulse_counter == u32::MAX {
                0u32
            } else {
                (old(self).pulse_counter + 1) as u32
            },
    {
        self.hue_offset = (self.hue_offset + 1) % 360;
        self.pulse_counter = if self.pulse_counter == u32::MAX {
            0
        } else {
            self.pulse_counter + 1
        };
    }
}

/// A press is a rising edge: the previous sample low, the current one
/// high. The sampler only remembers the previous sample, so a press that
/// falls entirely inside one long animation can be observed late or
/// missed; presses are not latched or queued.
pub fn rising_edge(last_state: bool, current_state: bool) -> (pressed: bool)
    ensures
        pressed == (current_state && !last_state),
{
    current_state && !last_state
}

/// The fixed six-color palette of the button-press chase: a three-color
/// pattern repeated twice around the ring.
pub fn button_palette() -> (palette: Vec<Color>)
    ensures
        palette@.len() == 6,
        palette@[0] == hsv_color(196, 175, 20),
        palette@[1] == hsv_color(0, 0, 20),
        palette@[2] == hsv_color(348, 175, 20),
        palette@[3] == palette@[0],
        palette@[4] == palette@[1],
        palette@[5] == palette@[2],
{
    let c1 = hsv_to_rgb(196, 175, 20);
    let c2 = hsv_to_rgb(0, 0, 20);
    let c3 = hsv_to_rgb(348, 175, 20);
    let mut palette: Vec<Color> = Vec::new();
    palette.push(c1);
    palette.push(c2);
    palette.push(c3);
    palette.push(c1);
    palette.push(c2);
    palette.push(c3);
    palette
}

} // verus!
