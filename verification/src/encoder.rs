//! Signal encoder: turns an ordered sequence of colors into the timed
//! pulse train that the single-wire LED protocol expects. Each LED is one
//! 24-bit frame, most significant bit first, channel order green, red,
//! blue; each bit becomes a high pulse followed by a low pulse whose
//! widths select between a logical 0 and a logical 1.

use vstd::prelude::*;

use crate::color::Color;

verus! {

use vstd::arithmetic::div_mod::lemma_fundamental_div_mod;

/// Relies on core::time::Duration::from_nanos, which builds the duration
/// value of the given nanosecond count; the duration is handed to the
/// hardware pulse constructor and never inspected here.
pub assume_specification[ core::time::Duration::from_nanos ](nanos: u64) -> core::time::Duration;

/// The duration of `nanos` nanoseconds, in the form the hardware pulse
/// constructor takes.
pub fn ns(nanos: u64) -> core::time::Duration {
    core::time::Duration::from_nanos(nanos)
}

/// The four fixed pulse durations, in nanoseconds, that encode one bit on
/// the wire. They are constant for the life of the process and must match
/// the LED chip's datasheet tolerances.
#[derive(Clone, Copy, PartialEq, Eq, Structural, Debug)]
pub struct PulseTiming {
    pub zero_high_ns: u64,
    pub zero_low_ns: u64,
    pub one_high_ns: u64,
    pub one_low_ns: u64,
}

impl PulseTiming {
    /// The reference durations: a logical 0 is a short high pulse then a
    /// long low one (350/800 ns); a logical 1 is a long high pulse then a
    /// short low one (700/600 ns).
    pub fn datasheet() -> (t: PulseTiming)
        ensures
            t == (PulseTiming {
                zero_high_ns: 350,
                zero_low_ns: 800,
                one_high_ns: 700,
                one_low_ns: 600,
            }),
    {
        PulseTiming { zero_high_ns: 350, zero_low_ns: 800, one_high_ns: 700, one_low_ns: 600 }
    }
}

/// One encoded bit on the wire: a high pulse followed by a low pulse,
/// both in nanoseconds.
#[derive(Clone, Copy, PartialEq, Eq, Structural, Debug)]
pub struct PulsePair {
    pub high_ns: u64,
    pub low_ns: u64,
}

/// Bit `k` of byte `x`, counting from the most significant bit.
pub open spec fn byte_bit(x: u8, k: int) -> bool
    recommends
        0 <= k < 8,
{
    (x >> ((7 - k) as u8)) & 1 == 1
}

/// Bit `k` of the 24-bit frame of color `c`, counting from the most
/// significant bit: the first eight bits are the green byte, the next
/// eight the red byte, the last eight the blue byte.
pub open spec fn frame_bit(c: Color, k: int) -> bool
    recommends
        0 <= k < 24,
{
    if k < 8 {
        byte_bit(c.g, k)
    } else if k < 16 {
        byte_bit(c.r, k - 8)
    } else {
        byte_bit(c.b, k - 16)
    }
}

/// The 24 bits of one LED frame, most significant bit first.
pub open spec fn frame_bits(c: Color) -> Seq<bool> {
    Seq::new(24, |k: int| frame_bit(c, k))
}

/// The pulse pair that encodes one bit under timing `t`.
pub open spec fn pulse_for(t: PulseTiming, bit: bool) -> PulsePair {
    if bit {
        PulsePair { high_ns: t.one_high_ns, low_ns: t.one_low_ns }
    } else {
        PulsePair { high_ns: t.zero_high_ns, low_ns: t.zero_low_ns }
    }
}

/// The logical offset of bit `k` of LED `led` in the transmit buffer.
pub open spec fn slot(led: int, k: int) -> int {
    led * 24 + k
}

/// The whole signal of a pixel sequence: 24 pulse pairs per LED, frames
/// back to back with no gap, the pair at logical offset `led*24 + k`
/// encoding bit `k` of LED `led`'s frame.
pub open spec fn signal_spec(colors: Seq<Color>, t: PulseTiming) -> Seq<PulsePair> {
    Seq::new(colors.len() * 24, |m: int| pulse_for(t, frame_bit(colors[m / 24], m % 24)))
}

/// Bit `k` of byte `x`, counting from the most significant bit.
fn get_byte_bit(x: u8, k: usize) -> (b: bool)
    requires
        k < 8,
    ensures
        b == byte_bit(x, k as int),
{
    ((x >> ((7 - k) as u8)) & 1) == 1
}

/// Bit `k` of the 24-bit frame of color `c`.
fn get_frame_bit(c: Color, k: usize) -> (b: bool)
    requires
        k < 24,
    ensures
        b == frame_bit(c, k as int),
{
    if k < 8 {
        get_byte_bit(c.g, k)
    } else if k < 16 {
        get_byte_bit(c.r, k - 8)
    } else {
        get_byte_bit(c.b, k - 16)
    }
}

/// Encode a sequence of at most twelve pixels into the pulse train that
/// one blocking transmission sends. An empty input yields an empty
/// signal, so transmitting it is a no-op. The buffer has a fixed layout
/// addressed by `led_index * 24 + bit_offset`.
pub fn encode_pixels(timing: &PulseTiming, colors: &Vec<Color>) -> (signal: Vec<PulsePair>)
    requires
        colors@.len() <= 12,
    ensures
        signal@ == signal_spec(colors@, *timing),
{
    let n: usize = colors.len();
    let total: usize = n * 24;
    let mut signal: Vec<PulsePair> = Vec::new();
    while signal.len() < total
        invariant
            total == n * 24,
            signal@.len() <= total,
        decreases total - signal@.len(),
    {
        signal.push(PulsePair { high_ns: 0, low_ns: 0 });
    }

    let mut led: usize = 0;
    while led < n
        invariant
            n == colors@.len() <= 12,
            total == n * 24,
            signal@.len() == total,
            led <= n,
            forall|i: int, k: int|
                0 <= i < led && 0 <= k < 24 ==> signal@[#[trigger] slot(i, k)] == pulse_for(
                    *timing,
                    frame_bit(colors@[i], k),
                ),
        decreases n - led,
    {
        let mut k: usize = 0;
        while k < 24
            invariant
                n == colors@.len() <= 12,
                total == n * 24,
                signal@.len() == total,
                led < n,
                k <= 24,
                forall|i: int, k2: int|
                    0 <= i < led && 0 <= k2 < 24 ==> signal@[#[trigger] slot(i, k2)] == pulse_for(
                        *timing,
                        frame_bit(colors@[i], k2),
                    ),
                forall|k2: int|
                    0 <= k2 < k ==> signal@[#[trigger] slot(led as int, k2)] == pulse_for(
                        *timing,
                        frame_bit(colors@[led as int], k2),
                    ),
            decreases 24 - k,
        {
            let bit = get_frame_bit(colors[led], k);
            let pulse = if bit {
                PulsePair { high_ns: timing.one_high_ns, low_ns: timing.one_low_ns }
            } else {
                PulsePair { high_ns: timing.zero_high_ns, low_ns: timing.zero_low_ns }
            };
            assert(led * 24 + k < n * 24) by (nonlinear_arith)
                requires
                    led < n,
                    k < 24,
            ;
            let idx: usize = led * 24 + k;
            assert(idx == slot(led as int, k as int));
            signal[idx] = pulse;
            assert(signal@[slot(led as int, k as int)] == pulse);
            k = k + 1;
        }
        led = led + 1;
    }

    proof {
        assert forall|m: int| 0 <= m < total implies signal@[m] == pulse_for(
            *timing,
            frame_bit(colors@[m / 24], m % 24),
        ) by {
            lemma_fundamental_div_mod(m, 24);
            let i = m / 24;
            let k = m % 24;
            assert(0 <= i < n) by (nonlinear_arith)
                requires
                    0 <= m < n * 24,
                    m == 24 * i + k,
                    0 <= k < 24,
            ;
            assert(slot(i, k) == m);
            assert(signal@[slot(i, k)] == pulse_for(*timing, frame_bit(colors@[i], k)));
        }
        assert(signal@ =~= signal_spec(colors@, *timing));
    }
    signal
}

/// The place value of one bit: `p` if the bit is set, zero otherwise.
pub open spec fn bit_val(b: bool, p: int) -> int {
    if b {
        p
    } else {
        0
    }
}

/// A byte read back from eight bits, most significant bit first.
pub open spec fn byte_of_bits(s: Seq<bool>) -> int
    recommends
        s.len() == 8,
{
    bit_val(s[0], 128) + bit_val(s[1], 64) + bit_val(s[2], 32) + bit_val(s[3], 16) + bit_val(
        s[4],
        8,
    ) + bit_val(s[5], 4) + bit_val(s[6], 2) + bit_val(s[7], 1)
}

/// Reading the eight bits of a byte back, most significant first, yields
/// the byte: the per-channel round trip of the frame encoding.
pub proof fn lemma_byte_bits_roundtrip(x: u8)
    ensures
        byte_of_bits(Seq::new(8, |k: int| byte_bit(x, k))) == x,
{
    let s = Seq::new(8, |k: int| byte_bit(x, k));
    assert(((x >> 7u8) & 1) * 128 + ((x >> 6u8) & 1) * 64 + ((x >> 5u8) & 1) * 32 + ((x >> 4u8)
        & 1) * 16 + ((x >> 3u8) & 1) * 8 + ((x >> 2u8) & 1) * 4 + ((x >> 1u8) & 1) * 2 + ((x >> 0u8)
        & 1) * 1 == x) by (bit_vector);
    assert forall|j: u8| j < 8 implies ((x >> ((7 - j) as u8)) & 1) == bit_val(
        byte_bit(x, j as int),
        1,
    ) by {
        assert(((x >> ((7 - j) as u8)) & 1) == 0 || ((x >> ((7 - j) as u8)) & 1) == 1) by (
        bit_vector);
    }
}

/// The frame round trip: the first eight bits of a color's frame read
/// back as the green channel, the next eight as the red channel, the last
/// eight as the blue channel.
pub proof fn lemma_frame_roundtrip(c: Color)
    ensures
        byte_of_bits(frame_bits(c).subrange(0, 8)) == c.g,
        byte_of_bits(frame_bits(c).subrange(8, 16)) == c.r,
        byte_of_bits(frame_bits(c).subrange(16, 24)) == c.b,
{
    assert(frame_bits(c).subrange(0, 8) =~= Seq::new(8, |k: int| byte_bit(c.g, k)));
    assert(frame_bits(c).subrange(8, 16) =~= Seq::new(8, |k: int| byte_bit(c.r, k)));
    assert(frame_bits(c).subrange(16, 24) =~= Seq::new(8, |k: int| byte_bit(c.b, k)));
    lemma_byte_bits_roundtrip(c.g);
    lemma_byte_bits_roundtrip(c.r);
    lemma_byte_bits_roundtrip(c.b);
}

} // verus!
