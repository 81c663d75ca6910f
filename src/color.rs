//! Colors, color steps and their 32-bit encoding for the waveform engine.
use vstd::prelude::*;

verus! {

/// Mask of the delay field in an encoded step word.
pub const DELAY_MASK: u32 = 0x00FF_FFFF;

/// Three 8-bit channel intensities: red, green, blue.
#[derive(Clone, Copy, Debug, PartialEq, Eq, Structural)]
pub struct Color(pub u8, pub u8, pub u8);

impl Color {
    /// The color with all channels off.
    pub open spec fn spec_black() -> Color {
        Color(0, 0, 0)
    }

    pub fn black() -> (r: Color)
        ensures
            r == Color::spec_black(),
    {
        Color(0, 0, 0)
    }

    pub fn r(&self) -> (r: u8)
        ensures
            r == self.0,
    {
        self.0
    }

    pub fn g(&self) -> (r: u8)
        ensures
            r == self.1,
    {
        self.1
    }

    pub fn b(&self) -> (r: u8)
        ensures
            r == self.2,
    {
        self.2
    }
}

/// Hold `color` for `delay` ticks of the waveform engine, then move on.
#[derive(Clone, Copy, Debug, PartialEq, Eq, Structural)]
pub struct ColorStep {
    pub color: Color,
    pub delay: u32,
}

/// The word that carries one channel intensity and a delay: the intensity in
/// the top byte, the low 24 bits of the delay below it.
pub open spec fn step_word(intensity: u8, delay: u32) -> u32 {
    (intensity as u32) << 24u32 | delay & DELAY_MASK
}

impl ColorStep {
    pub fn encode_red(&self) -> (r: u32)
        ensures
            r == step_word(self.color.0, self.delay),
    {
        self.encode(self.color.r())
    }

    pub fn encode_green(&self) -> (r: u32)
        ensures
            r == step_word(self.color.1, self.delay),
    {
        self.encode(self.color.g())
    }

    pub fn encode_blue(&self) -> (r: u32)
        ensures
            r == step_word(self.color.2, self.delay),
    {
        self.encode(self.color.b())
    }

    fn encode(&self, intensity: u8) -> (r: u32)
        ensures
            r == step_word(intensity, self.delay),
    {
        (intensity as u32) << 24u32 | self.delay & DELAY_MASK
    }
}

/// Channel `ch` of a color: 0 is red, 1 green, 2 blue.
pub open spec fn channel(c: Color, ch: int) -> int {
    if ch == 0 {
        c.0 as int
    } else if ch == 1 {
        c.1 as int
    } else {
        c.2 as int
    }
}

/// The brightest of three channel sums.
pub open spec fn max3(r: int, g: int, b: int) -> int {
    let rg = if r >= g {
        r
    } else {
        g
    };
    if rg >= b {
        rg
    } else {
        b
    }
}

/// One channel of an over-bright sum, scaled so that the brightest channel
/// becomes 255.
pub open spec fn scaled(c: int, brightest: int) -> int {
    c * 255 / brightest
}

/// The color shown for three channel sums: the sums themselves where they all
/// fit in a byte, otherwise the sums scaled down so that the brightest is 255.
pub open spec fn normalized(r: int, g: int, b: int) -> Color {
    let m = max3(r, g, b);
    if m > 255 {
        Color(scaled(r, m) as u8, scaled(g, m) as u8, scaled(b, m) as u8)
    } else {
        Color(r as u8, g as u8, b as u8)
    }
}

proof fn lemma_scaled_bounds(c: int, m: int)
    requires
        0 <= c <= m,
        m > 0,
    ensures
        0 <= scaled(c, m) <= 255,
        scaled(c, m) * m <= c * 255 < (scaled(c, m) + 1) * m,
        c == m ==> scaled(c, m) == 255,
{
    let q = c * 255 / m;
    vstd::arithmetic::div_mod::lemma_fundamental_div_mod(c * 255, m);
    vstd::arithmetic::div_mod::lemma_mod_bound(c * 255, m);
    assert(c * 255 <= m * 255) by (nonlinear_arith)
        requires
            c <= m,
    ;
    vstd::arithmetic::div_mod::lemma_div_is_ordered(c * 255, m * 255, m);
    vstd::arithmetic::div_mod::lemma_div_multiples_vanish(255, m);
    vstd::arithmetic::div_mod::lemma_div_pos_is_pos(c * 255, m);
    assert(q * m == m * q) by (nonlinear_arith);
    assert((q + 1) * m == m * q + m) by (nonlinear_arith);
    if c == m {
        assert(c * 255 == m * 255);
    }
}

impl Color {
    /// The color shown for the per-channel sums of overlapping streams.
    pub fn from_channel_sums(r: u32, g: u32, b: u32) -> (c: Color)
        ensures
            c == normalized(r as int, g as int, b as int),
    {
        let rg = if r >= g {
            r
        } else {
            g
        };
        let m = if rg >= b {
            rg
        } else {
            b
        };
        if m > 255 {
            proof {
                lemma_scaled_bounds(r as int, m as int);
                lemma_scaled_bounds(g as int, m as int);
                lemma_scaled_bounds(b as int, m as int);
            }
            let m64 = m as u64;
            let sr = (r as u64) * 255 / m64;
            let sg = (g as u64) * 255 / m64;
            let sb = (b as u64) * 255 / m64;
            Color(sr as u8, sg as u8, sb as u8)
        } else {
            Color(r as u8, g as u8, b as u8)
        }
    }
}

/// Scaling keeps the hue of an over-bright sum: each channel becomes its share
/// of 255 relative to the brightest channel, rounded down, and the brightest
/// channel becomes 255; sums that all fit in a byte are shown as they are.
pub proof fn lemma_normalize_preserves_hue(r: u32, g: u32, b: u32)
    ensures
        ({
            let m = max3(r as int, g as int, b as int);
            let c = normalized(r as int, g as int, b as int);
            m > 255 ==> {
                &&& c.0 * m <= r * 255 < (c.0 + 1) * m
                &&& c.1 * m <= g * 255 < (c.1 + 1) * m
                &&& c.2 * m <= b * 255 < (c.2 + 1) * m
                &&& (r == m ==> c.0 == 255)
                &&& (g == m ==> c.1 == 255)
                &&& (b == m ==> c.2 == 255)
            }
        }),
        max3(r as int, g as int, b as int) <= 255 ==> normalized(r as int, g as int, b as int)
            == Color(r as u8, g as u8, b as u8) && r < 256 && g < 256 && b < 256,
{
    let m = max3(r as int, g as int, b as int);
    if m > 255 {
        lemma_scaled_bounds(r as int, m);
        lemma_scaled_bounds(g as int, m);
        lemma_scaled_bounds(b as int, m);
    }
}

/// The three channel words of one step carry the same delay field, and each
/// carries its own channel intensity in the top byte.
pub proof fn lemma_channels_share_delay(s: ColorStep)
    ensures
        step_word(s.color.0, s.delay) & DELAY_MASK == s.delay & DELAY_MASK,
        step_word(s.color.1, s.delay) & DELAY_MASK == s.delay & DELAY_MASK,
        step_word(s.color.2, s.delay) & DELAY_MASK == s.delay & DELAY_MASK,
        step_word(s.color.0, s.delay) >> 24u32 == s.color.0 as u32,
        step_word(s.color.1, s.delay) >> 24u32 == s.color.1 as u32,
        step_word(s.color.2, s.delay) >> 24u32 == s.color.2 as u32,
{
    lemma_word_fields(s.color.0, s.delay);
    lemma_word_fields(s.color.1, s.delay);
    lemma_word_fields(s.color.2, s.delay);
}

proof fn lemma_word_fields(i: u8, d: u32)
    ensures
        step_word(i, d) & DELAY_MASK == d & DELAY_MASK,
        step_word(i, d) >> 24u32 == i as u32,
{
    let x = i as u32;
    assert(x < 256);
    assert(((x << 24u32) | (d & 0x00FF_FFFFu32)) & 0x00FF_FFFFu32 == d & 0x00FF_FFFFu32)
        by (bit_vector);
    assert(((x << 24u32) | (d & 0x00FF_FFFFu32)) >> 24u32 == x) by (bit_vector)
        requires
            x < 256,
    ;
}

} // verus!
