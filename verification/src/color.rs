//! The colour wheel: hues in thousandths of a degree and the fully saturated,
//! fully bright colour that each one stands for.
//!
//! Everything here is integer arithmetic. A hue is a whole number of
//! thousandths of a degree, and a colour channel is a whole number of
//! sixty-thousandths of full intensity: with these two units every colour on
//! the wheel is exact, and a display layer divides by [`CHANNEL_FULL`] once.

use vstd::prelude::*;

verus! {

/// Number of hue units in a full turn of the colour wheel. One unit is a
/// thousandth of a degree.
pub const HUE_RANGE: u32 = 360_000;

/// Width of one of the six sectors of the wheel, in hue units.
pub const SECTOR: u32 = 60_000;

/// Width of two sectors: the stretch over which a channel rises from nothing
/// to full intensity and falls back.
pub const SECTOR_PAIR: u32 = 120_000;

/// The value of a colour channel at full intensity.
pub const CHANNEL_FULL: u32 = 60_000;

/// A colour with an alpha channel. Each channel runs from `0` to
/// [`CHANNEL_FULL`].
#[derive(Clone, Copy, Debug, PartialEq, Eq, Structural)]
pub struct Color {
    pub r: u32,
    pub g: u32,
    pub b: u32,
    pub a: u32,
}

/// The colour of an empty cell: opaque black.
pub open spec fn background_color() -> Color {
    Color { r: 0, g: 0, b: 0, a: CHANNEL_FULL }
}

/// The channel that rises through one sector and falls through the next:
/// `1 - |((h / 60°) mod 2) - 1|`, in channel units.
pub open spec fn ramp(hue: int) -> int {
    let p = hue % (SECTOR_PAIR as int);
    if p <= SECTOR {
        p
    } else {
        SECTOR_PAIR - p
    }
}

/// The colour of a hue at full saturation and full value. The hue is taken
/// modulo a full turn; alpha is always opaque.
pub open spec fn hue_color(hue: int) -> Color {
    let w = hue % (HUE_RANGE as int);
    let c = CHANNEL_FULL;
    let x = ramp(w) as u32;
    if w < SECTOR {
        Color { r: c, g: x, b: 0, a: c }
    } else if w < 2 * SECTOR {
        Color { r: x, g: c, b: 0, a: c }
    } else if w < 3 * SECTOR {
        Color { r: 0, g: c, b: x, a: c }
    } else if w < 4 * SECTOR {
        Color { r: 0, g: x, b: c, a: c }
    } else if w < 5 * SECTOR {
        Color { r: x, g: 0, b: c, a: c }
    } else {
        Color { r: c, g: 0, b: x, a: c }
    }
}

/// The hue that follows `hue` when the wheel is turned by `step`.
pub open spec fn next_hue(hue: int, step: int) -> int {
    (hue + step) % (HUE_RANGE as int)
}

/// The hue reached from `hue` after turning the wheel `n` times by `step`.
pub open spec fn hue_after(hue: int, step: int, n: nat) -> int
    decreases n,
{
    if n == 0 {
        hue
    } else {
        next_hue(hue_after(hue, step, (n - 1) as nat), step)
    }
}

/// The distance between two channel values.
pub open spec fn channel_gap(a: u32, b: u32) -> int {
    if a <= b {
        b - a
    } else {
        a - b
    }
}

/// Opaque black, the colour behind every grain.
pub fn background() -> (color: Color)
    ensures
        color == background_color(),
{
    Color { r: 0, g: 0, b: 0, a: CHANNEL_FULL }
}

/// Converts a hue to its colour on the wheel.
pub fn hue_to_color(hue: u32) -> (color: Color)
    ensures
        color == hue_color(hue as int),
{
    let w: u32 = hue % HUE_RANGE;
    let p: u32 = w % SECTOR_PAIR;
    let x: u32 = if p <= SECTOR {
        p
    } else {
        SECTOR_PAIR - p
    };
    let c: u32 = CHANNEL_FULL;
    if w < SECTOR {
        Color { r: c, g: x, b: 0, a: c }
    } else if w < 2 * SECTOR {
        Color { r: x, g: c, b: 0, a: c }
    } else if w < 3 * SECTOR {
        Color { r: 0, g: c, b: x, a: c }
    } else if w < 4 * SECTOR {
        Color { r: 0, g: x, b: c, a: c }
    } else if w < 5 * SECTOR {
        Color { r: x, g: 0, b: c, a: c }
    } else {
        Color { r: c, g: 0, b: x, a: c }
    }
}

/// Turns the wheel once: the hue `step` units further on, wrapped into
/// `[0, HUE_RANGE)`.
pub fn advance_hue(hue: u32, step: u32) -> (next: u32)
    ensures
        next == next_hue(hue as int, step as int),
        next < HUE_RANGE,
{
    let sum: u64 = hue as u64 + step as u64;
    (sum % (HUE_RANGE as u64)) as u32
}

/// Every channel of every colour on the wheel lies between zero and full
/// intensity, and alpha is full.
pub proof fn lemma_hue_color_in_range(hue: int)
    ensures
        hue_color(hue).r <= CHANNEL_FULL,
        hue_color(hue).g <= CHANNEL_FULL,
        hue_color(hue).b <= CHANNEL_FULL,
        hue_color(hue).a == CHANNEL_FULL,
{
}

/// No hue is painted in the background colour: one of the three colour
/// channels of a grain is always at full intensity.
pub proof fn lemma_hue_color_is_lit(hue: int)
    ensures
        hue_color(hue) != background_color(),
        hue_color(hue).r == CHANNEL_FULL || hue_color(hue).g == CHANNEL_FULL || hue_color(hue).b
            == CHANNEL_FULL,
{
}

/// The wheel closes: a full turn further on, the colour is the same.
pub proof fn lemma_hue_color_periodic(hue: int)
    ensures
        hue_color(hue + HUE_RANGE) == hue_color(hue),
{
}

/// The rising-and-falling channel, sector by sector, for a hue within one
/// turn.
proof fn lemma_ramp_by_sector(w: int)
    requires
        0 <= w < HUE_RANGE,
    ensures
        0 <= w < SECTOR ==> ramp(w) == w,
        SECTOR <= w < 2 * SECTOR ==> ramp(w) == 2 * SECTOR - w,
        2 * SECTOR <= w < 3 * SECTOR ==> ramp(w) == w - 2 * SECTOR,
        3 * SECTOR <= w < 4 * SECTOR ==> ramp(w) == 4 * SECTOR - w,
        4 * SECTOR <= w < 5 * SECTOR ==> ramp(w) == w - 4 * SECTOR,
        5 * SECTOR <= w < 6 * SECTOR ==> ramp(w) == 6 * SECTOR - w,
{
}

/// The wheel has no jumps: from one hue to the next, across the wraparound
/// too, no channel moves by more than one unit.
pub proof fn lemma_hue_color_continuous(hue: int)
    ensures
        channel_gap(hue_color(hue).r, hue_color(hue + 1).r) <= 1,
        channel_gap(hue_color(hue).g, hue_color(hue + 1).g) <= 1,
        channel_gap(hue_color(hue).b, hue_color(hue + 1).b) <= 1,
        hue_color(hue).a == hue_color(hue + 1).a,
{
    let w = hue % (HUE_RANGE as int);
    let v = (hue + 1) % (HUE_RANGE as int);
    assert(v == if w == HUE_RANGE - 1 {
        0
    } else {
        w + 1
    });
    lemma_ramp_by_sector(w);
    lemma_ramp_by_sector(v);
}

/// Turning the wheel `n` times by `step` is one turn by `n * step`.
pub proof fn lemma_hue_after_closed_form(hue: int, step: int, n: nat)
    requires
        0 <= hue < HUE_RANGE,
    ensures
        hue_after(hue, step, n) == (hue + n * step) % (HUE_RANGE as int),
        0 <= hue_after(hue, step, n) < HUE_RANGE,
    decreases n,
{
    let range = HUE_RANGE as int;
    if n == 0 {
        assert(hue + n * step == hue) by (nonlinear_arith)
            requires
                n == 0,
        ;
    } else {
        let m = (n - 1) as nat;
        lemma_hue_after_closed_form(hue, step, m);
        let before = hue + m * step;
        assert(hue + n * step == before + step) by (nonlinear_arith)
            requires
                n == m + 1,
                before == hue + m * step,
        ;
        assert((before % range + step) % range == (before + step) % range) by {
            vstd::arithmetic::div_mod::lemma_add_mod_noop_right(step, before, range);
        }
    }
}

/// The hue wraps around: whatever the step, after `HUE_RANGE` turns of the
/// wheel the hue is back where it started.
pub proof fn lemma_hue_returns(hue: int, step: int)
    requires
        0 <= hue < HUE_RANGE,
    ensures
        hue_after(hue, step, HUE_RANGE as nat) == hue,
{
    lemma_hue_after_closed_form(hue, step, HUE_RANGE as nat);
    vstd::arithmetic::div_mod::lemma_mod_multiples_vanish(step, hue, HUE_RANGE as int);
    assert(hue + (HUE_RANGE as nat) * step == (HUE_RANGE as int) * step + hue) by (nonlinear_arith);
}

} // verus!
