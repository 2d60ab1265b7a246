//! The engine's color type and the integer interpolation used for fades.

use crate::utility::Progression;
use vstd::arithmetic::div_mod::*;
use vstd::arithmetic::mul::*;
use vstd::prelude::*;

verus! {

/// An ordered, caller-owned palette that animations cycle through.
pub type Rainbow<'a> = &'a [Rgb];

/// One LED color: 8-bit red, green and blue channels.
#[derive(Clone, Copy, Debug, PartialEq, Eq, Structural)]
pub struct Rgb {
    pub r: u8,
    pub g: u8,
    pub b: u8,
}

impl Rgb {
    /// Builds a color from its three channels.
    pub fn new(r: u8, g: u8, b: u8) -> (c: Rgb)
        ensures
            c == (Rgb { r, g, b }),
    {
        Rgb { r, g, b }
    }
}

impl Default for Rgb {
    /// Black: all channels 0.
    fn default() -> (c: Rgb)
        ensures
            c == (Rgb { r: 0u8, g: 0u8, b: 0u8 }),
    {
        Rgb { r: 0, g: 0, b: 0 }
    }
}

/// One channel of the linear interpolation from `s` toward `e`, `f` steps
/// into a range of `t` steps: `s + (f * (e - s)) / t`, rounded toward `s`.
pub open spec fn lerp_chan(f: int, t: int, s: int, e: int) -> int {
    if e >= s {
        s + (f * (e - s)) / t
    } else {
        s - (f * (s - e)) / t
    }
}

/// `lerp_chan` applied to every channel of a color pair.
pub open spec fn fade_spec(c: Rgb, n: Rgb, t: int, f: int) -> Rgb {
    Rgb {
        r: lerp_chan(f, t, c.r as int, n.r as int) as u8,
        g: lerp_chan(f, t, c.g as int, n.g as int) as u8,
        b: lerp_chan(f, t, c.b as int, n.b as int) as u8,
    }
}

/// The interpolated channel stays between its two endpoints.
pub proof fn lemma_lerp_chan_bounds(f: int, t: int, s: int, e: int)
    requires
        0 <= f <= t,
        1 <= t,
        0 <= s,
        0 <= e,
    ensures
        e >= s ==> s <= lerp_chan(f, t, s, e) <= e,
        e < s ==> e <= lerp_chan(f, t, s, e) <= s,
{
    let d = if e >= s {
        e - s
    } else {
        s - e
    };
    lemma_mul_nonnegative(f, d);
    lemma_div_pos_is_pos(f * d, t);
    lemma_mul_inequality(f, t, d);
    lemma_div_is_ordered(f * d, t * d, t);
    lemma_div_multiples_vanish(d, t);
    assert(t * d == d * t) by {
        lemma_mul_is_commutative(t, d);
    }
}

/// At the start of the range the interpolation is exactly the start color's
/// channel.
pub proof fn lemma_lerp_chan_at_start(t: int, s: int, e: int)
    requires
        1 <= t,
    ensures
        lerp_chan(0, t, s, e) == s,
{
    let d = if e >= s {
        e - s
    } else {
        s - e
    };
    lemma_mul_basics(d);
    lemma_div_of0(t);
}

/// At the end of the range the interpolation is exactly the end color's
/// channel.
pub proof fn lemma_lerp_chan_at_end(t: int, s: int, e: int)
    requires
        1 <= t,
    ensures
        lerp_chan(t, t, s, e) == e,
{
    let d = if e >= s {
        e - s
    } else {
        s - e
    };
    lemma_div_multiples_vanish(d, t);
    assert(t * d == d * t) by {
        lemma_mul_is_commutative(t, d);
    }
}

/// Law: as `f` grows toward `t`, the interpolated channel moves monotonically
/// from the start channel toward the end channel.
pub proof fn lemma_lerp_chan_monotonic(f1: int, f2: int, t: int, s: int, e: int)
    requires
        0 <= f1 <= f2 <= t,
        1 <= t,
        0 <= s,
        0 <= e,
    ensures
        e >= s ==> lerp_chan(f1, t, s, e) <= lerp_chan(f2, t, s, e) <= e,
        e < s ==> e <= lerp_chan(f2, t, s, e) <= lerp_chan(f1, t, s, e),
{
    let d = if e >= s {
        e - s
    } else {
        s - e
    };
    lemma_mul_inequality(f1, f2, d);
    lemma_div_is_ordered(f1 * d, f2 * d, t);
    lemma_lerp_chan_bounds(f1, t, s, e);
    lemma_lerp_chan_bounds(f2, t, s, e);
}

/// Law: at the start of the frame range a fade shows exactly the color it
/// starts from.
pub proof fn lemma_fade_at_start(c: Rgb, n: Rgb, t: int)
    requires
        1 <= t,
    ensures
        fade_spec(c, n, t, 0) == c,
{
    lemma_lerp_chan_at_start(t, c.r as int, n.r as int);
    lemma_lerp_chan_at_start(t, c.g as int, n.g as int);
    lemma_lerp_chan_at_start(t, c.b as int, n.b as int);
}

/// Law: as the frame position grows toward the full range, every channel of
/// the fade moves monotonically toward the next color's channel, reaching
/// it exactly at the end of the range.
pub proof fn lemma_fade_monotonic(c: Rgb, n: Rgb, t: int, f1: int, f2: int)
    requires
        1 <= t,
        0 <= f1 <= f2 <= t,
    ensures
        n.r >= c.r ==> fade_spec(c, n, t, f1).r <= fade_spec(c, n, t, f2).r <= n.r,
        n.r < c.r ==> n.r <= fade_spec(c, n, t, f2).r <= fade_spec(c, n, t, f1).r,
        n.g >= c.g ==> fade_spec(c, n, t, f1).g <= fade_spec(c, n, t, f2).g <= n.g,
        n.g < c.g ==> n.g <= fade_spec(c, n, t, f2).g <= fade_spec(c, n, t, f1).g,
        n.b >= c.b ==> fade_spec(c, n, t, f1).b <= fade_spec(c, n, t, f2).b <= n.b,
        n.b < c.b ==> n.b <= fade_spec(c, n, t, f2).b <= fade_spec(c, n, t, f1).b,
        fade_spec(c, n, t, t) == n,
{
    lemma_lerp_chan_monotonic(f1, f2, t, c.r as int, n.r as int);
    lemma_lerp_chan_monotonic(f1, f2, t, c.g as int, n.g as int);
    lemma_lerp_chan_monotonic(f1, f2, t, c.b as int, n.b as int);
    lemma_lerp_chan_bounds(f1, t, c.r as int, n.r as int);
    lemma_lerp_chan_bounds(f1, t, c.g as int, n.g as int);
    lemma_lerp_chan_bounds(f1, t, c.b as int, n.b as int);
    lemma_lerp_chan_bounds(f2, t, c.r as int, n.r as int);
    lemma_lerp_chan_bounds(f2, t, c.g as int, n.g as int);
    lemma_lerp_chan_bounds(f2, t, c.b as int, n.b as int);
    lemma_lerp_chan_at_end(t, c.r as int, n.r as int);
    lemma_lerp_chan_at_end(t, c.g as int, n.g as int);
    lemma_lerp_chan_at_end(t, c.b as int, n.b as int);
}

fn lerp_channel(f: u64, t: u64, s: u8, e: u8) -> (r: u8)
    requires
        f <= t,
        1 <= t <= 0xFFFF_FFFFu64,
    ensures
        r as int == lerp_chan(f as int, t as int, s as int, e as int),
{
    proof {
        lemma_lerp_chan_bounds(f as int, t as int, s as int, e as int);
    }
    if e >= s {
        let d: u64 = (e - s) as u64;
        proof {
            lemma_mul_nonnegative(f as int, d as int);
            lemma_mul_upper_bound(f as int, 0xFFFF_FFFFint, d as int, 255int);
        }
        let q: u64 = f * d / t;
        s + (q as u8)
    } else {
        let d: u64 = (s - e) as u64;
        proof {
            lemma_mul_nonnegative(f as int, d as int);
            lemma_mul_upper_bound(f as int, 0xFFFF_FFFFint, d as int, 255int);
        }
        let q: u64 = f * d / t;
        s - (q as u8)
    }
}

/// Linear interpolation of every channel from `start_color` toward
/// `end_color`, with `factor` ranging over `[in_min, in_max]`.
pub fn color_lerp(factor: i32, in_min: i32, in_max: i32, start_color: Rgb, end_color: Rgb) -> (r:
    Rgb)
    requires
        in_min < in_max,
        in_min <= factor <= in_max,
    ensures
        r == fade_spec(start_color, end_color, in_max - in_min, factor - in_min),
{
    let f: u64 = (factor as i64 - in_min as i64) as u64;
    let t: u64 = (in_max as i64 - in_min as i64) as u64;
    proof {
        lemma_lerp_chan_bounds(f as int, t as int, start_color.r as int, end_color.r as int);
        lemma_lerp_chan_bounds(f as int, t as int, start_color.g as int, end_color.g as int);
        lemma_lerp_chan_bounds(f as int, t as int, start_color.b as int, end_color.b as int);
    }
    Rgb {
        r: lerp_channel(f, t, start_color.r, end_color.r),
        g: lerp_channel(f, t, start_color.g, end_color.g),
        b: lerp_channel(f, t, start_color.b, end_color.b),
    }
}

/// Colors that can be blended along a [`Progression`] and overwritten.
pub trait ManipulatableColor<RgbType>: Sized {
    /// When `lerp_with` may be called.
    spec fn lerp_req(&self, to_color: RgbType, factor: Progression) -> bool;

    /// What `lerp_with` returns.
    spec fn spec_lerp_with(&self, to_color: RgbType, factor: Progression) -> RgbType;

    /// What `set_color` leaves behind.
    spec fn spec_set_color(&self, c: RgbType) -> Self;

    /// Blends from `self` toward `to_color`, `factor.get_current()` frames
    /// into `factor.total`.
    fn lerp_with(&self, to_color: RgbType, factor: Progression) -> (r: RgbType)
        requires
            self.lerp_req(to_color, factor),
        ensures
            r == self.spec_lerp_with(to_color, factor),
    ;

    /// Overwrites `self` with `c`.
    fn set_color(&mut self, c: RgbType)
        ensures
            *final(self) == old(self).spec_set_color(c),
    ;
}

impl ManipulatableColor<Rgb> for Rgb {
    open spec fn lerp_req(&self, to_color: Rgb, factor: Progression) -> bool {
        factor.wf() && 1 <= factor.total <= i32::MAX
    }

    open spec fn spec_lerp_with(&self, to_color: Rgb, factor: Progression) -> Rgb {
        fade_spec(*self, to_color, factor.total as int, factor.spec_current())
    }

    open spec fn spec_set_color(&self, c: Rgb) -> Rgb {
        c
    }

    fn lerp_with(&self, to_color: Rgb, factor: Progression) -> (r: Rgb) {
        proof {
            assert(self.lerp_req(to_color, factor));
            assert(factor.wf() && 1 <= factor.total <= i32::MAX);
            assert(factor.spec_current() < factor.total);
        }
        let cur: usize = factor.get_current();
        let result: Rgb = color_lerp(cur as i32, 0, factor.total as i32, *self, to_color);
        proof {
            assert(cur as i32 as int == factor.spec_current());
            assert(factor.total as i32 as int == factor.total as int);
            assert(result == fade_spec(*self, to_color, factor.total as int,
                factor.spec_current()));
            assert(result == self.spec_lerp_with(to_color, factor));
        }
        result
    }

    fn set_color(&mut self, c: Rgb) {
        self.r = c.r;
        self.g = c.g;
        self.b = c.b;
    }
}

/// What `dark_pattern` builds: three half-brightness copies of `base`, each
/// followed by a quarter-brightness copy.
pub open spec fn dark_pattern_spec(base: Rgb, i: int) -> Rgb {
    if i % 2 == 0 {
        Rgb { r: (base.r / 2) as u8, g: (base.g / 2) as u8, b: (base.b / 2) as u8 }
    } else {
        Rgb { r: (base.r / 4) as u8, g: (base.g / 4) as u8, b: (base.b / 4) as u8 }
    }
}

/// A six-entry rainbow alternating half- and quarter-brightness copies of
/// `base`.
pub fn dark_pattern(base: Rgb) -> (colors: Vec<Rgb>)
    ensures
        colors@.len() == 6,
        forall|i: int| 0 <= i < 6 ==> colors@[i] == dark_pattern_spec(base, i),
{
    let half: Rgb = Rgb { r: base.r / 2, g: base.g / 2, b: base.b / 2 };
    let quarter: Rgb = Rgb { r: base.r / 4, g: base.g / 4, b: base.b / 4 };
    let mut colors: Vec<Rgb> = Vec::new();
    let mut i: usize = 0;
    while i < 3
        invariant
            i <= 3,
            half == dark_pattern_spec(base, 0),
            quarter == dark_pattern_spec(base, 1),
            colors@.len() == 2 * i,
            forall|j: int| 0 <= j < 2 * i ==> colors@[j] == dark_pattern_spec(base, j),
        decreases 3 - i,
    {
        let ghost prev: Seq<Rgb> = colors@;
        colors.push(half);
        colors.push(quarter);
        proof {
            assert((2 * i as int) % 2 == 0 && (2 * i as int + 1) % 2 == 1) by {
                lemma_mod_multiples_basic(i as int, 2);
                lemma_mod_multiples_vanish(i as int, 1, 2);
                lemma_small_mod(1nat, 2nat);
            }
            assert forall|j: int| 0 <= j < 2 * (i + 1) implies colors@[j] == dark_pattern_spec(
                base,
                j,
            ) by {
                if j == 2 * i as int {
                    assert(colors@[j] == half);
                } else if j == 2 * i as int + 1 {
                    assert(colors@[j] == quarter);
                } else {
                    assert(colors@[j] == prev[j]);
                }
            }
        }
        i += 1;
    }
    colors
}

} // verus!
