//! The background layer: paints every pixel of the segment each frame.

use crate::animations::{Direction, RainbowDir};
use crate::colors::Rgb;
use crate::utility::{
    convert_ns_to_frames, fill_solid, shift_offset, spec_fade_color, spec_frames_from_ns,
    spec_fresh_rainbow, spec_shift_offset, FadeRainbow, Progression, StatefulRainbow,
};
use vstd::arithmetic::div_mod::*;
use vstd::arithmetic::mul::*;
use vstd::prelude::*;

verus! {

/// The closed set of background painting algorithms.
#[derive(Clone, Copy, Debug, PartialEq, Eq, Structural)]
pub enum Mode {
    /// Paints nothing; the segment keeps whatever it held.
    NoBackground,
    /// Paints the whole segment with the rainbow's current color.
    Solid,
    /// Paints the whole segment with the fade between the current and the
    /// next rainbow color, advancing one frame per update.
    SolidFade,
    /// Paints pixel `i` with the rainbow color `i` places past the cursor
    /// and the 16-bit phase rotation, advancing the cursor one place per
    /// completed frame cycle.
    FillRainbow,
}

/// Everything needed to set up a background layer.
pub struct Parameters<'a> {
    pub mode: Mode,
    pub rainbow: &'a [Rgb],
    pub rainbow_dir: RainbowDir,
    pub direction: Direction,
    pub duration_ns: u64,
    pub subdivisions: usize,
}

/// The state of one background layer.
pub struct Background<'a> {
    pub mode: Mode,
    pub rainbow: StatefulRainbow<'a>,
    pub direction: Direction,
    pub frames: Progression,
    pub offset: u16,
    pub subdivisions: usize,
    pub has_been_triggered: bool,
}

impl<'a> FadeRainbow<'a> for Background<'a> {
    open spec fn spec_rainbow(&self) -> StatefulRainbow<'a> {
        self.rainbow
    }

    open spec fn spec_frames(&self) -> Progression {
        self.frames
    }

    fn rainbow(&self) -> (r: &StatefulRainbow<'a>) {
        &self.rainbow
    }

    fn frames(&self) -> (r: &Progression) {
        &self.frames
    }
}

impl<'a> Background<'a> {
    /// The cursor and timer are well-formed and frame counts fit the fade
    /// interpolation.
    pub open spec fn wf(self) -> bool {
        self.rainbow.wf() && self.frames.wf() && self.frames.total <= i32::MAX
    }

    /// Whether the mode advances frame and color state over time (and with
    /// that consumes the trigger flag).
    pub open spec fn spec_mode_advances(self) -> bool {
        match self.mode {
            Mode::NoBackground => false,
            Mode::Solid => false,
            Mode::SolidFade => true,
            Mode::FillRainbow => true,
        }
    }

    /// The layer once a pending trigger flag is consumed: an advancing mode
    /// jumps to the next color and restarts its cycle.
    pub open spec fn spec_consumed(self) -> Self {
        if self.has_been_triggered && self.spec_mode_advances() {
            Background {
                rainbow: self.rainbow.spec_increment(),
                frames: self.frames.spec_reset(),
                has_been_triggered: false,
                ..self
            }
        } else {
            self
        }
    }

    /// How far `FillRainbow`'s 16-bit phase rotates the color table: the
    /// shifted offset, scaled from the full wrap range down to the table.
    pub open spec fn spec_table_shift(self, len: int) -> int {
        spec_shift_offset(self.offset, self.frames, self.direction) * len / 65536
    }

    /// The color `FillRainbow` paints at pixel `i`: the rainbow color `i`
    /// places past the cursor reading and the phase rotation, wrapping
    /// around the table.
    pub open spec fn spec_fill_color(self, i: int) -> Rgb {
        let len = self.rainbow.backer.colors().len() as int;
        if len == 0 {
            Rgb { r: 0, g: 0, b: 0 }
        } else {
            self.rainbow.backer.spec_index(
                (self.rainbow.position.spec_current() + self.spec_table_shift(len) + i) % len,
            )
        }
    }

    /// What one update paints over the segment.
    pub open spec fn spec_painted(self, seg: Seq<Rgb>) -> Seq<Rgb> {
        match self.mode {
            Mode::NoBackground => seg,
            Mode::Solid => Seq::new(seg.len(), |i: int| self.rainbow.spec_current_color()),
            Mode::SolidFade => Seq::new(seg.len(), |i: int| spec_fade_color(self.rainbow, self.frames)),
            Mode::FillRainbow => Seq::new(seg.len(), |i: int| self.spec_fill_color(i)),
        }
    }

    /// The layer after one update's frame step: an advancing mode counts one
    /// frame and moves to the next color when the cycle completes.
    pub open spec fn spec_stepped(self) -> Self {
        if !self.spec_mode_advances() {
            self
        } else {
            let f2 = self.frames.spec_inc();
            let wrapped = !self.frames.spec_is_mono() && f2.raw() == 0;
            Background {
                frames: f2,
                rainbow: if wrapped {
                    self.rainbow.spec_increment()
                } else {
                    self.rainbow
                },
                ..self
            }
        }
    }

    /// A background layer from its parameters, with the duration converted
    /// to frames at `frame_rate_hz`.
    pub fn new(parameters: &Parameters<'a>, frame_rate_hz: u32) -> (r: Background<'a>)
        requires
            (parameters.duration_ns as int * frame_rate_hz as int) / 1_000_000_000 <= i32::MAX,
        ensures
            r == (Background {
                mode: parameters.mode,
                rainbow: spec_fresh_rainbow(parameters.rainbow, parameters.rainbow_dir),
                direction: parameters.direction,
                frames: spec_frames_from_ns(parameters.duration_ns, frame_rate_hz),
                offset: 0u16,
                subdivisions: parameters.subdivisions,
                has_been_triggered: false,
            }),
            r.wf(),
    {
        let frame_count: usize = convert_ns_to_frames(parameters.duration_ns, frame_rate_hz);
        Background {
            mode: parameters.mode,
            rainbow: StatefulRainbow::new(parameters.rainbow, parameters.rainbow_dir),
            direction: parameters.direction,
            frames: Progression::new(frame_count),
            offset: 0,
            subdivisions: parameters.subdivisions,
            has_been_triggered: false,
        }
    }

    /// Advances the layer one frame and repaints `segment`: the pending
    /// trigger flag is consumed first, the paint happens from that state,
    /// and the frame step follows.
    pub fn update(&mut self, segment: &mut Vec<Rgb>)
        requires
            old(self).wf(),
        ensures
            *final(self) == old(self).spec_consumed().spec_stepped(),
            final(self).wf(),
            final(segment)@ == old(self).spec_consumed().spec_painted(old(segment)@),
            final(segment)@.len() == old(segment)@.len(),
    {
        let advances: bool = match self.mode {
            Mode::NoBackground => false,
            Mode::Solid => false,
            Mode::SolidFade => true,
            Mode::FillRainbow => true,
        };
        if self.has_been_triggered && advances {
            self.rainbow.increment();
            self.frames.reset();
            self.has_been_triggered = false;
        }
        let ghost consumed: Background<'a> = *self;
        proof {
            assert(consumed == old(self).spec_consumed());
        }
        match self.mode {
            Mode::NoBackground => {
                proof {
                    assert(segment@ =~= consumed.spec_painted(old(segment)@));
                }
            },
            Mode::Solid => {
                let c: Rgb = self.rainbow.current_color();
                fill_solid(segment, c);
                proof {
                    assert(segment@ =~= consumed.spec_painted(old(segment)@));
                }
            },
            Mode::SolidFade => {
                let c: Rgb = self.calculate_fade_color();
                fill_solid(segment, c);
                proof {
                    assert(segment@ =~= consumed.spec_painted(old(segment)@));
                }
            },
            Mode::FillRainbow => {
                self.paint_fill_rainbow(segment);
                proof {
                    assert(segment@ =~= consumed.spec_painted(old(segment)@));
                }
            },
        }
        if advances {
            let wrapped: bool = self.frames.checked_increment();
            if wrapped {
                self.rainbow.increment();
            }
        }
    }

    fn paint_fill_rainbow(&self, segment: &mut Vec<Rgb>)
        requires
            self.wf(),
            self.mode == Mode::FillRainbow,
        ensures
            final(segment)@.len() == old(segment)@.len(),
            forall|i: int|
                0 <= i < final(segment)@.len() ==> final(segment)@[i] == self.spec_fill_color(i),
    {
        let len: usize = self.rainbow.backer.len();
        if len == 0 {
            fill_solid(segment, Rgb { r: 0, g: 0, b: 0 });
            return ;
        }
        let cur: usize = self.rainbow.position.get_current();
        let eff: u16 = shift_offset(self.offset, self.frames, self.direction);
        proof {
            lemma_mul_nonnegative(eff as int, len as int);
            lemma_mul_inequality(eff as int, 65535, len as int);
            lemma_multiply_divide_lt(65535 * (len as int), len as int, 65536);
            lemma_div_is_ordered((eff as int) * (len as int), 65535 * (len as int), 65536);
        }
        let shift: usize = ((eff as u128) * (len as u128) / 65536u128) as usize;
        let base: usize = if shift >= len - cur {
            shift - (len - cur)
        } else {
            shift + cur
        };
        proof {
            if cur + shift >= len {
                lemma_mod_sub_multiples_vanish((cur + shift) as int, len as int);
                lemma_small_mod((cur + shift - len) as nat, len as nat);
            } else {
                lemma_small_mod((cur + shift) as nat, len as nat);
            }
            assert(base as int == (self.rainbow.position.spec_current() + self.spec_table_shift(
                len as int,
            )) % (len as int));
        }
        let mut i: usize = 0;
        while i < segment.len()
            invariant
                self.wf(),
                len == self.rainbow.backer.colors().len(),
                len >= 1,
                base < len,
                base as int == (self.rainbow.position.spec_current() + self.spec_table_shift(
                    len as int,
                )) % (len as int),
                i <= segment@.len(),
                segment@.len() == old(segment)@.len(),
                forall|j: int| 0 <= j < i ==> segment@[j] == self.spec_fill_color(j),
            decreases segment@.len() - i,
        {
            proof {
                lemma_mod_bound(i as int, len as int);
            }
            let m: usize = i % len;
            let idx: usize = if m >= len - base {
                m - (len - base)
            } else {
                m + base
            };
            proof {
                let l = len as int;
                let rot = self.rainbow.position.spec_current() + self.spec_table_shift(l);
                lemma_mod_bound(rot, l);
                lemma_add_mod_noop(i as int, rot, l);
                lemma_mod_twice(i as int, l);
                lemma_mod_twice(rot, l);
                if m + base >= len {
                    lemma_mod_sub_multiples_vanish((m + base) as int, l);
                    lemma_small_mod((m + base - len) as nat, len as nat);
                } else {
                    lemma_small_mod((m + base) as nat, len as nat);
                }
                assert(idx as int == (rot + i) % l);
            }
            let c: Rgb = self.rainbow.backer.index(idx);
            segment.set(i, c);
            i += 1;
        }
    }
}

} // verus!
