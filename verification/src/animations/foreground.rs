//! The foreground layer: paints over a subset of the segment each frame,
//! leaving the background visible elsewhere.

use crate::animations::{Direction, RainbowDir};
use crate::colors::Rgb;
use crate::utility::{
    convert_ns_to_frames, spec_frames_from_ns, spec_fresh_rainbow, MarchingRainbow,
    MarchingRainbowMut, Progression, StatefulRainbow,
};
use vstd::arithmetic::div_mod::*;
use vstd::prelude::*;

verus! {

/// The closed set of foreground painting algorithms.
#[derive(Clone, Copy, Debug, PartialEq, Eq, Structural)]
pub enum Mode {
    /// Paints nothing; the background shows through everywhere.
    NoForeground,
    /// Paints every other pixel group with the rainbow's current color,
    /// marching one position per completed step cycle.
    MarqueeSolid,
}

/// Everything needed to set up a foreground layer.
pub struct Parameters<'a> {
    pub mode: Mode,
    pub rainbow: &'a [Rgb],
    pub rainbow_dir: RainbowDir,
    pub direction: Direction,
    pub duration_ns: u64,
    pub step_time_ns: u64,
    pub subdivisions: usize,
    pub pixels_per_pixel_group: usize,
}

/// The state of one foreground layer.
pub struct Foreground<'a> {
    pub mode: Mode,
    pub rainbow: StatefulRainbow<'a>,
    pub direction: Direction,
    pub frames: Progression,
    pub step_frames: Progression,
    pub offset: u16,
    pub subdivisions: usize,
    pub pixels_per_pixel_group: usize,
    pub has_been_triggered: bool,
}

impl<'a> MarchingRainbow<'a> for Foreground<'a> {
    open spec fn spec_rainbow(&self) -> StatefulRainbow<'a> {
        self.rainbow
    }

    open spec fn spec_frames(&self) -> Progression {
        self.step_frames
    }

    fn rainbow(&self) -> (r: &StatefulRainbow<'a>) {
        &self.rainbow
    }

    fn frames(&self) -> (r: &Progression) {
        &self.step_frames
    }
}

impl<'a> MarchingRainbowMut<'a> for Foreground<'a> {
    open spec fn marching_rainbow(&self) -> StatefulRainbow<'a> {
        self.rainbow
    }

    open spec fn marching_frames(&self) -> Progression {
        self.step_frames
    }

    open spec fn with_marching(
        self,
        rainbow: StatefulRainbow<'a>,
        frames: Progression,
    ) -> Foreground<'a> {
        Foreground { rainbow, step_frames: frames, ..self }
    }

    fn rainbow_mut(&mut self) -> (r: &mut StatefulRainbow<'a>) {
        &mut self.rainbow
    }

    fn frames_mut(&mut self) -> (r: &mut Progression) {
        &mut self.step_frames
    }

    fn advance_rainbow_color(&mut self) {
        self.rainbow.increment();
        self.step_frames.reset();
    }
}

impl<'a> Foreground<'a> {
    /// The cursor and both timers are well-formed.
    pub open spec fn wf(self) -> bool {
        self.rainbow.wf() && self.frames.wf() && self.step_frames.wf()
    }

    /// Whether the mode advances march and color state over time (and with
    /// that consumes the trigger flag).
    pub open spec fn spec_mode_advances(self) -> bool {
        match self.mode {
            Mode::NoForeground => false,
            Mode::MarqueeSolid => true,
        }
    }

    /// The layer once a pending trigger flag is consumed: an advancing mode
    /// jumps to the next color.
    pub open spec fn spec_consumed(self) -> Self {
        if self.has_been_triggered && self.spec_mode_advances() {
            Foreground { rainbow: self.rainbow.spec_increment(), has_been_triggered: false, ..self }
        } else {
            self
        }
    }

    /// The pixel-group width the marquee paints in; a zero parameter is
    /// treated as single-pixel groups.
    pub open spec fn spec_group(self) -> int {
        if self.pixels_per_pixel_group < 1 {
            1
        } else {
            self.pixels_per_pixel_group as int
        }
    }

    /// Whether the marquee paints pixel `i`: every other pixel group,
    /// shifted along the segment by the march position.
    pub open spec fn spec_marquee_on(self, i: int) -> bool {
        (i / self.spec_group() + self.frames.raw()) % 2 == 0
    }

    /// What one update paints over the segment.
    pub open spec fn spec_painted(self, seg: Seq<Rgb>) -> Seq<Rgb> {
        match self.mode {
            Mode::NoForeground => seg,
            Mode::MarqueeSolid => Seq::new(
                seg.len(),
                |i: int|
                    if self.spec_marquee_on(i) {
                        self.rainbow.spec_current_color()
                    } else {
                        seg[i]
                    },
            ),
        }
    }

    /// The layer after one update's step: an advancing mode counts one step
    /// frame and, when the step cycle completes, marches one position and
    /// moves to the next color.
    pub open spec fn spec_stepped(self) -> Self {
        if !self.spec_mode_advances() {
            self
        } else {
            let s2 = self.step_frames.spec_inc();
            let wrapped = !self.step_frames.spec_is_mono() && s2.raw() == 0;
            if wrapped {
                Foreground {
                    step_frames: s2,
                    frames: self.frames.spec_inc(),
                    rainbow: self.rainbow.spec_increment(),
                    ..self
                }
            } else {
                Foreground { step_frames: s2, ..self }
            }
        }
    }

    /// A foreground layer from its parameters, with both durations
    /// converted to frames at `frame_rate_hz`.
    pub fn new(parameters: &Parameters<'a>, frame_rate_hz: u32) -> (r: Foreground<'a>)
        requires
            (parameters.duration_ns as int * frame_rate_hz as int) / 1_000_000_000 <= usize::MAX,
            (parameters.step_time_ns as int * frame_rate_hz as int) / 1_000_000_000 <= usize::MAX,
        ensures
            r == (Foreground {
                mode: parameters.mode,
                rainbow: spec_fresh_rainbow(parameters.rainbow, parameters.rainbow_dir),
                direction: parameters.direction,
                frames: spec_frames_from_ns(parameters.duration_ns, frame_rate_hz),
                step_frames: spec_frames_from_ns(parameters.step_time_ns, frame_rate_hz),
                offset: 0u16,
                subdivisions: parameters.subdivisions,
                pixels_per_pixel_group: parameters.pixels_per_pixel_group,
                has_been_triggered: false,
            }),
            r.wf(),
    {
        let frame_count: usize = convert_ns_to_frames(parameters.duration_ns, frame_rate_hz);
        let step_count: usize = convert_ns_to_frames(parameters.step_time_ns, frame_rate_hz);
        Foreground {
            mode: parameters.mode,
            rainbow: StatefulRainbow::new(parameters.rainbow, parameters.rainbow_dir),
            direction: parameters.direction,
            frames: Progression::new(frame_count),
            step_frames: Progression::new(step_count),
            offset: 0,
            subdivisions: parameters.subdivisions,
            pixels_per_pixel_group: parameters.pixels_per_pixel_group,
            has_been_triggered: false,
        }
    }

    /// Advances the layer one frame and paints its subset of `segment`: the
    /// pending trigger flag is consumed first, the paint happens from that
    /// state, and the step follows.
    pub fn update(&mut self, segment: &mut Vec<Rgb>)
        requires
            old(self).wf(),
        ensures
            *final(self) == old(self).spec_consumed().spec_stepped(),
            final(self).wf(),
            final(segment)@ == old(self).spec_consumed().spec_painted(old(segment)@),
            final(segment)@.len() == old(segment)@.len(),
    {
        let advances: bool = match self.mode {
            Mode::NoForeground => false,
            Mode::MarqueeSolid => true,
        };
        if self.has_been_triggered && advances {
            self.rainbow.increment();
            self.has_been_triggered = false;
        }
        let ghost consumed: Foreground<'a> = *self;
        proof {
            assert(consumed == old(self).spec_consumed());
        }
        match self.mode {
            Mode::NoForeground => {
                proof {
                    assert(segment@ =~= consumed.spec_painted(old(segment)@));
                }
            },
            Mode::MarqueeSolid => {
                self.paint_marquee(segment);
                proof {
                    assert(segment@ =~= consumed.spec_painted(old(segment)@));
                }
            },
        }
        if advances {
            let wrapped: bool = self.step_frames.checked_increment();
            if wrapped {
                self.frames.increment();
                self.advance_rainbow_color();
            }
        }
    }

    fn paint_marquee(&self, segment: &mut Vec<Rgb>)
        requires
            self.wf(),
            self.mode == Mode::MarqueeSolid,
        ensures
            final(segment)@.len() == old(segment)@.len(),
            forall|i: int|
                0 <= i < final(segment)@.len() ==> final(segment)@[i] == (if self.spec_marquee_on(
                    i,
                ) {
                    self.rainbow.spec_current_color()
                } else {
                    old(segment)@[i]
                }),
    {
        let c: Rgb = self.rainbow.current_color();
        let group: usize = if self.pixels_per_pixel_group < 1 {
            1
        } else {
            self.pixels_per_pixel_group
        };
        let phase: usize = self.frames.current;
        let mut i: usize = 0;
        while i < segment.len()
            invariant
                self.wf(),
                self.mode == Mode::MarqueeSolid,
                c == self.rainbow.spec_current_color(),
                group as int == self.spec_group(),
                phase == self.frames.raw(),
                i <= segment@.len(),
                segment@.len() == old(segment)@.len(),
                forall|j: int|
                    0 <= j < i ==> segment@[j] == (if self.spec_marquee_on(j) {
                        self.rainbow.spec_current_color()
                    } else {
                        old(segment)@[j]
                    }),
                forall|j: int| i <= j < segment@.len() ==> segment@[j] == old(segment)@[j],
            decreases segment@.len() - i,
        {
            let g: usize = i / group;
            let on: bool = (g % 2) == (phase % 2);
            proof {
                lemma_mod_bound(g as int, 2);
                lemma_mod_bound(phase as int, 2);
                lemma_add_mod_noop(g as int, phase as int, 2);
                assert(on == self.spec_marquee_on(i as int));
            }
            if on {
                segment.set(i, c);
            }
            i += 1;
        }
    }
}

} // verus!
