//! Animation layers: the layer enums, per-layer parameter bundles, and the
//! [`Animation`] aggregate that composites background, foreground and
//! trigger layers into one color segment.

pub mod background;
pub mod foreground;
pub mod trigger;

use crate::colors::Rgb;
use crate::utility::{
    convert_ns_to_frames, default_translation_array, spec_frames_from_ns, spec_fresh_rainbow,
    Progression, StatefulRainbow,
};
use vstd::prelude::*;

verus! {

/// The greatest phase offset of a rotating animation: offsets are 16-bit and
/// wrap at 65536, supersampling sub-pixel positions across a whole segment.
pub const MAX_OFFSET: u16 = 65535;

/// How many trigger animations one [`Animation`] can run at the same time.
pub const MAX_NUM_ACTIVE_TRIGGERS: usize = 10;

/// The direction an animation moves in; its effect varies by mode.
#[derive(Clone, Copy, Debug, PartialEq, Eq, Structural)]
pub enum Direction {
    Positive,
    Stopped,
    Negative,
}

/// The order rainbow colors are read in.
#[derive(Clone, Copy, Debug, PartialEq, Eq, Structural)]
pub enum RainbowDir {
    Forward,
    Backward,
}

/// The three layer kinds of one animation.
#[derive(Clone, Copy, Debug, PartialEq, Eq, Structural)]
pub enum AnimationType {
    Background,
    Foreground,
    Trigger,
}

/// Everything needed to set up one animation: its background, its
/// foreground, and the shared trigger configuration.
pub struct AnimationParameters<'a> {
    pub bg: background::Parameters<'a>,
    pub fg: foreground::Parameters<'a>,
    pub trigger: trigger::GlobalParameters<'a>,
}

/// The capability surface every animation layer exposes to a controller.
pub trait Animatable: Sized {
    /// The layer's internal invariant.
    spec fn wf(&self) -> bool;

    /// The colors the layer painted last.
    spec fn seg_view(&self) -> Seq<Rgb>;

    /// The logical-to-physical index map.
    spec fn translation_view(&self) -> Seq<usize>;

    /// The colors one `update` repaints the segment to.
    spec fn updated_seg_view(&self) -> Seq<Rgb>;

    /// When a trigger event may be handed to the layer.
    spec fn trigger_req(&self, params: trigger::Parameters, frame_rate_hz: u32) -> bool;

    /// Advances the layer one frame and repaints its segment.
    fn update(&mut self)
        requires
            old(self).wf(),
        ensures
            final(self).wf(),
            final(self).seg_view() == old(self).updated_seg_view(),
            final(self).seg_view().len() == old(self).seg_view().len(),
            final(self).translation_view() == old(self).translation_view(),
    ;

    /// Applies a 16-bit rotational phase to one of the layer kinds.
    fn set_offset(&mut self, a_type: AnimationType, offset: u16)
        requires
            old(self).wf(),
        ensures
            final(self).wf(),
            final(self).seg_view() == old(self).seg_view(),
            final(self).translation_view() == old(self).translation_view(),
    ;

    /// Routes one trigger event into the layer.
    fn trigger(&mut self, params: &trigger::Parameters, frame_rate_hz: u32)
        requires
            old(self).wf(),
            old(self).trigger_req(*params, frame_rate_hz),
        ensures
            final(self).wf(),
            final(self).seg_view() == old(self).seg_view(),
            final(self).translation_view() == old(self).translation_view(),
    ;

    /// The colors the layer painted last.
    fn segment(&self) -> (r: &[Rgb])
        ensures
            r@ == self.seg_view(),
    ;

    /// The logical-to-physical index map.
    fn translation_array(&self) -> (r: &[usize])
        ensures
            r@ == self.translation_view(),
    ;
}

/// One complete animation: a private output segment, the index map into
/// the shared strip, and its three layers.
pub struct Animation<'a> {
    pub translation_array: Vec<usize>,
    pub segment: Vec<Rgb>,
    pub fg_state: foreground::Foreground<'a>,
    pub bg_state: background::Background<'a>,
    pub triggers: trigger::TriggerCollection<'a, MAX_NUM_ACTIVE_TRIGGERS>,
}

impl<'a> Animatable for Animation<'a> {
    open spec fn wf(&self) -> bool {
        &&& self.translation_array@.len() == self.segment@.len()
        &&& self.bg_state.wf()
        &&& self.fg_state.wf()
        &&& self.triggers.wf()
    }

    open spec fn seg_view(&self) -> Seq<Rgb> {
        self.segment@
    }

    open spec fn translation_view(&self) -> Seq<usize> {
        self.translation_array@
    }

    open spec fn updated_seg_view(&self) -> Seq<Rgb> {
        trigger::spec_slots_painted(
            self.triggers.slots@,
            MAX_NUM_ACTIVE_TRIGGERS as int,
            self.fg_state.spec_consumed().spec_painted(
                self.bg_state.spec_consumed().spec_painted(self.segment@),
            ),
        )
    }

    open spec fn trigger_req(&self, params: trigger::Parameters, frame_rate_hz: u32) -> bool {
        trigger::spec_is_pool_mode(params.mode) ==> (params.duration_ns as int
            * frame_rate_hz as int) / 1_000_000_000 <= usize::MAX
    }

    fn update(&mut self) {
        Animation::update(self)
    }

    fn set_offset(&mut self, a_type: AnimationType, offset: u16) {
        Animation::set_offset(self, a_type, offset)
    }

    fn trigger(&mut self, params: &trigger::Parameters, frame_rate_hz: u32) {
        Animation::trigger(self, params, frame_rate_hz)
    }

    fn segment(&self) -> (r: &[Rgb]) {
        Animation::segment(self)
    }

    fn translation_array(&self) -> (r: &[usize]) {
        Animation::translation_array(self)
    }
}

impl<'a> Animation<'a> {
    /// A fresh animation over `n_led` pixels: an identity translation
    /// array, an all-black segment, and the three layers built from
    /// `parameters` at `frame_rate_hz`.
    pub fn new(parameters: AnimationParameters<'a>, frame_rate_hz: u32, n_led: usize) -> (r:
        Animation<'a>)
        requires
            (parameters.bg.duration_ns as int * frame_rate_hz as int) / 1_000_000_000
                <= i32::MAX,
            (parameters.fg.duration_ns as int * frame_rate_hz as int) / 1_000_000_000
                <= usize::MAX,
            (parameters.fg.step_time_ns as int * frame_rate_hz as int) / 1_000_000_000
                <= usize::MAX,
            (parameters.trigger.duration_ns as int * frame_rate_hz as int) / 1_000_000_000
                <= usize::MAX,
        ensures
            r.translation_array@.len() == n_led,
            forall|i: int| 0 <= i < n_led ==> r.translation_array@[i] == i,
            r.segment@.len() == n_led,
            forall|i: int| 0 <= i < n_led ==> r.segment@[i] == (Rgb { r: 0, g: 0, b: 0 }),
            r.bg_state == (background::Background {
                mode: parameters.bg.mode,
                rainbow: spec_fresh_rainbow(parameters.bg.rainbow, parameters.bg.rainbow_dir),
                direction: parameters.bg.direction,
                frames: spec_frames_from_ns(parameters.bg.duration_ns, frame_rate_hz),
                offset: 0u16,
                subdivisions: parameters.bg.subdivisions,
                has_been_triggered: false,
            }),
            r.fg_state == (foreground::Foreground {
                mode: parameters.fg.mode,
                rainbow: spec_fresh_rainbow(parameters.fg.rainbow, parameters.fg.rainbow_dir),
                direction: parameters.fg.direction,
                frames: spec_frames_from_ns(parameters.fg.duration_ns, frame_rate_hz),
                step_frames: spec_frames_from_ns(parameters.fg.step_time_ns, frame_rate_hz),
                offset: 0u16,
                subdivisions: parameters.fg.subdivisions,
                pixels_per_pixel_group: parameters.fg.pixels_per_pixel_group,
                has_been_triggered: false,
            }),
            forall|i: int|
                0 <= i < MAX_NUM_ACTIVE_TRIGGERS ==> #[trigger] r.triggers.slots@[i]
                    matches Option::None,
            r.triggers.rainbows == (crate::utility::TimedRainbows {
                fade_rainbow: spec_fresh_rainbow(
                    parameters.trigger.fade_rainbow,
                    parameters.trigger.fade_rainbow_dir,
                ),
                incremental_rainbow: spec_fresh_rainbow(
                    parameters.trigger.incremental_rainbow,
                    parameters.trigger.incremental_rainbow_dir,
                ),
                frames: spec_frames_from_ns(parameters.trigger.duration_ns, frame_rate_hz),
            }),
            r.wf(),
    {
        let translation_array: Vec<usize> = default_translation_array(n_led, 0);
        let mut segment: Vec<Rgb> = Vec::new();
        let mut i: usize = 0;
        while i < n_led
            invariant
                i <= n_led,
                segment@.len() == i,
                forall|j: int| 0 <= j < i ==> segment@[j] == (Rgb { r: 0, g: 0, b: 0 }),
            decreases n_led - i,
        {
            segment.push(Rgb { r: 0, g: 0, b: 0 });
            i += 1;
        }
        let fg_state = foreground::Foreground::new(&parameters.fg, frame_rate_hz);
        let bg_state = background::Background::new(&parameters.bg, frame_rate_hz);
        let triggers = trigger::TriggerCollection::new(&parameters.trigger, frame_rate_hz);
        Animation { translation_array, segment, fg_state, bg_state, triggers }
    }

    /// Advances one frame and repaints the segment: the background paints
    /// the whole segment, the foreground paints over it, and the trigger
    /// pool paints last, always on top.
    pub fn update(&mut self)
        requires
            old(self).wf(),
        ensures
            final(self).wf(),
            final(self).translation_array == old(self).translation_array,
            final(self).segment@ == old(self).updated_seg_view(),
            final(self).segment@.len() == old(self).segment@.len(),
            final(self).bg_state == old(self).bg_state.spec_consumed().spec_stepped(),
            final(self).fg_state == old(self).fg_state.spec_consumed().spec_stepped(),
            final(self).triggers.slots@ == trigger::spec_slots_stepped(old(self).triggers.slots@),
            final(self).triggers.rainbows == old(self).triggers.rainbows,
    {
        self.bg_state.update(&mut self.segment);
        self.fg_state.update(&mut self.segment);
        self.triggers.update(&mut self.segment);
    }

    /// Applies a 16-bit phase offset to the chosen layer; the trigger layer
    /// does not use offsets, so that call changes nothing.
    pub fn set_offset(&mut self, a_type: AnimationType, offset: u16)
        ensures
            final(self).translation_array == old(self).translation_array,
            final(self).segment == old(self).segment,
            final(self).triggers == old(self).triggers,
            a_type == AnimationType::Background ==> final(self).bg_state == (
            background::Background { offset, ..old(self).bg_state }) && final(self).fg_state
                == old(self).fg_state,
            a_type == AnimationType::Foreground ==> final(self).fg_state == (
            foreground::Foreground { offset, ..old(self).fg_state }) && final(self).bg_state
                == old(self).bg_state,
            a_type == AnimationType::Trigger ==> final(self).bg_state == old(self).bg_state
                && final(self).fg_state == old(self).fg_state,
    {
        match a_type {
            AnimationType::Background => {
                self.bg_state.offset = offset;
            },
            AnimationType::Foreground => {
                self.fg_state.offset = offset;
            },
            AnimationType::Trigger => {},
        }
    }

    /// Routes one trigger event: a no-op mode does nothing, the background
    /// and foreground modes set that layer's flag, and every pool mode is
    /// forwarded to the trigger collection as a new transient overlay.
    pub fn trigger(&mut self, params: &trigger::Parameters, frame_rate_hz: u32)
        requires
            old(self).wf(),
            old(self).trigger_req(*params, frame_rate_hz),
        ensures
            final(self).wf(),
            final(self).translation_array == old(self).translation_array,
            final(self).segment == old(self).segment,
            params.mode == trigger::Mode::NoTrigger ==> *final(self) == *old(self),
            params.mode == trigger::Mode::Background ==> final(self).bg_state == (
            background::Background { has_been_triggered: true, ..old(self).bg_state })
                && final(self).fg_state == old(self).fg_state && final(self).triggers == old(
                self,
            ).triggers,
            params.mode == trigger::Mode::Foreground ==> final(self).fg_state == (
            foreground::Foreground { has_been_triggered: true, ..old(self).fg_state })
                && final(self).bg_state == old(self).bg_state && final(self).triggers == old(
                self,
            ).triggers,
            trigger::spec_is_pool_mode(params.mode) ==> final(self).triggers.slots@ == old(
                self,
            ).triggers.spec_slots_after_add(*params, frame_rate_hz)
                && final(self).triggers.rainbows == old(self).triggers.spec_rainbows_after_add()
                && final(self).bg_state == old(self).bg_state && final(self).fg_state == old(
                self,
            ).fg_state,
    {
        match params.mode {
            trigger::Mode::NoTrigger => {},
            trigger::Mode::Background => {
                self.bg_state.has_been_triggered = true;
            },
            trigger::Mode::Foreground => {
                self.fg_state.has_been_triggered = true;
            },
            _ => {
                self.triggers.add_trigger(params, frame_rate_hz);
            },
        }
    }

    /// The colors painted by the last update.
    pub fn segment(&self) -> (r: &[Rgb])
        ensures
            r@ == self.segment@,
    {
        self.segment.as_slice()
    }

    /// The logical-to-physical index map.
    pub fn translation_array(&self) -> (r: &[usize])
        ensures
            r@ == self.translation_array@,
    {
        self.translation_array.as_slice()
    }

    /// Copies `new_array` into the translation array, entry by entry, up to
    /// whichever is shorter.
    pub fn update_translation_array(&mut self, new_array: &[usize])
        ensures
            final(self).translation_array@.len() == old(self).translation_array@.len(),
            forall|j: int|
                0 <= j < final(self).translation_array@.len()
                    ==> final(self).translation_array@[j] == (if j < new_array@.len() {
                    new_array@[j]
                } else {
                    old(self).translation_array@[j]
                }),
            final(self).segment == old(self).segment,
            final(self).bg_state == old(self).bg_state,
            final(self).fg_state == old(self).fg_state,
            final(self).triggers == old(self).triggers,
    {
        let mut j: usize = 0;
        let limit: usize = if new_array.len() < self.translation_array.len() {
            new_array.len()
        } else {
            self.translation_array.len()
        };
        while j < limit
            invariant
                limit <= new_array@.len(),
                limit <= self.translation_array@.len(),
                self.translation_array@.len() == old(self).translation_array@.len(),
                j <= limit,
                forall|i: int|
                    0 <= i < j ==> self.translation_array@[i] == new_array@[i],
                forall|i: int|
                    j <= i < self.translation_array@.len() ==> self.translation_array@[i] == old(
                        self,
                    ).translation_array@[i],
                self.segment == old(self).segment,
                self.bg_state == old(self).bg_state,
                self.fg_state == old(self).fg_state,
                self.triggers == old(self).triggers,
            decreases limit - j,
        {
            let value: usize = new_array[j];
            self.translation_array.set(j, value);
            j += 1;
        }
    }

    /// Sets the background's direction.
    pub fn update_bg_direction(&mut self, new_direction: Direction)
        ensures
            final(self).bg_state == (background::Background {
                direction: new_direction,
                ..old(self).bg_state
            }),
            final(self).fg_state == old(self).fg_state,
            final(self).triggers == old(self).triggers,
            final(self).segment == old(self).segment,
            final(self).translation_array == old(self).translation_array,
    {
        self.bg_state.direction = new_direction;
    }

    /// Rebuilds the background's frame progression from a duration.
    pub fn update_bg_duration_ns(&mut self, new_time: u64, frame_rate_hz: u32)
        requires
            (new_time as int * frame_rate_hz as int) / 1_000_000_000 <= i32::MAX,
        ensures
            final(self).bg_state == (background::Background {
                frames: spec_frames_from_ns(new_time, frame_rate_hz),
                ..old(self).bg_state
            }),
            final(self).fg_state == old(self).fg_state,
            final(self).triggers == old(self).triggers,
            final(self).segment == old(self).segment,
            final(self).translation_array == old(self).translation_array,
    {
        let frame_count: usize = convert_ns_to_frames(new_time, frame_rate_hz);
        self.bg_state.frames = Progression::new(frame_count);
    }

    /// Sets the background's painting mode.
    pub fn update_bg_mode(&mut self, new_mode: background::Mode)
        ensures
            final(self).bg_state == (background::Background {
                mode: new_mode,
                ..old(self).bg_state
            }),
            final(self).fg_state == old(self).fg_state,
            final(self).triggers == old(self).triggers,
            final(self).segment == old(self).segment,
            final(self).translation_array == old(self).translation_array,
    {
        self.bg_state.mode = new_mode;
    }

    /// Points the background at a new color table, restarting its cursor.
    pub fn update_bg_rainbow(&mut self, new_rainbow: &'a [Rgb], rainbow_dir: RainbowDir)
        ensures
            final(self).bg_state == (background::Background {
                rainbow: spec_fresh_rainbow(new_rainbow, rainbow_dir),
                ..old(self).bg_state
            }),
            final(self).fg_state == old(self).fg_state,
            final(self).triggers == old(self).triggers,
            final(self).segment == old(self).segment,
            final(self).translation_array == old(self).translation_array,
    {
        self.bg_state.rainbow = StatefulRainbow::new(new_rainbow, rainbow_dir);
    }

    /// Sets the background's subdivision count.
    pub fn update_bg_subdivisions(&mut self, new_value: usize)
        ensures
            final(self).bg_state == (background::Background {
                subdivisions: new_value,
                ..old(self).bg_state
            }),
            final(self).fg_state == old(self).fg_state,
            final(self).triggers == old(self).triggers,
            final(self).segment == old(self).segment,
            final(self).translation_array == old(self).translation_array,
    {
        self.bg_state.subdivisions = new_value;
    }

    /// Sets the foreground's direction.
    pub fn update_fg_direction(&mut self, new_direction: Direction)
        ensures
            final(self).fg_state == (foreground::Foreground {
                direction: new_direction,
                ..old(self).fg_state
            }),
            final(self).bg_state == old(self).bg_state,
            final(self).triggers == old(self).triggers,
            final(self).segment == old(self).segment,
            final(self).translation_array == old(self).translation_array,
    {
        self.fg_state.direction = new_direction;
    }

    /// Rebuilds the foreground's frame progression from a duration.
    pub fn update_fg_duration_ns(&mut self, new_time: u64, frame_rate_hz: u32)
        requires
            (new_time as int * frame_rate_hz as int) / 1_000_000_000 <= usize::MAX,
        ensures
            final(self).fg_state == (foreground::Foreground {
                frames: spec_frames_from_ns(new_time, frame_rate_hz),
                ..old(self).fg_state
            }),
            final(self).bg_state == old(self).bg_state,
            final(self).triggers == old(self).triggers,
            final(self).segment == old(self).segment,
            final(self).translation_array == old(self).translation_array,
    {
        let frame_count: usize = convert_ns_to_frames(new_time, frame_rate_hz);
        self.fg_state.frames = Progression::new(frame_count);
    }

    /// Sets the foreground's painting mode.
    pub fn update_fg_mode(&mut self, new_mode: foreground::Mode)
        ensures
            final(self).fg_state == (foreground::Foreground {
                mode: new_mode,
                ..old(self).fg_state
            }),
            final(self).bg_state == old(self).bg_state,
            final(self).triggers == old(self).triggers,
            final(self).segment == old(self).segment,
            final(self).translation_array == old(self).translation_array,
    {
        self.fg_state.mode = new_mode;
    }

    /// Sets how many pixels each marquee group spans.
    pub fn update_fg_pixels_per_pixel_group(&mut self, new_value: usize)
        ensures
            final(self).fg_state == (foreground::Foreground {
                pixels_per_pixel_group: new_value,
                ..old(self).fg_state
            }),
            final(self).bg_state == old(self).bg_state,
            final(self).triggers == old(self).triggers,
            final(self).segment == old(self).segment,
            final(self).translation_array == old(self).translation_array,
    {
        self.fg_state.pixels_per_pixel_group = new_value;
    }

    /// Points the foreground at a new color table, restarting its cursor.
    pub fn update_fg_rainbow(&mut self, new_rainbow: &'a [Rgb], rainbow_dir: RainbowDir)
        ensures
            final(self).fg_state == (foreground::Foreground {
                rainbow: spec_fresh_rainbow(new_rainbow, rainbow_dir),
                ..old(self).fg_state
            }),
            final(self).bg_state == old(self).bg_state,
            final(self).triggers == old(self).triggers,
            final(self).segment == old(self).segment,
            final(self).translation_array == old(self).translation_array,
    {
        self.fg_state.rainbow = StatefulRainbow::new(new_rainbow, rainbow_dir);
    }

    /// Rebuilds the foreground's step progression from a duration.
    pub fn update_fg_step_time_ns(&mut self, new_time: u64, frame_rate_hz: u32)
        requires
            (new_time as int * frame_rate_hz as int) / 1_000_000_000 <= usize::MAX,
        ensures
            final(self).fg_state == (foreground::Foreground {
                step_frames: spec_frames_from_ns(new_time, frame_rate_hz),
                ..old(self).fg_state
            }),
            final(self).bg_state == old(self).bg_state,
            final(self).triggers == old(self).triggers,
            final(self).segment == old(self).segment,
            final(self).translation_array == old(self).translation_array,
    {
        let frame_count: usize = convert_ns_to_frames(new_time, frame_rate_hz);
        self.fg_state.step_frames = Progression::new(frame_count);
    }

    /// Sets the foreground's subdivision count.
    pub fn update_fg_subdivisions(&mut self, new_value: usize)
        ensures
            final(self).fg_state == (foreground::Foreground {
                subdivisions: new_value,
                ..old(self).fg_state
            }),
            final(self).bg_state == old(self).bg_state,
            final(self).triggers == old(self).triggers,
            final(self).segment == old(self).segment,
            final(self).translation_array == old(self).translation_array,
    {
        self.fg_state.subdivisions = new_value;
    }

    /// Rebuilds the default trigger duration from a duration.
    pub fn update_trig_duration_ns(&mut self, new_time: u64, frame_rate_hz: u32)
        requires
            (new_time as int * frame_rate_hz as int) / 1_000_000_000 <= usize::MAX,
        ensures
            final(self).triggers.rainbows == (crate::utility::TimedRainbows {
                frames: spec_frames_from_ns(new_time, frame_rate_hz),
                ..old(self).triggers.rainbows
            }),
            final(self).triggers.slots == old(self).triggers.slots,
            final(self).bg_state == old(self).bg_state,
            final(self).fg_state == old(self).fg_state,
            final(self).segment == old(self).segment,
            final(self).translation_array == old(self).translation_array,
    {
        let frame_count: usize = convert_ns_to_frames(new_time, frame_rate_hz);
        self.triggers.rainbows.frames = Progression::new(frame_count);
    }

    /// Points the triggers' fade table at a new color table.
    pub fn update_trig_fade_rainbow(&mut self, new_rainbow: &'a [Rgb], rainbow_dir: RainbowDir)
        ensures
            final(self).triggers.rainbows == (crate::utility::TimedRainbows {
                fade_rainbow: spec_fresh_rainbow(new_rainbow, rainbow_dir),
                ..old(self).triggers.rainbows
            }),
            final(self).triggers.slots == old(self).triggers.slots,
            final(self).bg_state == old(self).bg_state,
            final(self).fg_state == old(self).fg_state,
            final(self).segment == old(self).segment,
            final(self).translation_array == old(self).translation_array,
    {
        self.triggers.rainbows.fade_rainbow = StatefulRainbow::new(new_rainbow, rainbow_dir);
    }

    /// Points the triggers' incremental table at a new color table.
    pub fn update_trig_incremental_rainbow(
        &mut self,
        new_rainbow: &'a [Rgb],
        rainbow_dir: RainbowDir,
    )
        ensures
            final(self).triggers.rainbows == (crate::utility::TimedRainbows {
                incremental_rainbow: spec_fresh_rainbow(new_rainbow, rainbow_dir),
                ..old(self).triggers.rainbows
            }),
            final(self).triggers.slots == old(self).triggers.slots,
            final(self).bg_state == old(self).bg_state,
            final(self).fg_state == old(self).fg_state,
            final(self).segment == old(self).segment,
            final(self).translation_array == old(self).translation_array,
    {
        self.triggers.rainbows.incremental_rainbow = StatefulRainbow::new(
            new_rainbow,
            rainbow_dir,
        );
    }

    /// Builder form of `update_translation_array`.
    pub fn set_translation_array(self, new_array: Vec<usize>) -> (r: Self)
        ensures
            r.translation_array@.len() == self.translation_array@.len(),
            forall|j: int|
                0 <= j < r.translation_array@.len() ==> r.translation_array@[j] == (if j
                    < new_array@.len() {
                    new_array@[j]
                } else {
                    self.translation_array@[j]
                }),
            r.segment == self.segment,
            r.bg_state == self.bg_state,
            r.fg_state == self.fg_state,
            r.triggers == self.triggers,
    {
        let mut updated: Animation<'a> = self;
        updated.update_translation_array(new_array.as_slice());
        updated
    }

    /// Builder form of `update_bg_direction`.
    pub fn set_bg_direction(self, new_direction: Direction) -> (r: Self)
        ensures
            r.bg_state == (background::Background { direction: new_direction, ..self.bg_state }),
            r.fg_state == self.fg_state,
            r.triggers == self.triggers,
            r.segment == self.segment,
            r.translation_array == self.translation_array,
    {
        let mut updated: Animation<'a> = self;
        updated.update_bg_direction(new_direction);
        updated
    }

    /// Builder form of `update_bg_duration_ns`.
    pub fn set_bg_duration_ns(self, new_time: u64, frame_rate_hz: u32) -> (r: Self)
        requires
            (new_time as int * frame_rate_hz as int) / 1_000_000_000 <= i32::MAX,
        ensures
            r.bg_state == (background::Background { frames: spec_frames_from_ns(new_time, frame_rate_hz), ..self.bg_state }),
            r.fg_state == self.fg_state,
            r.triggers == self.triggers,
            r.segment == self.segment,
            r.translation_array == self.translation_array,
    {
        let mut updated: Animation<'a> = self;
        updated.update_bg_duration_ns(new_time, frame_rate_hz);
        updated
    }

    /// Builder form of `update_bg_mode`.
    pub fn set_bg_mode(self, new_mode: background::Mode) -> (r: Self)
        ensures
            r.bg_state == (background::Background { mode: new_mode, ..self.bg_state }),
            r.fg_state == self.fg_state,
            r.triggers == self.triggers,
            r.segment == self.segment,
            r.translation_array == self.translation_array,
    {
        let mut updated: Animation<'a> = self;
        updated.update_bg_mode(new_mode);
        updated
    }

    /// Builder form of `update_bg_rainbow`.
    pub fn set_bg_rainbow(self, new_rainbow: &'a [Rgb], rainbow_dir: RainbowDir) -> (r: Self)
        ensures
            r.bg_state == (background::Background { rainbow: spec_fresh_rainbow(new_rainbow, rainbow_dir), ..self.bg_state }),
            r.fg_state == self.fg_state,
            r.triggers == self.triggers,
            r.segment == self.segment,
            r.translation_array == self.translation_array,
    {
        let mut updated: Animation<'a> = self;
        updated.update_bg_rainbow(new_rainbow, rainbow_dir);
        updated
    }

    /// Builder form of `update_bg_subdivisions`.
    pub fn set_bg_subdivisions(self, new_value: usize) -> (r: Self)
        ensures
            r.bg_state == (background::Background { subdivisions: new_value, ..self.bg_state }),
            r.fg_state == self.fg_state,
            r.triggers == self.triggers,
            r.segment == self.segment,
            r.translation_array == self.translation_array,
    {
        let mut updated: Animation<'a> = self;
        updated.update_bg_subdivisions(new_value);
        updated
    }

    /// Builder form of `update_fg_direction`.
    pub fn set_fg_direction(self, new_direction: Direction) -> (r: Self)
        ensures
            r.fg_state == (foreground::Foreground { direction: new_direction, ..self.fg_state }),
            r.bg_state == self.bg_state,
            r.triggers == self.triggers,
            r.segment == self.segment,
            r.translation_array == self.translation_array,
    {
        let mut updated: Animation<'a> = self;
        updated.update_fg_direction(new_direction);
        updated
    }

    /// Builder form of `update_fg_duration_ns`.
    pub fn set_fg_duration_ns(self, new_time: u64, frame_rate_hz: u32) -> (r: Self)
        requires
            (new_time as int * frame_rate_hz as int) / 1_000_000_000 <= usize::MAX,
        ensures
            r.fg_state == (foreground::Foreground { frames: spec_frames_from_ns(new_time, frame_rate_hz), ..self.fg_state }),
            r.bg_state == self.bg_state,
            r.triggers == self.triggers,
            r.segment == self.segment,
            r.translation_array == self.translation_array,
    {
        let mut updated: Animation<'a> = self;
        updated.update_fg_duration_ns(new_time, frame_rate_hz);
        updated
    }

    /// Builder form of `update_fg_mode`.
    pub fn set_fg_mode(self, new_mode: foreground::Mode) -> (r: Self)
        ensures
            r.fg_state == (foreground::Foreground { mode: new_mode, ..self.fg_state }),
            r.bg_state == self.bg_state,
            r.triggers == self.triggers,
            r.segment == self.segment,
            r.translation_array == self.translation_array,
    {
        let mut updated: Animation<'a> = self;
        updated.update_fg_mode(new_mode);
        updated
    }

    /// Builder form of `update_fg_rainbow`.
    pub fn set_fg_rainbow(self, new_rainbow: &'a [Rgb], rainbow_dir: RainbowDir) -> (r: Self)
        ensures
            r.fg_state == (foreground::Foreground { rainbow: spec_fresh_rainbow(new_rainbow, rainbow_dir), ..self.fg_state }),
            r.bg_state == self.bg_state,
            r.triggers == self.triggers,
            r.segment == self.segment,
            r.translation_array == self.translation_array,
    {
        let mut updated: Animation<'a> = self;
        updated.update_fg_rainbow(new_rainbow, rainbow_dir);
        updated
    }

    /// Builder form of `update_fg_pixels_per_pixel_group`.
    pub fn set_fg_pixels_per_pixel_group(self, new_value: usize) -> (r: Self)
        ensures
            r.fg_state == (foreground::Foreground { pixels_per_pixel_group: new_value, ..self.fg_state }),
            r.bg_state == self.bg_state,
            r.triggers == self.triggers,
            r.segment == self.segment,
            r.translation_array == self.translation_array,
    {
        let mut updated: Animation<'a> = self;
        updated.update_fg_pixels_per_pixel_group(new_value);
        updated
    }

    /// Builder form of `update_fg_step_time_ns`.
    pub fn set_fg_step_time_ns(self, new_time: u64, frame_rate_hz: u32) -> (r: Self)
        requires
            (new_time as int * frame_rate_hz as int) / 1_000_000_000 <= usize::MAX,
        ensures
            r.fg_state == (foreground::Foreground { step_frames: spec_frames_from_ns(new_time, frame_rate_hz), ..self.fg_state }),
            r.bg_state == self.bg_state,
            r.triggers == self.triggers,
            r.segment == self.segment,
            r.translation_array == self.translation_array,
    {
        let mut updated: Animation<'a> = self;
        updated.update_fg_step_time_ns(new_time, frame_rate_hz);
        updated
    }

    /// Builder form of `update_fg_subdivisions`.
    pub fn set_fg_subdivisions(self, new_value: usize) -> (r: Self)
        ensures
            r.fg_state == (foreground::Foreground { subdivisions: new_value, ..self.fg_state }),
            r.bg_state == self.bg_state,
            r.triggers == self.triggers,
            r.segment == self.segment,
            r.translation_array == self.translation_array,
    {
        let mut updated: Animation<'a> = self;
        updated.update_fg_subdivisions(new_value);
        updated
    }

    /// Builder form of `update_trig_duration_ns`.
    pub fn set_trig_duration_ns(self, new_time: u64, frame_rate_hz: u32) -> (r: Self)
        requires
            (new_time as int * frame_rate_hz as int) / 1_000_000_000 <= usize::MAX,
        ensures
            r.triggers.rainbows == (crate::utility::TimedRainbows { frames: spec_frames_from_ns(new_time, frame_rate_hz), ..self.triggers.rainbows }),
            r.triggers.slots == self.triggers.slots,
            r.bg_state == self.bg_state,
            r.fg_state == self.fg_state,
            r.segment == self.segment,
            r.translation_array == self.translation_array,
    {
        let mut updated: Animation<'a> = self;
        updated.update_trig_duration_ns(new_time, frame_rate_hz);
        updated
    }

    /// Builder form of `update_trig_fade_rainbow`.
    pub fn set_trig_fade_rainbow(self, new_rainbow: &'a [Rgb], rainbow_dir: RainbowDir) -> (r: Self)
        ensures
            r.triggers.rainbows == (crate::utility::TimedRainbows { fade_rainbow: spec_fresh_rainbow(new_rainbow, rainbow_dir), ..self.triggers.rainbows }),
            r.triggers.slots == self.triggers.slots,
            r.bg_state == self.bg_state,
            r.fg_state == self.fg_state,
            r.segment == self.segment,
            r.translation_array == self.translation_array,
    {
        let mut updated: Animation<'a> = self;
        updated.update_trig_fade_rainbow(new_rainbow, rainbow_dir);
        updated
    }

    /// Builder form of `update_trig_incremental_rainbow`.
    pub fn set_trig_incremental_rainbow(self, new_rainbow: &'a [Rgb], rainbow_dir: RainbowDir) -> (r: Self)
        ensures
            r.triggers.rainbows == (crate::utility::TimedRainbows { incremental_rainbow: spec_fresh_rainbow(new_rainbow, rainbow_dir), ..self.triggers.rainbows }),
            r.triggers.slots == self.triggers.slots,
            r.bg_state == self.bg_state,
            r.fg_state == self.fg_state,
            r.segment == self.segment,
            r.translation_array == self.translation_array,
    {
        let mut updated: Animation<'a> = self;
        updated.update_trig_incremental_rainbow(new_rainbow, rainbow_dir);
        updated
    }
}



/// Law: with a background mode that paints every pixel one color and a
/// foreground mode that paints only its marquee subset, one update shows
/// the foreground color exactly on that subset and the background color
/// everywhere else, as long as no trigger overlay is active.
pub proof fn lemma_layer_composition<'a>(a: Animation<'a>)
    requires
        a.wf(),
        a.bg_state.mode == background::Mode::Solid,
        a.fg_state.mode == foreground::Mode::MarqueeSolid,
        forall|i: int|
            0 <= i < a.triggers.slots@.len() ==> #[trigger] a.triggers.slots@[i]
                matches Option::None,
    ensures
        a.updated_seg_view().len() == a.segment@.len(),
        forall|i: int|
            0 <= i < a.segment@.len() ==> a.updated_seg_view()[i] == (
            if a.fg_state.spec_consumed().spec_marquee_on(i) {
                a.fg_state.spec_consumed().rainbow.spec_current_color()
            } else {
                a.bg_state.spec_consumed().rainbow.spec_current_color()
            }),
{
    let bg1 = a.bg_state.spec_consumed();
    let fg1 = a.fg_state.spec_consumed();
    let seg1 = bg1.spec_painted(a.segment@);
    let seg2 = fg1.spec_painted(seg1);
    trigger::lemma_slots_painted_all_none(
        a.triggers.slots@,
        MAX_NUM_ACTIVE_TRIGGERS as int,
        seg2,
    );
}

} // verus!
