//! A frame-based animation engine for addressable LED strips.
//!
//! Each frame tick, a [`LightingController`] advances every animation layer it
//! owns and flushes the freshly painted colors through a per-animation
//! translation array into one shared [`LogicalStrip`] buffer. Animations are
//! flushed in declaration order, so at overlapping physical indices the last
//! animation's color wins.

pub mod animations;
pub mod colors;
pub mod utility;

use crate::animations::{background, foreground};
use crate::animations::{Animatable, Animation, AnimationType};
use crate::colors::Rgb;
use vstd::prelude::*;

verus! {

/// The shared physical color buffer all animations flush into.
pub struct LogicalStrip {
    pub color_buffer: Vec<Rgb>,
}

impl LogicalStrip {
    /// A strip over the given buffer.
    pub fn new(color_buffer: Vec<Rgb>) -> (r: LogicalStrip)
        ensures
            r.color_buffer == color_buffer,
    {
        LogicalStrip { color_buffer }
    }

    /// Reads the color at `index`.
    pub fn get_color_at_index(&self, index: usize) -> (c: Rgb)
        requires
            index < self.color_buffer@.len(),
        ensures
            c == self.color_buffer@[index as int],
    {
        self.color_buffer[index]
    }

    /// Writes `color` at `index`.
    pub fn set_color_at_index(&mut self, index: usize, color: Rgb)
        requires
            index < old(self).color_buffer@.len(),
        ensures
            final(self).color_buffer@ == old(self).color_buffer@.update(index as int, color),
    {
        self.color_buffer.set(index, color);
    }

    /// Fills the whole strip with one color.
    pub fn set_strip_to_solid_color(&mut self, color: Rgb)
        ensures
            final(self).color_buffer@.len() == old(self).color_buffer@.len(),
            forall|i: int|
                0 <= i < final(self).color_buffer@.len() ==> final(self).color_buffer@[i]
                    == color,
    {
        let mut i: usize = 0;
        while i < self.color_buffer.len()
            invariant
                i <= self.color_buffer@.len(),
                self.color_buffer@.len() == old(self).color_buffer@.len(),
                forall|j: int| 0 <= j < i ==> self.color_buffer@[j] == color,
            decreases self.color_buffer@.len() - i,
        {
            self.color_buffer.set(i, color);
            i += 1;
        }
    }
}

/// How many logical pixels one animation flushes: its translation array and
/// segment zipped, so the shorter of the two.
pub open spec fn spec_pair_count(m: Seq<usize>, seg: Seq<Rgb>) -> int {
    if m.len() <= seg.len() {
        m.len() as int
    } else {
        seg.len() as int
    }
}

/// The strip after one animation's first `upto` pixels are flushed: pixel
/// `j` of the segment lands at physical index `m[j]`, later writes over
/// earlier ones.
pub open spec fn spec_flush_one(buf: Seq<Rgb>, m: Seq<usize>, seg: Seq<Rgb>, upto: int) -> Seq<
    Rgb,
>
    decreases upto,
{
    if upto <= 0 {
        buf
    } else {
        let prev = spec_flush_one(buf, m, seg, upto - 1);
        if (m[upto - 1] as int) < prev.len() {
            prev.update(m[upto - 1] as int, seg[upto - 1])
        } else {
            prev
        }
    }
}

/// The strip after the first `upto` animations flushed, in declaration
/// order.
pub open spec fn spec_flush_upto<'a>(buf: Seq<Rgb>, anims: Seq<Animation<'a>>, upto: int) -> Seq<
    Rgb,
>
    decreases upto,
{
    if upto <= 0 {
        buf
    } else {
        let prev = spec_flush_upto(buf, anims, upto - 1);
        let a = anims[upto - 1];
        spec_flush_one(
            prev,
            a.translation_array@,
            a.segment@,
            spec_pair_count(a.translation_array@, a.segment@),
        )
    }
}

/// Flushing never changes the strip's length.
pub proof fn lemma_flush_one_len(buf: Seq<Rgb>, m: Seq<usize>, seg: Seq<Rgb>, upto: int)
    ensures
        spec_flush_one(buf, m, seg, upto).len() == buf.len(),
    decreases upto,
{
    if upto > 0 {
        lemma_flush_one_len(buf, m, seg, upto - 1);
    }
}

/// Flushing any number of animations never changes the strip's length.
pub proof fn lemma_flush_upto_len<'a>(buf: Seq<Rgb>, anims: Seq<Animation<'a>>, upto: int)
    ensures
        spec_flush_upto(buf, anims, upto).len() == buf.len(),
    decreases upto,
{
    if upto > 0 {
        lemma_flush_upto_len(buf, anims, upto - 1);
        let prev = spec_flush_upto(buf, anims, upto - 1);
        let a = anims[upto - 1];
        lemma_flush_one_len(
            prev,
            a.translation_array@,
            a.segment@,
            spec_pair_count(a.translation_array@, a.segment@),
        );
    }
}

/// A physical index no flushed pixel maps to keeps its old color.
pub proof fn lemma_flush_one_untouched(
    buf: Seq<Rgb>,
    m: Seq<usize>,
    seg: Seq<Rgb>,
    upto: int,
    t: int,
)
    requires
        forall|j: int| 0 <= j < upto ==> #[trigger] m[j] as int != t,
        0 <= t < buf.len(),
    ensures
        spec_flush_one(buf, m, seg, upto)[t] == buf[t],
    decreases upto,
{
    if upto > 0 {
        lemma_flush_one_untouched(buf, m, seg, upto - 1, t);
        lemma_flush_one_len(buf, m, seg, upto - 1);
    }
}

/// The last pixel of one animation that maps to a physical index decides
/// that index's color.
pub proof fn lemma_flush_one_last_write(
    buf: Seq<Rgb>,
    m: Seq<usize>,
    seg: Seq<Rgb>,
    upto: int,
    j: int,
)
    requires
        0 <= j < upto,
        upto <= m.len(),
        upto <= seg.len(),
        (m[j] as int) < buf.len(),
        forall|j2: int| j < j2 < upto ==> #[trigger] m[j2] != m[j],
    ensures
        spec_flush_one(buf, m, seg, upto)[m[j] as int] == seg[j],
    decreases upto,
{
    lemma_flush_one_len(buf, m, seg, upto - 1);
    if upto - 1 == j {
    } else {
        lemma_flush_one_last_write(buf, m, seg, upto - 1, j);
    }
}

/// Flushing the first `upto` animations reads nothing past them: two
/// animation sequences that agree on that prefix flush alike.
pub proof fn lemma_flush_upto_prefix<'a>(
    buf: Seq<Rgb>,
    anims1: Seq<Animation<'a>>,
    anims2: Seq<Animation<'a>>,
    upto: int,
)
    requires
        upto <= anims1.len(),
        upto <= anims2.len(),
        forall|i: int| 0 <= i < upto ==> anims1[i] == anims2[i],
    ensures
        spec_flush_upto(buf, anims1, upto) == spec_flush_upto(buf, anims2, upto),
    decreases upto,
{
    if upto > 0 {
        lemma_flush_upto_prefix(buf, anims1, anims2, upto - 1);
    }
}

/// A physical index none of the animations `from .. upto` write keeps the
/// color it had after the first `from` animations flushed.
pub proof fn lemma_flush_upto_untouched<'a>(
    buf: Seq<Rgb>,
    anims: Seq<Animation<'a>>,
    from: int,
    upto: int,
    t: int,
)
    requires
        0 <= from <= upto <= anims.len(),
        0 <= t < buf.len(),
        forall|kk: int, j2: int|
            from <= kk < upto && 0 <= j2 < spec_pair_count(
                anims[kk].translation_array@,
                anims[kk].segment@,
            ) ==> #[trigger] anims[kk].translation_array@[j2] as int != t,
    ensures
        spec_flush_upto(buf, anims, upto)[t] == spec_flush_upto(buf, anims, from)[t],
    decreases upto - from,
{
    if upto > from {
        lemma_flush_upto_untouched(buf, anims, from, upto - 1, t);
        lemma_flush_upto_len(buf, anims, upto - 1);
        lemma_flush_one_untouched(
            spec_flush_upto(buf, anims, upto - 1),
            anims[upto - 1].translation_array@,
            anims[upto - 1].segment@,
            spec_pair_count(anims[upto - 1].translation_array@, anims[upto - 1].segment@),
            t,
        );
    }
}

/// Law: when two animations' translation arrays overlap at one physical
/// index, the strip shows the later animation's color there after a flush.
/// `k` is the last animation writing to physical index `m[j]`, and `j` is
/// the last of its pixels mapping there.
pub proof fn lemma_last_write_wins<'a>(
    buf: Seq<Rgb>,
    anims: Seq<Animation<'a>>,
    k: int,
    j: int,
)
    requires
        0 <= k < anims.len(),
        0 <= j < spec_pair_count(anims[k].translation_array@, anims[k].segment@),
        (anims[k].translation_array@[j] as int) < buf.len(),
        forall|j2: int|
            j < j2 < spec_pair_count(anims[k].translation_array@, anims[k].segment@)
                ==> #[trigger] anims[k].translation_array@[j2] != anims[k].translation_array@[j],
        forall|k2: int, j2: int|
            k < k2 < anims.len() && 0 <= j2 < spec_pair_count(
                anims[k2].translation_array@,
                anims[k2].segment@,
            ) ==> #[trigger] anims[k2].translation_array@[j2] != anims[k].translation_array@[j],
    ensures
        spec_flush_upto(buf, anims, anims.len() as int)[anims[k].translation_array@[j] as int]
            == anims[k].segment@[j],
{
    let t = anims[k].translation_array@[j] as int;
    lemma_flush_upto_len(buf, anims, k);
    lemma_flush_one_last_write(
        spec_flush_upto(buf, anims, k),
        anims[k].translation_array@,
        anims[k].segment@,
        spec_pair_count(anims[k].translation_array@, anims[k].segment@),
        j,
    );
    lemma_flush_upto_untouched(buf, anims, k + 1, anims.len() as int, t);
}

/// Owns a fixed set of animations and drives them all one frame per
/// `update`, flushing each animation's segment through its translation
/// array into the shared strip, in declaration order.
pub struct LightingController<'a> {
    pub animations: Vec<Animation<'a>>,
    pub frame_rate: u32,
}

impl<'a> LightingController<'a> {
    /// Every owned animation is internally consistent.
    pub open spec fn wf(self) -> bool {
        forall|k: int|
            0 <= k < self.animations@.len() ==> (#[trigger] self.animations@[k]).wf()
    }

    /// A controller over `animations`, converting caller durations at
    /// `frame_rate` frames per second.
    pub fn new(animations: Vec<Animation<'a>>, frame_rate: u32) -> (r: LightingController<'a>)
        ensures
            r.animations == animations,
            r.frame_rate == frame_rate,
    {
        LightingController { animations, frame_rate }
    }

    /// Advances every animation one frame and flushes each segment through
    /// its translation array into `logical_strip`, in declaration order, so
    /// later animations overwrite earlier ones at overlapping indices.
    pub fn update(&mut self, logical_strip: &mut LogicalStrip)
        requires
            old(self).wf(),
            forall|k: int, j: int|
                0 <= k < old(self).animations@.len() && 0 <= j < old(
                    self,
                ).animations@[k].translation_array@.len() ==> #[trigger] old(
                    self,
                ).animations@[k].translation_array@[j] < old(logical_strip).color_buffer@.len(),
        ensures
            final(self).wf(),
            final(self).frame_rate == old(self).frame_rate,
            final(self).animations@.len() == old(self).animations@.len(),
            forall|k: int|
                0 <= k < old(self).animations@.len() ==> (#[trigger] final(self).animations@[k]).translation_array == old(self).animations@[k].translation_array,
            forall|k: int|
                0 <= k < old(self).animations@.len() ==> (#[trigger] final(self).animations@[k]).segment@ == old(self).animations@[k].updated_seg_view(),
            forall|k: int|
                0 <= k < old(self).animations@.len() ==> (#[trigger] final(self).animations@[k]).bg_state == old(self).animations@[k].bg_state.spec_consumed().spec_stepped(),
            forall|k: int|
                0 <= k < old(self).animations@.len() ==> (#[trigger] final(self).animations@[k]).fg_state == old(self).animations@[k].fg_state.spec_consumed().spec_stepped(),
            forall|k: int|
                0 <= k < old(self).animations@.len() ==> (#[trigger] final(self).animations@[k]).triggers.slots@ == crate::animations::trigger::spec_slots_stepped(
                    old(self).animations@[k].triggers.slots@,
                ),
            forall|k: int|
                0 <= k < old(self).animations@.len() ==> (#[trigger] final(self).animations@[k]).triggers.rainbows == old(self).animations@[k].triggers.rainbows,
            final(logical_strip).color_buffer@ == spec_flush_upto(
                old(logical_strip).color_buffer@,
                final(self).animations@,
                final(self).animations@.len() as int,
            ),
            final(logical_strip).color_buffer@.len() == old(logical_strip).color_buffer@.len(),
    {
        let mut k: usize = 0;
        let n: usize = self.animations.len();
        while k < n
            invariant
                self.frame_rate == old(self).frame_rate,
                n == self.animations@.len(),
                n == old(self).animations@.len(),
                k <= n,
                forall|kk: int|
                    k <= kk < n ==> #[trigger] self.animations@[kk] == old(self).animations@[kk],
                forall|kk: int|
                    0 <= kk < k ==> (#[trigger] self.animations@[kk]).wf(),
                forall|kk: int|
                    0 <= kk < k ==> (#[trigger] self.animations@[kk]).translation_array == old(self).animations@[kk].translation_array,
                forall|kk: int|
                    0 <= kk < k ==> (#[trigger] self.animations@[kk]).segment@ == old(self).animations@[kk].updated_seg_view(),
                forall|kk: int|
                    0 <= kk < k ==> (#[trigger] self.animations@[kk]).bg_state == old(self).animations@[kk].bg_state.spec_consumed().spec_stepped(),
                forall|kk: int|
                    0 <= kk < k ==> (#[trigger] self.animations@[kk]).fg_state == old(self).animations@[kk].fg_state.spec_consumed().spec_stepped(),
                forall|kk: int|
                    0 <= kk < k ==> (#[trigger] self.animations@[kk]).triggers.slots@
                        == crate::animations::trigger::spec_slots_stepped(old(self).animations@[kk].triggers.slots@),
                forall|kk: int|
                    0 <= kk < k ==> (#[trigger] self.animations@[kk]).triggers.rainbows == old(self).animations@[kk].triggers.rainbows,
                old(self).wf(),
                forall|kk: int, j: int|
                    0 <= kk < n && 0 <= j < old(self).animations@[kk].translation_array@.len()
                        ==> #[trigger] old(self).animations@[kk].translation_array@[j] < old(
                        logical_strip,
                    ).color_buffer@.len(),
                logical_strip.color_buffer@ == spec_flush_upto(
                    old(logical_strip).color_buffer@,
                    self.animations@,
                    k as int,
                ),
                logical_strip.color_buffer@.len() == old(logical_strip).color_buffer@.len(),
            decreases n - k,
        {
            let ghost strip_before: Seq<Rgb> = logical_strip.color_buffer@;
            let ghost anims_before: Seq<Animation<'a>> = self.animations@;
            let a: &mut Animation<'a> = &mut self.animations[k];
            a.update();
            let limit: usize = if a.translation_array.len() <= a.segment.len() {
                a.translation_array.len()
            } else {
                a.segment.len()
            };
            let ghost m: Seq<usize> = a.translation_array@;
            let ghost seg: Seq<Rgb> = a.segment@;
            let mut j: usize = 0;
            while j < limit
                invariant
                    j <= limit,
                    limit as int == spec_pair_count(m, seg),
                    m == a.translation_array@,
                    seg == a.segment@,
                    limit <= a.translation_array@.len(),
                    limit <= a.segment@.len(),
                    forall|jj: int| 0 <= jj < m.len() ==> #[trigger] m[jj] < strip_before.len(),
                    logical_strip.color_buffer@ == spec_flush_one(strip_before, m, seg, j as int),
                    logical_strip.color_buffer@.len() == strip_before.len(),
                decreases limit - j,
            {
                let physical: usize = a.translation_array[j];
                let color: Rgb = a.segment[j];
                logical_strip.set_color_at_index(physical, color);
                j += 1;
            }
            proof {
                assert(logical_strip.color_buffer@ == spec_flush_one(
                    strip_before,
                    m,
                    seg,
                    spec_pair_count(m, seg),
                ));
            }
            k += 1;
            proof {
                let buf0 = old(logical_strip).color_buffer@;
                assert(self.animations@ =~= anims_before.update(
                    k - 1,
                    self.animations@[k - 1],
                ));
                lemma_flush_upto_prefix(buf0, anims_before, self.animations@, k - 1);
                assert(spec_flush_upto(buf0, self.animations@, k - 1) == strip_before);
                assert(self.animations@[k - 1].translation_array@ == m);
                assert(self.animations@[k - 1].segment@ == seg);
                assert(spec_flush_upto(buf0, self.animations@, k as int) == spec_flush_one(
                    strip_before,
                    m,
                    seg,
                    spec_pair_count(m, seg),
                ));
                assert(logical_strip.color_buffer@ == spec_flush_upto(
                    buf0,
                    self.animations@,
                    k as int,
                ));
            }
        }
    }

    /// Routes one trigger event to the animation at `animation_index`,
    /// converting its duration at the controller's frame rate.
    pub fn trigger(&mut self, animation_index: usize, params: &crate::animations::trigger::Parameters)
        requires
            old(self).wf(),
            animation_index < old(self).animations@.len(),
            old(self).animations@[animation_index as int].trigger_req(
                *params,
                old(self).frame_rate,
            ),
        ensures
            final(self).wf(),
            final(self).frame_rate == old(self).frame_rate,
            final(self).animations@.len() == old(self).animations@.len(),
            forall|k: int|
                0 <= k < old(self).animations@.len() && k != animation_index ==> final(self).animations@[k] == old(self).animations@[k],
            final(self).animations@[animation_index as int].segment == old(self).animations@[animation_index as int].segment,
            final(self).animations@[animation_index as int].translation_array == old(self).animations@[animation_index as int].translation_array,
            params.mode == crate::animations::trigger::Mode::NoTrigger ==> final(self).animations@[animation_index as int] == old(self).animations@[animation_index as int],
            params.mode == crate::animations::trigger::Mode::Background ==> final(self).animations@[animation_index as int].bg_state == (background::Background {
                has_been_triggered: true,
                ..old(self).animations@[animation_index as int].bg_state
            }),
            params.mode == crate::animations::trigger::Mode::Foreground ==> final(self).animations@[animation_index as int].fg_state == (foreground::Foreground {
                has_been_triggered: true,
                ..old(self).animations@[animation_index as int].fg_state
            }),
            crate::animations::trigger::spec_is_pool_mode(params.mode) ==> final(self).animations@[animation_index as int].triggers.slots@ == old(self).animations@[animation_index as int].triggers.spec_slots_after_add(
                *params,
                old(self).frame_rate,
            ),
            crate::animations::trigger::spec_is_pool_mode(params.mode) ==> final(self).animations@[animation_index as int].triggers.rainbows == old(self).animations@[animation_index as int].triggers.spec_rainbows_after_add(),
    {
        let rate: u32 = self.frame_rate;
        let a: &mut Animation<'a> = &mut self.animations[animation_index];
        a.trigger(params, rate);
    }

    /// Applies a 16-bit phase offset to one layer of the animation at
    /// `animation_index`.
    pub fn set_offset(&mut self, animation_index: usize, a_type: AnimationType, offset: u16)
        requires
            old(self).wf(),
            animation_index < old(self).animations@.len(),
        ensures
            final(self).wf(),
            final(self).frame_rate == old(self).frame_rate,
            final(self).animations@.len() == old(self).animations@.len(),
            forall|k: int|
                0 <= k < old(self).animations@.len() && k != animation_index ==> final(self).animations@[k] == old(self).animations@[k],
            a_type == AnimationType::Background ==> final(self).animations@[animation_index as int].bg_state == (background::Background {
                offset,
                ..old(self).animations@[animation_index as int].bg_state
            }) && final(self).animations@[animation_index as int].fg_state == old(self).animations@[animation_index as int].fg_state,
            a_type == AnimationType::Foreground ==> final(self).animations@[animation_index as int].fg_state == (foreground::Foreground {
                offset,
                ..old(self).animations@[animation_index as int].fg_state
            }) && final(self).animations@[animation_index as int].bg_state == old(self).animations@[animation_index as int].bg_state,
            a_type == AnimationType::Trigger ==> final(self).animations@[animation_index as int]
                == old(self).animations@[animation_index as int],
            final(self).animations@[animation_index as int].segment == old(self).animations@[animation_index as int].segment,
            final(self).animations@[animation_index as int].translation_array == old(self).animations@[animation_index as int].translation_array,
            final(self).animations@[animation_index as int].triggers == old(self).animations@[animation_index as int].triggers,
    {
        let a: &mut Animation<'a> = &mut self.animations[animation_index];
        a.set_offset(a_type, offset);
    }

    /// Hot-swaps the animation occupying a slot.
    pub fn replace_animation(&mut self, index: usize, new_anim: Animation<'a>)
        requires
            index < old(self).animations@.len(),
        ensures
            final(self).animations@ == old(self).animations@.update(index as int, new_anim),
            final(self).frame_rate == old(self).frame_rate,
    {
        let a: &mut Animation<'a> = &mut self.animations[index];
        *a = new_anim;
    }
}

} // verus!

