//! The bounded pool of transient, self-expiring trigger overlays.

use crate::animations::RainbowDir;
use crate::colors::Rgb;
use crate::utility::{
    convert_ns_to_frames, fill_solid, spec_frames_from_ns, spec_fresh_rainbow, Progression,
    StatefulRainbow, TimedRainbows,
};
use vstd::arithmetic::div_mod::*;
use vstd::arithmetic::mul::*;
use vstd::prelude::*;

verus! {

/// Where a trigger event is routed.
#[derive(Clone, Copy, Debug, PartialEq, Eq, Structural)]
pub enum Mode {
    /// The event is dropped.
    NoTrigger,
    /// The event sets the background layer's trigger flag.
    Background,
    /// The event sets the foreground layer's trigger flag.
    Foreground,
    /// A transient overlay lighting one pixel, placed by the trigger's
    /// offset.
    ColorPulse,
    /// A transient overlay lighting the whole segment.
    Flash,
}

/// True for the modes that occupy a slot in the trigger pool.
pub open spec fn spec_is_pool_mode(mode: Mode) -> bool {
    match mode {
        Mode::ColorPulse => true,
        Mode::Flash => true,
        _ => false,
    }
}

/// Everything one trigger event carries.
#[derive(Clone, Copy, Debug, PartialEq, Eq, Structural)]
pub struct Parameters {
    pub mode: Mode,
    pub duration_ns: u64,
    pub starting_offset: u16,
}

/// The shared trigger configuration of one animation: the two color tables
/// all its triggers draw from, and the default duration for new triggers.
pub struct GlobalParameters<'a> {
    pub fade_rainbow: &'a [Rgb],
    pub fade_rainbow_dir: RainbowDir,
    pub incremental_rainbow: &'a [Rgb],
    pub incremental_rainbow_dir: RainbowDir,
    pub duration_ns: u64,
}

/// One active trigger: its overlay mode, the color it was given when it was
/// admitted, its placement offset, and its remaining-lifetime counter.
#[derive(Clone, Copy, Debug, PartialEq, Eq, Structural)]
pub struct Trigger {
    pub mode: Mode,
    pub color: Rgb,
    pub offset: u16,
    pub frames: Progression,
}

/// The pixel a `ColorPulse` lights on a segment of `n` pixels: its 16-bit
/// offset scaled down to the segment, `offset * n / 65536`.
pub open spec fn spec_pulse_index(t: Trigger, n: int) -> int {
    (t.offset as int) * n / 65536
}

/// What one active trigger paints over the segment.
pub open spec fn spec_paint_one(t: Trigger, seg: Seq<Rgb>) -> Seq<Rgb> {
    match t.mode {
        Mode::Flash => Seq::new(seg.len(), |i: int| t.color),
        Mode::ColorPulse => if seg.len() == 0 {
            seg
        } else {
            seg.update(spec_pulse_index(t, seg.len() as int), t.color)
        },
        _ => seg,
    }
}

/// The segment after the first `upto` slots have painted, in slot order.
pub open spec fn spec_slots_painted(
    slots: Seq<Option<Trigger>>,
    upto: int,
    seg: Seq<Rgb>,
) -> Seq<Rgb>
    decreases upto,
{
    if upto <= 0 {
        seg
    } else {
        let prev = spec_slots_painted(slots, upto - 1, seg);
        match slots[upto - 1] {
            Option::Some(t) => spec_paint_one(t, prev),
            Option::None => prev,
        }
    }
}

/// One slot after one frame: the lifetime counter advances, and a slot
/// whose cycle completes (or never had more than one frame) is freed.
pub open spec fn spec_slot_stepped(slot: Option<Trigger>) -> Option<Trigger> {
    match slot {
        Option::None => Option::None,
        Option::Some(t) => {
            if t.frames.spec_is_mono() || t.frames.spec_inc().raw() == 0 {
                Option::None
            } else {
                Option::Some(Trigger { frames: t.frames.spec_inc(), ..t })
            }
        },
    }
}

/// Every slot after one frame.
pub open spec fn spec_slots_stepped(slots: Seq<Option<Trigger>>) -> Seq<Option<Trigger>> {
    Seq::new(slots.len(), |i: int| spec_slot_stepped(slots[i]))
}

/// The smallest free slot index at or past `from`; the pool size when every
/// slot from there on is occupied.
pub open spec fn spec_first_free(slots: Seq<Option<Trigger>>, from: int) -> int
    decreases slots.len() - from,
{
    if from < 0 || from >= slots.len() {
        slots.len() as int
    } else {
        match slots[from] {
            Option::None => from,
            Option::Some(t) => spec_first_free(slots, from + 1),
        }
    }
}

/// The trigger a new event is admitted as: the event's mode and offset, the
/// pool's current incremental color, and a lifetime of
/// `duration_ns * rate / 1_000_000_000` frames.
pub open spec fn spec_new_trigger(color: Rgb, params: Parameters, frame_rate_hz: u32) -> Trigger {
    Trigger {
        mode: params.mode,
        color,
        offset: params.starting_offset,
        frames: Progression {
            current: 0,
            total: ((params.duration_ns as int * frame_rate_hz as int) / 1_000_000_000) as usize,
            is_forward: true,
        },
    }
}

/// Up to `M` concurrently active, independently timed trigger overlays,
/// sharing one fade table and one incremental table. A full pool rejects
/// new triggers; a freed slot is reused by a later admission.
pub struct TriggerCollection<'a, const M: usize> {
    pub slots: Vec<Option<Trigger>>,
    pub rainbows: TimedRainbows<'a>,
}

impl<'a, const M: usize> TriggerCollection<'a, M> {
    /// Exactly `M` slots, well-formed shared state, and a well-formed
    /// lifetime counter in every active slot.
    pub open spec fn wf(self) -> bool {
        &&& self.slots@.len() == M
        &&& self.rainbows.fade_rainbow.wf()
        &&& self.rainbows.incremental_rainbow.wf()
        &&& self.rainbows.frames.wf()
        &&& forall|i: int|
            0 <= i < self.slots@.len() ==> (#[trigger] self.slots@[i] matches Option::Some(t)
                ==> t.frames.wf())
    }

    /// The slots after an admission: the first free slot takes the new
    /// trigger; a full pool is unchanged.
    pub open spec fn spec_slots_after_add(
        self,
        params: Parameters,
        frame_rate_hz: u32,
    ) -> Seq<Option<Trigger>> {
        let ff = spec_first_free(self.slots@, 0);
        if ff >= self.slots@.len() {
            self.slots@
        } else {
            self.slots@.update(
                ff,
                Option::Some(
                    spec_new_trigger(
                        self.rainbows.incremental_rainbow.spec_current_color(),
                        params,
                        frame_rate_hz,
                    ),
                ),
            )
        }
    }

    /// The shared color state after an admission: the incremental cursor
    /// advances past the color the new trigger took; a full pool is
    /// unchanged.
    pub open spec fn spec_rainbows_after_add(self) -> TimedRainbows<'a> {
        let ff = spec_first_free(self.slots@, 0);
        if ff >= self.slots@.len() {
            self.rainbows
        } else {
            TimedRainbows {
                incremental_rainbow: self.rainbows.incremental_rainbow.spec_increment(),
                ..self.rainbows
            }
        }
    }

    /// An empty pool drawing from the two tables in `parameters`, with the
    /// default trigger duration converted to frames at `frame_rate_hz`.
    pub fn new(parameters: &GlobalParameters<'a>, frame_rate_hz: u32) -> (r: TriggerCollection<
        'a,
        M,
    >)
        requires
            (parameters.duration_ns as int * frame_rate_hz as int) / 1_000_000_000 <= usize::MAX,
        ensures
            r.slots@.len() == M,
            forall|i: int| 0 <= i < M ==> #[trigger] r.slots@[i] matches Option::None,
            r.rainbows == (TimedRainbows {
                fade_rainbow: spec_fresh_rainbow(
                    parameters.fade_rainbow,
                    parameters.fade_rainbow_dir,
                ),
                incremental_rainbow: spec_fresh_rainbow(
                    parameters.incremental_rainbow,
                    parameters.incremental_rainbow_dir,
                ),
                frames: spec_frames_from_ns(parameters.duration_ns, frame_rate_hz),
            }),
            r.wf(),
    {
        let mut slots: Vec<Option<Trigger>> = Vec::new();
        let mut i: usize = 0;
        while i < M
            invariant
                i <= M,
                slots@.len() == i,
                forall|j: int| 0 <= j < i ==> #[trigger] slots@[j] matches Option::None,
            decreases M - i,
        {
            slots.push(Option::None);
            i += 1;
        }
        let frame_count: usize = convert_ns_to_frames(parameters.duration_ns, frame_rate_hz);
        let rainbows = TimedRainbows {
            fade_rainbow: StatefulRainbow::new(parameters.fade_rainbow, parameters.fade_rainbow_dir),
            incremental_rainbow: StatefulRainbow::new(
                parameters.incremental_rainbow,
                parameters.incremental_rainbow_dir,
            ),
            frames: Progression::new(frame_count),
        };
        TriggerCollection { slots, rainbows }
    }

    /// Admits a new trigger into the first free slot, coloring it with the
    /// incremental table's current color and advancing that cursor; a full
    /// pool rejects the event and is left unchanged.
    pub fn add_trigger(&mut self, params: &Parameters, frame_rate_hz: u32)
        requires
            old(self).wf(),
            spec_is_pool_mode(params.mode),
            (params.duration_ns as int * frame_rate_hz as int) / 1_000_000_000 <= usize::MAX,
        ensures
            final(self).slots@ == old(self).spec_slots_after_add(*params, frame_rate_hz),
            final(self).rainbows == old(self).spec_rainbows_after_add(),
            final(self).wf(),
    {
        let mut idx: usize = 0;
        let mut found: bool = false;
        while idx < self.slots.len() && !found
            invariant
                self.slots@.len() == M,
                *self == *old(self),
                idx <= self.slots@.len(),
                !found ==> spec_first_free(self.slots@, 0) == spec_first_free(
                    self.slots@,
                    idx as int,
                ),
                found ==> idx < self.slots@.len() && spec_first_free(self.slots@, 0) == idx
                    as int,
            decreases self.slots@.len() - idx + (if found {
                0int
            } else {
                1int
            }),
        {
            let is_free: bool = match &self.slots[idx] {
                Option::None => true,
                Option::Some(t) => false,
            };
            if is_free {
                found = true;
            } else {
                idx += 1;
            }
        }
        if found {
            let color: Rgb = self.rainbows.incremental_rainbow.current_color();
            self.rainbows.incremental_rainbow.increment();
            let frame_count: usize = convert_ns_to_frames(params.duration_ns, frame_rate_hz);
            self.slots.set(
                idx,
                Option::Some(
                    Trigger {
                        mode: params.mode,
                        color,
                        offset: params.starting_offset,
                        frames: Progression::new(frame_count),
                    },
                ),
            );
        }
    }

    /// Advances every active trigger one frame, painting its overlay atop
    /// the segment in slot order and freeing every slot whose cycle
    /// completed.
    pub fn update(&mut self, segment: &mut Vec<Rgb>)
        requires
            old(self).wf(),
        ensures
            final(segment)@ == spec_slots_painted(old(self).slots@, M as int, old(segment)@),
            final(segment)@.len() == old(segment)@.len(),
            final(self).slots@ == spec_slots_stepped(old(self).slots@),
            final(self).rainbows == old(self).rainbows,
            final(self).wf(),
    {
        let mut s: usize = 0;
        while s < self.slots.len()
            invariant
                self.slots@.len() == M,
                self.rainbows == old(self).rainbows,
                old(self).wf(),
                s <= M,
                forall|j: int| s <= j < M ==> self.slots@[j] == old(self).slots@[j],
                forall|j: int|
                    0 <= j < s ==> self.slots@[j] == spec_slot_stepped(old(self).slots@[j]),
                forall|j: int|
                    0 <= j < self.slots@.len() ==> (#[trigger] self.slots@[j] matches Option::Some(
                        t,
                    ) ==> t.frames.wf()),
                segment@ == spec_slots_painted(old(self).slots@, s as int, old(segment)@),
                segment@.len() == old(segment)@.len(),
            decreases M - s,
        {
            let ghost prev_seg: Seq<Rgb> = segment@;
            let slot: Option<Trigger> = self.slots[s];
            proof {
                assert(slot == old(self).slots@[s as int]);
            }
            match slot {
                Option::None => {
                    proof {
                        assert(spec_slots_painted(old(self).slots@, s + 1, old(segment)@)
                            == prev_seg);
                    }
                },
                Option::Some(t) => {
                    match t.mode {
                        Mode::Flash => {
                            fill_solid(segment, t.color);
                            proof {
                                assert(segment@ =~= spec_paint_one(t, prev_seg));
                            }
                        },
                        Mode::ColorPulse => {
                            if segment.len() > 0 {
                                let n: usize = segment.len();
                                proof {
                                    lemma_mul_nonnegative(t.offset as int, n as int);
                                    lemma_mul_upper_bound(
                                        t.offset as int,
                                        0xFFFF,
                                        n as int,
                                        u64::MAX as int,
                                    );
                                    lemma_mul_inequality(t.offset as int, 65535, n as int);
                                    lemma_multiply_divide_lt(65535 * (n as int), n as int, 65536);
                                    lemma_div_is_ordered(
                                        (t.offset as int) * (n as int),
                                        65535 * (n as int),
                                        65536,
                                    );
                                }
                                let p: usize = ((t.offset as u128) * (n as u128) / 65536u128)
                                    as usize;
                                segment.set(p, t.color);
                                proof {
                                    assert(segment@ =~= spec_paint_one(t, prev_seg));
                                }
                            } else {
                                proof {
                                    assert(segment@ =~= spec_paint_one(t, prev_seg));
                                }
                            }
                        },
                        _ => {
                            proof {
                                assert(segment@ =~= spec_paint_one(t, prev_seg));
                            }
                        },
                    }
                    proof {
                        assert(spec_slots_painted(old(self).slots@, s + 1, old(segment)@)
                            == spec_paint_one(t, prev_seg));
                    }
                    let mut fr: Progression = t.frames;
                    let wrapped: bool = fr.checked_increment();
                    let expired: bool = wrapped || fr.total <= 1;
                    if expired {
                        self.slots.set(s, Option::None);
                    } else {
                        self.slots.set(s, Option::Some(Trigger { frames: fr, ..t }));
                    }
                    proof {
                        assert(self.slots@[s as int] == spec_slot_stepped(
                            old(self).slots@[s as int],
                        ));
                    }
                },
            }
            s += 1;
        }
        proof {
            assert(self.slots@ =~= spec_slots_stepped(old(self).slots@));
        }
    }
}

/// A pool with no active slot among the first `upto` paints nothing.
pub proof fn lemma_slots_painted_all_none(slots: Seq<Option<Trigger>>, upto: int, seg: Seq<Rgb>)
    requires
        forall|i: int| 0 <= i < upto ==> #[trigger] slots[i] matches Option::None,
    ensures
        spec_slots_painted(slots, upto, seg) == seg,
    decreases upto,
{
    if upto > 0 {
        lemma_slots_painted_all_none(slots, upto - 1, seg);
    }
}

/// How many slots are active.
pub open spec fn spec_active_count(slots: Seq<Option<Trigger>>) -> int
    decreases slots.len(),
{
    if slots.len() == 0 {
        0
    } else {
        spec_active_count(slots.drop_last()) + (match slots.last() {
            Option::Some(t) => 1int,
            Option::None => 0int,
        })
    }
}

/// The active count never exceeds the number of slots.
pub proof fn lemma_active_count_bounded(slots: Seq<Option<Trigger>>)
    ensures
        0 <= spec_active_count(slots) <= slots.len(),
    decreases slots.len(),
{
    if slots.len() > 0 {
        lemma_active_count_bounded(slots.drop_last());
    }
}

/// Law: a well-formed pool never holds more than `M` active triggers.
pub proof fn lemma_capacity_bound<'a, const M: usize>(c: TriggerCollection<'a, M>)
    requires
        c.wf(),
    ensures
        spec_active_count(c.slots@) <= M,
{
    lemma_active_count_bounded(c.slots@);
}

/// The first-free search never overshoots a free slot.
pub proof fn lemma_first_free_le(slots: Seq<Option<Trigger>>, from: int, i: int)
    requires
        0 <= from <= i < slots.len(),
        slots[i] matches Option::None,
    ensures
        spec_first_free(slots, from) <= i,
    decreases i - from,
{
    if from < i {
        match slots[from] {
            Option::None => {},
            Option::Some(t) => {
                lemma_first_free_le(slots, from + 1, i);
            },
        }
    }
}

/// Law: when a slot's cycle completes, the frame update frees it, and the
/// freed slot is found by a later admission: the stepped pool has a free
/// slot, so `add_trigger` will occupy one.
pub proof fn lemma_completed_slot_becomes_available(slots: Seq<Option<Trigger>>, i: int)
    requires
        0 <= i < slots.len(),
        spec_slot_stepped(slots[i]) matches Option::None,
    ensures
        spec_slots_stepped(slots)[i] matches Option::None,
        spec_first_free(spec_slots_stepped(slots), 0) < slots.len(),
{
    lemma_first_free_le(spec_slots_stepped(slots), 0, i);
}

} // verus!
