//! Timing and cursor utilities: the cyclic [`Progression`] counter,
//! directional rainbow cursors, duration conversion and offset math.

use crate::animations::{Direction, RainbowDir, MAX_OFFSET};
use crate::colors::{fade_spec, ManipulatableColor, Rgb};
use vstd::arithmetic::div_mod::*;
use vstd::arithmetic::mul::*;
use vstd::prelude::*;

verus! {

/// A cyclic counter over `[0, total)` driving frame timing and color cursors.
///
/// A progression is *mono* when `total <= 1`: it always reads 0 and every
/// mutator is a no-op. The raw position always moves forward on `increment`
/// and backward on `decrement`; the `is_forward` flag affects only how
/// `get_current` reads the position (backward mirrors it to
/// `total - 1 - raw`).
#[derive(Clone, Copy, Debug, PartialEq, Eq, Structural)]
pub struct Progression {
    pub current: usize,
    pub total: usize,
    pub is_forward: bool,
}

impl Progression {
    /// The raw cyclic position, before the direction mapping.
    pub open spec fn raw(self) -> usize {
        self.current
    }

    /// A mono progression has at most one position and never moves.
    pub open spec fn spec_is_mono(self) -> bool {
        self.total <= 1
    }

    /// The raw position stays inside the cycle.
    pub open spec fn wf(self) -> bool {
        if self.total == 0 {
            self.raw() == 0
        } else {
            self.raw() < self.total
        }
    }

    /// What `get_current` reads: 0 when mono, the raw position when forward,
    /// its mirror when backward.
    pub open spec fn spec_current(self) -> int {
        if self.spec_is_mono() {
            0
        } else if self.is_forward {
            self.raw() as int
        } else {
            self.total - 1 - self.raw()
        }
    }

    /// The raw position one step forward, wrapping at `total`.
    pub open spec fn spec_next_raw(self) -> int {
        if self.spec_is_mono() {
            self.raw() as int
        } else {
            (self.raw() + 1) % (self.total as int)
        }
    }

    /// The raw position one step backward, wrapping at 0.
    pub open spec fn spec_prev_raw(self) -> int {
        if self.spec_is_mono() {
            self.raw() as int
        } else {
            (self.raw() + self.total - 1) % (self.total as int)
        }
    }

    /// The state after `increment`.
    pub open spec fn spec_inc(self) -> Self {
        if self.spec_is_mono() {
            self
        } else {
            Progression { current: self.spec_next_raw() as usize, ..self }
        }
    }

    /// The state after `decrement`.
    pub open spec fn spec_dec(self) -> Self {
        if self.spec_is_mono() {
            self
        } else {
            Progression { current: self.spec_prev_raw() as usize, ..self }
        }
    }

    /// The state after `set_current(value)`.
    pub open spec fn spec_set(self, value: usize) -> Self {
        if self.spec_is_mono() {
            self
        } else {
            Progression { current: (value as int % self.total as int) as usize, ..self }
        }
    }

    /// The state after `reset`.
    pub open spec fn spec_reset(self) -> Self {
        Progression { current: 0, ..self }
    }

    /// The state after `reverse_direction`.
    pub open spec fn spec_rev(self) -> Self {
        Progression { is_forward: !self.is_forward, ..self }
    }

    /// A fresh counter: raw position 0, reading forward.
    pub fn new(total: usize) -> (r: Self)
        ensures
            r.raw() == 0,
            r.total == total,
            r.is_forward,
            r.wf(),
    {
        Self { current: 0, total, is_forward: true }
    }

    /// Toggles the read mapping; the raw position does not move.
    pub fn reverse_direction(&mut self)
        ensures
            *final(self) == old(self).spec_rev(),
            final(self).raw() == old(self).raw(),
            final(self).total == old(self).total,
            final(self).is_forward == !old(self).is_forward,
            final(self).wf() == old(self).wf(),
    {
        self.is_forward = !self.is_forward;
    }

    fn is_mono(&self) -> (r: bool)
        ensures
            r == self.spec_is_mono(),
    {
        self.total <= 1
    }

    /// True exactly when the raw position is at the start of the cycle.
    pub fn is_first_frame(&self) -> (r: bool)
        ensures
            r == (self.raw() == 0),
    {
        self.current == 0
    }

    /// Reads the position through the direction mapping; 0 when mono.
    pub fn get_current(&self) -> (r: usize)
        requires
            self.wf(),
        ensures
            r as int == self.spec_current(),
    {
        if self.is_mono() {
            return 0;
        }
        match self.is_forward {
            true => self.current,
            false => self.total - 1 - self.current,
        }
    }

    /// Moves the raw position to `value % total`; a no-op when mono.
    pub fn set_current(&mut self, value: usize)
        ensures
            *final(self) == old(self).spec_set(value),
            final(self).total == old(self).total,
            final(self).is_forward == old(self).is_forward,
            old(self).spec_is_mono() ==> *final(self) == *old(self),
            !old(self).spec_is_mono() ==> final(self).raw() as int == value as int % old(
                self,
            ).total as int,
            !old(self).spec_is_mono() ==> final(self).wf(),
    {
        if self.is_mono() {
            return ;
        }
        proof {
            lemma_mod_bound(value as int, self.total as int);
        }
        let value: usize = value % self.total;
        self.current = value;
    }

    /// Steps the raw position backward one place; a no-op when mono.
    pub fn decrement(&mut self)
        requires
            old(self).wf(),
        ensures
            *final(self) == old(self).spec_dec(),
            final(self).raw() as int == old(self).spec_prev_raw(),
            final(self).total == old(self).total,
            final(self).is_forward == old(self).is_forward,
            final(self).wf(),
    {
        if self.is_mono() {
            return ;
        }
        let prev: usize = self.peek_prev();
        self.current = prev;
    }

    /// `decrement`, reporting whether the raw position wrapped to `total - 1`.
    pub fn checked_decrement(&mut self) -> (wrapped: bool)
        requires
            old(self).wf(),
        ensures
            *final(self) == old(self).spec_dec(),
            final(self).total == old(self).total,
            final(self).is_forward == old(self).is_forward,
            final(self).wf(),
            old(self).spec_is_mono() ==> !wrapped && *final(self) == *old(self),
            !old(self).spec_is_mono() ==> wrapped == (final(self).raw() == old(self).total - 1)
                && wrapped == (old(self).raw() == 0),
    {
        if self.is_mono() {
            return false;
        }
        proof {
            let t = self.total as int;
            let c = self.raw() as int;
            if c == 0 {
                lemma_small_mod((t - 1) as nat, t as nat);
            } else {
                lemma_mod_multiples_vanish(1, c - 1, t);
                lemma_small_mod((c - 1) as nat, t as nat);
            }
        }
        self.decrement();
        self.current == self.total - 1
    }

    /// Steps the raw position forward one place; a no-op when mono.
    pub fn increment(&mut self)
        requires
            old(self).wf(),
        ensures
            *final(self) == old(self).spec_inc(),
            final(self).raw() as int == old(self).spec_next_raw(),
            final(self).total == old(self).total,
            final(self).is_forward == old(self).is_forward,
            final(self).wf(),
    {
        if self.is_mono() {
            return ;
        }
        let next: usize = self.peek_next();
        self.current = next;
    }

    /// `increment`, reporting whether the raw position wrapped to 0.
    pub fn checked_increment(&mut self) -> (wrapped: bool)
        requires
            old(self).wf(),
        ensures
            *final(self) == old(self).spec_inc(),
            final(self).total == old(self).total,
            final(self).is_forward == old(self).is_forward,
            final(self).wf(),
            old(self).spec_is_mono() ==> !wrapped && *final(self) == *old(self),
            !old(self).spec_is_mono() ==> wrapped == (final(self).raw() == 0) && wrapped == (old(
                self,
            ).raw() == old(self).total - 1),
    {
        if self.is_mono() {
            return false;
        }
        proof {
            let t = self.total as int;
            let c = self.raw() as int;
            if c + 1 == t {
                lemma_mod_self_0(t);
            } else {
                lemma_small_mod((c + 1) as nat, t as nat);
            }
        }
        self.increment();
        self.current == 0
    }

    /// The raw position `increment` would move to, without moving.
    pub fn peek_next(&self) -> (r: usize)
        requires
            self.wf(),
        ensures
            r as int == self.spec_next_raw(),
            r < self.total || self.spec_is_mono(),
    {
        if self.is_mono() {
            return self.current;
        }
        proof {
            let t = self.total as int;
            let c = self.raw() as int;
            if c + 1 == t {
                lemma_mod_self_0(t);
            } else {
                lemma_small_mod((c + 1) as nat, t as nat);
            }
        }
        if self.current + 1 == self.total {
            0
        } else {
            self.current + 1
        }
    }

    /// The raw position `decrement` would move to, without moving.
    pub fn peek_prev(&self) -> (r: usize)
        requires
            self.wf(),
        ensures
            r as int == self.spec_prev_raw(),
            r < self.total || self.spec_is_mono(),
    {
        if self.is_mono() {
            return self.current;
        }
        proof {
            let t = self.total as int;
            let c = self.raw() as int;
            if c == 0 {
                lemma_small_mod((t - 1) as nat, t as nat);
            } else {
                lemma_mod_multiples_vanish(1, c - 1, t);
                lemma_small_mod((c - 1) as nat, t as nat);
            }
        }
        if self.current == 0 {
            self.total - 1
        } else {
            self.current - 1
        }
    }

    /// Returns the raw position to 0; the direction flag is untouched.
    pub fn reset(&mut self)
        ensures
            *final(self) == old(self).spec_reset(),
            final(self).raw() == 0,
            final(self).total == old(self).total,
            final(self).is_forward == old(self).is_forward,
            final(self).wf(),
    {
        self.current = 0
    }
}

/// How many whole frames fit in `nanos` nanoseconds at `frame_rate_hz`
/// frames per second: `nanos * rate / 1_000_000_000`, truncated.
pub fn convert_ns_to_frames(nanos: u64, frame_rate_hz: u32) -> (frames: usize)
    requires
        (nanos as int * frame_rate_hz as int) / 1_000_000_000 <= usize::MAX,
    ensures
        frames as int == (nanos as int * frame_rate_hz as int) / 1_000_000_000,
{
    proof {
        lemma_mul_nonnegative(nanos as int, frame_rate_hz as int);
        lemma_mul_upper_bound(nanos as int, u64::MAX as int, frame_rate_hz as int, u32::MAX as int);
    }
    let product: u128 = (nanos as u128) * (frame_rate_hz as u128);
    let frames: u128 = product / 1_000_000_000u128;
    frames as usize
}

/// How many whole frames fit in `millis` milliseconds at `frame_rate_hz`
/// frames per second: `millis * rate / 1_000`, truncated.
pub fn convert_ms_to_frames(millis: u64, frame_rate_hz: u32) -> (frames: usize)
    requires
        (millis as int * frame_rate_hz as int) / 1_000 <= usize::MAX,
    ensures
        frames as int == (millis as int * frame_rate_hz as int) / 1_000,
{
    proof {
        lemma_mul_nonnegative(millis as int, frame_rate_hz as int);
        lemma_mul_upper_bound(millis as int, u64::MAX as int, frame_rate_hz as int, u32::MAX as int);
    }
    let product: u128 = (millis as u128) * (frame_rate_hz as u128);
    let frames: u128 = product / 1_000u128;
    frames as usize
}

/// A translation array mapping each of `size` logical pixels to the physical
/// index `start_at + i`.
pub fn default_translation_array(size: usize, start_at: usize) -> (result: Vec<usize>)
    requires
        start_at + size <= usize::MAX,
    ensures
        result@.len() == size,
        forall|i: int| 0 <= i < size ==> result@[i] == start_at + i,
{
    let mut result: Vec<usize> = Vec::new();
    let mut index: usize = 0;
    while index < size
        invariant
            index <= size,
            start_at + size <= usize::MAX,
            result@.len() == index,
            forall|i: int| 0 <= i < index ==> result@[i] == start_at + i,
        decreases size - index,
    {
        result.push(start_at + index);
        index += 1;
    }
    result
}

/// Where a rotating animation stands: `starting_offset` advanced by the
/// fraction of the cycle that `frames` has completed, scaled to the full
/// 16-bit wrap range and reduced modulo 65536. A zero-length cycle leaves
/// the offset unchanged.
pub open spec fn spec_shift_offset(
    starting_offset: u16,
    frames: Progression,
    direction: Direction,
) -> int {
    if frames.total == 0 {
        starting_offset as int
    } else {
        let shift = match direction {
            Direction::Positive => (MAX_OFFSET as int) * frames.spec_current() / (
            frames.total as int),
            Direction::Negative => (MAX_OFFSET as int) * (frames.total - frames.spec_current()) / (
            frames.total as int),
            Direction::Stopped => 0int,
        };
        (starting_offset + shift) % 0x10000
    }
}

/// Advances `starting_offset` by the completed fraction of `frames`, in the
/// chosen direction, wrapping at 65536.
pub fn shift_offset(starting_offset: u16, frames: Progression, direction: Direction) -> (r: u16)
    requires
        frames.wf(),
    ensures
        r as int == spec_shift_offset(starting_offset, frames, direction),
{
    if frames.total == 0 {
        return starting_offset;
    }
    let cur: usize = frames.get_current();
    let total128: u128 = frames.total as u128;
    proof {
        lemma_mul_nonnegative(MAX_OFFSET as int, cur as int);
        lemma_mul_upper_bound(MAX_OFFSET as int, 0xFFFF, cur as int, u64::MAX as int);
        lemma_mul_nonnegative(MAX_OFFSET as int, frames.total - cur);
        lemma_mul_upper_bound(MAX_OFFSET as int, 0xFFFF, frames.total - cur, u64::MAX as int);
    }
    let shift: u128 = match direction {
        Direction::Positive => (MAX_OFFSET as u128) * (cur as u128) / total128,
        Direction::Negative => (MAX_OFFSET as u128) * ((frames.total - cur) as u128) / total128,
        Direction::Stopped => 0,
    };
    let sum: u128 = (starting_offset as u128) + shift;
    (sum % 65536) as u16
}

/// Law: for a well-formed progression, a reading equal to `total` happens
/// only in the degenerate zero-length cycle, and there the offset has been
/// advanced by the full wrap range modulo 65536 — that is, left unchanged.
pub proof fn lemma_shift_offset_full_range(
    starting_offset: u16,
    frames: Progression,
    direction: Direction,
)
    requires
        frames.wf(),
        frames.spec_current() == frames.total,
    ensures
        frames.total == 0,
        spec_shift_offset(starting_offset, frames, direction) == starting_offset,
{
}

/// The progression reached from `p` after `n` calls of `increment`.
pub open spec fn inc_n(p: Progression, n: nat) -> Progression
    decreases n,
{
    if n == 0 {
        p
    } else {
        inc_n(p, (n - 1) as nat).spec_inc()
    }
}

/// After each `increment`, the raw position has advanced by one modulo
/// `total`; direction and length never change.
pub proof fn lemma_inc_n_raw(p: Progression, n: nat)
    requires
        p.wf(),
        p.total > 1,
    ensures
        inc_n(p, n).total == p.total,
        inc_n(p, n).is_forward == p.is_forward,
        inc_n(p, n).wf(),
        inc_n(p, n).raw() as int == (p.raw() + n) % (p.total as int),
    decreases n,
{
    let t = p.total as int;
    if n == 0 {
        lemma_small_mod(p.raw() as nat, t as nat);
    } else {
        lemma_inc_n_raw(p, (n - 1) as nat);
        let q = inc_n(p, (n - 1) as nat);
        lemma_mod_bound((p.raw() + n - 1) as int, t);
        lemma_mod_bound((q.raw() + 1) as int, t);
        lemma_add_mod_noop((p.raw() + n - 1) as int, 1, t);
        lemma_small_mod(1nat, t as nat);
        lemma_mod_twice((p.raw() + n - 1) as int, t);
    }
}

/// Law: a non-mono progression started at the cycle's beginning returns to a
/// reading of 0 after exactly `total` increments, and the wrap that
/// `checked_increment` reports (raw position back at 0) happens exactly once
/// in those `total` steps, at the last one.
pub proof fn lemma_full_cycle(p: Progression)
    requires
        p.wf(),
        p.total > 1,
        p.raw() == 0,
        p.is_forward,
    ensures
        inc_n(p, p.total as nat).raw() == 0,
        inc_n(p, p.total as nat).spec_current() == 0,
        forall|k: nat|
            1 <= k <= p.total ==> ((#[trigger] inc_n(p, k).raw() == 0) <==> k == p.total),
{
    let t = p.total as int;
    lemma_inc_n_raw(p, p.total as nat);
    lemma_mod_self_0(t);
    assert forall|k: nat| 1 <= k <= p.total implies ((#[trigger] inc_n(p, k).raw() == 0) <==> k
        == p.total) by {
        lemma_inc_n_raw(p, k);
        if k < p.total {
            lemma_small_mod(k, t as nat);
        } else {
            lemma_mod_self_0(t);
        }
    }
}

/// Law: a mono progression (`total <= 1`) always reads 0, and no mutator
/// moves it: increment, decrement and set leave it exactly as it is, reset
/// keeps a well-formed one unchanged, and reversing still reads 0.
pub proof fn lemma_mono_always_zero(p: Progression, value: usize)
    requires
        p.total <= 1,
    ensures
        p.spec_current() == 0,
        p.spec_inc() == p,
        p.spec_dec() == p,
        p.spec_set(value) == p,
        p.spec_rev().spec_current() == 0,
        p.wf() ==> p.spec_reset() == p,
{
}

/// Law: reversing direction leaves the raw position unchanged and mirrors
/// the reading to `total - 1 - get_current()`.
pub proof fn lemma_reverse_flips_reading(p: Progression)
    requires
        p.wf(),
        p.total > 1,
    ensures
        p.spec_rev().raw() == p.raw(),
        p.spec_rev().total == p.total,
        p.spec_rev().spec_current() == p.total - 1 - p.spec_current(),
{
}

/// A read-only, direction-aware view over a caller-owned color table.
/// It never copies the table; the table must outlive the view.
pub struct ReversibleRainbow<'a> {
    pub backer: &'a [Rgb],
    pub rainbow_dir: RainbowDir,
}

impl<'a> ReversibleRainbow<'a> {
    /// The backing color table, in storage order.
    pub open spec fn colors(self) -> Seq<Rgb> {
        self.backer@
    }

    /// What `index` reads: position `i` forward, its mirror backward.
    pub open spec fn spec_index(self, i: int) -> Rgb {
        match self.rainbow_dir {
            RainbowDir::Forward => self.colors()[i],
            RainbowDir::Backward => self.colors()[self.colors().len() - 1 - i],
        }
    }

    /// How many colors the backing table holds.
    pub fn len(&self) -> (r: usize)
        ensures
            r == self.colors().len(),
    {
        self.backer.len()
    }

    /// True when the backing table holds no colors.
    pub fn is_empty(&self) -> (r: bool)
        ensures
            r == (self.colors().len() == 0),
    {
        self.backer.len() == 0
    }

    /// Reads the color at `index`, mirrored when the direction is backward.
    pub fn index(&self, index: usize) -> (c: Rgb)
        requires
            index < self.colors().len(),
        ensures
            c == self.spec_index(index as int),
    {
        match self.rainbow_dir {
            RainbowDir::Forward => self.backer[index],
            RainbowDir::Backward => self.backer[self.backer.len() - 1 - index],
        }
    }
}

/// What `StatefulRainbow::new` builds: a cursor at the first color of the
/// table, reading forward.
pub open spec fn spec_fresh_rainbow<'a>(
    rainbow: &'a [Rgb],
    rainbow_dir: RainbowDir,
) -> StatefulRainbow<'a> {
    StatefulRainbow {
        backer: ReversibleRainbow { backer: rainbow, rainbow_dir },
        position: Progression { current: 0, total: rainbow@.len() as usize, is_forward: true },
    }
}

/// What a duration setter builds: a fresh progression of
/// `nanos * rate / 1_000_000_000` frames.
pub open spec fn spec_frames_from_ns(nanos: u64, frame_rate_hz: u32) -> Progression {
    Progression {
        current: 0,
        total: ((nanos as int * frame_rate_hz as int) / 1_000_000_000) as usize,
        is_forward: true,
    }
}

/// A [`ReversibleRainbow`] together with its own cursor [`Progression`]
/// sized to the table, tracking the current color independently of any
/// frame timing.
pub struct StatefulRainbow<'a> {
    pub backer: ReversibleRainbow<'a>,
    pub position: Progression,
}

impl<'a> StatefulRainbow<'a> {
    /// The cursor stays inside the table.
    pub open spec fn wf(self) -> bool {
        self.position.wf() && self.position.total == self.backer.colors().len()
    }

    /// What `current_color` reads: the direction-mapped cursor position, or
    /// black for an empty table.
    pub open spec fn spec_current_color(self) -> Rgb {
        if self.backer.colors().len() == 0 {
            Rgb { r: 0, g: 0, b: 0 }
        } else {
            self.backer.spec_index(self.position.spec_current())
        }
    }

    /// What `peek_next_color` reads: one raw step ahead of the cursor, or
    /// black for an empty table.
    pub open spec fn spec_peek_next_color(self) -> Rgb {
        if self.backer.colors().len() == 0 {
            Rgb { r: 0, g: 0, b: 0 }
        } else {
            self.backer.spec_index(self.position.spec_next_raw())
        }
    }

    /// What `peek_last_color` reads: one raw step behind the cursor, or
    /// black for an empty table.
    pub open spec fn spec_peek_last_color(self) -> Rgb {
        if self.backer.colors().len() == 0 {
            Rgb { r: 0, g: 0, b: 0 }
        } else {
            self.backer.spec_index(self.position.spec_prev_raw())
        }
    }

    /// The rainbow with its cursor stepped forward once.
    pub open spec fn spec_increment(self) -> Self {
        StatefulRainbow { position: self.position.spec_inc(), ..self }
    }

    /// The rainbow with its cursor stepped backward once.
    pub open spec fn spec_decrement(self) -> Self {
        StatefulRainbow { position: self.position.spec_dec(), ..self }
    }

    /// The rainbow with its cursor returned to the start.
    pub open spec fn spec_reset(self) -> Self {
        StatefulRainbow { position: self.position.spec_reset(), ..self }
    }

    /// A cursor over `rainbow`, starting at the first color.
    pub fn new(rainbow: &'a [Rgb], rainbow_dir: RainbowDir) -> (r: StatefulRainbow<'a>)
        ensures
            r == spec_fresh_rainbow(rainbow, rainbow_dir),
            r.backer.backer == rainbow,
            r.backer.rainbow_dir == rainbow_dir,
            r.position.raw() == 0,
            r.position.total == rainbow@.len(),
            r.position.is_forward,
            r.wf(),
    {
        let position = Progression::new(rainbow.len());
        let backer = ReversibleRainbow { backer: rainbow, rainbow_dir };
        Self { backer, position }
    }

    /// The color under the cursor; black for an empty table.
    pub fn current_color(&self) -> (c: Rgb)
        requires
            self.wf(),
        ensures
            c == self.spec_current_color(),
    {
        if self.backer.is_empty() {
            Rgb { r: 0, g: 0, b: 0 }
        } else {
            self.backer.index(self.position.get_current())
        }
    }

    /// Steps the cursor backward one color.
    pub fn decrement(&mut self)
        requires
            old(self).wf(),
        ensures
            *final(self) == old(self).spec_decrement(),
            final(self).wf(),
    {
        self.position.decrement();
    }

    /// Steps the cursor forward one color.
    pub fn increment(&mut self)
        requires
            old(self).wf(),
        ensures
            *final(self) == old(self).spec_increment(),
            final(self).wf(),
    {
        self.position.increment();
    }

    /// The color one raw step ahead, without moving the cursor.
    pub fn peek_next_color(&self) -> (c: Rgb)
        requires
            self.wf(),
        ensures
            c == self.spec_peek_next_color(),
    {
        if self.backer.is_empty() {
            Rgb { r: 0, g: 0, b: 0 }
        } else {
            self.backer.index(self.position.peek_next())
        }
    }

    /// The color one raw step behind, without moving the cursor.
    pub fn peek_last_color(&self) -> (c: Rgb)
        requires
            self.wf(),
        ensures
            c == self.spec_peek_last_color(),
    {
        if self.backer.is_empty() {
            Rgb { r: 0, g: 0, b: 0 }
        } else {
            self.backer.index(self.position.peek_prev())
        }
    }

    /// Returns the cursor to the first color.
    pub fn reset(&mut self)
        ensures
            *final(self) == old(self).spec_reset(),
    {
        self.position.reset();
    }
}

/// Overwrites every pixel of `segment` with `color`.
pub fn fill_solid(segment: &mut Vec<Rgb>, color: Rgb)
    ensures
        final(segment)@.len() == old(segment)@.len(),
        forall|i: int| 0 <= i < final(segment)@.len() ==> final(segment)@[i] == color,
{
    let mut i: usize = 0;
    while i < segment.len()
        invariant
            i <= segment@.len(),
            segment@.len() == old(segment)@.len(),
            forall|j: int| 0 <= j < i ==> segment@[j] == color,
        decreases segment@.len() - i,
    {
        segment.set(i, color);
        i += 1;
    }
}

/// What a continuous fade shows: the current color blended toward the next
/// color, `frames.get_current()` frames into a range of `frames.total`;
/// a zero-length range shows the current color unchanged.
pub open spec fn spec_fade_color<'a>(rainbow: StatefulRainbow<'a>, frames: Progression) -> Rgb {
    if frames.total == 0 {
        rainbow.spec_current_color()
    } else {
        fade_spec(
            rainbow.spec_current_color(),
            rainbow.spec_peek_next_color(),
            frames.total as int,
            frames.spec_current(),
        )
    }
}

/// Law: at frame position 0 — and always on a zero-length range — the fade
/// shows exactly the current color.
pub proof fn lemma_fade_color_at_start<'a>(rainbow: StatefulRainbow<'a>, frames: Progression)
    requires
        frames.wf(),
        frames.spec_current() == 0,
    ensures
        spec_fade_color(rainbow, frames) == rainbow.spec_current_color(),
{
    if frames.total != 0 {
        crate::colors::lemma_fade_at_start(
            rainbow.spec_current_color(),
            rainbow.spec_peek_next_color(),
            frames.total as int,
        );
    }
}

/// A layer that fades continuously between neighboring rainbow colors.
pub trait FadeRainbow<'a> {
    /// The rainbow the fade reads.
    spec fn spec_rainbow(&self) -> StatefulRainbow<'a>;

    /// The frame progression driving the fade.
    spec fn spec_frames(&self) -> Progression;

    /// The fade's rainbow cursor.
    fn rainbow(&self) -> (r: &StatefulRainbow<'a>)
        ensures
            *r == self.spec_rainbow(),
    ;

    /// The fade's frame progression.
    fn frames(&self) -> (r: &Progression)
        ensures
            *r == self.spec_frames(),
    ;

    /// The blend of the current color toward the next one, as far into the
    /// frame range as the progression has come.
    fn calculate_fade_color(&self) -> (c: Rgb)
        requires
            self.spec_rainbow().wf(),
            self.spec_frames().wf(),
            self.spec_frames().total <= i32::MAX,
        ensures
            c == spec_fade_color(self.spec_rainbow(), self.spec_frames()),
    {
        let rainbow = self.rainbow();
        let frames = self.frames();
        let current_color = rainbow.current_color();
        if frames.total == 0 {
            return current_color;
        }
        let next_color = rainbow.peek_next_color();
        current_color.lerp_with(next_color, *frames)
    }

    /// The color the fade is currently leaving.
    fn current_fade_color(&self) -> (c: Rgb)
        requires
            self.spec_rainbow().wf(),
        ensures
            c == self.spec_rainbow().spec_current_color(),
    {
        self.rainbow().current_color()
    }
}

/// A layer that steps from one rainbow color to the next on a timer.
pub trait MarchingRainbow<'a> {
    /// The rainbow the march reads.
    spec fn spec_rainbow(&self) -> StatefulRainbow<'a>;

    /// The frame progression timing the march.
    spec fn spec_frames(&self) -> Progression;

    /// The march's rainbow cursor.
    fn rainbow(&self) -> (r: &StatefulRainbow<'a>)
        ensures
            *r == self.spec_rainbow(),
    ;

    /// The march's frame progression.
    fn frames(&self) -> (r: &Progression)
        ensures
            *r == self.spec_frames(),
    ;

    /// The color the march currently shows.
    fn current_rainbow_color(&self) -> (c: Rgb)
        requires
            self.spec_rainbow().wf(),
        ensures
            c == self.spec_rainbow().spec_current_color(),
    {
        self.rainbow().current_color()
    }
}

/// Mutable access to a marching layer's cursor and timer.
pub trait MarchingRainbowMut<'a>: Sized {
    /// The rainbow the march reads.
    spec fn marching_rainbow(&self) -> StatefulRainbow<'a>;

    /// The frame progression timing the march.
    spec fn marching_frames(&self) -> Progression;

    /// The same layer with its marching rainbow and frame progression
    /// replaced.
    spec fn with_marching(self, rainbow: StatefulRainbow<'a>, frames: Progression) -> Self;

    /// The march's rainbow cursor, for mutation.
    fn rainbow_mut(&mut self) -> (r: &mut StatefulRainbow<'a>)
        ensures
            *r == old(self).marching_rainbow(),
            *final(self) == old(self).with_marching(*final(r), old(self).marching_frames()),
    ;

    /// The march's frame progression, for mutation.
    fn frames_mut(&mut self) -> (r: &mut Progression)
        ensures
            *r == old(self).marching_frames(),
            *final(self) == old(self).with_marching(old(self).marching_rainbow(), *final(r)),
    ;

    /// Advances the rainbow color and resets the frame count, for use when a
    /// timed step completes.
    fn advance_rainbow_color(&mut self)
        requires
            old(self).marching_rainbow().wf(),
        ensures
            *final(self) == old(self).with_marching(
                old(self).marching_rainbow().spec_increment(),
                old(self).marching_frames().spec_reset(),
            ),
    ;
}

/// The shared trigger color state: one fade rainbow, one stepped rainbow,
/// and the frame progression that times new triggers.
pub struct TimedRainbows<'a> {
    pub fade_rainbow: StatefulRainbow<'a>,
    pub incremental_rainbow: StatefulRainbow<'a>,
    pub frames: Progression,
}

impl<'a> FadeRainbow<'a> for TimedRainbows<'a> {
    open spec fn spec_rainbow(&self) -> StatefulRainbow<'a> {
        self.fade_rainbow
    }

    open spec fn spec_frames(&self) -> Progression {
        self.frames
    }

    fn rainbow(&self) -> (r: &StatefulRainbow<'a>) {
        &self.fade_rainbow
    }

    fn frames(&self) -> (r: &Progression) {
        &self.frames
    }
}

impl<'a> MarchingRainbow<'a> for TimedRainbows<'a> {
    open spec fn spec_rainbow(&self) -> StatefulRainbow<'a> {
        self.incremental_rainbow
    }

    open spec fn spec_frames(&self) -> Progression {
        self.frames
    }

    fn rainbow(&self) -> (r: &StatefulRainbow<'a>) {
        &self.incremental_rainbow
    }

    fn frames(&self) -> (r: &Progression) {
        &self.frames
    }
}

impl<'a> MarchingRainbowMut<'a> for TimedRainbows<'a> {
    open spec fn marching_rainbow(&self) -> StatefulRainbow<'a> {
        self.incremental_rainbow
    }

    open spec fn marching_frames(&self) -> Progression {
        self.frames
    }

    open spec fn with_marching(
        self,
        rainbow: StatefulRainbow<'a>,
        frames: Progression,
    ) -> TimedRainbows<'a> {
        TimedRainbows { incremental_rainbow: rainbow, frames, ..self }
    }

    fn rainbow_mut(&mut self) -> (r: &mut StatefulRainbow<'a>) {
        &mut self.incremental_rainbow
    }

    fn frames_mut(&mut self) -> (r: &mut Progression) {
        &mut self.frames
    }

    fn advance_rainbow_color(&mut self) {
        self.rainbow_mut().increment();
        self.frames_mut().reset();
    }
}

#[verifier::external_type_specification]
#[verifier::external_body]
pub struct ExRng(fastrand::Rng);

/// Relies on `fastrand::Rng::u16` over the full range: it returns some
/// 16-bit value depending on the generator's state; nothing more is assumed
/// of it.
#[verifier::external_body]
pub fn get_random_offset(rng: &mut fastrand::Rng) -> u16 {
    rng.u16(..)
}

} // verus!
