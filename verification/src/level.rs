//! Levels and volumes, held as the bit patterns of IEEE 754 single-precision
//! numbers.
//!
//! A single-precision number is carried as the `u32` with the same bits.  Two
//! such numbers compare as the integers that [`rank`] gives them, so that
//! thresholds, limits and maxima need no arithmetic on the numbers themselves.

use vstd::prelude::*;

verus! {

/// The bits of a number without its sign.
pub open spec fn magnitude(bits: u32) -> int {
    if bits < 0x8000_0000 {
        bits as int
    } else {
        bits - 0x8000_0000
    }
}

/// Whether the bits denote a number that is not an infinity.
pub open spec fn is_finite(bits: u32) -> bool {
    magnitude(bits) < 0x7f80_0000
}

/// Whether the bits denote no number.
pub open spec fn is_nan(bits: u32) -> bool {
    magnitude(bits) > 0x7f80_0000
}

/// The place of a number in the order of the numbers.  Both zeros have the
/// same place.
pub open spec fn rank(bits: u32) -> int {
    if bits < 0x8000_0000 {
        magnitude(bits)
    } else {
        -magnitude(bits)
    }
}

/// Whether `a` is a number that is at least the number `b`.
pub open spec fn at_least(a: u32, b: u32) -> bool {
    !is_nan(a) && !is_nan(b) && rank(a) >= rank(b)
}

/// Whether `a` is a number greater than the number `b`.
pub open spec fn above(a: u32, b: u32) -> bool {
    !is_nan(a) && !is_nan(b) && rank(a) > rank(b)
}

/// The greater of two numbers; the other one where one is no number.
pub open spec fn greater_of(a: u32, b: u32) -> u32 {
    if is_nan(a) {
        b
    } else if is_nan(b) || rank(a) >= rank(b) {
        a
    } else {
        b
    }
}

/// `bits` limited to the range from `low` to `high`.  What is no number stays.
pub open spec fn limited(bits: u32, low: u32, high: u32) -> u32 {
    if above(low, bits) {
        low
    } else if above(bits, high) {
        high
    } else {
        bits
    }
}

fn rank_of(bits: u32) -> (place: i64)
    ensures
        place == rank(bits),
{
    if bits < 0x8000_0000 {
        bits as i64
    } else {
        0x8000_0000i64 - bits as i64
    }
}

fn nan(bits: u32) -> (yes: bool)
    ensures
        yes == is_nan(bits),
{
    let m: u32 = if bits < 0x8000_0000 {
        bits
    } else {
        bits - 0x8000_0000
    };
    m > 0x7f80_0000
}

fn finite(bits: u32) -> (yes: bool)
    ensures
        yes == is_finite(bits),
{
    let m: u32 = if bits < 0x8000_0000 {
        bits
    } else {
        bits - 0x8000_0000
    };
    m < 0x7f80_0000
}

fn ge(a: u32, b: u32) -> (yes: bool)
    ensures
        yes == at_least(a, b),
{
    !nan(a) && !nan(b) && rank_of(a) >= rank_of(b)
}

fn gt(a: u32, b: u32) -> (yes: bool)
    ensures
        yes == above(a, b),
{
    !nan(a) && !nan(b) && rank_of(a) > rank_of(b)
}

fn limit(bits: u32, low: u32, high: u32) -> (limited_bits: u32)
    ensures
        limited_bits == limited(bits, low, high),
{
    if gt(low, bits) {
        low
    } else if gt(bits, high) {
        high
    } else {
        bits
    }
}

// ---------------------------------------------------------------------------
// Levels
// ---------------------------------------------------------------------------

/// A level in dBFS.
#[derive(Clone, Copy, Debug, PartialEq, Eq, Structural)]
pub struct Level {
    /// The bits of the single-precision number of decibels.
    pub bits: u32,
}

/// -60 dBFS, the lowest level that a meter shows.
pub const FLOOR_BITS: u32 = 0xc270_0000;

/// 0 dBFS, the highest level that a meter shows.
pub const FULL_SCALE_BITS: u32 = 0;

/// -0.1 dBFS, from where on a channel counts as clipping.
pub const CLIP_BITS: u32 = 0xbdcc_cccd;

/// -59 dBFS, above which there is a signal.
pub const SIGNAL_BITS: u32 = 0xc26c_0000;

/// -1 dBFS, from where on a meter is red.
pub const RED_BITS: u32 = 0xbf80_0000;

/// -12 dBFS, from where on a meter is yellow.
pub const YELLOW_BITS: u32 = 0xc140_0000;

/// The part of the scale in which a level lies.
#[derive(Clone, Copy, Debug, PartialEq, Eq, Structural)]
pub enum MeterZone {
    Green,
    Yellow,
    Red,
}

impl Level {
    /// The level that a meter shows for a measured one: within the scale, and
    /// the floor for an infinity and for what is no number.
    pub open spec fn sanitized(self) -> Level {
        if is_finite(self.bits) {
            Level { bits: limited(self.bits, FLOOR_BITS, FULL_SCALE_BITS) }
        } else {
            Level { bits: FLOOR_BITS }
        }
    }

    /// Whether a level is one that a meter shows.
    pub open spec fn on_scale(self) -> bool {
        is_finite(self.bits) && rank(FLOOR_BITS) <= rank(self.bits) <= rank(FULL_SCALE_BITS)
    }

    pub open spec fn is_clipping(self) -> bool {
        at_least(self.bits, CLIP_BITS)
    }

    /// The part of the scale that a level lies in.
    pub open spec fn zone(self) -> MeterZone {
        if at_least(self.bits, RED_BITS) {
            MeterZone::Red
        } else if at_least(self.bits, YELLOW_BITS) {
            MeterZone::Yellow
        } else {
            MeterZone::Green
        }
    }

    /// The held peak that follows `self` when `current` was measured and the
    /// held peak would otherwise have sunk to `decayed`.
    pub open spec fn held_next(self, current: Level, decayed: Level) -> Level {
        if at_least(current.bits, self.bits) {
            current
        } else {
            Level { bits: greater_of(greater_of(decayed.bits, current.bits), FLOOR_BITS) }
        }
    }

    /// The lowest level of the scale.
    pub fn floor() -> (level: Level)
        ensures
            level == (Level { bits: FLOOR_BITS }),
    {
        Level { bits: FLOOR_BITS }
    }

    /// Brings a measured level onto the scale.
    pub fn sanitize_db(self) -> (level: Level)
        ensures
            level == self.sanitized(),
    {
        if finite(self.bits) {
            Level { bits: limit(self.bits, FLOOR_BITS, FULL_SCALE_BITS) }
        } else {
            Level { bits: FLOOR_BITS }
        }
    }

    /// Whether a channel at this level clips.
    pub fn clips(self) -> (yes: bool)
        ensures
            yes == self.is_clipping(),
    {
        ge(self.bits, CLIP_BITS)
    }

    /// The part of the scale that this level lies in.
    pub fn meter_zone(self) -> (zone: MeterZone)
        ensures
            zone == self.zone(),
    {
        if ge(self.bits, RED_BITS) {
            MeterZone::Red
        } else if ge(self.bits, YELLOW_BITS) {
            MeterZone::Yellow
        } else {
            MeterZone::Green
        }
    }

    /// Whether a meter shows this level as silence.
    pub fn is_silent(self) -> (yes: bool)
        ensures
            yes == (self.sanitized().bits == FLOOR_BITS),
    {
        let shown = self.sanitize_db();
        proof {
            self.lemma_sanitized_on_scale();
        }
        ge(FLOOR_BITS, shown.bits)
    }

    /// The next held peak.
    pub fn hold(self, current: Level, decayed: Level) -> (next: Level)
        ensures
            next == self.held_next(current, decayed),
    {
        if ge(current.bits, self.bits) {
            current
        } else {
            Level { bits: greater(greater(decayed.bits, current.bits), FLOOR_BITS) }
        }
    }

    /// A sanitized level is on the scale, and a level on the scale stays what
    /// it is.
    pub proof fn lemma_sanitized_on_scale(self)
        ensures
            self.sanitized().on_scale(),
            self.on_scale() ==> self.sanitized() == self,
    {
    }

    /// A held peak on the scale never sinks below the current level and never
    /// leaves the scale, however far it would have sunk.
    pub proof fn lemma_hold_covers_current(self, current: Level, decayed: Level)
        requires
            self.on_scale(),
            current.on_scale(),
            is_finite(decayed.bits),
            rank(decayed.bits) <= rank(self.bits),
        ensures
            self.held_next(current, decayed).on_scale(),
            rank(self.held_next(current, decayed).bits) >= rank(current.bits),
            rank(self.held_next(current, decayed).bits) <= if rank(current.bits) >= rank(
                self.bits,
            ) {
                rank(current.bits)
            } else {
                rank(self.bits)
            },
    {
    }
}

fn greater(a: u32, b: u32) -> (most: u32)
    ensures
        most == greater_of(a, b),
{
    if nan(a) {
        b
    } else if nan(b) || rank_of(a) >= rank_of(b) {
        a
    } else {
        b
    }
}

/// The highest of some levels, and the floor at least.
pub open spec fn highest(levels: Seq<Level>) -> u32
    decreases levels.len(),
{
    if levels.len() == 0 {
        FLOOR_BITS
    } else {
        greater_of(highest(levels.drop_last()), levels.last().bits)
    }
}

/// Whether one of the channels clips.
pub open spec fn any_clipping(levels: Seq<Level>) -> bool {
    exists|i: int| 0 <= i < levels.len() && (#[trigger] levels[i]).is_clipping()
}

/// The highest of some levels, and the floor at least.
pub fn maximum_peak(levels: &Vec<Level>) -> (peak: Level)
    ensures
        peak.bits == highest(levels@),
{
    let mut peak: u32 = FLOOR_BITS;
    let mut i: usize = 0;
    while i < levels.len()
        invariant
            i <= levels@.len(),
            peak == highest(levels@.take(i as int)),
        decreases levels.len() - i,
    {
        assert(levels@.take(i + 1).drop_last() =~= levels@.take(i as int));
        peak = greater(peak, levels[i].bits);
        i = i + 1;
    }
    assert(levels@.take(i as int) =~= levels@);
    Level { bits: peak }
}

/// Whether one of the channels clips.
pub fn any_clips(levels: &Vec<Level>) -> (yes: bool)
    ensures
        yes == any_clipping(levels@),
{
    let mut i: usize = 0;
    while i < levels.len()
        invariant
            i <= levels@.len(),
            forall|j: int| 0 <= j < i ==> !(#[trigger] levels@[j]).is_clipping(),
        decreases levels.len() - i,
    {
        if levels[i].clips() {
            return true;
        }
        i = i + 1;
    }
    false
}

/// Whether a peak is a signal.
pub fn above_signal_threshold(peak: Level) -> (yes: bool)
    ensures
        yes == above(peak.bits, SIGNAL_BITS),
{
    gt(peak.bits, SIGNAL_BITS)
}

/// The highest level is reached by a channel or is the floor, and no channel
/// on the scale is above it.
pub proof fn lemma_highest_bounds(levels: Seq<Level>)
    requires
        forall|i: int| 0 <= i < levels.len() ==> (#[trigger] levels[i]).on_scale(),
    ensures
        (Level { bits: highest(levels) }).on_scale(),
        forall|i: int| 0 <= i < levels.len() ==> rank((#[trigger] levels[i]).bits) <= rank(highest(levels)),
        highest(levels) == FLOOR_BITS || exists|i: int|
            0 <= i < levels.len() && (#[trigger] levels[i]).bits == highest(levels),
    decreases levels.len(),
{
    if levels.len() > 0 {
        let rest = levels.drop_last();
        assert forall|i: int| 0 <= i < rest.len() implies (#[trigger] rest[i]).on_scale() by {
            assert(rest[i] == levels[i]);
        }
        lemma_highest_bounds(rest);
        assert(levels[levels.len() - 1].on_scale());
        assert forall|i: int| 0 <= i < levels.len() implies rank((#[trigger] levels[i]).bits)
            <= rank(highest(levels)) by {
            if i < rest.len() {
                assert(rest[i] == levels[i]);
            }
        }
        if highest(levels) != FLOOR_BITS {
            if highest(levels) == highest(rest) {
                let i = choose|i: int| 0 <= i < rest.len() && (#[trigger] rest[i]).bits == highest(rest);
                assert(levels[i].bits == highest(levels));
            } else {
                assert(levels[levels.len() - 1].bits == highest(levels));
            }
        }
    }
}

// ---------------------------------------------------------------------------
// Volumes
// ---------------------------------------------------------------------------

/// A playback volume, as a factor.
#[derive(Clone, Copy, Debug, PartialEq, Eq, Structural)]
pub struct Volume {
    /// The bits of the single-precision factor.
    pub bits: u32,
}

/// The factor one.
pub const UNITY_BITS: u32 = 0x3f80_0000;

/// The factor two, the largest that a preset may set.
pub const DOUBLE_BITS: u32 = 0x4000_0000;

impl Volume {
    /// A stored volume brought into the range from zero to two.
    pub open spec fn accepted(self) -> Volume {
        Volume { bits: limited(self.bits, 0, DOUBLE_BITS) }
    }

    /// The volume of a new session.
    pub fn unity() -> (volume: Volume)
        ensures
            volume == (Volume { bits: UNITY_BITS }),
    {
        Volume { bits: UNITY_BITS }
    }

    /// Brings a stored volume into the range from zero to two.  What is no
    /// number is left alone.
    pub fn accept(self) -> (volume: Volume)
        ensures
            volume == self.accepted(),
    {
        Volume { bits: limit(self.bits, 0, DOUBLE_BITS) }
    }

    /// An accepted number lies between zero and two, and accepting it again
    /// changes nothing.
    pub proof fn lemma_accepted_in_range(self)
        ensures
            !is_nan(self.bits) ==> 0 <= rank(self.accepted().bits) <= rank(DOUBLE_BITS),
            self.accepted().accepted() == self.accepted(),
    {
    }
}

/// The marks of the scale stand in their order: the floor, the signal, the yellow
/// part, the red part, clipping and full scale.
pub proof fn lemma_marks_are_in_order()
    ensures
        rank(FLOOR_BITS) < rank(SIGNAL_BITS) < rank(YELLOW_BITS) < rank(RED_BITS) < rank(CLIP_BITS)
            < rank(FULL_SCALE_BITS),
        0 < rank(UNITY_BITS) < rank(DOUBLE_BITS),
{
}

/// Bits compare as the numbers that they denote: of two positive numbers the one
/// with the greater bits is greater, of two negative ones the one with the smaller
/// bits, and a negative number is below a positive one.
pub proof fn lemma_bits_compare_as_numbers(a: u32, b: u32)
    requires
        !is_nan(a),
        !is_nan(b),
    ensures
        a < 0x8000_0000 && b < 0x8000_0000 ==> (above(a, b) <==> a > b),
        a > 0x8000_0000 && b > 0x8000_0000 ==> (above(a, b) <==> a < b),
        a < 0x8000_0000 && b > 0x8000_0000 ==> above(a, b),
        above(a, b) ==> !at_least(b, a),
        above(a, b) || at_least(b, a),
        at_least(a, b) && at_least(b, a) && a != b ==> (a == 0 && b == 0x8000_0000) || (b == 0 && a
            == 0x8000_0000),
{
}

/// What is no number is neither below nor above anything.
pub proof fn lemma_no_number_compares(a: u32, b: u32)
    requires
        0x7f80_0000 < a < 0x8000_0000 || a > 0xff80_0000,
    ensures
        !above(a, b),
        !above(b, a),
        !at_least(a, b),
        !at_least(b, a),
{
}

/// A level below the scale is shown at its floor, one above it at its end, and
/// what is no finite number at its floor.
pub proof fn lemma_levels_are_brought_onto_the_scale(level: Level)
    ensures
        is_finite(level.bits) && rank(level.bits) < rank(FLOOR_BITS) ==> level.sanitized().bits
            == 0xc270_0000,
        is_finite(level.bits) && rank(level.bits) > 0 ==> level.sanitized().bits == 0,
        !is_finite(level.bits) ==> level.sanitized().bits == 0xc270_0000,
        is_finite(level.bits) && rank(FLOOR_BITS) <= rank(level.bits) <= 0 ==> level.sanitized()
            == level,
        is_finite(level.bits) <==> level.bits < 0x7f80_0000 || 0x8000_0000 <= level.bits
            < 0xff80_0000,
{
}

/// A louder level lies in no lower part of the scale; the red part begins at -1
/// and the yellow one at -12 dBFS, and a channel clips from -0.1 dBFS on.
pub proof fn lemma_parts_of_the_scale(level: Level)
    requires
        !is_nan(level.bits),
    ensures
        level.zone() == MeterZone::Red <==> rank(level.bits) >= rank(0xbf80_0000),
        level.zone() == MeterZone::Green <==> rank(level.bits) < rank(0xc140_0000),
        level.is_clipping() <==> rank(level.bits) >= rank(0xbdcc_cccd),
{
}

/// A held peak gives way to a level that is as high; otherwise it sinks as far as
/// it would, but not below the level nor the floor.
pub proof fn lemma_held_peak_follows(held: Level, current: Level, decayed: Level)
    requires
        held.on_scale(),
        current.on_scale(),
        is_finite(decayed.bits),
    ensures
        rank(current.bits) >= rank(held.bits) ==> held.held_next(current, decayed) == current,
        rank(current.bits) < rank(held.bits) && rank(decayed.bits) >= rank(current.bits)
            ==> held.held_next(current, decayed) == decayed,
        rank(current.bits) < rank(held.bits) && rank(decayed.bits) < rank(current.bits)
            ==> held.held_next(current, decayed) == current,
{
}

/// A stored volume between nothing and double stays; a greater one becomes double,
/// a negative one nothing.
pub proof fn lemma_volumes_are_accepted(volume: Volume)
    requires
        !is_nan(volume.bits),
    ensures
        0 <= rank(volume.bits) <= rank(0x4000_0000) ==> volume.accepted() == volume,
        rank(volume.bits) > rank(0x4000_0000) ==> volume.accepted().bits == 0x4000_0000,
        rank(volume.bits) < 0 ==> volume.accepted().bits == 0,
{
}

/// Every pattern of bits is a finite number, one of the two infinities or no number.
pub proof fn lemma_kinds_of_bits(bits: u32)
    ensures
        !(is_finite(bits) && is_nan(bits)),
        !is_finite(bits) && !is_nan(bits) <==> bits == 0x7f80_0000 || bits == 0xff80_0000,
        is_finite(0) && is_finite(0x8000_0000),
        bits < 0x7f80_0000 ==> is_finite(bits),
{
}

} // verus!
