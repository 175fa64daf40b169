//! Level meters: held peaks, signal and clip marks, and the texts beside them.

use crate::control::{elapsed, elapsed_since, SECOND};
use crate::level::{
    above, above_signal_threshold, any_clipping, any_clips, highest, is_finite, maximum_peak, rank,
    Level, MeterZone, FLOOR_BITS, SIGNAL_BITS,
};
use crate::rounding::{divide_rounded, rounded};
use crate::text::{decimal, decimal_text, push_decimal, same_text, texts};
use crate::theme::Tone;
use vstd::prelude::*;

verus! {

/// How old a signal may be, in milliseconds, to count as present.
pub const SIGNAL_TIMEOUT_MS: u64 = 1_000;

/// The most channels side by side.
pub const MAX_GRID_COLUMNS: usize = 8;

/// How often the meters are drawn, in milliseconds.
pub const LIVE_REPAINT_MS: u64 = 50;

pub const SILENCE_TEXT: &'static str = "-∞ dBFS";

// ---------------------------------------------------------------------------
// Held peaks
// ---------------------------------------------------------------------------

/// The held peaks of one meter.
pub struct HeldPeaks {
    pub meter_id: String,
    pub levels: Vec<Level>,
}

/// The state of the meters.
pub struct SignalMonitor {
    pub expanded: bool,
    pub last_update: u64,
    pub held: Vec<HeldPeaks>,
}

/// Whether peaks are held for a meter.
pub open spec fn listed(held: Seq<HeldPeaks>, id: Seq<char>) -> bool {
    exists|i: int| 0 <= i < held.len() && (#[trigger] held[i]).meter_id@ == id
}

/// The place of the held peaks of a meter.
pub open spec fn place(held: Seq<HeldPeaks>, id: Seq<char>) -> int {
    choose|i: int| 0 <= i < held.len() && (#[trigger] held[i]).meter_id@ == id
}

/// Whether each meter has one list of held peaks at most.
pub open spec fn one_per_meter(held: Seq<HeldPeaks>) -> bool {
    forall|i: int, j: int|
        0 <= i < j < held.len() ==> (#[trigger] held[i]).meter_id@ != (
        #[trigger] held[j]).meter_id@
}

/// The held peaks of a meter with `count` channels, where a channel that was
/// not there before is at the floor.
pub open spec fn held_levels(
    held: Map<Seq<char>, Seq<Level>>,
    id: Seq<char>,
    count: nat,
) -> Seq<Level> {
    Seq::new(
        count,
        |i: int|
            if held.dom().contains(id) && i < held[id].len() {
                held[id][i]
            } else {
                Level { bits: FLOOR_BITS }
            },
    )
}

/// The held peaks that follow when `current` was measured and the held peaks
/// would otherwise have sunk to `decayed`.
pub open spec fn next_levels(
    before: Seq<Level>,
    current: Seq<Level>,
    decayed: Seq<Level>,
) -> Seq<Level> {
    Seq::new(current.len(), |i: int| before[i].held_next(current[i], decayed[i]))
}

impl View for SignalMonitor {
    type V = Map<Seq<char>, Seq<Level>>;

    /// The held peaks of each meter.
    open spec fn view(&self) -> Map<Seq<char>, Seq<Level>> {
        Map::new(
            |id: Seq<char>| listed(self.held@, id),
            |id: Seq<char>| self.held@[place(self.held@, id)].levels@,
        )
    }
}

proof fn lemma_place(held: Seq<HeldPeaks>, i: int)
    requires
        one_per_meter(held),
        0 <= i < held.len(),
    ensures
        listed(held, held[i].meter_id@),
        place(held, held[i].meter_id@) == i,
{
    let p = place(held, held[i].meter_id@);
    assert(held[i].meter_id@ == held[i].meter_id@);
    assert(0 <= p < held.len() && held[p].meter_id@ == held[i].meter_id@);
    if p < i {
        assert(held[p].meter_id@ != held[i].meter_id@);
    } else if i < p {
        assert(held[i].meter_id@ != held[p].meter_id@);
    }
}

/// Whether a list of names holds a name.
fn names_contain(names: &Vec<String>, name: &str) -> (yes: bool)
    ensures
        yes == texts(names@).contains(name@),
{
    let mut i: usize = 0;
    while i < names.len()
        invariant
            i <= names@.len(),
            forall|j: int| 0 <= j < i ==> (#[trigger] names@[j])@ != name@,
        decreases names.len() - i,
    {
        if same_text(names[i].as_str(), name) {
            assert(texts(names@)[i as int] == name@);
            return true;
        }
        i = i + 1;
    }
    assert forall|j: int| 0 <= j < texts(names@).len() implies texts(names@)[j] != name@ by {
        assert(names@[j]@ != name@);
    }
    false
}

fn clone_levels(levels: &Vec<Level>) -> (copy: Vec<Level>)
    ensures
        copy@ == levels@,
{
    let mut copy: Vec<Level> = Vec::new();
    let mut i: usize = 0;
    while i < levels.len()
        invariant
            i <= levels@.len(),
            copy@ =~= levels@.take(i as int),
        decreases levels.len() - i,
    {
        copy.push(levels[i]);
        i = i + 1;
    }
    copy
}

/// Brings measured levels onto the scale.
pub fn sanitize_levels(measured: &Vec<Level>) -> (levels: Vec<Level>)
    ensures
        levels@ == measured@.map_values(|level: Level| level.sanitized()),
{
    let mut levels: Vec<Level> = Vec::new();
    let mut i: usize = 0;
    while i < measured.len()
        invariant
            i <= measured@.len(),
            levels@ =~= measured@.take(i as int).map_values(|level: Level| level.sanitized()),
        decreases measured.len() - i,
    {
        levels.push(measured[i].sanitize_db());
        i = i + 1;
    }
    assert(measured@.take(i as int) =~= measured@);
    levels
}

impl SignalMonitor {
    /// Whether each meter has one list of held peaks at most.
    pub open spec fn well_formed(self) -> bool {
        one_per_meter(self.held@)
    }

    /// Meters that show everything and hold nothing yet.
    pub fn new(now: u64) -> (monitor: Self)
        ensures
            monitor.well_formed(),
            monitor.expanded,
            monitor.last_update == now,
            monitor@ == Map::<Seq<char>, Seq<Level>>::empty(),
    {
        let monitor = SignalMonitor { expanded: true, last_update: now, held: Vec::new() };
        assert(monitor@ =~= Map::<Seq<char>, Seq<Level>>::empty());
        monitor
    }

    /// Shows or hides the meters.
    pub fn toggle_expanded(&mut self)
        ensures
            final(self).expanded == !old(self).expanded,
            final(self).last_update == old(self).last_update,
            final(self).held == old(self).held,
    {
        self.expanded = !self.expanded;
    }

    /// The caption of the button that shows or hides the meters.
    pub fn toggle_caption(&self) -> (text: &'static str)
        ensures
            text@ == if self.expanded {
                "Collapse"@
            } else {
                "Expand"@
            },
    {
        if self.expanded {
            "Collapse"
        } else {
            "Expand"
        }
    }

    /// The time since the meters were last drawn, a second at most.
    pub fn frame_time(&mut self, now: u64) -> (time: u64)
        ensures
            time == if elapsed(old(self).last_update, now) < SECOND {
                elapsed(old(self).last_update, now)
            } else {
                SECOND as int
            },
            final(self).last_update == now,
            final(self).expanded == old(self).expanded,
            final(self).held == old(self).held,
    {
        let time: u64 = elapsed_since(self.last_update, now);
        self.last_update = now;
        if time < SECOND {
            time
        } else {
            SECOND
        }
    }

    /// Forgets the held peaks of all meters but the active ones.
    pub fn retain_active(&mut self, active_ids: &Vec<String>)
        requires
            old(self).well_formed(),
        ensures
            final(self).well_formed(),
            final(self).expanded == old(self).expanded,
            final(self).last_update == old(self).last_update,
            final(self)@ == old(self)@.restrict(texts(active_ids@).to_set()),
    {
        let ghost before = self.held@;
        let ghost active = texts(active_ids@);
        let ghost mut origin: Seq<int> = Seq::empty();
        let mut kept: Vec<HeldPeaks> = Vec::new();
        let mut i: usize = 0;
        while i < self.held.len()
            invariant
                *self == *old(self),
                before == self.held@,
                one_per_meter(before),
                active == texts(active_ids@),
                i <= before.len(),
                origin.len() == kept@.len(),
                forall|k: int|
                    0 <= k < kept@.len() ==> {
                        &&& 0 <= #[trigger] origin[k] < i
                        &&& kept@[k].meter_id@ == before[origin[k]].meter_id@
                        &&& kept@[k].levels@ == before[origin[k]].levels@
                        &&& active.contains(kept@[k].meter_id@)
                    },
                forall|k: int, l: int|
                    0 <= k < l < kept@.len() ==> #[trigger] origin[k] < #[trigger] origin[l],
                forall|j: int|
                    0 <= j < i && active.contains((#[trigger] before[j]).meter_id@)
                        ==> origin.contains(j),
            decreases self.held.len() - i,
        {
            if names_contain(active_ids, self.held[i].meter_id.as_str()) {
                let ghost earlier = origin;
                kept.push(
                    HeldPeaks {
                        meter_id: self.held[i].meter_id.clone(),
                        levels: clone_levels(&self.held[i].levels),
                    },
                );
                proof {
                    origin = origin.push(i as int);
                    assert(origin[earlier.len() as int] == i);
                    assert forall|j: int|
                        0 <= j < i + 1 && active.contains((#[trigger] before[j]).meter_id@)
                    implies origin.contains(j) by {
                        if j < i {
                            assert(earlier.contains(j));
                            let k = choose|k: int| 0 <= k < earlier.len() && earlier[k] == j;
                            assert(origin[k] == j);
                        }
                    }
                }
            }
            i = i + 1;
        }
        assert(one_per_meter(kept@)) by {
            assert forall|k: int, l: int| 0 <= k < l < kept@.len() implies (
            #[trigger] kept@[k]).meter_id@ != (#[trigger] kept@[l]).meter_id@ by {
                assert(origin[k] < origin[l]);
                assert(before[origin[k]].meter_id@ != before[origin[l]].meter_id@);
            }
        }
        self.held = kept;
        proof {
            let wanted = old(self)@.restrict(active.to_set());
            assert forall|id: Seq<char>| self@.dom().contains(id) == wanted.dom().contains(id) by {
                if self@.dom().contains(id) {
                    let k = place(kept@, id);
                    assert(kept@[k].meter_id@ == id);
                    assert(before[origin[k]].meter_id@ == id);
                    lemma_place(before, origin[k]);
                }
                if wanted.dom().contains(id) {
                    let j = place(before, id);
                    assert(before[j].meter_id@ == id);
                    assert(origin.contains(j));
                    let k = choose|k: int| 0 <= k < origin.len() && origin[k] == j;
                    assert(kept@[k].meter_id@ == id);
                }
            }
            assert forall|id: Seq<char>| self@.dom().contains(id) implies self@[id] == wanted[id] by {
                let k = place(kept@, id);
                assert(kept@[k].meter_id@ == id);
                assert(0 <= origin[k] < before.len());
                lemma_place(before, origin[k]);
            }
            assert(self@ =~= wanted);
        }
    }

    /// The place of the held peaks of a meter.
    fn find_meter(&self, meter_id: &str) -> (found: Option<usize>)
        requires
            self.well_formed(),
        ensures
            match found {
                Some(i) => i < self.held@.len() && self.held@[i as int].meter_id@ == meter_id@
                    && self@.dom().contains(meter_id@) && self@[meter_id@]
                    == self.held@[i as int].levels@ && place(self.held@, meter_id@) == i,
                None => !self@.dom().contains(meter_id@),
            },
    {
        let mut i: usize = 0;
        while i < self.held.len()
            invariant
                self.well_formed(),
                i <= self.held@.len(),
                forall|j: int| 0 <= j < i ==> (#[trigger] self.held@[j]).meter_id@ != meter_id@,
            decreases self.held.len() - i,
        {
            if same_text(self.held[i].meter_id.as_str(), meter_id) {
                proof {
                    lemma_place(self.held@, i as int);
                }
                return Some(i);
            }
            i = i + 1;
        }
        None
    }

    /// The held peaks of a meter with `count` channels, where a channel that
    /// was not there before is at the floor.
    pub fn held_peaks(&self, meter_id: &str, count: usize) -> (levels: Vec<Level>)
        requires
            self.well_formed(),
        ensures
            levels@ == held_levels(self@, meter_id@, count as nat),
    {
        let found = self.find_meter(meter_id);
        let mut levels: Vec<Level> = Vec::new();
        let mut i: usize = 0;
        while i < count
            invariant
                i <= count,
                match found {
                    Some(at) => at < self.held@.len() && self@.dom().contains(meter_id@)
                        && self@[meter_id@] == self.held@[at as int].levels@,
                    None => !self@.dom().contains(meter_id@),
                },
                levels@ =~= held_levels(self@, meter_id@, i as nat),
            decreases count - i,
        {
            let level = match found {
                Some(at) => if i < self.held[at].levels.len() {
                    self.held[at].levels[i]
                } else {
                    Level::floor()
                },
                None => Level::floor(),
            };
            levels.push(level);
            i = i + 1;
        }
        levels
    }

    /// Moves the held peaks of a meter on.  `decayed` is what the held peaks
    /// would have sunk to.
    pub fn update_peak_holds(
        &mut self,
        meter_id: &str,
        current_peaks: &Vec<Level>,
        decayed: &Vec<Level>,
    ) -> (levels: Vec<Level>)
        requires
            old(self).well_formed(),
            decayed@.len() == current_peaks@.len(),
        ensures
            final(self).well_formed(),
            final(self).expanded == old(self).expanded,
            final(self).last_update == old(self).last_update,
            levels@ == next_levels(
                held_levels(old(self)@, meter_id@, current_peaks@.len()),
                current_peaks@,
                decayed@,
            ),
            final(self)@ == old(self)@.insert(meter_id@, levels@),
    {
        let before = self.held_peaks(meter_id, current_peaks.len());
        let mut levels: Vec<Level> = Vec::new();
        let mut i: usize = 0;
        while i < current_peaks.len()
            invariant
                i <= current_peaks@.len(),
                before@.len() == current_peaks@.len(),
                decayed@.len() == current_peaks@.len(),
                levels@ =~= next_levels(before@, current_peaks@, decayed@).take(i as int),
            decreases current_peaks.len() - i,
        {
            levels.push(before[i].hold(current_peaks[i], decayed[i]));
            i = i + 1;
        }
        let copy = clone_levels(&levels);
        let ghost start = self.held@;
        match self.find_meter(meter_id) {
            Some(at) => {
                self.held.set(
                    at,
                    HeldPeaks { meter_id: meter_id.to_string(), levels: copy },
                );
                proof {
                    assert forall|j: int| 0 <= j < start.len() implies (
                    #[trigger] self.held@[j]).meter_id@ == start[j].meter_id@ by {}
                }
            },
            None => {
                self.held.push(HeldPeaks { meter_id: meter_id.to_string(), levels: copy });
                proof {
                    assert forall|j: int| 0 <= j < start.len() implies (
                    #[trigger] self.held@[j]).meter_id@ != meter_id@ by {
                        lemma_place(start, j);
                    }
                }
            },
        }
        proof {
            assert(one_per_meter(self.held@)) by {
                assert forall|i: int, j: int| 0 <= i < j < self.held@.len() implies (
                #[trigger] self.held@[i]).meter_id@ != (#[trigger] self.held@[j]).meter_id@ by {
                    if j < start.len() {
                        assert(start[i].meter_id@ != start[j].meter_id@);
                    }
                }
            }
            let wanted = old(self)@.insert(meter_id@, levels@);
            assert forall|id: Seq<char>| self@.dom().contains(id) == wanted.dom().contains(id) by {
                if self@.dom().contains(id) && id != meter_id@ {
                    let k = place(self.held@, id);
                    assert(self.held@[k].meter_id@ == id);
                    lemma_place(start, k);
                }
                if wanted.dom().contains(id) {
                    if id == meter_id@ {
                        let last = self.held@.len() - 1;
                        if self.held@.len() == start.len() {
                            let k = place(start, id);
                            assert(self.held@[k].meter_id@ == id);
                        } else {
                            assert(self.held@[last].meter_id@ == id);
                        }
                    } else {
                        let k = place(start, id);
                        assert(start[k].meter_id@ == id);
                        assert(self.held@[k].meter_id@ == id);
                    }
                }
            }
            assert forall|id: Seq<char>| self@.dom().contains(id) implies self@[id] == wanted[id] by {
                let k = place(self.held@, id);
                assert(self.held@[k].meter_id@ == id);
                if id != meter_id@ {
                    assert(k < start.len());
                    lemma_place(start, k);
                }
            }
            assert(self@ =~= wanted);
        }
        levels
    }
}

/// Held peaks on the scale stay on it and cover the current ones, whatever they
/// would have sunk to.
pub proof fn lemma_held_peaks_cover_current(
    before: Seq<Level>,
    current: Seq<Level>,
    decayed: Seq<Level>,
    channel: int,
)
    requires
        before.len() == current.len(),
        decayed.len() == current.len(),
        0 <= channel < current.len(),
        before[channel].on_scale(),
        current[channel].on_scale(),
        is_finite(decayed[channel].bits),
        rank(decayed[channel].bits) <= rank(before[channel].bits),
    ensures
        next_levels(before, current, decayed)[channel].on_scale(),
        rank(next_levels(before, current, decayed)[channel].bits) >= rank(current[channel].bits),
{
    before[channel].lemma_hold_covers_current(current[channel], decayed[channel]);
}

/// A meter that is not seen for a frame starts again from the floor.
pub proof fn lemma_forgotten_meter_starts_at_the_floor(
    held: Map<Seq<char>, Seq<Level>>,
    active: Set<Seq<char>>,
    id: Seq<char>,
    count: nat,
    channel: int,
)
    requires
        !active.contains(id),
        0 <= channel < count,
    ensures
        held_levels(held.restrict(active), id, count)[channel].bits == FLOOR_BITS,
{
}

// ---------------------------------------------------------------------------
// Marks and texts
// ---------------------------------------------------------------------------

/// The line that tells how many streams have a meter.
pub open spec fn stream_count_text(count: usize) -> Seq<char> {
    if count == 1 {
        "1 active stream"@
    } else {
        decimal(count as nat) + " active streams"@
    }
}

/// The line that tells how many streams have a meter.
pub fn active_streams_text(count: usize) -> (text: String)
    ensures
        text@ == stream_count_text(count),
{
    if count == 1 {
        "1 active stream".to_string()
    } else {
        let mut text = decimal_text(count as u128);
        text.append(" active streams");
        text
    }
}

/// What a meter tells of its stream at a glance.
#[derive(Clone, Copy, Debug, PartialEq, Eq, Structural)]
pub enum SignalMark {
    Clip,
    Signal,
    NoSignal,
}

impl SignalMark {
    /// What the levels of a stream and the age of its signal tell.
    pub open spec fn told(levels: Seq<Level>, age_ms: u64) -> SignalMark {
        if any_clipping(levels) {
            SignalMark::Clip
        } else if age_ms <= SIGNAL_TIMEOUT_MS && above(highest(levels), SIGNAL_BITS) {
            SignalMark::Signal
        } else {
            SignalMark::NoSignal
        }
    }

    /// What the levels of a stream and the age of its signal tell.
    pub fn of(levels: &Vec<Level>, age_ms: u64) -> (mark: SignalMark)
        ensures
            mark == SignalMark::told(levels@, age_ms),
    {
        if any_clips(levels) {
            SignalMark::Clip
        } else if age_ms <= SIGNAL_TIMEOUT_MS && above_signal_threshold(maximum_peak(levels)) {
            SignalMark::Signal
        } else {
            SignalMark::NoSignal
        }
    }

    /// The text of the mark.
    pub fn label(self) -> (text: &'static str)
        ensures
            text@ == match self {
                SignalMark::Clip => "● CLIP"@,
                SignalMark::Signal => "● SIGNAL"@,
                SignalMark::NoSignal => "○ NO SIGNAL"@,
            },
    {
        match self {
            SignalMark::Clip => "● CLIP",
            SignalMark::Signal => "● SIGNAL",
            SignalMark::NoSignal => "○ NO SIGNAL",
        }
    }

    /// The colour of the mark.
    pub fn tone(self) -> (tone: Tone)
        ensures
            tone == match self {
                SignalMark::Clip => Tone::Red,
                SignalMark::Signal => Tone::Green,
                SignalMark::NoSignal => Tone::TextSecondary,
            },
    {
        match self {
            SignalMark::Clip => Tone::Red,
            SignalMark::Signal => Tone::Green,
            SignalMark::NoSignal => Tone::TextSecondary,
        }
    }
}

/// Where the audio of a meter goes.
#[derive(Clone, Copy, Debug, PartialEq, Eq, Structural)]
pub enum SignalDirection {
    Input,
    Output,
    Diagnostic,
}

impl SignalDirection {
    /// The text of the badge.
    pub fn direction_label(self) -> (text: &'static str)
        ensures
            text@ == match self {
                SignalDirection::Input => "IN"@,
                SignalDirection::Output => "OUT"@,
                SignalDirection::Diagnostic => "TEST"@,
            },
    {
        match self {
            SignalDirection::Input => "IN",
            SignalDirection::Output => "OUT",
            SignalDirection::Diagnostic => "TEST",
        }
    }

    /// The colour of the badge.
    pub fn direction_color(self) -> (tone: Tone)
        ensures
            tone == match self {
                SignalDirection::Input => Tone::Blue,
                SignalDirection::Output => Tone::Purple,
                SignalDirection::Diagnostic => Tone::Orange,
            },
    {
        match self {
            SignalDirection::Input => Tone::Blue,
            SignalDirection::Output => Tone::Purple,
            SignalDirection::Diagnostic => Tone::Orange,
        }
    }
}

impl MeterZone {
    /// The colour of a meter in this part of the scale.
    pub fn meter_color(self) -> (tone: Tone)
        ensures
            tone == match self {
                MeterZone::Red => Tone::Red,
                MeterZone::Yellow => Tone::Amber,
                MeterZone::Green => Tone::Green,
            },
    {
        match self {
            MeterZone::Red => Tone::Red,
            MeterZone::Yellow => Tone::Amber,
            MeterZone::Green => Tone::Green,
        }
    }

    /// The colour of a held peak in this part of the scale.
    pub fn peak_hold_color(self) -> (tone: Tone)
        ensures
            tone == match self {
                MeterZone::Red => Tone::TextPrimary,
                MeterZone::Yellow => Tone::HeldYellow,
                MeterZone::Green => Tone::HeldGreen,
            },
    {
        match self {
            MeterZone::Red => Tone::TextPrimary,
            MeterZone::Yellow => Tone::HeldYellow,
            MeterZone::Green => Tone::HeldGreen,
        }
    }
}

/// The columns of the grid of channels, where `fitting` of them fit side by
/// side.
pub open spec fn columns(fitting: usize, channels: usize) -> usize {
    let wanted = if fitting < 1 {
        1
    } else if fitting > MAX_GRID_COLUMNS {
        MAX_GRID_COLUMNS
    } else {
        fitting
    };
    let most = if channels < 1 {
        1
    } else {
        channels
    };
    if wanted <= most {
        wanted
    } else {
        most
    }
}

/// The columns of the grid of channels.
pub fn grid_columns(fitting: usize, channels: usize) -> (count: usize)
    ensures
        count == columns(fitting, channels),
        1 <= count <= MAX_GRID_COLUMNS,
{
    let wanted: usize = if fitting < 1 {
        1
    } else if fitting > MAX_GRID_COLUMNS {
        MAX_GRID_COLUMNS
    } else {
        fitting
    };
    let most: usize = if channels < 1 {
        1
    } else {
        channels
    };
    if wanted <= most {
        wanted
    } else {
        most
    }
}

/// Whether a row of the grid ends after a channel.
pub open spec fn row_ends(channel: int, count: usize, channels: usize) -> bool {
    (channel + 1) % (count as int) == 0 || channel + 1 == channels
}

/// Whether a row of the grid ends after a channel.
pub fn ends_row(channel: usize, count: usize, channels: usize) -> (yes: bool)
    requires
        count > 0,
        channel < channels,
    ensures
        yes == row_ends(channel as int, count, channels),
{
    (channel + 1) % count == 0 || channel + 1 == channels
}

// ---------------------------------------------------------------------------
// The age of a signal
// ---------------------------------------------------------------------------

/// How finely single-precision numbers divide the unit around `ms` / 1000.
pub open spec fn steps_per_unit(ms: u64) -> nat {
    if ms < 2_000 {
        0x80_0000
    } else if ms < 4_000 {
        0x40_0000
    } else if ms < 8_000 {
        0x20_0000
    } else if ms < 16_000 {
        0x10_0000
    } else if ms < 32_000 {
        0x8_0000
    } else {
        0x4_0000
    }
}

/// The age in tenths of a second, as rounding the single-precision quotient
/// `ms` / 1000 to one decimal place gives it.
pub open spec fn age_tenths(ms: u64) -> nat {
    let quotient = rounded((ms * steps_per_unit(ms)) as nat, 1_000);
    rounded(10 * quotient, steps_per_unit(ms))
}

/// The age of a signal as it is shown.
pub open spec fn age_text(ms: u64) -> Seq<char> {
    if ms <= LIVE_REPAINT_MS {
        "live"@
    } else if ms < 1_000 {
        decimal(ms as nat) + "ms ago"@
    } else if ms < 60_000 {
        decimal(age_tenths(ms) / 10) + "."@ + decimal(age_tenths(ms) % 10) + "s ago"@
    } else {
        "inactive"@
    }
}

fn tenths_of_age(ms: u64) -> (tenths: u64)
    requires
        1_000 <= ms < 60_000,
    ensures
        tenths == age_tenths(ms),
{
    let steps: u64 = if ms < 2_000 {
        0x80_0000
    } else if ms < 4_000 {
        0x40_0000
    } else if ms < 8_000 {
        0x20_0000
    } else if ms < 16_000 {
        0x10_0000
    } else if ms < 32_000 {
        0x8_0000
    } else {
        0x4_0000
    };
    assert(ms * steps <= 60_000 * 0x80_0000) by (nonlinear_arith)
        requires
            ms < 60_000,
            steps <= 0x80_0000,
    ;
    let quotient: u128 = divide_rounded((ms * steps) as u128, 1_000);
    let tenths: u128 = divide_rounded(10 * quotient, steps as u128);
    proof {
        lemma_shown_age_is_near(ms);
    }
    tenths as u64
}

/// The age of a signal as it is shown.
pub fn signal_age_text(last_signal_age_ms: u64) -> (text: String)
    ensures
        text@ == age_text(last_signal_age_ms),
{
    if last_signal_age_ms <= LIVE_REPAINT_MS {
        "live".to_string()
    } else if last_signal_age_ms < 1_000 {
        let mut text = decimal_text(last_signal_age_ms as u128);
        text.append("ms ago");
        text
    } else if last_signal_age_ms < 60_000 {
        let tenths: u64 = tenths_of_age(last_signal_age_ms);
        let mut text = decimal_text((tenths / 10) as u128);
        text.append(".");
        push_decimal(&mut text, (tenths % 10) as u128);
        text.append("s ago");
        text
    } else {
        "inactive".to_string()
    }
}

/// The age that is shown in tenths of a second is off by half a tenth at most.
pub proof fn lemma_shown_age_is_near(ms: u64)
    requires
        1_000 <= ms < 60_000,
    ensures
        ms - 50 <= 100 * age_tenths(ms) <= ms + 50,
{
    let steps = steps_per_unit(ms);
    let quotient = rounded((ms * steps) as nat, 1_000);
    crate::rounding::lemma_rounded_is_near((ms * steps) as nat, 1_000);
    crate::rounding::lemma_rounded_is_near(10 * quotient, steps);
}

/// A stream clips exactly if one of its channels does, whatever the age of its
/// signal.  Otherwise there is a signal exactly if one of its channels is above
/// -59 dBFS and the signal is no more than a second old.
pub proof fn lemma_mark_of_any_channel(levels: Seq<Level>, age_ms: u64)
    requires
        forall|i: int| 0 <= i < levels.len() ==> (#[trigger] levels[i]).on_scale(),
    ensures
        SignalMark::told(levels, age_ms) == SignalMark::Clip <==> exists|i: int|
            0 <= i < levels.len() && rank((#[trigger] levels[i]).bits) >= rank(0xbdcc_cccd),
        SignalMark::told(levels, age_ms) != SignalMark::Clip ==> (SignalMark::told(levels, age_ms)
            == SignalMark::Signal <==> age_ms <= 1_000 && exists|i: int|
            0 <= i < levels.len() && rank((#[trigger] levels[i]).bits) > rank(0xc26c_0000)),
{
    crate::level::lemma_highest_bounds(levels);
    if exists|i: int| 0 <= i < levels.len() && rank((#[trigger] levels[i]).bits) >= rank(0xbdcc_cccd) {
        let i = choose|i: int|
            0 <= i < levels.len() && rank((#[trigger] levels[i]).bits) >= rank(0xbdcc_cccd);
        assert(levels[i].is_clipping());
    }
    if any_clipping(levels) {
        let i = choose|i: int| 0 <= i < levels.len() && (#[trigger] levels[i]).is_clipping();
        assert(rank(levels[i].bits) >= rank(0xbdcc_cccd));
    }
    if above(highest(levels), SIGNAL_BITS) {
        let i = choose|i: int| 0 <= i < levels.len() && (#[trigger] levels[i]).bits == highest(levels);
        assert(rank(levels[i].bits) > rank(0xc26c_0000));
    }
}

/// Held peaks stay with their channels; a channel that was not there before, and
/// every channel of a meter that was not, starts at the floor.
pub proof fn lemma_held_peaks_stay(
    held: Map<Seq<char>, Seq<Level>>,
    id: Seq<char>,
    count: nat,
    channel: int,
)
    requires
        0 <= channel < count,
    ensures
        held_levels(held, id, count).len() == count,
        held.dom().contains(id) && channel < held[id].len() ==> held_levels(held, id, count)[channel]
            == held[id][channel],
        held.dom().contains(id) && channel >= held[id].len() ==> held_levels(
            held,
            id,
            count,
        )[channel].bits == 0xc270_0000,
        !held.dom().contains(id) ==> held_levels(held, id, count)[channel].bits == 0xc270_0000,
{
}

/// Each channel is held by itself: at the current level where that is as high as
/// the held peak, and otherwise at the higher of the level and what the held peak
/// has sunk to.
pub proof fn lemma_channels_are_held_one_by_one(
    before: Seq<Level>,
    current: Seq<Level>,
    decayed: Seq<Level>,
    channel: int,
)
    requires
        before.len() == current.len(),
        decayed.len() == current.len(),
        0 <= channel < current.len(),
        before[channel].on_scale(),
        current[channel].on_scale(),
        is_finite(decayed[channel].bits),
    ensures
        next_levels(before, current, decayed).len() == current.len(),
        ({
            let now = current[channel];
            let sunk = decayed[channel];
            let next = next_levels(before, current, decayed)[channel];
            &&& rank(now.bits) >= rank(before[channel].bits) ==> next == now
            &&& rank(now.bits) < rank(before[channel].bits) && rank(sunk.bits) >= rank(now.bits)
                ==> next == sunk
            &&& rank(now.bits) < rank(before[channel].bits) && rank(sunk.bits) < rank(now.bits)
                ==> next == now
        }),
{
    crate::level::lemma_held_peak_follows(before[channel], current[channel], decayed[channel]);
}

/// There are as many columns as fit, eight at most, and no more than channels; but
/// one at least.
pub proof fn lemma_columns(fitting: usize, channels: usize)
    ensures
        1 <= columns(fitting, channels) <= 8,
        fitting >= 1 ==> columns(fitting, channels) <= fitting,
        channels >= 1 ==> columns(fitting, channels) <= channels,
        1 <= fitting <= 8 && fitting <= channels ==> columns(fitting, channels) == fitting,
        1 <= channels <= 8 && channels <= fitting ==> columns(fitting, channels) == channels,
        fitting >= 8 && channels >= 8 ==> columns(fitting, channels) == 8,
        fitting <= 1 || channels <= 1 ==> columns(fitting, channels) == 1,
{
}

/// A row ends with its last column and with the last channel, and nowhere else.
pub proof fn lemma_rows(row: int, column: int, count: usize, channels: usize)
    requires
        row >= 0,
        0 <= column < count,
        row * count + column < channels,
    ensures
        row_ends(row * count + column, count, channels) <==> column == count - 1 || row * count
            + column == channels - 1,
{
    let c = count as int;
    let next = row * c + column + 1;
    if column == c - 1 {
        assert(next == (row + 1) * c) by (nonlinear_arith)
            requires
                next == row * c + column + 1,
                column == c - 1,
        ;
        vstd::arithmetic::div_mod::lemma_mod_multiples_basic(row + 1, c);
    } else {
        vstd::arithmetic::div_mod::lemma_fundamental_div_mod_converse(next, c, row, column + 1);
    }
}

/// A signal is live for a twentieth of a second, is then shown with its age, and
/// is inactive from a minute on.
pub proof fn lemma_ages_are_shown(ms: u64)
    ensures
        ms <= 50 ==> age_text(ms) == "live"@,
        50 < ms < 1_000 ==> age_text(ms) == decimal(ms as nat) + "ms ago"@,
        1_000 <= ms < 60_000 ==> age_text(ms) == decimal(age_tenths(ms) / 10) + "."@ + decimal(
            age_tenths(ms) % 10,
        ) + "s ago"@,
        ms >= 60_000 ==> age_text(ms) == "inactive"@,
{
}

/// Held peaks are found by the identity of their meter, and no others are.
pub proof fn lemma_held_peaks_are_found(monitor: SignalMonitor, i: int, j: int, id: Seq<char>)
    requires
        monitor.well_formed(),
        0 <= i < monitor.held@.len(),
        0 <= j < monitor.held@.len(),
    ensures
        monitor@.dom().contains(monitor.held@[i].meter_id@),
        monitor@[monitor.held@[i].meter_id@] == monitor.held@[i].levels@,
        i != j ==> monitor.held@[i].meter_id@ != monitor.held@[j].meter_id@,
        (forall|k: int|
            0 <= k < monitor.held@.len() ==> (#[trigger] monitor.held@[k]).meter_id@ != id)
            ==> !monitor@.dom().contains(id),
{
    lemma_place(monitor.held@, i);
}

/// Streams are counted in the plural, but for a single one.
pub proof fn lemma_streams_are_counted(count: usize)
    ensures
        crate::text::starts_with_text(stream_count_text(count), decimal(count as nat)),
        stream_count_text(count).last() == 's' <==> count != 1,
{
    reveal_strlit("1 active stream");
    reveal_strlit(" active stream");
    reveal_strlit(" active streams");
    crate::text::lemma_what_is_found(Seq::empty(), decimal(count as nat), " active streams"@);
    if count == 1 {
        crate::text::lemma_decimal_is_shortest(0, 1);
        assert(decimal(1) =~= seq!['1']);
        assert(stream_count_text(count) =~= decimal(1) + " active stream"@);
        crate::text::lemma_what_is_found(Seq::empty(), decimal(1), " active stream"@);
    }
}

/// Single-precision numbers have 24 significant bits: the seconds are held in
/// steps of which 2^23 at least and less than 2^24 make up the number.
pub proof fn lemma_seconds_have_full_precision(ms: u64)
    requires
        1_000 <= ms < 60_000,
    ensures
        0x80_0000 * 1_000 <= ms * steps_per_unit(ms) < 0x100_0000 * 1_000,
{
    let steps = steps_per_unit(ms);
    let product = ms * steps;
    if ms < 2_000 {
        assert(product == 0x80_0000 * ms) by (nonlinear_arith)
            requires
                product == ms * steps,
                steps == 0x80_0000,
        ;
    } else if ms < 4_000 {
        assert(product == 0x40_0000 * ms) by (nonlinear_arith)
            requires
                product == ms * steps,
                steps == 0x40_0000,
        ;
    } else if ms < 8_000 {
        assert(product == 0x20_0000 * ms) by (nonlinear_arith)
            requires
                product == ms * steps,
                steps == 0x20_0000,
        ;
    } else if ms < 16_000 {
        assert(product == 0x10_0000 * ms) by (nonlinear_arith)
            requires
                product == ms * steps,
                steps == 0x10_0000,
        ;
    } else if ms < 32_000 {
        assert(product == 0x8_0000 * ms) by (nonlinear_arith)
            requires
                product == ms * steps,
                steps == 0x8_0000,
        ;
    } else {
        assert(product == 0x4_0000 * ms) by (nonlinear_arith)
            requires
                product == ms * steps,
                steps == 0x4_0000,
        ;
    }
}

} // verus!
