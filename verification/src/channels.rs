//! Channel labels and channel selections.

use crate::text::{blank, decimal, is_blank, join_number, texts};
use vstd::prelude::*;

verus! {

// ---------------------------------------------------------------------------
// Labels
// ---------------------------------------------------------------------------

/// The name of a channel that the user has not named; channels count from one.
pub open spec fn channel_label(index: int) -> Seq<char> {
    "Channel "@ + decimal((index + 1) as nat)
}

/// Some labels brought to `count`: cut where there are more, filled with the
/// names of unnamed channels where there are fewer.
pub open spec fn fitted(labels: Seq<Seq<char>>, count: nat) -> Seq<Seq<char>> {
    Seq::new(
        count,
        |i: int|
            if i < labels.len() {
                labels[i]
            } else {
                channel_label(i)
            },
    )
}

/// The name of the channel at `index`, counted from zero, where the user gave
/// none.
pub fn default_label(index: usize) -> (label: String)
    ensures
        label@ == channel_label(index as int),
{
    join_number("Channel ", index as u128 + 1)
}

/// The names of the first `count` unnamed channels.
pub fn default_labels(count: usize) -> (labels: Vec<String>)
    ensures
        texts(labels@) == fitted(Seq::empty(), count as nat),
{
    let mut labels: Vec<String> = Vec::new();
    fit_labels(&mut labels, count);
    assert(texts(Seq::<String>::empty()) =~= Seq::<Seq<char>>::empty());
    labels
}

/// Brings a list of labels to `count` entries.
pub fn fit_labels(labels: &mut Vec<String>, count: usize)
    ensures
        texts(final(labels)@) == fitted(texts(old(labels)@), count as nat),
{
    while labels.len() < count
        invariant
            old(labels)@.len() <= labels@.len(),
            labels@.len() <= count || labels@.len() == old(labels)@.len(),
            forall|i: int|
                0 <= i < labels@.len() ==> (#[trigger] labels@[i])@ == if i < old(labels)@.len() {
                    old(labels)@[i]@
                } else {
                    channel_label(i)
                },
        decreases count - labels.len(),
    {
        let index: usize = labels.len();
        labels.push(default_label(index));
    }
    labels.truncate(count);
    assert(texts(labels@) =~= fitted(texts(old(labels)@), count as nat));
}

/// The labels under which the channels in `indices` are announced: the given
/// label, or the name of an unnamed channel where the label is missing or blank.
pub open spec fn announced(indices: Seq<usize>, labels: Seq<Seq<char>>) -> Seq<Seq<char>> {
    Seq::new(
        indices.len(),
        |i: int|
            if indices[i] < labels.len() && !is_blank(labels[indices[i] as int]) {
                labels[indices[i] as int]
            } else {
                channel_label(indices[i] as int)
            },
    )
}

/// The labels under which the channels in `indices` are announced.
pub fn announced_labels(indices: &Vec<usize>, labels: &Vec<String>) -> (chosen: Vec<String>)
    ensures
        texts(chosen@) == announced(indices@, texts(labels@)),
{
    let mut chosen: Vec<String> = Vec::new();
    let mut i: usize = 0;
    while i < indices.len()
        invariant
            i <= indices@.len(),
            chosen@.len() == i,
            forall|j: int|
                0 <= j < i ==> (#[trigger] chosen@[j])@ == announced(indices@, texts(labels@))[j],
        decreases indices.len() - i,
    {
        let index: usize = indices[i];
        if index < labels.len() && !blank(labels[index].as_str()) {
            chosen.push(labels[index].clone());
        } else {
            chosen.push(default_label(index));
        }
        i = i + 1;
    }
    assert(texts(chosen@) =~= announced(indices@, texts(labels@)));
    chosen
}

/// Fitting labels twice to one count is fitting them once, and the labels that
/// fit are kept.
pub proof fn lemma_fitting_keeps_labels(labels: Seq<Seq<char>>, count: nat)
    ensures
        fitted(labels, count).len() == count,
        fitted(fitted(labels, count), count) == fitted(labels, count),
        labels.len() <= count ==> fitted(labels, count).take(labels.len() as int) == labels,
        count <= labels.len() ==> fitted(labels, count) == labels.take(count as int),
{
    assert(fitted(fitted(labels, count), count) =~= fitted(labels, count));
    if labels.len() <= count {
        assert(fitted(labels, count).take(labels.len() as int) =~= labels);
    }
    if count <= labels.len() {
        assert(fitted(labels, count) =~= labels.take(count as int));
    }
}

/// No announced label is blank.
pub proof fn lemma_announced_labels_are_not_blank(indices: Seq<usize>, labels: Seq<Seq<char>>)
    ensures
        forall|i: int|
            0 <= i < indices.len() ==> !is_blank(#[trigger] announced(indices, labels)[i]),
{
    assert forall|i: int| 0 <= i < indices.len() implies !is_blank(
        #[trigger] announced(indices, labels)[i],
    ) by {
        let label = channel_label(indices[i] as int);
        reveal_strlit("Channel ");
        assert(label[0] == 'C');
        crate::text::lemma_blank_is_white_space(label);
        assert(!crate::text::is_white_space(label[0]));
    }
}

// ---------------------------------------------------------------------------
// Selections
// ---------------------------------------------------------------------------

/// The channels from zero up to `count`.
pub open spec fn first_channels(count: nat) -> Seq<usize> {
    Seq::new(count, |i: int| i as usize)
}

/// Whether the channels of a selection ascend, which leaves no room for one
/// that occurs twice.
pub open spec fn ascending(selection: Seq<usize>) -> bool {
    forall|i: int, j: int| 0 <= i < j < selection.len() ==> selection[i] < selection[j]
}

/// The channels other than `channel`.
pub open spec fn other_than(channel: usize) -> spec_fn(usize) -> bool {
    |c: usize| c != channel
}

/// What toggling a channel makes of a selection: a selected channel leaves it
/// and the others keep their order; another one joins it, and the selection is
/// then in ascending order.
pub open spec fn toggled(before: Seq<usize>, channel: usize, after: Seq<usize>) -> bool {
    if before.contains(channel) {
        after == before.filter(other_than(channel))
    } else {
        &&& ascending(after)
        &&& forall|c: usize| after.contains(c) <==> before.contains(c) || c == channel
    }
}

/// The channels from zero up to `count`.
pub fn all_channels(count: usize) -> (selection: Vec<usize>)
    ensures
        selection@ == first_channels(count as nat),
{
    let mut selection: Vec<usize> = Vec::new();
    let mut i: usize = 0;
    while i < count
        invariant
            i <= count,
            selection@ =~= first_channels(i as nat),
        decreases count - i,
    {
        selection.push(i);
        i = i + 1;
    }
    selection
}

/// Whether a channel is selected.
pub fn is_selected(selection: &Vec<usize>, channel: usize) -> (yes: bool)
    ensures
        yes == selection@.contains(channel),
{
    let mut i: usize = 0;
    while i < selection.len()
        invariant
            i <= selection@.len(),
            forall|j: int| 0 <= j < i ==> selection@[j] != channel,
        decreases selection.len() - i,
    {
        if selection[i] == channel {
            assert(selection@[i as int] == channel);
            return true;
        }
        i = i + 1;
    }
    false
}

/// The selection without `channel`.
fn without(selection: &Vec<usize>, channel: usize) -> (rest: Vec<usize>)
    ensures
        rest@ == selection@.filter(other_than(channel)),
{
    let mut rest: Vec<usize> = Vec::new();
    let mut i: usize = 0;
    reveal(Seq::filter);
    while i < selection.len()
        invariant
            i <= selection@.len(),
            rest@ == selection@.take(i as int).filter(other_than(channel)),
        decreases selection.len() - i,
    {
        reveal(Seq::filter);
        assert(selection@.take(i + 1).drop_last() =~= selection@.take(i as int));
        if selection[i] != channel {
            rest.push(selection[i]);
        }
        i = i + 1;
    }
    assert(selection@.take(i as int) =~= selection@);
    rest
}

/// Puts a channel into an ascending selection, once.
fn insert_ascending(selection: &mut Vec<usize>, channel: usize)
    requires
        ascending(old(selection)@),
    ensures
        ascending(final(selection)@),
        forall|c: usize|
            final(selection)@.contains(c) <==> old(selection)@.contains(c) || c == channel,
{
    let mut at: usize = 0;
    while at < selection.len() && selection[at] < channel
        invariant
            at <= selection@.len(),
            selection@ == old(selection)@,
            forall|j: int| 0 <= j < at ==> selection@[j] < channel,
        decreases selection.len() - at,
    {
        at = at + 1;
    }
    if at < selection.len() && selection[at] == channel {
        assert(selection@[at as int] == channel);
        return;
    }
    selection.insert(at, channel);
    proof {
        let before = old(selection)@;
        let after = selection@;
        assert(after == before.insert(at as int, channel));
        assert forall|c: usize| after.contains(c) <==> before.contains(c) || c == channel by {
            if c == channel {
                assert(after[at as int] == c);
            }
            if before.contains(c) {
                let i = choose|i: int| 0 <= i < before.len() && before[i] == c;
                if i < at {
                    assert(after[i] == c);
                } else {
                    assert(after[i + 1] == c);
                }
            }
            if after.contains(c) {
                let i = choose|i: int| 0 <= i < after.len() && after[i] == c;
                if i < at {
                    assert(before[i] == c);
                } else if i > at {
                    assert(before[i - 1] == c);
                }
            }
        }
    }
}

/// Selects a channel that was not selected, or the other way round.
pub fn toggle_channel(selection: &mut Vec<usize>, channel: usize)
    ensures
        toggled(old(selection)@, channel, final(selection)@),
{
    if is_selected(selection, channel) {
        let rest = without(selection, channel);
        *selection = rest;
        return;
    }
    let mut next: Vec<usize> = Vec::new();
    next.push(channel);
    assert(next@[0] == channel);
    let mut i: usize = 0;
    while i < selection.len()
        invariant
            i <= selection@.len(),
            selection@ == old(selection)@,
            ascending(next@),
            forall|c: usize|
                next@.contains(c) <==> selection@.take(i as int).contains(c) || c == channel,
        decreases selection.len() - i,
    {
        let ghost part = selection@.take(i as int);
        let ghost more = selection@.take(i + 1);
        assert(more =~= part.push(selection@[i as int]));
        assert forall|c: usize| more.contains(c) <==> part.contains(c) || c
            == selection@[i as int] by {
            if part.contains(c) {
                let k = choose|k: int| 0 <= k < part.len() && part[k] == c;
                assert(more[k] == c);
            }
            if c == selection@[i as int] {
                assert(more[i as int] == c);
            }
        }
        insert_ascending(&mut next, selection[i]);
        i = i + 1;
    }
    assert(selection@.take(i as int) =~= selection@);
    *selection = next;
}

/// The selections that one button makes.
#[derive(Clone, Copy, Debug, PartialEq, Eq, Structural)]
pub enum QuickSelection {
    All,
    Nothing,
    FirstTwo,
    FirstEight,
    FirstSixteen,
    FirstThirtyTwo,
}

impl QuickSelection {
    /// Whether the button is offered for a driver with `count` channels.
    pub open spec fn is_offered(self, count: usize) -> bool {
        match self {
            QuickSelection::All | QuickSelection::Nothing | QuickSelection::FirstTwo => true,
            QuickSelection::FirstEight => count >= 8,
            QuickSelection::FirstSixteen => count >= 16,
            QuickSelection::FirstThirtyTwo => count >= 32,
        }
    }

    /// How many channels the button selects.
    pub open spec fn width(self, count: usize) -> nat {
        match self {
            QuickSelection::All => count as nat,
            QuickSelection::Nothing => 0,
            QuickSelection::FirstTwo => if count < 2 {
                count as nat
            } else {
                2
            },
            QuickSelection::FirstEight => 8,
            QuickSelection::FirstSixteen => 16,
            QuickSelection::FirstThirtyTwo => 32,
        }
    }

    /// Whether the button is offered for a driver with `count` channels.
    pub fn offered(self, count: usize) -> (yes: bool)
        ensures
            yes == self.is_offered(count),
    {
        match self {
            QuickSelection::All | QuickSelection::Nothing | QuickSelection::FirstTwo => true,
            QuickSelection::FirstEight => count >= 8,
            QuickSelection::FirstSixteen => count >= 16,
            QuickSelection::FirstThirtyTwo => count >= 32,
        }
    }

    /// The caption of the button.
    pub fn caption(self) -> (text: &'static str)
        ensures
            text@ == match self {
                QuickSelection::All => "All"@,
                QuickSelection::Nothing => "None"@,
                QuickSelection::FirstTwo => "1–2"@,
                QuickSelection::FirstEight => "1–8"@,
                QuickSelection::FirstSixteen => "1–16"@,
                QuickSelection::FirstThirtyTwo => "1–32"@,
            },
    {
        match self {
            QuickSelection::All => "All",
            QuickSelection::Nothing => "None",
            QuickSelection::FirstTwo => "1–2",
            QuickSelection::FirstEight => "1–8",
            QuickSelection::FirstSixteen => "1–16",
            QuickSelection::FirstThirtyTwo => "1–32",
        }
    }

    /// The channels that the button selects.
    pub fn channels(self, count: usize) -> (selection: Vec<usize>)
        ensures
            selection@ == first_channels(self.width(count)),
    {
        match self {
            QuickSelection::All => all_channels(count),
            QuickSelection::Nothing => all_channels(0),
            QuickSelection::FirstTwo => all_channels(if count < 2 {
                count
            } else {
                2
            }),
            QuickSelection::FirstEight => all_channels(8),
            QuickSelection::FirstSixteen => all_channels(16),
            QuickSelection::FirstThirtyTwo => all_channels(32),
        }
    }

    /// A button that is offered selects only channels that the driver has, in
    /// ascending order.
    pub proof fn lemma_offered_channels_exist(self, count: usize)
        requires
            self.is_offered(count),
        ensures
            ascending(first_channels(self.width(count))),
            forall|i: int|
                0 <= i < self.width(count) ==> #[trigger] first_channels(self.width(count))[i]
                    < count,
    {
    }
}

/// Toggling a channel changes whether it is selected, and nothing else.
pub proof fn lemma_toggle_changes_one_channel(
    before: Seq<usize>,
    channel: usize,
    after: Seq<usize>,
    other: usize,
)
    requires
        toggled(before, channel, after),
        other != channel,
    ensures
        after.contains(channel) <==> !before.contains(channel),
        after.contains(other) <==> before.contains(other),
{
    if before.contains(channel) {
        lemma_filter_contains(before, channel, channel);
        lemma_filter_contains(before, channel, other);
    }
}

proof fn lemma_filter_contains(s: Seq<usize>, channel: usize, c: usize)
    ensures
        s.filter(other_than(channel)).contains(c) <==> s.contains(c) && c != channel,
    decreases s.len(),
{
    reveal(Seq::filter);
    let kept = s.filter(other_than(channel));
    if s.len() > 0 {
        let rest = s.drop_last();
        lemma_filter_contains(rest, channel, c);
        let rest_kept = rest.filter(other_than(channel));
        assert(rest_kept.contains(c) ==> kept.contains(c)) by {
            if rest_kept.contains(c) {
                let i = choose|i: int| 0 <= i < rest_kept.len() && rest_kept[i] == c;
                assert(kept[i] == c);
            }
        }
        if s.last() == c && c != channel {
            assert(kept[rest_kept.len() as int] == c);
        }
        if s.contains(c) && s.last() != c {
            let i = choose|i: int| 0 <= i < s.len() && s[i] == c;
            assert(rest[i] == c);
        }
        if rest.contains(c) {
            let i = choose|i: int| 0 <= i < rest.len() && rest[i] == c;
            assert(s[i] == c);
        }
        if kept.contains(c) && !rest_kept.contains(c) {
            let i = choose|i: int| 0 <= i < kept.len() && kept[i] == c;
            if i < rest_kept.len() {
                assert(rest_kept[i] == c);
            }
            assert(s[s.len() - 1] == c);
        }
        assert(s.contains(s.last())) by {
            assert(s[s.len() - 1] == s.last());
        }
    }
}

/// Unnamed channels are numbered from one and told apart by their numbers.
pub proof fn lemma_unnamed_channels_are_numbered(index: int, other: int)
    requires
        index >= 0,
        other >= 0,
    ensures
        channel_label(index) == "Channel "@ + decimal((index + 1) as nat),
        crate::text::digits_value(channel_label(index).skip(8)) == index + 1,
        index != other ==> channel_label(index) != channel_label(other),
{
    reveal_strlit("Channel ");
    crate::text::lemma_decimal_round_trip((index + 1) as nat);
    crate::text::lemma_decimal_round_trip((other + 1) as nat);
    assert(channel_label(index).skip(8) =~= decimal((index + 1) as nat));
    assert(channel_label(other).skip(8) =~= decimal((other + 1) as nat));
}

/// Labels that are there stay with their channels; a channel without one is
/// numbered.
pub proof fn lemma_fitted_labels(labels: Seq<Seq<char>>, count: nat, i: int)
    requires
        0 <= i < count,
    ensures
        i < labels.len() ==> fitted(labels, count)[i] == labels[i],
        i >= labels.len() ==> fitted(labels, count)[i] == channel_label(i),
{
}

/// A channel is announced under its own label, wherever in the selection it
/// stands, and by its number where it has none.
pub proof fn lemma_announced_by_channel(indices: Seq<usize>, labels: Seq<Seq<char>>, i: int)
    requires
        0 <= i < indices.len(),
    ensures
        announced(indices, labels).len() == indices.len(),
        indices[i] < labels.len() && !is_blank(labels[indices[i] as int]) ==> announced(
            indices,
            labels,
        )[i] == labels[indices[i] as int],
        indices[i] >= labels.len() ==> announced(indices, labels)[i] == channel_label(
            indices[i] as int,
        ),
        indices[i] < labels.len() && is_blank(labels[indices[i] as int]) ==> announced(
            indices,
            labels,
        )[i] == channel_label(indices[i] as int),
{
}

/// The first channels are all of those below a number, and no others.
pub proof fn lemma_first_channels(count: nat, c: usize)
    requires
        count <= usize::MAX,
    ensures
        first_channels(count).len() == count,
        first_channels(count).contains(c) <==> c < count,
        ascending(first_channels(count)),
{
    if c < count {
        assert(first_channels(count)[c as int] == c);
    }
}

/// The buttons select all channels, none, or the first two, eight, sixteen or
/// thirty-two; those for a fixed number are offered where there are as many.
pub proof fn lemma_quick_selections(count: usize)
    ensures
        QuickSelection::All.width(count) == count,
        QuickSelection::Nothing.width(count) == 0,
        count >= 2 ==> QuickSelection::FirstTwo.width(count) == 2,
        count < 2 ==> QuickSelection::FirstTwo.width(count) == count,
        QuickSelection::FirstEight.width(count) == 8,
        QuickSelection::FirstSixteen.width(count) == 16,
        QuickSelection::FirstThirtyTwo.width(count) == 32,
        forall|q: QuickSelection| #[trigger] q.is_offered(count) <==> q.width(count) <= count,
{
}

/// Toggling a channel of an ascending selection leaves it ascending, and
/// toggling it again brings the selection back.
pub proof fn lemma_toggling_twice(
    before: Seq<usize>,
    channel: usize,
    between: Seq<usize>,
    after: Seq<usize>,
)
    requires
        ascending(before),
        toggled(before, channel, between),
        toggled(between, channel, after),
    ensures
        ascending(between),
        after == before,
{
    if before.contains(channel) {
        lemma_filter_is_ascending(before, channel);
    }
    if between.contains(channel) {
        lemma_filter_is_ascending(between, channel);
    }
    assert forall|c: usize| after.contains(c) <==> before.contains(c) by {
        if c != channel {
            lemma_toggle_changes_one_channel(before, channel, between, c);
            lemma_toggle_changes_one_channel(between, channel, after, c);
        } else {
            let other: usize = if channel == 0 {
                1
            } else {
                0
            };
            lemma_toggle_changes_one_channel(before, channel, between, other);
            lemma_toggle_changes_one_channel(between, channel, after, other);
        }
    }
    lemma_ascending_is_unique(before, after);
}

proof fn lemma_filter_is_ascending(s: Seq<usize>, channel: usize)
    requires
        ascending(s),
    ensures
        ascending(s.filter(other_than(channel))),
        forall|c: usize| #[trigger]
            s.filter(other_than(channel)).contains(c) ==> s.contains(c),
    decreases s.len(),
{
    reveal(Seq::filter);
    if s.len() > 0 {
        let rest = s.drop_last();
        lemma_filter_is_ascending(rest, channel);
        let kept = rest.filter(other_than(channel));
        let all = s.filter(other_than(channel));
        assert forall|i: int| 0 <= i < kept.len() implies (#[trigger] kept[i]) < s.last() by {
            assert(kept.contains(kept[i]));
            assert(rest.contains(kept[i]));
            let j = choose|j: int| 0 <= j < rest.len() && rest[j] == kept[i];
            assert(s[j] < s[s.len() - 1]);
        }
        assert forall|c: usize| all.contains(c) implies s.contains(c) by {
            let i = choose|i: int| 0 <= i < all.len() && all[i] == c;
            if i < kept.len() {
                assert(kept.contains(kept[i]));
                assert(rest.contains(kept[i]));
                let j = choose|j: int| 0 <= j < rest.len() && rest[j] == kept[i];
                assert(s[j] == c);
            } else {
                assert(s[s.len() - 1] == c);
            }
        }
    }
}

proof fn lemma_ascending_is_unique(a: Seq<usize>, b: Seq<usize>)
    requires
        ascending(a),
        ascending(b),
        forall|c: usize| a.contains(c) <==> b.contains(c),
    ensures
        a == b,
    decreases a.len(),
{
    if a.len() == 0 {
        if b.len() > 0 {
            assert(b.contains(b[0]));
        }
        assert(a =~= b);
    } else {
        assert(a.contains(a[a.len() - 1]));
        assert(b.len() > 0);
        assert(b.contains(b[b.len() - 1]));
        let i = choose|i: int| 0 <= i < b.len() && b[i] == a.last();
        let j = choose|j: int| 0 <= j < a.len() && a[j] == b.last();
        assert(a.last() == b.last());
        let c = a.drop_last();
        let d = b.drop_last();
        assert forall|x: usize| c.contains(x) <==> d.contains(x) by {
            if c.contains(x) {
                let k = choose|k: int| 0 <= k < c.len() && c[k] == x;
                assert(a[k] == x && a[k] < a[a.len() - 1]);
                assert(b.contains(x));
                let l = choose|l: int| 0 <= l < b.len() && b[l] == x;
                assert(d[l] == x);
            }
            if d.contains(x) {
                let k = choose|k: int| 0 <= k < d.len() && d[k] == x;
                assert(b[k] == x && b[k] < b[b.len() - 1]);
                assert(a.contains(x));
                let l = choose|l: int| 0 <= l < a.len() && a[l] == x;
                assert(c[l] == x);
            }
        }
        lemma_ascending_is_unique(c, d);
        assert(a =~= c.push(a.last()));
        assert(b =~= d.push(b.last()));
    }
}

/// An ascending selection holds no channel twice, and starts with its least.
pub proof fn lemma_ascending_selections(selection: Seq<usize>, i: int, j: int)
    requires
        ascending(selection),
        0 <= i < selection.len(),
        0 <= j < selection.len(),
    ensures
        selection[i] == selection[j] <==> i == j,
        selection[0] <= selection[i],
{
}

} // verus!
