//! Audio devices, ASIO drivers and the streams discovered on the network.

use crate::text::{
    clone_texts, decimal, lemma_text_le_antisymmetric, lemma_text_le_total,
    lemma_text_le_transitive, lowercase, not_after, option_text, push_decimal, same_text, text_le,
    texts, to_lowercase,
};
use vstd::prelude::*;

verus! {

/// An audio device of the system.
pub struct DeviceInfo {
    pub name: String,
    pub max_input_channels: usize,
    pub max_output_channels: usize,
}

/// An installed ASIO driver.
pub struct AsioDriverInfo {
    pub name: String,
    pub max_input_channels: usize,
    pub max_output_channels: usize,
    pub default_sample_rate: Option<u32>,
}

/// A stream that a publisher on the network announces.
pub struct DiscoveredStream {
    pub node_id: String,
    pub node_name: String,
    pub stream_name: String,
    pub stream_id: u32,
    pub channel_count: usize,
    pub channel_labels: Vec<String>,
    pub ip: String,
    pub control_port: u16,
}

/// An announced stream, in mathematical terms.
#[verifier::ext_equal]
pub struct StreamInfo {
    pub node_id: Seq<char>,
    pub node_name: Seq<char>,
    pub stream_name: Seq<char>,
    pub stream_id: u32,
    pub channel_count: usize,
    pub channel_labels: Seq<Seq<char>>,
    pub ip: Seq<char>,
    pub control_port: u16,
}

impl View for DiscoveredStream {
    type V = StreamInfo;

    open spec fn view(&self) -> StreamInfo {
        StreamInfo {
            node_id: self.node_id@,
            node_name: self.node_name@,
            stream_name: self.stream_name@,
            stream_id: self.stream_id,
            channel_count: self.channel_count,
            channel_labels: texts(self.channel_labels@),
            ip: self.ip@,
            control_port: self.control_port,
        }
    }
}

impl DiscoveredStream {
    /// A copy.
    pub fn duplicate(&self) -> (copy: Self)
        ensures
            copy@ == self@,
    {
        DiscoveredStream {
            node_id: self.node_id.clone(),
            node_name: self.node_name.clone(),
            stream_name: self.stream_name.clone(),
            stream_id: self.stream_id,
            channel_count: self.channel_count,
            channel_labels: clone_texts(&self.channel_labels),
            ip: self.ip.clone(),
            control_port: self.control_port,
        }
    }
}

// ---------------------------------------------------------------------------
// Finding by name
// ---------------------------------------------------------------------------

/// The first place at which a name stands.
pub open spec fn first_place(names: Seq<Seq<char>>, name: Seq<char>) -> Option<int>
    decreases names.len(),
{
    if names.len() == 0 {
        None
    } else {
        match first_place(names.drop_last(), name) {
            Some(i) => Some(i),
            None => if names.last() == name {
                Some(names.len() - 1)
            } else {
                None
            },
        }
    }
}

/// What the first place of a name is.
pub proof fn lemma_first_place(names: Seq<Seq<char>>, name: Seq<char>)
    ensures
        first_place(names, name) matches Some(i) ==> 0 <= i < names.len() && names[i] == name && (
        forall|j: int| 0 <= j < i ==> names[j] != name),
        first_place(names, name) is None <==> !names.contains(name),
    decreases names.len(),
{
    if names.len() > 0 {
        let rest = names.drop_last();
        lemma_first_place(rest, name);
        assert forall|j: int| 0 <= j < rest.len() implies #[trigger] names[j] == rest[j] by {}
        assert forall|j: int| 0 <= j < rest.len() && names[j] == name implies rest.contains(
            name,
        ) by {
            assert(rest[j] == name);
        }
        if names.contains(name) && first_place(rest, name) is None {
            let i = choose|i: int| 0 <= i < names.len() && names[i] == name;
            if i < rest.len() {
                assert(rest[i] == name);
            }
        }
    }
}

proof fn lemma_first_place_found(names: Seq<Seq<char>>, name: Seq<char>, k: int)
    requires
        0 <= k < names.len(),
        names[k] == name,
        forall|j: int| 0 <= j < k ==> names[j] != name,
    ensures
        first_place(names, name) == Some(k),
{
    lemma_first_place(names, name);
    assert(names.contains(name));
}

proof fn lemma_first_place_missing(names: Seq<Seq<char>>, name: Seq<char>)
    requires
        forall|j: int| 0 <= j < names.len() ==> names[j] != name,
    ensures
        first_place(names, name) is None,
{
    lemma_first_place(names, name);
}

/// The names of some devices.
pub open spec fn device_names(devices: Seq<DeviceInfo>) -> Seq<Seq<char>> {
    devices.map_values(|d: DeviceInfo| d.name@)
}

/// The names of some drivers.
pub open spec fn driver_names(drivers: Seq<AsioDriverInfo>) -> Seq<Seq<char>> {
    drivers.map_values(|d: AsioDriverInfo| d.name@)
}

/// The node identifiers of some streams.
pub open spec fn node_ids(streams: Seq<DiscoveredStream>) -> Seq<Seq<char>> {
    streams.map_values(|s: DiscoveredStream| s.node_id@)
}

/// Finds a device by its name.
pub fn find_device(devices: &Vec<DeviceInfo>, name: &str) -> (found: Option<usize>)
    ensures
        found is Some <==> first_place(device_names(devices@), name@) is Some,
        found matches Some(i) ==> i < devices@.len() && first_place(
            device_names(devices@),
            name@,
        ) == Some(i as int),
{
    let ghost names = device_names(devices@);
    let mut i: usize = 0;
    while i < devices.len()
        invariant
            i <= devices@.len(),
            names == device_names(devices@),
            forall|j: int| 0 <= j < i ==> names[j] != name@,
        decreases devices.len() - i,
    {
        if same_text(devices[i].name.as_str(), name) {
            proof {
                lemma_first_place_found(names, name@, i as int);
            }
            return Some(i);
        }
        i = i + 1;
    }
    proof {
        lemma_first_place_missing(names, name@);
    }
    None
}

/// Finds a driver by its name.
pub fn find_driver(drivers: &Vec<AsioDriverInfo>, name: &str) -> (found: Option<usize>)
    ensures
        found is Some <==> first_place(driver_names(drivers@), name@) is Some,
        found matches Some(i) ==> i < drivers@.len() && first_place(
            driver_names(drivers@),
            name@,
        ) == Some(i as int),
{
    let ghost names = driver_names(drivers@);
    let mut i: usize = 0;
    while i < drivers.len()
        invariant
            i <= drivers@.len(),
            names == driver_names(drivers@),
            forall|j: int| 0 <= j < i ==> names[j] != name@,
        decreases drivers.len() - i,
    {
        if same_text(drivers[i].name.as_str(), name) {
            proof {
                lemma_first_place_found(names, name@, i as int);
            }
            return Some(i);
        }
        i = i + 1;
    }
    proof {
        lemma_first_place_missing(names, name@);
    }
    None
}

/// Finds a stream by the identifier of its node.
pub fn find_stream(streams: &Vec<DiscoveredStream>, node_id: &str) -> (found: Option<usize>)
    ensures
        found is Some <==> first_place(node_ids(streams@), node_id@) is Some,
        found matches Some(i) ==> i < streams@.len() && first_place(
            node_ids(streams@),
            node_id@,
        ) == Some(i as int),
{
    let ghost names = node_ids(streams@);
    let mut i: usize = 0;
    while i < streams.len()
        invariant
            i <= streams@.len(),
            names == node_ids(streams@),
            forall|j: int| 0 <= j < i ==> names[j] != node_id@,
        decreases streams.len() - i,
    {
        if same_text(streams[i].node_id.as_str(), node_id) {
            proof {
                lemma_first_place_found(names, node_id@, i as int);
            }
            return Some(i);
        }
        i = i + 1;
    }
    proof {
        lemma_first_place_missing(names, node_id@);
    }
    None
}

/// The stream that a session has selected, where it is still announced.
pub open spec fn selected_stream(
    streams: Seq<DiscoveredStream>,
    selected: Option<Seq<char>>,
) -> Option<DiscoveredStream> {
    match selected {
        Some(node_id) => match first_place(node_ids(streams), node_id) {
            Some(i) => Some(streams[i]),
            None => None,
        },
        None => None,
    }
}

/// The driver that a session has selected, where it is still installed.
pub open spec fn selected_driver(
    drivers: Seq<AsioDriverInfo>,
    selected: Option<Seq<char>>,
) -> Option<AsioDriverInfo> {
    match selected {
        Some(name) => match first_place(driver_names(drivers), name) {
            Some(i) => Some(drivers[i]),
            None => None,
        },
        None => None,
    }
}

/// Looks up the stream that a session has selected.
pub fn lookup_stream<'a>(
    streams: &'a Vec<DiscoveredStream>,
    selected: &Option<String>,
) -> (found: Option<&'a DiscoveredStream>)
    ensures
        found is Some <==> selected_stream(streams@, option_text(*selected)) is Some,
        found matches Some(stream) ==> selected_stream(
            streams@,
            option_text(*selected),
        ) == Some(*stream),
{
    match selected {
        Some(node_id) => match find_stream(streams, node_id.as_str()) {
            Some(i) => Some(&streams[i]),
            None => None,
        },
        None => None,
    }
}

/// Looks up the driver that a session has selected.
pub fn lookup_driver<'a>(
    drivers: &'a Vec<AsioDriverInfo>,
    selected: &Option<String>,
) -> (found: Option<&'a AsioDriverInfo>)
    ensures
        found is Some <==> selected_driver(drivers@, option_text(*selected)) is Some,
        found matches Some(driver) ==> selected_driver(
            drivers@,
            option_text(*selected),
        ) == Some(*driver),
{
    match selected {
        Some(name) => match find_driver(drivers, name.as_str()) {
            Some(i) => Some(&drivers[i]),
            None => None,
        },
        None => None,
    }
}

// ---------------------------------------------------------------------------
// Listing
// ---------------------------------------------------------------------------

/// What a stream is listed by: the lowercase names of its node and of itself.
pub open spec fn listing_key(stream: StreamInfo) -> (Seq<char>, Seq<char>) {
    (lowercase(stream.node_name), lowercase(stream.stream_name))
}

/// Whether a key comes no later than another.
pub open spec fn key_le(a: (Seq<char>, Seq<char>), b: (Seq<char>, Seq<char>)) -> bool {
    if a.0 != b.0 {
        text_le(a.0, b.0)
    } else {
        text_le(a.1, b.1)
    }
}

/// Whether the stream at place `i` is listed before the one at place `j`:
/// by key, and by place where the keys are equal.
pub open spec fn listed_before(keys: Seq<(Seq<char>, Seq<char>)>, i: int, j: int) -> bool {
    &&& key_le(keys[i], keys[j])
    &&& keys[i] == keys[j] ==> i < j
}

/// Whether `order` lists the places of all keys, each once, in listing order.
pub open spec fn is_listing(keys: Seq<(Seq<char>, Seq<char>)>, order: Seq<int>) -> bool {
    &&& order.len() == keys.len()
    &&& forall|i: int| 0 <= i < order.len() ==> 0 <= #[trigger] order[i] < keys.len()
    &&& order.no_duplicates()
    &&& forall|i: int, j: int|
        0 <= i < j < order.len() ==> listed_before(keys, #[trigger] order[i], #[trigger] order[j])
}

/// The keys of some streams.
pub open spec fn listing_keys(streams: Seq<DiscoveredStream>) -> Seq<(Seq<char>, Seq<char>)> {
    streams.map_values(|s: DiscoveredStream| listing_key(s@))
}

proof fn lemma_key_le_transitive(
    a: (Seq<char>, Seq<char>),
    b: (Seq<char>, Seq<char>),
    c: (Seq<char>, Seq<char>),
)
    requires
        key_le(a, b),
        key_le(b, c),
    ensures
        key_le(a, c),
{
    if a.0 == b.0 && b.0 == c.0 {
        lemma_text_le_transitive(a.1, b.1, c.1);
    } else if a.0 != b.0 && b.0 != c.0 {
        lemma_text_le_transitive(a.0, b.0, c.0);
        if a.0 == c.0 {
            lemma_text_le_antisymmetric(a.0, b.0);
        }
    }
}

proof fn lemma_key_le_total(a: (Seq<char>, Seq<char>), b: (Seq<char>, Seq<char>))
    ensures
        key_le(a, b) || key_le(b, a),
        key_le(a, b) && key_le(b, a) ==> a == b,
{
    lemma_text_le_total(a.0, b.0);
    lemma_text_le_total(a.1, b.1);
    if key_le(a, b) && key_le(b, a) {
        if a.0 != b.0 {
            lemma_text_le_antisymmetric(a.0, b.0);
        } else {
            lemma_text_le_antisymmetric(a.1, b.1);
        }
    }
}

/// What a stream is listed by: two names, already in lower case.
pub struct NameKey {
    pub node: String,
    pub stream: String,
}

impl View for NameKey {
    type V = (Seq<char>, Seq<char>);

    open spec fn view(&self) -> (Seq<char>, Seq<char>) {
        (self.node@, self.stream@)
    }
}

/// Some keys in mathematical terms.
pub open spec fn key_pairs(keys: Seq<NameKey>) -> Seq<(Seq<char>, Seq<char>)> {
    keys.map_values(|k: NameKey| k@)
}

fn key_not_after(a: &NameKey, b: &NameKey) -> (yes: bool)
    ensures
        yes == key_le(a@, b@),
{
    if same_text(a.node.as_str(), b.node.as_str()) {
        not_after(a.stream.as_str(), b.stream.as_str())
    } else {
        not_after(a.node.as_str(), b.node.as_str())
    }
}

/// The places of `order` as mathematical integers.
pub open spec fn places(order: Seq<usize>) -> Seq<int> {
    order.map_values(|i: usize| i as int)
}

/// The places of the keys in listing order: by the name of the node, then by
/// the name of the stream; equal keys keep the order that they came in.
pub fn order_by_key(names: &Vec<NameKey>) -> (order: Vec<usize>)
    ensures
        is_listing(key_pairs(names@), places(order@)),
{
    let ghost keys = key_pairs(names@);
    let mut order: Vec<usize> = Vec::new();
    let mut next: usize = 0;
    while next < names.len()
        invariant
            next <= names@.len(),
            keys == key_pairs(names@),
            is_listing(keys.take(next as int), places(order@)),
        decreases names.len() - next,
    {
        let ghost part = keys.take(next as int);
        let ghost whole = keys.take(next + 1);
        let ghost before = places(order@);
        assert forall|j: int| 0 <= j < order@.len() implies (#[trigger] order@[j]) < next by {
            assert(before[j] == order@[j]);
        }
        let mut at: usize = 0;
        while at < order.len() && key_not_after(&names[order[at]], &names[next])
            invariant
                at <= order@.len(),
                next < names@.len(),
                keys == key_pairs(names@),
                part == keys.take(next as int),
                before == places(order@),
                is_listing(part, before),
                forall|j: int| 0 <= j < order@.len() ==> (#[trigger] order@[j]) < next,
                forall|j: int|
                    0 <= j < at ==> key_le(keys[#[trigger] order@[j] as int], keys[next as int]),
            decreases order.len() - at,
        {
            at = at + 1;
        }
        order.insert(at, next);
        proof {
            let after = places(order@);
            assert(after =~= before.insert(at as int, next as int));
            assert forall|i: int, j: int| 0 <= i < j < after.len() implies listed_before(
                whole,
                #[trigger] after[i],
                #[trigger] after[j],
            ) by {
                let bi = if i < at { i } else { i - 1 };
                let bj = if j < at { j } else { j - 1 };
                if i != at && j != at {
                    assert(before[bi] == after[i] && before[bj] == after[j]);
                    assert(listed_before(part, before[bi], before[bj]));
                } else if j == at {
                    assert(before[bi] == after[i]);
                    assert(key_le(keys[order@[i] as int], keys[next as int]));
                } else {
                    assert(before[bj] == after[j]);
                    assert(before[at as int] == after[at + 1]);
                    lemma_key_le_total(keys[before[at as int]], keys[next as int]);
                    if bj > at {
                        assert(listed_before(part, before[at as int], before[bj]));
                        lemma_key_le_transitive(
                            keys[next as int],
                            keys[before[at as int]],
                            keys[before[bj]],
                        );
                        if keys[next as int] == keys[before[bj]] {
                            lemma_key_le_total(keys[before[at as int]], keys[next as int]);
                        }
                    }
                }
            }
            assert(after.no_duplicates());
        }
        next = next + 1;
    }
    assert(keys.take(next as int) =~= keys);
    order
}

/// The order in which streams are listed: by the lowercase name of the node,
/// then by the lowercase name of the stream; streams that agree in both keep
/// the order that they came in.
pub fn listing_order(streams: &Vec<DiscoveredStream>) -> (order: Vec<usize>)
    ensures
        is_listing(listing_keys(streams@), places(order@)),
{
    let mut names: Vec<NameKey> = Vec::new();
    let mut next: usize = 0;
    while next < streams.len()
        invariant
            next <= streams@.len(),
            names@.len() == next,
            forall|j: int| 0 <= j < next ==> (#[trigger] names@[j])@ == listing_key(streams@[j]@),
        decreases streams.len() - next,
    {
        names.push(
            NameKey {
                node: to_lowercase(streams[next].node_name.as_str()),
                stream: to_lowercase(streams[next].stream_name.as_str()),
            },
        );
        next = next + 1;
    }
    assert(key_pairs(names@) =~= listing_keys(streams@));
    order_by_key(&names)
}

/// The streams at some places.
pub open spec fn picked(streams: Seq<DiscoveredStream>, order: Seq<int>) -> Seq<StreamInfo> {
    order.map_values(|i: int| streams[i]@)
}

/// Some streams in mathematical terms.
pub open spec fn stream_infos(streams: Seq<DiscoveredStream>) -> Seq<StreamInfo> {
    streams.map_values(|s: DiscoveredStream| s@)
}

/// The discovered streams as a page lists them.  `entries` holds the contents
/// of the discovery directory in any order.
pub fn snapshot_discovered_streams(entries: &Vec<DiscoveredStream>) -> (listed: Vec<
    DiscoveredStream,
>)
    ensures
        exists|order: Seq<int>|
            #![trigger is_listing(listing_keys(entries@), order)]
            is_listing(listing_keys(entries@), order) && stream_infos(listed@) == picked(
                entries@,
                order,
            ),
{
    let order = listing_order(entries);
    let ghost by_place = places(order@);
    let mut listed: Vec<DiscoveredStream> = Vec::new();
    let mut i: usize = 0;
    while i < order.len()
        invariant
            i <= order@.len(),
            by_place == places(order@),
            is_listing(listing_keys(entries@), by_place),
            listed@.len() == i,
            forall|j: int| 0 <= j < i ==> (#[trigger] listed@[j])@ == entries@[by_place[j]]@,
        decreases order.len() - i,
    {
        assert(by_place[i as int] == order@[i as int]);
        listed.push(entries[order[i]].duplicate());
        i = i + 1;
    }
    assert(stream_infos(listed@) =~= picked(entries@, by_place));
    listed
}

/// There is only one way to list some streams.
pub proof fn lemma_listing_is_unique(
    keys: Seq<(Seq<char>, Seq<char>)>,
    a: Seq<int>,
    b: Seq<int>,
)
    requires
        is_listing(keys, a),
        is_listing(keys, b),
    ensures
        a == b,
{
    lemma_listing_is_complete(keys, a);
    lemma_listing_is_complete(keys, b);
    assert forall|x: int| a.contains(x) <==> b.contains(x) by {
        if a.contains(x) {
            let i = choose|i: int| 0 <= i < a.len() && a[i] == x;
            assert(0 <= a[i] < keys.len());
        }
        if b.contains(x) {
            let i = choose|i: int| 0 <= i < b.len() && b[i] == x;
            assert(0 <= b[i] < keys.len());
        }
    }
    lemma_same_members_same_listing(keys, a, b);
}

/// A listing names every stream.
pub proof fn lemma_listing_is_complete(keys: Seq<(Seq<char>, Seq<char>)>, order: Seq<int>)
    requires
        is_listing(keys, order),
    ensures
        forall|x: int| 0 <= x < keys.len() ==> order.contains(x),
{
    let all = vstd::set_lib::set_int_range(0, keys.len() as int);
    vstd::set_lib::lemma_int_range(0, keys.len() as int);
    order.unique_seq_to_set();
    assert(order.to_set().subset_of(all)) by {
        assert forall|x: int| order.to_set().contains(x) implies all.contains(x) by {
            let i = choose|i: int| 0 <= i < order.len() && order[i] == x;
            assert(0 <= order[i] < keys.len());
        }
    }
    vstd::set_lib::lemma_subset_equality(order.to_set(), all);
    assert forall|x: int| 0 <= x < keys.len() implies order.contains(x) by {
        assert(all.contains(x));
        assert(order.to_set().contains(x));
    }
}

proof fn lemma_same_members_same_listing(
    keys: Seq<(Seq<char>, Seq<char>)>,
    a: Seq<int>,
    b: Seq<int>,
)
    requires
        a.len() == b.len(),
        a.no_duplicates(),
        b.no_duplicates(),
        forall|x: int| a.contains(x) <==> b.contains(x),
        forall|i: int, j: int|
            0 <= i < j < a.len() ==> listed_before(keys, #[trigger] a[i], #[trigger] a[j]),
        forall|i: int, j: int|
            0 <= i < j < b.len() ==> listed_before(keys, #[trigger] b[i], #[trigger] b[j]),
    ensures
        a == b,
    decreases a.len(),
{
    if a.len() == 0 {
        assert(a =~= b);
    } else {
        let n = a.len() - 1;
        let x = a[n];
        let y = b[n];
        assert(a.contains(x));
        assert(b.contains(y));
        let k = choose|k: int| 0 <= k < b.len() && b[k] == x;
        let m = choose|m: int| 0 <= m < a.len() && a[m] == y;
        if k < n {
            assert(listed_before(keys, b[k], b[n]));
            if m < n {
                assert(listed_before(keys, a[m], a[n]));
                lemma_key_le_total(keys[x], keys[y]);
            }
        }
        assert(x == y);
        let c = a.drop_last();
        let d = b.drop_last();
        assert forall|z: int| c.contains(z) <==> d.contains(z) by {
            if c.contains(z) {
                let i = choose|i: int| 0 <= i < c.len() && c[i] == z;
                assert(a[i] == z);
                assert(a.contains(z));
                let j = choose|j: int| 0 <= j < b.len() && b[j] == z;
                assert(j != n);
                assert(d[j] == z);
            }
            if d.contains(z) {
                let i = choose|i: int| 0 <= i < d.len() && d[i] == z;
                assert(b[i] == z);
                assert(b.contains(z));
                let j = choose|j: int| 0 <= j < a.len() && a[j] == z;
                assert(j != n);
                assert(c[j] == z);
            }
        }
        lemma_same_members_same_listing(keys, c, d);
        assert(a =~= c.push(x));
        assert(b =~= d.push(y));
    }
}

// ---------------------------------------------------------------------------
// Texts
// ---------------------------------------------------------------------------

impl StreamInfo {
    /// How a page for ordinary devices names a stream.
    pub open spec fn option_label(self) -> Seq<char> {
        self.node_name + " — \""@ + self.stream_name + "\"  •  "@ + decimal(
            self.channel_count as nat,
        ) + " ch  •  "@ + self.ip
    }

    /// How the ASIO page names a stream.
    pub open spec fn asio_option_label(self) -> Seq<char> {
        self.node_name + " — \""@ + self.stream_name + "\" ("@ + decimal(
            self.channel_count as nat,
        ) + "ch, "@ + self.ip + ")"@
    }
}

impl DiscoveredStream {
    /// How a page for ordinary devices names the stream.
    pub fn stream_label(&self) -> (label: String)
        ensures
            label@ == self@.option_label(),
    {
        let mut label = self.node_name.clone();
        label.append(" — \"");
        label.append(self.stream_name.as_str());
        label.append("\"  •  ");
        push_decimal(&mut label, self.channel_count as u128);
        label.append(" ch  •  ");
        label.append(self.ip.as_str());
        label
    }

    /// How the ASIO page names the stream.
    pub fn asio_stream_label(&self) -> (label: String)
        ensures
            label@ == self@.asio_option_label(),
    {
        let mut label = self.node_name.clone();
        label.append(" — \"");
        label.append(self.stream_name.as_str());
        label.append("\" (");
        push_decimal(&mut label, self.channel_count as u128);
        label.append("ch, ");
        label.append(self.ip.as_str());
        label.append(")");
        label
    }
}

impl AsioDriverInfo {
    /// The name of a driver with the numbers of its channels.
    pub open spec fn counted_name(self) -> Seq<char> {
        self.name@ + " ("@ + decimal(self.max_input_channels as nat) + " in / "@ + decimal(
            self.max_output_channels as nat,
        ) + " out"@
    }

    /// Whether streams can be captured from the driver.
    pub fn has_inputs(&self) -> (yes: bool)
        ensures
            yes == (self.max_input_channels > 0),
    {
        self.max_input_channels > 0
    }

    /// Whether streams can be played on the driver.
    pub fn has_outputs(&self) -> (yes: bool)
        ensures
            yes == (self.max_output_channels > 0),
    {
        self.max_output_channels > 0
    }

    /// How the publish page names a driver.
    pub fn publish_label(&self) -> (label: String)
        ensures
            label@ == self.counted_name() + ")"@,
    {
        let mut label = self.name.clone();
        label.append(" (");
        push_decimal(&mut label, self.max_input_channels as u128);
        label.append(" in / ");
        push_decimal(&mut label, self.max_output_channels as u128);
        label.append(" out");
        label.append(")");
        label
    }

    /// How the subscribe page names a driver: with its sample rate where that
    /// is known.
    pub fn subscribe_label(&self) -> (label: String)
        ensures
            label@ == match self.default_sample_rate {
                Some(rate) => self.counted_name() + ", "@ + decimal(rate as nat) + "Hz"@ + ")"@,
                None => self.counted_name() + ")"@,
            },
    {
        let mut label = self.name.clone();
        label.append(" (");
        push_decimal(&mut label, self.max_input_channels as u128);
        label.append(" in / ");
        push_decimal(&mut label, self.max_output_channels as u128);
        label.append(" out");
        if let Some(rate) = self.default_sample_rate {
            label.append(", ");
            push_decimal(&mut label, rate as u128);
            label.append("Hz");
        }
        label.append(")");
        label
    }
}

/// The stream that is found is the first announced one of its node.
pub proof fn lemma_selected_stream(streams: Seq<DiscoveredStream>, node_id: Seq<char>, k: int)
    ensures
        selected_stream(streams, None) is None,
        0 <= k < streams.len() && streams[k].node_id@ == node_id && (forall|j: int|
            0 <= j < k ==> (#[trigger] streams[j]).node_id@ != node_id) ==> selected_stream(
            streams,
            Some(node_id),
        ) == Some(streams[k]),
        (forall|j: int| 0 <= j < streams.len() ==> (#[trigger] streams[j]).node_id@ != node_id)
            ==> selected_stream(streams, Some(node_id)) is None,
        selected_stream(streams, Some(node_id)) matches Some(stream) ==> stream.node_id@ == node_id,
{
    let names = node_ids(streams);
    lemma_first_place(names, node_id);
    if 0 <= k < streams.len() && streams[k].node_id@ == node_id && (forall|j: int|
        0 <= j < k ==> (#[trigger] streams[j]).node_id@ != node_id) {
        assert forall|j: int| 0 <= j < k implies names[j] != node_id by {
            assert(streams[j].node_id@ != node_id);
        }
        lemma_first_place_found(names, node_id, k);
    }
    if forall|j: int| 0 <= j < streams.len() ==> (#[trigger] streams[j]).node_id@ != node_id {
        assert forall|j: int| 0 <= j < names.len() implies names[j] != node_id by {
            assert(streams[j].node_id@ != node_id);
        }
        lemma_first_place_missing(names, node_id);
    }
}

/// The driver that is found is the first installed one of its name.
pub proof fn lemma_selected_driver(drivers: Seq<AsioDriverInfo>, name: Seq<char>, k: int)
    ensures
        selected_driver(drivers, None) is None,
        0 <= k < drivers.len() && drivers[k].name@ == name && (forall|j: int|
            0 <= j < k ==> (#[trigger] drivers[j]).name@ != name) ==> selected_driver(
            drivers,
            Some(name),
        ) == Some(drivers[k]),
        (forall|j: int| 0 <= j < drivers.len() ==> (#[trigger] drivers[j]).name@ != name)
            ==> selected_driver(drivers, Some(name)) is None,
        selected_driver(drivers, Some(name)) matches Some(driver) ==> driver.name@ == name,
{
    let names = driver_names(drivers);
    lemma_first_place(names, name);
    if 0 <= k < drivers.len() && drivers[k].name@ == name && (forall|j: int|
        0 <= j < k ==> (#[trigger] drivers[j]).name@ != name) {
        assert forall|j: int| 0 <= j < k implies names[j] != name by {
            assert(drivers[j].name@ != name);
        }
        lemma_first_place_found(names, name, k);
    }
    if forall|j: int| 0 <= j < drivers.len() ==> (#[trigger] drivers[j]).name@ != name {
        assert forall|j: int| 0 <= j < names.len() implies names[j] != name by {
            assert(drivers[j].name@ != name);
        }
        lemma_first_place_missing(names, name);
    }
}

/// Streams are listed by the lowercase name of their node, those of one node by
/// their own lowercase name, and those that agree in both as they came.
pub proof fn lemma_listing_is_sorted(
    streams: Seq<DiscoveredStream>,
    order: Seq<int>,
    i: int,
    j: int,
)
    requires
        is_listing(listing_keys(streams), order),
        0 <= i < j < order.len(),
    ensures
        0 <= order[i] < streams.len(),
        0 <= order[j] < streams.len(),
        order[i] != order[j],
        ({
            let a = streams[order[i]];
            let b = streams[order[j]];
            &&& text_le(lowercase(a.node_name@), lowercase(b.node_name@))
            &&& lowercase(a.node_name@) == lowercase(b.node_name@) ==> text_le(
                lowercase(a.stream_name@),
                lowercase(b.stream_name@),
            )
            &&& lowercase(a.node_name@) == lowercase(b.node_name@) && lowercase(a.stream_name@)
                == lowercase(b.stream_name@) ==> order[i] < order[j]
        }),
        picked(streams, order).len() == streams.len(),
        picked(streams, order)[i] == streams[order[i]]@,
{
    let keys = listing_keys(streams);
    assert(listed_before(keys, order[i], order[j]));
    let a = streams[order[i]];
    let b = streams[order[j]];
    assert(keys[order[i]] == (lowercase(a.node_name@), lowercase(a.stream_name@)));
    assert(keys[order[j]] == (lowercase(b.node_name@), lowercase(b.stream_name@)));
    lemma_text_le_total(lowercase(a.node_name@), lowercase(b.node_name@));
}

/// The view of an announced stream tells all of it.
pub proof fn lemma_stream_view_is_complete(a: DiscoveredStream, b: DiscoveredStream)
    requires
        a@ == b@,
    ensures
        a.node_id@ == b.node_id@,
        a.node_name@ == b.node_name@,
        a.stream_name@ == b.stream_name@,
        a.stream_id == b.stream_id,
        a.channel_count == b.channel_count,
        texts(a.channel_labels@) == texts(b.channel_labels@),
        a.ip@ == b.ip@,
        a.control_port == b.control_port,
{
}

/// A page for ordinary devices names a stream after its node and itself, with the
/// number of its channels and its address.
pub proof fn lemma_labels_tell_the_stream(stream: StreamInfo)
    ensures
        crate::text::starts_with_text(
            stream.option_label(),
            stream.node_name + " — \""@ + stream.stream_name + "\""@,
        ),
        crate::text::contains_text(
            stream.option_label(),
            decimal(stream.channel_count as nat) + " ch  •  "@ + stream.ip,
        ),
{
    reveal_strlit("\"  •  ");
    reveal_strlit("\"");
    reveal_strlit("  •  ");
    let none = Seq::<char>::empty();
    let name = stream.node_name + " — \""@ + stream.stream_name + "\""@;
    let label = stream.option_label();
    let tail = decimal(stream.channel_count as nat) + " ch  •  "@ + stream.ip;
    assert("\"  •  "@ =~= "\""@ + "  •  "@);
    assert(label =~= name + ("  •  "@ + tail));
    crate::text::lemma_what_is_found(none, name, "  •  "@ + tail);
    assert(label =~= (name + "  •  "@) + tail + none);
    crate::text::lemma_what_is_found(name + "  •  "@, tail, none);
}

/// The ASIO page names a stream likewise, with the number and the address in
/// brackets.
pub proof fn lemma_asio_labels_tell_the_stream(stream: StreamInfo)
    ensures
        crate::text::starts_with_text(
            stream.asio_option_label(),
            stream.node_name + " — \""@ + stream.stream_name + "\""@,
        ),
        crate::text::contains_text(
            stream.asio_option_label(),
            "("@ + decimal(stream.channel_count as nat) + "ch, "@ + stream.ip + ")"@,
        ),
{
    reveal_strlit("\" (");
    reveal_strlit("\"");
    reveal_strlit("(");
    reveal_strlit(" ");
    let none = Seq::<char>::empty();
    let name = stream.node_name + " — \""@ + stream.stream_name + "\""@;
    let label = stream.asio_option_label();
    let tail = "("@ + decimal(stream.channel_count as nat) + "ch, "@ + stream.ip + ")"@;
    assert("\" ("@ =~= "\""@ + " "@ + "("@);
    assert(label =~= name + (" "@ + tail));
    crate::text::lemma_what_is_found(none, name, " "@ + tail);
    assert(label =~= (name + " "@) + tail + none);
    crate::text::lemma_what_is_found(name + " "@, tail, none);
}

/// A driver is named with its inputs, and behind them its outputs.
pub proof fn lemma_drivers_are_counted(driver: AsioDriverInfo)
    ensures
        crate::text::starts_with_text(
            driver.counted_name(),
            driver.name@ + " ("@ + decimal(driver.max_input_channels as nat) + " in"@,
        ),
        crate::text::contains_text(
            driver.counted_name(),
            "/ "@ + decimal(driver.max_output_channels as nat) + " out"@,
        ),
{
    reveal_strlit(" in / ");
    reveal_strlit(" in");
    reveal_strlit("/ ");
    reveal_strlit(" ");
    let none = Seq::<char>::empty();
    let label = driver.counted_name();
    let inputs = driver.name@ + " ("@ + decimal(driver.max_input_channels as nat) + " in"@;
    let outputs = "/ "@ + decimal(driver.max_output_channels as nat) + " out"@;
    assert(label =~= inputs + (" "@ + outputs));
    crate::text::lemma_what_is_found(none, inputs, " "@ + outputs);
    assert(label =~= (inputs + " "@) + outputs + none);
    crate::text::lemma_what_is_found(inputs + " "@, outputs, none);
}

} // verus!
