//! Sessions that route the channels of a discovered stream to the outputs of an
//! ASIO driver.

use crate::asio_locks::{
    held_after_release, held_after_reserve, release_asio_device, reservation, reserve_asio_device,
    AsioDeviceLocks,
};
use crate::channels::{channel_label, default_label};
use crate::control::{
    find_session, lemma_place_of, removable, remove_idle, Banners, ControlState, Session,
    SessionControl,
};
use crate::devices::{
    lookup_driver, lookup_stream, selected_driver, selected_stream, AsioDriverInfo,
    DiscoveredStream, StreamInfo,
};
use crate::subscribe::{
    bind_address, is_usable_port, parse_port, parse_usable_port, udp_port, SubscribeRequest,
};
use crate::text::{
    clone_texts, decimal, decimal_text, join2, join3, join_number, option_text, push_decimal,
    same_text, texts,
};
use crate::theme::Tone;
use vstd::prelude::*;

verus! {

// ---------------------------------------------------------------------------
// Routes
// ---------------------------------------------------------------------------

/// Each incoming channel on the output of the same number, as far as there are
/// outputs.
pub open spec fn sequential(incoming: nat, outputs: usize) -> Seq<Option<usize>> {
    Seq::new(
        incoming,
        |i: int|
            if i < outputs {
                Some(i as usize)
            } else {
                None
            },
    )
}

/// No incoming channel on any output.
pub open spec fn unrouted(incoming: nat) -> Seq<Option<usize>> {
    Seq::new(incoming, |i: int| None)
}

/// The first two incoming channels on two neighbouring outputs, the others on
/// none.
pub open spec fn paired(incoming: nat, first: usize) -> Seq<Option<usize>> {
    Seq::new(
        incoming,
        |i: int|
            if i < 2 {
                Some((first + i) as usize)
            } else {
                None
            },
    )
}

/// How many of some channels are routed.
pub open spec fn routed(routes: Seq<Option<usize>>) -> nat
    decreases routes.len(),
{
    if routes.len() == 0 {
        0
    } else {
        routed(routes.drop_last()) + if routes.last() is Some {
            1nat
        } else {
            0nat
        }
    }
}

/// Whether all routes lead to outputs that are there.
pub open spec fn within(routes: Seq<Option<usize>>, outputs: usize) -> bool {
    forall|i: int|
        0 <= i < routes.len() ==> ((#[trigger] routes[i]) matches Some(output) ==> output < outputs)
}

/// Each incoming channel on the output of the same number, as far as there are
/// outputs.
pub fn default_routes(incoming_channel_count: usize, output_channel_count: usize) -> (routes: Vec<
    Option<usize>,
>)
    ensures
        routes@ == sequential(incoming_channel_count as nat, output_channel_count),
{
    let mut routes: Vec<Option<usize>> = Vec::new();
    let mut i: usize = 0;
    while i < incoming_channel_count
        invariant
            i <= incoming_channel_count,
            routes@ =~= sequential(i as nat, output_channel_count),
        decreases incoming_channel_count - i,
    {
        if i < output_channel_count {
            routes.push(Some(i));
        } else {
            routes.push(None);
        }
        i = i + 1;
    }
    routes
}

/// No incoming channel on any output.
pub fn no_routes(incoming_channel_count: usize) -> (routes: Vec<Option<usize>>)
    ensures
        routes@ == unrouted(incoming_channel_count as nat),
{
    let mut routes: Vec<Option<usize>> = Vec::new();
    let mut i: usize = 0;
    while i < incoming_channel_count
        invariant
            i <= incoming_channel_count,
            routes@ =~= unrouted(i as nat),
        decreases incoming_channel_count - i,
    {
        routes.push(None);
        i = i + 1;
    }
    routes
}

/// Counts the channels that are routed.
pub fn count_routed(routes: &Vec<Option<usize>>) -> (count: usize)
    ensures
        count == routed(routes@),
        count <= routes@.len(),
{
    let mut count: usize = 0;
    let mut i: usize = 0;
    while i < routes.len()
        invariant
            i <= routes@.len(),
            count <= i,
            count == routed(routes@.take(i as int)),
        decreases routes.len() - i,
    {
        assert(routes@.take(i + 1).drop_last() =~= routes@.take(i as int));
        if routes[i].is_some() {
            count = count + 1;
        }
        i = i + 1;
    }
    assert(routes@.take(i as int) =~= routes@);
    count
}

/// Whether all routes lead to outputs that are there.
pub fn routes_within(routes: &Vec<Option<usize>>, outputs: usize) -> (yes: bool)
    ensures
        yes == within(routes@, outputs),
{
    let mut i: usize = 0;
    while i < routes.len()
        invariant
            i <= routes@.len(),
            forall|j: int|
                0 <= j < i ==> ((#[trigger] routes@[j]) matches Some(output) ==> output < outputs),
        decreases routes.len() - i,
    {
        match routes[i] {
            Some(output) => {
                if output >= outputs {
                    assert(routes@[i as int] == Some(output));
                    return false;
                }
            },
            None => {},
        }
        i = i + 1;
    }
    true
}

/// A copy of some routes.
pub fn clone_routes(routes: &Vec<Option<usize>>) -> (copy: Vec<Option<usize>>)
    ensures
        copy@ == routes@,
{
    let mut copy: Vec<Option<usize>> = Vec::new();
    let mut i: usize = 0;
    while i < routes.len()
        invariant
            i <= routes@.len(),
            copy@ =~= routes@.take(i as int),
        decreases routes.len() - i,
    {
        copy.push(routes[i]);
        i = i + 1;
    }
    copy
}

/// A channel is routed exactly if some are counted.
pub proof fn lemma_routed(routes: Seq<Option<usize>>)
    ensures
        routed(routes) <= routes.len(),
        routed(routes) > 0 <==> exists|i: int|
            0 <= i < routes.len() && (#[trigger] routes[i]) is Some,
    decreases routes.len(),
{
    if routes.len() > 0 {
        let rest = routes.drop_last();
        lemma_routed(rest);
        if routed(rest) > 0 {
            let i = choose|i: int| 0 <= i < rest.len() && (#[trigger] rest[i]) is Some;
            assert(routes[i] is Some);
        }
        if routes.last() is Some {
            assert(routes[routes.len() - 1] is Some);
        }
        if exists|i: int| 0 <= i < routes.len() && (#[trigger] routes[i]) is Some {
            let i = choose|i: int| 0 <= i < routes.len() && (#[trigger] routes[i]) is Some;
            if i < rest.len() {
                assert(rest[i] is Some);
            }
        }
    }
}

/// The routes that are set on selection lead to outputs that are there, no two
/// to the same one, and there is one where there are channels and outputs.
pub proof fn lemma_default_routes(incoming: nat, outputs: usize)
    ensures
        sequential(incoming, outputs).len() == incoming,
        within(sequential(incoming, outputs), outputs),
        forall|i: int, j: int|
            0 <= i < j < incoming && #[trigger] sequential(incoming, outputs)[i] is Some
                ==> sequential(incoming, outputs)[i] != #[trigger] sequential(incoming, outputs)[j],
        incoming > 0 && outputs > 0 ==> routed(sequential(incoming, outputs)) > 0,
{
    lemma_routed(sequential(incoming, outputs));
    if incoming > 0 && outputs > 0 {
        assert(sequential(incoming, outputs)[0] is Some);
    }
}

/// The pairs of outputs that the first two channels can be put on at once.
#[derive(Clone, Copy, Debug, PartialEq, Eq, Structural)]
pub enum OutputPair {
    OneTwo,
    ThreeFour,
    SevenEight,
}

impl OutputPair {
    /// The first output of the pair.
    pub open spec fn first_output(self) -> usize {
        match self {
            OutputPair::OneTwo => 0,
            OutputPair::ThreeFour => 2,
            OutputPair::SevenEight => 6,
        }
    }

    /// Whether a stream has two channels and a driver the pair.
    pub open spec fn is_offered(self, incoming: usize, outputs: usize) -> bool {
        incoming >= 2 && outputs >= self.first_output() + 2
    }

    /// The first output of the pair.
    pub fn first(self) -> (output: usize)
        ensures
            output == self.first_output(),
    {
        match self {
            OutputPair::OneTwo => 0,
            OutputPair::ThreeFour => 2,
            OutputPair::SevenEight => 6,
        }
    }

    /// Whether a stream has two channels and a driver the pair.
    pub fn offered(self, incoming: usize, outputs: usize) -> (yes: bool)
        ensures
            yes == self.is_offered(incoming, outputs),
    {
        incoming >= 2 && outputs >= self.first() + 2
    }

    /// The caption of the button.
    pub fn caption(self) -> (text: &'static str)
        ensures
            text@ == match self {
                OutputPair::OneTwo => "Stream 1–2 → Out 1–2"@,
                OutputPair::ThreeFour => "Stream 1–2 → Out 3–4"@,
                OutputPair::SevenEight => "Stream 1–2 → Out 7–8"@,
            },
    {
        match self {
            OutputPair::OneTwo => "Stream 1–2 → Out 1–2",
            OutputPair::ThreeFour => "Stream 1–2 → Out 3–4",
            OutputPair::SevenEight => "Stream 1–2 → Out 7–8",
        }
    }

    /// A pair that is offered leads to outputs that are there.
    pub proof fn lemma_offered_pair_exists(self, incoming: usize, outputs: usize)
        requires
            self.is_offered(incoming, outputs),
        ensures
            paired(incoming as nat, self.first_output()).len() == incoming,
            within(paired(incoming as nat, self.first_output()), outputs),
            routed(paired(incoming as nat, self.first_output())) > 0,
    {
        lemma_routed(paired(incoming as nat, self.first_output()));
        assert(paired(incoming as nat, self.first_output())[0] is Some);
    }
}

// ---------------------------------------------------------------------------
// Configuration
// ---------------------------------------------------------------------------

/// The configuration of a session that plays a stream on an ASIO driver.
pub struct AsioSubscribeSetup {
    pub selected_node_id: Option<String>,
    pub selected_driver: Option<String>,
    pub incoming_channel_count: usize,
    pub channel_labels: Vec<String>,
    pub driver_output_count: usize,
    pub output_routes: Vec<Option<usize>>,
    pub bind_port: String,
    pub record: bool,
}

/// The configuration, in mathematical terms.
#[verifier::ext_equal]
pub struct AsioRouting {
    pub selected_node: Option<Seq<char>>,
    pub selected_driver: Option<Seq<char>>,
    pub incoming: usize,
    pub labels: Seq<Seq<char>>,
    pub outputs: usize,
    pub routes: Seq<Option<usize>>,
    pub bind_port: Seq<char>,
    pub record: bool,
}

impl View for AsioSubscribeSetup {
    type V = AsioRouting;

    open spec fn view(&self) -> AsioRouting {
        AsioRouting {
            selected_node: option_text(self.selected_node_id),
            selected_driver: option_text(self.selected_driver),
            incoming: self.incoming_channel_count,
            labels: texts(self.channel_labels@),
            outputs: self.driver_output_count,
            routes: self.output_routes@,
            bind_port: self.bind_port@,
            record: self.record,
        }
    }
}

pub const NO_STREAM: &'static str = "← select a discovered stream";

pub const STREAM_GONE: &'static str = "← selected stream is no longer available";

pub const STREAM_EMPTY: &'static str = "← selected stream reports zero channels";

pub const NO_DRIVER: &'static str = "← select an ASIO output driver";

pub const DRIVER_GONE: &'static str = "← selected ASIO driver is no longer available";

pub const DRIVER_EMPTY: &'static str = "← selected ASIO driver has no output channels";

pub const ROUTES_MISMATCH: &'static str = "← routing map does not match the stream channel count";

pub const NO_ROUTE: &'static str = "← route at least one incoming channel";

pub const ROUTES_EXCEED: &'static str = "← one or more routes exceed the driver output count";

pub const NO_PORT: &'static str = "← enter a valid UDP port";

pub const START_NO_STREAM: &'static str = "Select a discovered stream first.";

pub const START_STREAM_GONE: &'static str = "The selected stream is no longer available.";

pub const START_NO_DRIVER: &'static str = "Select an ASIO output driver first.";

pub const START_MISMATCH: &'static str = "The routing map no longer matches the selected stream.";

pub const START_NO_ROUTE: &'static str = "Route at least one incoming channel before starting.";

/// The port that a new session is given.
pub open spec fn asio_port_for(id: u64) -> nat {
    if 7050 + id <= u64::MAX {
        (7050 + id) as nat
    } else {
        u64::MAX as nat
    }
}

impl AsioRouting {
    /// The configuration of a new session.
    pub open spec fn fresh(id: u64) -> AsioRouting {
        AsioRouting {
            selected_node: None,
            selected_driver: None,
            incoming: 0,
            labels: Seq::empty(),
            outputs: 0,
            routes: Seq::empty(),
            bind_port: decimal(asio_port_for(id)),
            record: false,
        }
    }

    /// The configuration after a stream was picked.  To pick the one that is
    /// selected changes nothing.
    pub open spec fn with_stream(self, stream: StreamInfo) -> AsioRouting {
        if self.selected_node == Some(stream.node_id) {
            self
        } else {
            AsioRouting {
                selected_node: Some(stream.node_id),
                incoming: stream.channel_count,
                labels: stream.channel_labels,
                routes: sequential(stream.channel_count as nat, self.outputs),
                ..self
            }
        }
    }

    /// The configuration after a driver was picked.
    pub open spec fn with_driver(self, name: Seq<char>, outputs: usize) -> AsioRouting {
        AsioRouting {
            selected_driver: Some(name),
            outputs,
            routes: sequential(self.incoming as nat, outputs),
            ..self
        }
    }

    /// The configuration after the driver was given up.
    pub open spec fn without_driver(self) -> AsioRouting {
        AsioRouting {
            selected_driver: None,
            outputs: 0,
            routes: unrouted(self.incoming as nat),
            ..self
        }
    }

    /// What is missing, as it is shown beside the button.
    pub open spec fn flaw(
        self,
        drivers: Seq<AsioDriverInfo>,
        streams: Seq<DiscoveredStream>,
    ) -> Option<Seq<char>> {
        if self.selected_node is None {
            Some(NO_STREAM@)
        } else {
            match selected_stream(streams, self.selected_node) {
                None => Some(STREAM_GONE@),
                Some(stream) => if stream.channel_count == 0 {
                    Some(STREAM_EMPTY@)
                } else if self.selected_driver is None {
                    Some(NO_DRIVER@)
                } else {
                    match selected_driver(drivers, self.selected_driver) {
                        None => Some(DRIVER_GONE@),
                        Some(driver) => if driver.max_output_channels == 0 {
                            Some(DRIVER_EMPTY@)
                        } else if self.routes.len() != stream.channel_count {
                            Some(ROUTES_MISMATCH@)
                        } else if routed(self.routes) == 0 {
                            Some(NO_ROUTE@)
                        } else if !within(self.routes, driver.max_output_channels) {
                            Some(ROUTES_EXCEED@)
                        } else if udp_port(self.bind_port) is None {
                            Some(NO_PORT@)
                        } else {
                            None
                        },
                    }
                },
            }
        }
    }

    /// What keeps a session from starting once its button was pressed.
    pub open spec fn start_error(self, streams: Seq<DiscoveredStream>) -> Option<Seq<char>> {
        if self.selected_node is None {
            Some(START_NO_STREAM@)
        } else {
            match selected_stream(streams, self.selected_node) {
                None => Some(START_STREAM_GONE@),
                Some(stream) => if self.selected_driver is None {
                    Some(START_NO_DRIVER@)
                } else if !is_usable_port(self.bind_port) {
                    Some("'"@ + self.bind_port + "' is not a valid UDP port."@)
                } else if self.routes.len() != stream.channel_count {
                    Some(START_MISMATCH@)
                } else if routed(self.routes) == 0 {
                    Some(START_NO_ROUTE@)
                } else {
                    None
                },
            }
        }
    }

    /// The label of a channel, as the publisher gave it or by its number.
    pub open spec fn label_of(self, index: int) -> Seq<char> {
        if index < self.labels.len() {
            self.labels[index]
        } else {
            channel_label(index)
        }
    }
}

/// What is asked of a publisher, and the driver that was reserved for it.
pub struct AsioSubscribeRequest {
    pub request: SubscribeRequest,
    pub driver_name: String,
}

/// What is needed to play a stream on an ASIO driver.
pub struct AsioPlaybackPlan {
    pub bind_addr: String,
    pub driver_name: String,
    pub output_routes: Vec<Option<usize>>,
    /// The first part of the name of the recording, where there is one.
    pub record_prefix: Option<String>,
    pub origin: PlaybackOrigin,
}

/// What an error message tells of a session that played.
pub struct PlaybackOrigin {
    pub stream_name: String,
    pub node_name: String,
    pub driver_name: String,
}

impl PlaybackOrigin {
    /// The banner after the session has failed.
    pub open spec fn failure(self, error: Seq<char>) -> Seq<char> {
        "ASIO Subscribe failed for '"@ + self.stream_name@ + "' on '"@ + self.node_name@ + "' → '"@
            + self.driver_name@ + "': "@ + error
    }

    /// The banner after the session has failed.
    pub fn failure_text(&self, error: &str) -> (text: String)
        ensures
            text@ == self.failure(error@),
    {
        let mut text = "ASIO Subscribe failed for '".to_string();
        text.append(self.stream_name.as_str());
        text.append("' on '");
        text.append(self.node_name.as_str());
        text.append("' → '");
        text.append(self.driver_name.as_str());
        text.append("': ");
        text.append(error);
        text
    }
}

/// A new session that plays a stream on an ASIO driver.
pub fn new_asio_subscribe_session(id: u64, now: u64) -> (session: Session<AsioSubscribeSetup>)
    ensures
        session.id == id,
        session.control@ == ControlState::idle(now),
        session.config@ == AsioRouting::fresh(id),
{
    let config = AsioSubscribeSetup {
        selected_node_id: None,
        selected_driver: None,
        incoming_channel_count: 0,
        channel_labels: Vec::new(),
        driver_output_count: 0,
        output_routes: Vec::new(),
        bind_port: decimal_text(7050u64.saturating_add(id) as u128),
        record: false,
    };
    assert(config@ =~= AsioRouting::fresh(id));
    Session { id, control: SessionControl::idle(now), config }
}

impl Session<AsioSubscribeSetup> {
    /// Picks a stream, unless the session runs.
    pub fn select_stream(&mut self, stream: &DiscoveredStream)
        ensures
            final(self).id == old(self).id,
            final(self).control == old(self).control,
            final(self).config@ == if old(self).control.running {
                old(self).config@
            } else {
                old(self).config@.with_stream(stream@)
            },
    {
        if self.control.running {
            return;
        }
        let was_selected = match &self.config.selected_node_id {
            Some(node_id) => same_text(node_id.as_str(), stream.node_id.as_str()),
            None => false,
        };
        if !was_selected {
            self.config.selected_node_id = Some(stream.node_id.clone());
            self.config.incoming_channel_count = stream.channel_count;
            self.config.channel_labels = clone_texts(&stream.channel_labels);
            self.config.output_routes = default_routes(
                stream.channel_count,
                self.config.driver_output_count,
            );
        }
    }

    /// Picks a driver, unless the session runs.
    pub fn select_driver(&mut self, driver: &AsioDriverInfo)
        ensures
            final(self).id == old(self).id,
            final(self).control == old(self).control,
            final(self).config@ == if old(self).control.running {
                old(self).config@
            } else {
                old(self).config@.with_driver(driver.name@, driver.max_output_channels)
            },
    {
        if self.control.running {
            return;
        }
        self.config.selected_driver = Some(driver.name.clone());
        self.config.driver_output_count = driver.max_output_channels;
        self.config.output_routes = default_routes(
            self.config.incoming_channel_count,
            driver.max_output_channels,
        );
    }

    /// Gives up the driver, unless the session runs.
    pub fn clear_driver(&mut self)
        ensures
            final(self).id == old(self).id,
            final(self).control == old(self).control,
            final(self).config@ == if old(self).control.running {
                old(self).config@
            } else {
                old(self).config@.without_driver()
            },
    {
        if self.control.running {
            return;
        }
        self.config.selected_driver = None;
        self.config.driver_output_count = 0;
        self.config.output_routes = no_routes(self.config.incoming_channel_count);
    }

    /// Listens on another port, unless the session runs.
    pub fn set_bind_port(&mut self, text: String)
        ensures
            final(self).id == old(self).id,
            final(self).control == old(self).control,
            final(self).config@ == if old(self).control.running {
                old(self).config@
            } else {
                AsioRouting { bind_port: text@, ..old(self).config@ }
            },
    {
        if !self.control.running {
            self.config.bind_port = text;
        }
    }

    /// Records the output or does not, unless the session runs.
    pub fn set_record(&mut self, on: bool)
        ensures
            final(self).id == old(self).id,
            final(self).control == old(self).control,
            final(self).config@ == if old(self).control.running {
                old(self).config@
            } else {
                AsioRouting { record: on, ..old(self).config@ }
            },
    {
        if !self.control.running {
            self.config.record = on;
        }
    }

    /// Puts each channel on the output of the same number, unless the session
    /// runs.
    pub fn route_in_sequence(&mut self)
        ensures
            final(self).id == old(self).id,
            final(self).control == old(self).control,
            final(self).config@ == if old(self).control.running {
                old(self).config@
            } else {
                AsioRouting {
                    routes: sequential(
                        old(self).config@.incoming as nat,
                        old(self).config@.outputs,
                    ),
                    ..old(self).config@
                }
            },
    {
        if self.control.running {
            return;
        }
        self.config.output_routes = default_routes(
            self.config.incoming_channel_count,
            self.config.driver_output_count,
        );
    }

    /// Takes all channels off their outputs, unless the session runs.
    pub fn clear_routes(&mut self)
        ensures
            final(self).id == old(self).id,
            final(self).control == old(self).control,
            final(self).config@ == if old(self).control.running {
                old(self).config@
            } else {
                AsioRouting {
                    routes: unrouted(old(self).config@.incoming as nat),
                    ..old(self).config@
                }
            },
    {
        if self.control.running {
            return;
        }
        self.config.output_routes = no_routes(self.config.incoming_channel_count);
    }

    /// Puts the first two channels on a pair of outputs, if the pair is
    /// offered and the session does not run.
    pub fn route_pair(&mut self, pair: OutputPair)
        ensures
            final(self).id == old(self).id,
            final(self).control == old(self).control,
            final(self).config@ == if !old(self).control.running && pair.is_offered(
                old(self).config@.incoming,
                old(self).config@.outputs,
            ) {
                AsioRouting {
                    routes: paired(old(self).config@.incoming as nat, pair.first_output()),
                    ..old(self).config@
                }
            } else {
                old(self).config@
            },
    {
        if !self.control.running && pair.offered(
            self.config.incoming_channel_count,
            self.config.driver_output_count,
        ) {
            let first: usize = pair.first();
            let mut routes = no_routes(self.config.incoming_channel_count);
            routes.set(0, Some(first));
            routes.set(1, Some(first + 1));
            self.config.output_routes = routes;
            assert(self.config@.routes =~= paired(
                old(self).config@.incoming as nat,
                pair.first_output(),
            ));
        }
    }

    /// Puts one channel on an output, or on none, unless the session runs.
    pub fn set_route(&mut self, index: usize, route: Option<usize>)
        ensures
            final(self).id == old(self).id,
            final(self).control == old(self).control,
            final(self).config@ == if !old(self).control.running && index
                < old(self).config@.routes.len() {
                AsioRouting {
                    routes: old(self).config@.routes.update(index as int, route),
                    ..old(self).config@
                }
            } else {
                old(self).config@
            },
    {
        if !self.control.running && index < self.config.output_routes.len() {
            self.config.output_routes.set(index, route);
        }
    }

    /// The route of a channel, if it has one.
    pub fn route_of(&self, index: usize) -> (route: Option<usize>)
        ensures
            route == if index < self.config@.routes.len() {
                self.config@.routes[index as int]
            } else {
                None
            },
    {
        if index < self.config.output_routes.len() {
            self.config.output_routes[index]
        } else {
            None
        }
    }

    /// The label of a channel, as the publisher gave it or by its number.
    pub fn session_channel_label(&self, channel_index: usize) -> (label: String)
        ensures
            label@ == self.config@.label_of(channel_index as int),
    {
        if channel_index < self.config.channel_labels.len() {
            self.config.channel_labels[channel_index].clone()
        } else {
            default_label(channel_index)
        }
    }

    /// The line that tells how many channels are routed, and its colour.
    pub fn routing_summary(&self) -> (summary: (String, Tone))
        ensures
            summary.0@ == decimal(routed(self.config@.routes)) + " of "@ + decimal(
                self.config@.incoming as nat,
            ) + " incoming channel(s) routed"@,
            summary.1 == if routed(self.config@.routes) > 0 {
                Tone::Green
            } else {
                Tone::Red
            },
    {
        let active: usize = count_routed(&self.config.output_routes);
        let mut text = decimal_text(active as u128);
        text.append(" of ");
        push_decimal(&mut text, self.config.incoming_channel_count as u128);
        text.append(" incoming channel(s) routed");
        (
            text,
            if active > 0 {
                Tone::Green
            } else {
                Tone::Red
            },
        )
    }

    /// Whether the session can be started, or what is missing.
    pub fn validate_session(
        &self,
        asio_drivers: &Vec<AsioDriverInfo>,
        streams: &Vec<DiscoveredStream>,
    ) -> (result: Result<(), &'static str>)
        ensures
            result is Ok <==> self.config@.flaw(asio_drivers@, streams@) is None,
            result matches Err(reason) ==> self.config@.flaw(asio_drivers@, streams@) == Some(
                reason@,
            ),
    {
        if self.config.selected_node_id.is_none() {
            return Err(NO_STREAM);
        }
        let stream = match lookup_stream(streams, &self.config.selected_node_id) {
            Some(stream) => stream,
            None => {
                return Err(STREAM_GONE);
            },
        };
        if stream.channel_count == 0 {
            return Err(STREAM_EMPTY);
        }
        if self.config.selected_driver.is_none() {
            return Err(NO_DRIVER);
        }
        let driver = match lookup_driver(asio_drivers, &self.config.selected_driver) {
            Some(driver) => driver,
            None => {
                return Err(DRIVER_GONE);
            },
        };
        if driver.max_output_channels == 0 {
            return Err(DRIVER_EMPTY);
        }
        if self.config.output_routes.len() != stream.channel_count {
            return Err(ROUTES_MISMATCH);
        }
        if count_routed(&self.config.output_routes) == 0 {
            return Err(NO_ROUTE);
        }
        if !routes_within(&self.config.output_routes, driver.max_output_channels) {
            return Err(ROUTES_EXCEED);
        }
        if parse_port(self.config.bind_port.as_str()).is_none() {
            return Err(NO_PORT);
        }
        Ok(())
    }

    /// Whether the button that starts the session reacts.
    pub fn start_enabled(
        &self,
        now: u64,
        asio_drivers: &Vec<AsioDriverInfo>,
        streams: &Vec<DiscoveredStream>,
    ) -> (yes: bool)
        ensures
            yes == (!self.control.running && self.control@.debounced(now) && self.config@.flaw(
                asio_drivers@,
                streams@,
            ) is None),
    {
        !self.control.running && self.control.debounce_ready(now) && self.validate_session(
            asio_drivers,
            streams,
        ).is_ok()
    }

    /// Begins to start the session: clears the error banner, reserves the
    /// driver and hands out what is to be asked of the publisher, or reports
    /// what is missing.
    pub fn start_session(
        &mut self,
        now: u64,
        streams: &Vec<DiscoveredStream>,
        locks: &mut AsioDeviceLocks,
        banners: &mut Banners,
    ) -> (pending: Option<AsioSubscribeRequest>)
        requires
            old(locks).well_formed(),
        ensures
            final(locks).well_formed(),
            final(self).id == old(self).id,
            final(self).config == old(self).config,
            final(self).control@ == (ControlState { last_toggle: now, ..old(self).control@ }),
            final(banners).info == old(banners).info,
            match old(self).config@.start_error(streams@) {
                Some(message) => {
                    &&& pending is None
                    &&& option_text(final(banners).error) == Some(message)
                    &&& final(locks)@ == old(locks)@
                },
                None => {
                    let driver = old(self).config@.selected_driver->0;
                    &&& final(locks)@ == held_after_reserve(old(locks)@, driver)
                    &&& match reservation(old(locks)@, driver) {
                        Err(message) => {
                            &&& pending is None
                            &&& option_text(final(banners).error) == Some(message)
                        },
                        Ok(()) => {
                            &&& pending matches Some(p)
                            &&& final(banners).error is None
                            &&& p.driver_name@ == driver
                            &&& udp_port(old(self).config@.bind_port) == Some(
                                p.request.port as nat,
                            )
                            &&& p.request.asks(
                                selected_stream(streams@, old(self).config@.selected_node)->0@,
                                p.request.port,
                            )
                        },
                    }
                },
            },
    {
        self.control.last_toggle = now;
        banners.error = None;
        if self.config.selected_node_id.is_none() {
            banners.error = Some(START_NO_STREAM.to_string());
            return None;
        }
        let stream = match lookup_stream(streams, &self.config.selected_node_id) {
            Some(stream) => stream,
            None => {
                banners.error = Some(START_STREAM_GONE.to_string());
                return None;
            },
        };
        let driver_name = match &self.config.selected_driver {
            Some(name) => name.clone(),
            None => {
                banners.error = Some(START_NO_DRIVER.to_string());
                return None;
            },
        };
        let port: u16 = match parse_usable_port(self.config.bind_port.as_str()) {
            Some(port) => port,
            None => {
                banners.error = Some(
                    join3("'", self.config.bind_port.as_str(), "' is not a valid UDP port."),
                );
                return None;
            },
        };
        if self.config.output_routes.len() != stream.channel_count {
            banners.error = Some(START_MISMATCH.to_string());
            return None;
        }
        if count_routed(&self.config.output_routes) == 0 {
            banners.error = Some(START_NO_ROUTE.to_string());
            return None;
        }
        match reserve_asio_device(locks, driver_name.as_str()) {
            Err(error) => {
                banners.error = Some(error);
                None
            },
            Ok(()) => Some(
                AsioSubscribeRequest { request: SubscribeRequest::new(stream, port), driver_name },
            ),
        }
    }

    /// Takes in the answer of the publisher.  The session runs if the request
    /// went out; otherwise the driver is given back and the error reported.
    pub fn publisher_answered(
        &mut self,
        pending: &AsioSubscribeRequest,
        result: &Result<(), String>,
        locks: &mut AsioDeviceLocks,
        banners: &mut Banners,
    ) -> (plan: Option<AsioPlaybackPlan>)
        requires
            old(locks).well_formed(),
        ensures
            final(locks).well_formed(),
            final(self).id == old(self).id,
            final(self).config == old(self).config,
            final(banners).info == old(banners).info,
            plan is Some <==> result is Ok,
            result matches Err(error) ==> {
                &&& final(locks)@ == held_after_release(old(locks)@, pending.driver_name@)
                &&& final(self).control == old(self).control
                &&& option_text(final(banners).error) == Some(
                    "Failed to subscribe to the publisher: "@ + error@,
                )
            },
            plan matches Some(p) ==> {
                &&& final(locks)@ == old(locks)@
                &&& final(banners).error == old(banners).error
                &&& final(self).control@ == (ControlState {
                    running: true,
                    status: "Starting '"@ + pending.request.stream_name@ + "' → '"@
                        + pending.driver_name@ + "'..."@,
                    ..old(self).control@
                })
                &&& p.bind_addr@ == bind_address(pending.request.port)
                &&& p.driver_name@ == pending.driver_name@
                &&& p.output_routes@ == old(self).config@.routes
                &&& option_text(p.record_prefix) == if old(self).config.record {
                    Some(
                        "asio_subscribe_"@ + decimal(pending.request.stream_id as nat) + "_"@
                            + decimal(pending.request.port as nat),
                    )
                } else {
                    None
                }
                &&& p.origin.stream_name@ == pending.request.stream_name@
                &&& p.origin.node_name@ == pending.request.node_name@
                &&& p.origin.driver_name@ == pending.driver_name@
            },
    {
        match result {
            Err(error) => {
                release_asio_device(locks, pending.driver_name.as_str());
                banners.error = Some(
                    join2("Failed to subscribe to the publisher: ", error.as_str()),
                );
                None
            },
            Ok(()) => {
                let mut status = "Starting '".to_string();
                status.append(pending.request.stream_name.as_str());
                status.append("' → '");
                status.append(pending.driver_name.as_str());
                status.append("'...");
                self.control.running = true;
                self.control.status = status;
                let record_prefix = if self.config.record {
                    let mut prefix = join_number(
                        "asio_subscribe_",
                        pending.request.stream_id as u128,
                    );
                    prefix.append("_");
                    push_decimal(&mut prefix, pending.request.port as u128);
                    Some(prefix)
                } else {
                    None
                };
                Some(
                    AsioPlaybackPlan {
                        bind_addr: join_number("0.0.0.0:", pending.request.port as u128),
                        driver_name: pending.driver_name.clone(),
                        output_routes: clone_routes(&self.config.output_routes),
                        record_prefix,
                        origin: PlaybackOrigin {
                            stream_name: pending.request.stream_name.clone(),
                            node_name: pending.request.node_name.clone(),
                            driver_name: pending.driver_name.clone(),
                        },
                    },
                )
            },
        }
    }
}

// ---------------------------------------------------------------------------
// The panel
// ---------------------------------------------------------------------------

/// The state of a session after its worker has ended.  The error is shown as it
/// came.
pub open spec fn worker_ended(
    control: ControlState,
    outcome: Result<(), Seq<char>>,
) -> ControlState {
    ControlState {
        running: false,
        status: match outcome {
            Ok(()) => "Stopped."@,
            Err(error) => "Error: "@ + error,
        },
        ..control
    }
}

/// All sessions that play on ASIO drivers.
pub struct AsioSubscribePanel {
    pub next_id: u64,
    pub sessions: Vec<Session<AsioSubscribeSetup>>,
}

impl AsioSubscribePanel {
    /// Whether no two sessions share an identity, and the next one will not
    /// either.
    pub open spec fn well_formed(self) -> bool {
        &&& forall|i: int|
            0 <= i < self.sessions@.len() ==> (#[trigger] self.sessions@[i]).id < self.next_id
        &&& forall|i: int, j: int|
            0 <= i < j < self.sessions@.len() ==> (#[trigger] self.sessions@[i]).id != (
            #[trigger] self.sessions@[j]).id
    }

    /// A panel without sessions.
    pub fn new() -> (panel: Self)
        ensures
            panel.well_formed(),
            panel.next_id == 1,
            panel.sessions@.len() == 0,
    {
        AsioSubscribePanel { next_id: 1, sessions: Vec::new() }
    }

    /// Adds a session.
    pub fn add_session(&mut self, now: u64)
        requires
            old(self).well_formed(),
            old(self).next_id < u64::MAX,
        ensures
            final(self).well_formed(),
            final(self).next_id == old(self).next_id + 1,
            final(self).sessions@.len() == old(self).sessions@.len() + 1,
            final(self).sessions@.drop_last() == old(self).sessions@,
            final(self).sessions@.last().id == old(self).next_id,
            final(self).sessions@.last().control@ == ControlState::idle(now),
            final(self).sessions@.last().config@ == AsioRouting::fresh(old(self).next_id),
    {
        let id: u64 = self.next_id;
        self.next_id = id + 1;
        self.sessions.push(new_asio_subscribe_session(id, now));
        assert(self.sessions@.drop_last() =~= old(self).sessions@);
    }

    /// Removes the session at a place, if there is one and it does not run.
    pub fn remove_session(&mut self, index: usize)
        requires
            old(self).well_formed(),
        ensures
            final(self).well_formed(),
            final(self).next_id == old(self).next_id,
            final(self).sessions@ == if removable(old(self).sessions@, index) {
                old(self).sessions@.remove(index as int)
            } else {
                old(self).sessions@
            },
    {
        let _ = remove_idle(&mut self.sessions, index);
    }

    /// Takes in that the worker of a session has ended.  Its driver is given
    /// back and an error is reported even if the session is gone.
    pub fn worker_finished(
        &mut self,
        id: u64,
        origin: &PlaybackOrigin,
        result: &Result<(), String>,
        locks: &mut AsioDeviceLocks,
        banners: &mut Banners,
    )
        requires
            old(self).well_formed(),
            old(locks).well_formed(),
        ensures
            final(self).well_formed(),
            final(locks).well_formed(),
            final(locks)@ == held_after_release(old(locks)@, origin.driver_name@),
            final(self).next_id == old(self).next_id,
            final(self).sessions@.len() == old(self).sessions@.len(),
            forall|i: int|
                0 <= i < old(self).sessions@.len() ==> {
                    let before = #[trigger] old(self).sessions@[i];
                    let after = final(self).sessions@[i];
                    &&& after.id == before.id
                    &&& after.config == before.config
                    &&& before.id == id ==> after.control@ == worker_ended(
                        before.control@,
                        crate::control::outcome(*result),
                    )
                    &&& before.id != id ==> after.control == before.control
                },
            final(banners).info == old(banners).info,
            match *result {
                Ok(()) => final(banners).error == old(banners).error,
                Err(error) => option_text(final(banners).error) == Some(origin.failure(error@)),
            },
    {
        proof {
            lemma_place_of(self.sessions@, id);
        }
        match find_session(&self.sessions, id) {
            Some(index) => {
                self.sessions[index].control.running = false;
                match result {
                    Ok(()) => {
                        self.sessions[index].control.status = "Stopped.".to_string();
                    },
                    Err(error) => {
                        self.sessions[index].control.status = join2("Error: ", error.as_str());
                    },
                }
            },
            None => {},
        }
        match result {
            Ok(()) => {},
            Err(error) => {
                banners.error = Some(origin.failure_text(error.as_str()));
            },
        }
        release_asio_device(locks, origin.driver_name.as_str());
    }
}

impl Default for AsioSubscribePanel {
    /// A panel without sessions.
    fn default() -> (panel: Self)
        ensures
            panel.well_formed(),
            panel.next_id == 1,
            panel.sessions@.len() == 0,
    {
        AsioSubscribePanel::new()
    }
}

// ---------------------------------------------------------------------------
// Laws
// ---------------------------------------------------------------------------

/// A new session lacks nothing once a stream with channels and a driver with
/// outputs were picked, in either order, as long as its number is small enough
/// for a port.
pub proof fn lemma_picking_stream_and_driver_is_enough(
    id: u64,
    drivers: Seq<AsioDriverInfo>,
    streams: Seq<DiscoveredStream>,
    driver: AsioDriverInfo,
    stream: DiscoveredStream,
)
    requires
        7050 + id <= 65_535,
        selected_stream(streams, Some(stream@.node_id)) == Some(stream),
        selected_driver(drivers, Some(driver.name@)) == Some(driver),
        stream.channel_count > 0,
        driver.max_output_channels > 0,
    ensures
        AsioRouting::fresh(id).with_stream(stream@).with_driver(
            driver.name@,
            driver.max_output_channels,
        ).flaw(drivers, streams) is None,
        AsioRouting::fresh(id).with_driver(driver.name@, driver.max_output_channels).with_stream(
            stream@,
        ).flaw(drivers, streams) is None,
        AsioRouting::fresh(id).with_stream(stream@).with_driver(
            driver.name@,
            driver.max_output_channels,
        ).start_error(streams) is None,
{
    crate::text::lemma_parse_of_decimal(asio_port_for(id), 65_535);
    lemma_default_routes(stream.channel_count as nat, driver.max_output_channels);
}

/// A session that lacks nothing beside its button can start, unless its port is
/// zero.
pub proof fn lemma_valid_session_starts(
    routing: AsioRouting,
    drivers: Seq<AsioDriverInfo>,
    streams: Seq<DiscoveredStream>,
)
    requires
        routing.flaw(drivers, streams) is None,
    ensures
        udp_port(routing.bind_port) != Some(0nat) ==> routing.start_error(streams) is None,
        udp_port(routing.bind_port) == Some(0nat) ==> routing.start_error(streams) == Some(
            "'"@ + routing.bind_port + "' is not a valid UDP port."@,
        ),
{
}

/// While a session holds its driver no other session can start on it, and once
/// the worker has ended the driver is free again.
pub proof fn lemma_driver_is_exclusive(held: Set<Seq<char>>, driver: Seq<char>)
    requires
        reservation(held, driver) is Ok,
    ensures
        reservation(held_after_reserve(held, driver), driver) is Err,
        reservation(held_after_release(held_after_reserve(held, driver), driver), driver) is Ok,
{
    crate::asio_locks::lemma_second_reservation_is_refused(held, driver);
    crate::asio_locks::lemma_release_undoes_reserve(held, driver);
}

/// A channel is put on the output of its own number where the driver has it, and
/// on none otherwise; as many channels are routed as there are both channels and
/// outputs.
pub proof fn lemma_default_routes_are_straight(incoming: nat, outputs: usize)
    requires
        incoming <= usize::MAX,
    ensures
        sequential(incoming, outputs).len() == incoming,
        forall|i: int|
            0 <= i < incoming && i < outputs ==> #[trigger] sequential(incoming, outputs)[i] == Some(
                i as usize,
            ),
        forall|i: int|
            outputs <= i < incoming ==> #[trigger] sequential(incoming, outputs)[i] is None,
        incoming <= outputs ==> routed(sequential(incoming, outputs)) == incoming,
        incoming > outputs ==> routed(sequential(incoming, outputs)) == outputs,
    decreases incoming,
{
    let routes = sequential(incoming, outputs);
    if incoming > 0 {
        let fewer = (incoming - 1) as nat;
        lemma_default_routes_are_straight(fewer, outputs);
        assert(routes.drop_last() =~= sequential(fewer, outputs));
    }
}

/// The routed channels of two lists add up; one channel counts exactly if it has
/// an output.
pub proof fn lemma_routed_counts_add_up(
    a: Seq<Option<usize>>,
    b: Seq<Option<usize>>,
    output: usize,
)
    ensures
        routed(a + b) == routed(a) + routed(b),
        routed(seq![Some(output)]) == 1,
        routed(seq![None::<usize>]) == 0,
    decreases b.len(),
{
    let one = seq![Some(output)];
    let none = seq![None::<usize>];
    assert(one.drop_last() =~= Seq::<Option<usize>>::empty());
    assert(none.drop_last() =~= Seq::<Option<usize>>::empty());
    assert(routed(Seq::<Option<usize>>::empty()) == 0);
    if b.len() == 0 {
        assert(a + b =~= a);
    } else {
        lemma_routed_counts_add_up(a, b.drop_last(), output);
        assert((a + b).drop_last() =~= a + b.drop_last());
        assert((a + b).last() == b.last());
    }
}

/// Cleared routes lead nowhere.
pub proof fn lemma_cleared_routes(incoming: nat, i: int)
    requires
        0 <= i < incoming,
    ensures
        unrouted(incoming).len() == incoming,
        unrouted(incoming)[i] is None,
        routed(unrouted(incoming)) == 0,
{
    lemma_routed(unrouted(incoming));
}

/// A pair takes the first channel to its first output and the second one to the
/// next; all others are silent.  The pairs are the outputs one and two, three and
/// four, and seven and eight.
pub proof fn lemma_pairs(incoming: nat, first: usize, i: int)
    requires
        2 <= incoming,
        first < usize::MAX,
        2 <= i < incoming,
    ensures
        paired(incoming, first).len() == incoming,
        paired(incoming, first)[0] == Some(first),
        paired(incoming, first)[1] == Some((first + 1) as usize),
        paired(incoming, first)[i] is None,
        OutputPair::OneTwo.first_output() + 1 == 1,
        OutputPair::ThreeFour.first_output() + 1 == 3,
        OutputPair::SevenEight.first_output() + 1 == 7,
{
}

/// A pair is offered exactly where there are two channels and both outputs.
pub proof fn lemma_pair_needs_its_outputs(pair: OutputPair, incoming: usize, outputs: usize)
    ensures
        pair.is_offered(incoming, outputs) <==> incoming >= 2 && within(
            seq![Some(pair.first_output()), Some((pair.first_output() + 1) as usize)],
            outputs,
        ),
{
    let both = seq![Some(pair.first_output()), Some((pair.first_output() + 1) as usize)];
    assert(both[0] == Some(pair.first_output()));
    assert(both[1] == Some((pair.first_output() + 1) as usize));
}

/// Sessions listen on ports that follow one another.
pub proof fn lemma_asio_ports_follow_one_another(id: u64, other: u64)
    ensures
        asio_port_for(0) == 7050,
        7050 + id < u64::MAX ==> asio_port_for((id + 1) as u64) == asio_port_for(id) + 1,
        id != other && asio_port_for(id) < u64::MAX ==> asio_port_for(id) != asio_port_for(other),
        AsioRouting::fresh(id).bind_port == decimal(asio_port_for(id)),
{
}

/// Picking a stream takes over its channels and labels and puts each channel on
/// the output of its number; driver, port and recording stay.  Picking it again
/// changes nothing.
pub proof fn lemma_picking_a_stream(routing: AsioRouting, stream: StreamInfo, i: int)
    requires
        routing.selected_node != Some(stream.node_id),
        0 <= i < stream.channel_count,
    ensures
        ({
            let after = routing.with_stream(stream);
            &&& after.selected_node == Some(stream.node_id)
            &&& after.incoming == stream.channel_count
            &&& after.labels == stream.channel_labels
            &&& after.routes.len() == stream.channel_count
            &&& after.routes[i] == if i < routing.outputs {
                Some(i as usize)
            } else {
                None
            }
            &&& after.selected_driver == routing.selected_driver
            &&& after.outputs == routing.outputs
            &&& after.bind_port == routing.bind_port
            &&& after.record == routing.record
            &&& after.with_stream(stream) == after
            &&& i < stream.channel_labels.len() ==> after.label_of(i) == stream.channel_labels[i]
            &&& i >= stream.channel_labels.len() ==> after.label_of(i) == channel_label(i)
        }),
{
}

/// Picking a driver takes over its outputs and puts each channel on the output of
/// its number; giving it up silences all channels.  Stream, port and recording
/// stay.
pub proof fn lemma_picking_a_driver(
    routing: AsioRouting,
    name: Seq<char>,
    outputs: usize,
    i: int,
)
    requires
        0 <= i < routing.incoming,
    ensures
        ({
            let after = routing.with_driver(name, outputs);
            &&& after.selected_driver == Some(name)
            &&& after.outputs == outputs
            &&& after.routes.len() == routing.incoming
            &&& after.routes[i] == if i < outputs {
                Some(i as usize)
            } else {
                None
            }
            &&& after.selected_node == routing.selected_node
            &&& after.incoming == routing.incoming
            &&& after.labels == routing.labels
            &&& after.bind_port == routing.bind_port
            &&& after.record == routing.record
        }),
        ({
            let after = routing.without_driver();
            &&& after.selected_driver is None
            &&& after.outputs == 0
            &&& after.routes.len() == routing.incoming
            &&& after.routes[i] is None
            &&& after.selected_node == routing.selected_node
            &&& after.incoming == routing.incoming
            &&& after.labels == routing.labels
            &&& after.bind_port == routing.bind_port
            &&& after.record == routing.record
        }),
{
}

/// Nothing is missing exactly where the stream is announced and has channels, the
/// driver is installed and has outputs, there is a route per channel, some channel
/// is heard, every route leads to an output of the driver, and the port is one.
pub proof fn lemma_nothing_is_missing(
    routing: AsioRouting,
    drivers: Seq<AsioDriverInfo>,
    streams: Seq<DiscoveredStream>,
)
    ensures
        routing.flaw(drivers, streams) is None <==> {
            &&& selected_stream(streams, routing.selected_node) matches Some(stream)
            &&& selected_driver(drivers, routing.selected_driver) matches Some(driver)
            &&& stream.channel_count > 0
            &&& driver.max_output_channels > 0
            &&& routing.routes.len() == stream.channel_count
            &&& exists|i: int| 0 <= i < routing.routes.len() && (#[trigger] routing.routes[i]) is Some
            &&& forall|i: int|
                0 <= i < routing.routes.len() ==> ((#[trigger] routing.routes[i]) matches Some(
                    output,
                ) ==> output < driver.max_output_channels)
            &&& udp_port(routing.bind_port) is Some
        },
        routing.start_error(streams) is None <==> {
            &&& selected_stream(streams, routing.selected_node) matches Some(stream)
            &&& routing.selected_driver is Some
            &&& udp_port(routing.bind_port) matches Some(port)
            &&& port != 0
            &&& routing.routes.len() == stream.channel_count
            &&& exists|i: int| 0 <= i < routing.routes.len() && (#[trigger] routing.routes[i]) is Some
        },
{
    lemma_routed(routing.routes);
}

/// A worker that ends leaves its session stopped, with its error in the status
/// line.
pub proof fn lemma_ended_worker_is_reported(control: ControlState, outcome: Result<(), Seq<char>>)
    ensures
        !worker_ended(control, outcome).running,
        worker_ended(control, outcome).last_toggle == control.last_toggle,
        outcome matches Err(error) ==> crate::text::contains_text(
            worker_ended(control, outcome).status,
            error,
        ),
        outcome is Ok ==> worker_ended(control, outcome).status == "Stopped."@,
{
    if let Err(error) = outcome {
        crate::text::lemma_what_is_found("Error: "@, error, Seq::empty());
        assert("Error: "@ + error + Seq::<char>::empty() =~= "Error: "@ + error);
    }
}

/// The view of a configuration tells all of it.
pub proof fn lemma_routing_view_is_complete(a: AsioSubscribeSetup, b: AsioSubscribeSetup)
    requires
        a@ == b@,
    ensures
        option_text(a.selected_node_id) == option_text(b.selected_node_id),
        option_text(a.selected_driver) == option_text(b.selected_driver),
        a.incoming_channel_count == b.incoming_channel_count,
        texts(a.channel_labels@) == texts(b.channel_labels@),
        a.driver_output_count == b.driver_output_count,
        a.output_routes@ == b.output_routes@,
        a.bind_port@ == b.bind_port@,
        a.record == b.record,
{
}

/// A new session knows no stream, no driver and no channel, and records nothing.
pub proof fn lemma_new_asio_playback(id: u64)
    ensures
        AsioRouting::fresh(id).selected_node is None,
        AsioRouting::fresh(id).selected_driver is None,
        AsioRouting::fresh(id).incoming == 0,
        AsioRouting::fresh(id).outputs == 0,
        AsioRouting::fresh(id).labels.len() == 0,
        AsioRouting::fresh(id).routes.len() == 0,
        !AsioRouting::fresh(id).record,
        id < 50_000 ==> AsioRouting::fresh(id).bind_port == decimal((7_050 + id) as nat),
{
}

/// The banner names the stream, its node and the driver, and ends with the error.
pub proof fn lemma_failure_tells_where(origin: PlaybackOrigin, error: Seq<char>)
    ensures
        ({
            let banner = origin.failure(error);
            &&& crate::text::contains_text(banner, "failed for '"@ + origin.stream_name@ + "'"@)
            &&& crate::text::contains_text(banner, "on '"@ + origin.node_name@ + "'"@)
            &&& crate::text::contains_text(banner, "→ '"@ + origin.driver_name@ + "'"@)
            &&& banner.len() >= error.len()
            &&& banner.skip(banner.len() - error.len()) == error
        }),
{
    let banner = origin.failure(error);
    reveal_strlit("ASIO Subscribe failed for '");
    reveal_strlit("ASIO Subscribe ");
    reveal_strlit("failed for '");
    reveal_strlit("' on '");
    reveal_strlit("on '");
    reveal_strlit("' → '");
    reveal_strlit("→ '");
    reveal_strlit("'");
    reveal_strlit(" ");
    reveal_strlit("': ");
    reveal_strlit(": ");
    let lead = "ASIO Subscribe "@;
    let gap = " "@;
    let stream = "failed for '"@ + origin.stream_name@ + "'"@;
    let node = "on '"@ + origin.node_name@ + "'"@;
    let driver = "→ '"@ + origin.driver_name@ + "'"@;
    let end = ": "@ + error;
    assert(banner =~= lead + stream + (gap + node + gap + driver + end));
    crate::text::lemma_what_is_found(lead, stream, gap + node + gap + driver + end);
    assert(banner =~= (lead + stream + gap) + node + (gap + driver + end));
    crate::text::lemma_what_is_found(lead + stream + gap, node, gap + driver + end);
    assert(banner =~= (lead + stream + gap + node + gap) + driver + end);
    crate::text::lemma_what_is_found(lead + stream + gap + node + gap, driver, end);
    assert(banner.skip(banner.len() - error.len()) =~= error);
}

/// In a panel an identity belongs to one session, and the next one is new.
pub proof fn lemma_identities_are_unique(panel: AsioSubscribePanel, i: int, j: int)
    requires
        panel.well_formed(),
        0 <= i < panel.sessions@.len(),
        0 <= j < panel.sessions@.len(),
    ensures
        panel.sessions@[i].id == panel.sessions@[j].id ==> i == j,
        panel.sessions@[i].id != panel.next_id,
{
}

/// What is missing is told in the order in which it is to be done: a stream that is
/// there and has channels, a driver that is there and has outputs, routes, a port.
pub proof fn lemma_what_is_missing_first(
    routing: AsioRouting,
    drivers: Seq<AsioDriverInfo>,
    streams: Seq<DiscoveredStream>,
)
    ensures
        ({
            let flaw = routing.flaw(drivers, streams);
            let stream = selected_stream(streams, routing.selected_node);
            let driver = selected_driver(drivers, routing.selected_driver);
            let ready = stream is Some && stream->0.channel_count > 0;
            let playable = ready && driver is Some && driver->0.max_output_channels > 0;
            let fitting = playable && routing.routes.len() == stream->0.channel_count;
            &&& routing.selected_node is None ==> flaw == Some("← select a discovered stream"@)
            &&& routing.selected_node is Some && stream is None ==> flaw == Some(
                "← selected stream is no longer available"@,
            )
            &&& stream is Some && stream->0.channel_count == 0 ==> flaw == Some(
                "← selected stream reports zero channels"@,
            )
            &&& ready && routing.selected_driver is None ==> flaw == Some(
                "← select an ASIO output driver"@,
            )
            &&& ready && routing.selected_driver is Some && driver is None ==> flaw == Some(
                "← selected ASIO driver is no longer available"@,
            )
            &&& ready && driver is Some && driver->0.max_output_channels == 0 ==> flaw == Some(
                "← selected ASIO driver has no output channels"@,
            )
            &&& playable && !fitting ==> flaw == Some(
                "← routing map does not match the stream channel count"@,
            )
            &&& fitting && (forall|i: int|
                0 <= i < routing.routes.len() ==> (#[trigger] routing.routes[i]) is None) ==> flaw
                == Some("← route at least one incoming channel"@)
            &&& fitting && (exists|i: int|
                0 <= i < routing.routes.len() && ((#[trigger] routing.routes[i]) matches Some(output)
                    && output >= driver->0.max_output_channels)) ==> flaw == Some(
                "← one or more routes exceed the driver output count"@,
            )
        }),
{
    lemma_routed(routing.routes);
}

/// A session that is started without what it needs tells what that is.
pub proof fn lemma_why_starting_fails(routing: AsioRouting, streams: Seq<DiscoveredStream>)
    ensures
        ({
            let error = routing.start_error(streams);
            let stream = selected_stream(streams, routing.selected_node);
            &&& routing.selected_node is None ==> error == Some("Select a discovered stream first."@)
            &&& routing.selected_node is Some && stream is None ==> error == Some(
                "The selected stream is no longer available."@,
            )
            &&& stream is Some && routing.selected_driver is None ==> error == Some(
                "Select an ASIO output driver first."@,
            )
            &&& stream is Some && routing.selected_driver is Some && !is_usable_port(
                routing.bind_port,
            ) ==> error == Some("'"@ + routing.bind_port + "' is not a valid UDP port."@)
            &&& stream is Some && routing.selected_driver is Some && is_usable_port(
                routing.bind_port,
            ) && routing.routes.len() != stream->0.channel_count ==> error == Some(
                "The routing map no longer matches the selected stream."@,
            )
            &&& stream is Some && routing.selected_driver is Some && is_usable_port(
                routing.bind_port,
            ) && routing.routes.len() == stream->0.channel_count ==> (error is None <==> exists|i: int|
                0 <= i < routing.routes.len() && (#[trigger] routing.routes[i]) is Some)
        }),
{
    lemma_routed(routing.routes);
}

} // verus!
