//! Playback sessions: a stream on one device, or each of its channels on a
//! device of its own.

use crate::control::{Banners, ControlState, Session, SessionControl};
use crate::devices::{lookup_stream, node_ids, selected_stream, DiscoveredStream, StreamInfo};
use crate::level::{Volume, UNITY_BITS};
use crate::messages::{friendly, friendly_error};
use crate::preset::{
    clone_options, option_texts, CombineSettings, SplitSettings, SplitSubscribePreset,
    SubscribePreset, SubscribeSettings,
};
use crate::text::{
    clone_option, decimal, decimal_text, join_number, lemma_decimal_injective,
    lemma_parse_of_decimal, option_text, parse_unsigned, parsed_unsigned, push_decimal, texts,
};
use vstd::prelude::*;

verus! {

// ---------------------------------------------------------------------------
// Ports
// ---------------------------------------------------------------------------

/// The UDP port that a text denotes.
pub open spec fn udp_port(text: Seq<char>) -> Option<nat> {
    parsed_unsigned(text, 65_535)
}

/// Whether a text denotes a port that can be listened on.
pub open spec fn is_usable_port(text: Seq<char>) -> bool {
    udp_port(text) matches Some(port) && port != 0
}

/// The port of a new session, counted from `base` as far as the ports reach.
pub open spec fn port_for(base: u64, id: u64) -> nat {
    if base + id <= 65_535 {
        (base + id) as nat
    } else {
        65_535
    }
}

/// Reads a UDP port.
pub fn parse_port(text: &str) -> (port: Option<u16>)
    ensures
        port is Some <==> udp_port(text@) is Some,
        port matches Some(p) ==> udp_port(text@) == Some(p as nat),
{
    match parse_unsigned(text, 65_535) {
        Some(value) => {
            assert(value <= 65_535);
            Some(value as u16)
        },
        None => None,
    }
}

/// Reads a UDP port that can be listened on.
pub fn parse_usable_port(text: &str) -> (port: Option<u16>)
    ensures
        port is Some <==> is_usable_port(text@),
        port matches Some(p) ==> p != 0 && udp_port(text@) == Some(p as nat),
{
    match parse_port(text) {
        Some(port) => if port != 0 {
            Some(port)
        } else {
            None
        },
        None => None,
    }
}

/// The port of a new session, as a text.
pub fn port_text(base: u64, id: u64) -> (text: String)
    ensures
        text@ == decimal(port_for(base, id)),
{
    let sum: u64 = base.saturating_add(id);
    if sum <= 65_535 {
        decimal_text(sum as u128)
    } else {
        decimal_text(65_535)
    }
}

/// The port of a new session can be listened on.
pub proof fn lemma_fresh_port_is_usable(base: u64, id: u64)
    requires
        base > 0,
    ensures
        is_usable_port(decimal(port_for(base, id))),
{
    lemma_parse_of_decimal(port_for(base, id), 65_535);
}

/// The address that a session listens on.
pub open spec fn bind_address(port: u16) -> Seq<char> {
    "0.0.0.0:"@ + decimal(port as nat)
}

// ---------------------------------------------------------------------------
// Requests
// ---------------------------------------------------------------------------

/// What is asked of a publisher.
pub struct SubscribeRequest {
    pub ip: String,
    pub control_port: u16,
    pub stream_id: u32,
    pub port: u16,
    pub node_name: String,
    pub stream_name: String,
}

impl SubscribeRequest {
    /// Whether this asks the publisher of `stream` to send to `port`.
    pub open spec fn asks(self, stream: StreamInfo, port: u16) -> bool {
        &&& self.ip@ == stream.ip
        &&& self.control_port == stream.control_port
        &&& self.stream_id == stream.stream_id
        &&& self.port == port
        &&& self.node_name@ == stream.node_name
        &&& self.stream_name@ == stream.stream_name
    }

    /// Asks the publisher of `stream` to send to `port`.
    pub fn new(stream: &DiscoveredStream, port: u16) -> (request: Self)
        ensures
            request.asks(stream@, port),
    {
        SubscribeRequest {
            ip: stream.ip.clone(),
            control_port: stream.control_port,
            stream_id: stream.stream_id,
            port,
            node_name: stream.node_name.clone(),
            stream_name: stream.stream_name.clone(),
        }
    }
}

/// What the loop that keeps a subscription alive does next.
#[derive(Clone, Copy, Debug, PartialEq, Eq, Structural)]
pub enum RenewalStep {
    /// Send the request again.
    Send,
    /// Wait for a tenth of a second.
    Wait,
    /// End.
    Stop,
}

/// How many waits lie between two requests.
pub const WAITS_PER_RENEWAL: u32 = 10;

/// The step that follows after `waits` waits.
pub open spec fn renewal(running: bool, waits: u32) -> RenewalStep {
    if !running {
        RenewalStep::Stop
    } else if waits >= WAITS_PER_RENEWAL {
        RenewalStep::Send
    } else {
        RenewalStep::Wait
    }
}

/// The waits since the last request, after a step.
pub open spec fn waits_after(step: RenewalStep, waits: u32) -> u32 {
    match step {
        RenewalStep::Send => 0,
        RenewalStep::Wait => (waits + 1) as u32,
        RenewalStep::Stop => waits,
    }
}

/// The loop that keeps a subscription alive: sends the request, waits ten times
/// for a tenth of a second, and so on until the session stops.
pub struct SubscriptionRenewal {
    pub waits: u32,
}

impl SubscriptionRenewal {
    /// A loop that begins with a request.
    pub fn new() -> (renewal: Self)
        ensures
            renewal.waits == WAITS_PER_RENEWAL,
    {
        SubscriptionRenewal { waits: WAITS_PER_RENEWAL }
    }

    /// The next step.
    pub fn next(&mut self, running: bool) -> (step: RenewalStep)
        ensures
            step == renewal(running, old(self).waits),
            final(self).waits == waits_after(step, old(self).waits),
    {
        if !running {
            RenewalStep::Stop
        } else if self.waits >= WAITS_PER_RENEWAL {
            self.waits = 0;
            RenewalStep::Send
        } else {
            self.waits = self.waits + 1;
            RenewalStep::Wait
        }
    }
}

/// The waits of a running loop after `n` steps that follow a request.
pub open spec fn waits_after_steps(n: nat) -> u32
    decreases n,
{
    if n == 0 {
        0
    } else {
        let before = waits_after_steps((n - 1) as nat);
        waits_after(renewal(true, before), before)
    }
}

/// While a session runs, exactly ten waits follow each request before the next
/// one.
pub proof fn lemma_ten_waits_between_requests(n: nat)
    ensures
        renewal(true, waits_after_steps(n)) == (if n % 11 == 10 {
            RenewalStep::Send
        } else {
            RenewalStep::Wait
        }),
        waits_after_steps(n) == n % 11,
    decreases n,
{
    if n > 0 {
        lemma_ten_waits_between_requests((n - 1) as nat);
    }
}

// ---------------------------------------------------------------------------
// One device
// ---------------------------------------------------------------------------

impl SubscribeSettings {
    /// The configuration of a new session.
    pub open spec fn fresh(id: u64) -> SubscribeSettings {
        SubscribeSettings {
            selected_node: None,
            bind_port: decimal(port_for(6980, id)),
            selected_output: None,
            volume: Volume { bits: UNITY_BITS },
            record: false,
        }
    }

    /// What keeps the session from being started.
    pub open spec fn obstacle(self, streams: Seq<DiscoveredStream>) -> Option<Seq<char>> {
        if selected_stream(streams, self.selected_node) is None {
            Some(STREAM_MISSING@)
        } else if !is_usable_port(self.bind_port) {
            Some(PORT_INVALID@)
        } else {
            None
        }
    }
}

pub const STREAM_MISSING: &'static str = "Select a discovered stream";

pub const PORT_INVALID: &'static str = "Enter a valid UDP port";

pub const PLAYBACK_INVALID: &'static str = "Select a discovered stream and enter a valid UDP port.";

/// What is needed to play a stream on one device.
pub struct PlaybackPlan {
    pub bind_addr: String,
    pub device_name: Option<String>,
    pub volume: Volume,
    /// The first part of the name of the recording, where there is one.
    pub record_prefix: Option<String>,
    pub thread_name: String,
}

/// A new session that plays a stream on one device.
pub fn new_subscribe_session(id: u64, now: u64) -> (session: Session<SubscribePreset>)
    ensures
        session.id == id,
        session.control@ == ControlState::idle(now),
        session.config@ == SubscribeSettings::fresh(id),
{
    Session {
        id,
        control: SessionControl::idle(now),
        config: SubscribePreset {
            selected_discovered_node_id: None,
            bind_port: port_text(6980, id),
            selected_output: None,
            volume: Volume::unity(),
            record: false,
        },
    }
}

impl Session<SubscribePreset> {
    /// Plays louder or softer, also while the session runs.
    pub fn set_volume(&mut self, volume: Volume)
        ensures
            final(self).id == old(self).id,
            final(self).control == old(self).control,
            final(self).config@ == (SubscribeSettings { volume, ..old(self).config@ }),
    {
        self.config.volume = volume;
    }

    /// Whether the button that starts the session reacts.
    pub fn start_enabled(&self, now: u64, streams: &Vec<DiscoveredStream>) -> (yes: bool)
        ensures
            yes == (!self.control.running && self.control@.debounced(now) && self.config@.obstacle(
                streams@,
            ) is None),
    {
        !self.control.running && self.control.debounce_ready(now) && self.start_hint(
            streams,
        ).is_none()
    }

    /// What keeps the session from being started, apart from its button.
    pub fn start_hint(&self, streams: &Vec<DiscoveredStream>) -> (hint: Option<&'static str>)
        ensures
            hint is None <==> self.config@.obstacle(streams@) is None,
            hint matches Some(text) ==> self.config@.obstacle(streams@) == Some(text@),
    {
        if lookup_stream(streams, &self.config.selected_discovered_node_id).is_none() {
            Some(STREAM_MISSING)
        } else if parse_usable_port(self.config.bind_port.as_str()).is_none() {
            Some(PORT_INVALID)
        } else {
            None
        }
    }

    /// Begins to start the session: clears the error banner and hands out what
    /// is to be asked of the publisher, or reports what is missing.
    pub fn start_request(
        &mut self,
        now: u64,
        streams: &Vec<DiscoveredStream>,
        banners: &mut Banners,
    ) -> (request: Option<SubscribeRequest>)
        ensures
            final(self).id == old(self).id,
            final(self).config == old(self).config,
            final(self).control@ == (ControlState { last_toggle: now, ..old(self).control@ }),
            final(banners).info == old(banners).info,
            request is Some <==> old(self).config@.obstacle(streams@) is None,
            request matches Some(r) ==> {
                &&& final(banners).error is None
                &&& udp_port(old(self).config.bind_port@) == Some(r.port as nat)
                &&& r.asks(
                    selected_stream(streams@, old(self).config@.selected_node)->0@,
                    r.port,
                )
            },
            request is None ==> option_text(final(banners).error) == Some(PLAYBACK_INVALID@),
    {
        self.control.last_toggle = now;
        let port = parse_usable_port(self.config.bind_port.as_str());
        match (lookup_stream(streams, &self.config.selected_discovered_node_id), port) {
            (Some(stream), Some(port)) => {
                banners.error = None;
                Some(SubscribeRequest::new(stream, port))
            },
            _ => {
                banners.error = Some(PLAYBACK_INVALID.to_string());
                None
            },
        }
    }

    /// Takes in the answer of the publisher.  The session runs if the request
    /// went out; otherwise the error is reported.
    pub fn publisher_answered(
        &mut self,
        request: &SubscribeRequest,
        result: &Result<(), String>,
        banners: &mut Banners,
    ) -> (plan: Option<PlaybackPlan>)
        ensures
            final(self).id == old(self).id,
            final(self).config == old(self).config,
            final(banners).info == old(banners).info,
            plan is Some <==> result is Ok,
            result matches Err(error) ==> {
                &&& final(self).control == old(self).control
                &&& option_text(final(banners).error) == Some(friendly(error@))
            },
            plan matches Some(p) ==> {
                &&& final(banners).error == old(banners).error
                &&& final(self).control@ == (ControlState {
                    running: true,
                    status: "Receiving '"@ + request.stream_name@ + "' from '"@
                        + request.node_name@ + "'..."@,
                    ..old(self).control@
                })
                &&& p.bind_addr@ == bind_address(request.port)
                &&& option_text(p.device_name) == old(self).config@.selected_output
                &&& p.volume == old(self).config.volume
                &&& option_text(p.record_prefix) == if old(self).config.record {
                    Some("subscribe_"@ + decimal(request.port as nat))
                } else {
                    None
                }
                &&& p.thread_name@ == "wasapi-subscribe-"@ + decimal(request.port as nat)
            },
    {
        match result {
            Ok(()) => {
                let mut status = "Receiving '".to_string();
                status.append(request.stream_name.as_str());
                status.append("' from '");
                status.append(request.node_name.as_str());
                status.append("'...");
                self.control.running = true;
                self.control.status = status;
                Some(
                    PlaybackPlan {
                        bind_addr: join_number("0.0.0.0:", request.port as u128),
                        device_name: clone_option(&self.config.selected_output),
                        volume: self.config.volume,
                        record_prefix: if self.config.record {
                            Some(join_number("subscribe_", request.port as u128))
                        } else {
                            None
                        },
                        thread_name: join_number("wasapi-subscribe-", request.port as u128),
                    },
                )
            },
            Err(error) => {
                banners.error = Some(friendly_error(error.as_str()));
                None
            },
        }
    }
}

/// A new session lacks nothing but a stream.
pub proof fn lemma_fresh_playback_lacks_only_a_stream(
    id: u64,
    node_id: Seq<char>,
    streams: Seq<DiscoveredStream>,
)
    requires
        node_ids(streams).contains(node_id),
    ensures
        (SubscribeSettings {
            selected_node: Some(node_id),
            ..SubscribeSettings::fresh(id)
        }).obstacle(streams) is None,
{
    lemma_fresh_port_is_usable(6980, id);
    crate::devices::lemma_first_place(node_ids(streams), node_id);
}

// ---------------------------------------------------------------------------
// One device per channel
// ---------------------------------------------------------------------------

/// No device for each of `count` channels.
pub open spec fn no_devices(count: nat) -> Seq<Option<Seq<char>>> {
    Seq::new(count, |i: int| None)
}

impl SplitSettings {
    /// The configuration of a new session.
    pub open spec fn fresh(id: u64) -> SplitSettings {
        SplitSettings {
            session_tag: "split"@ + decimal(id as nat),
            selected_node: None,
            bind_port: decimal(port_for(6990, id)),
            channel_devices: Seq::empty(),
            record: false,
        }
    }

    /// The configuration with another stream, its channels all on the default
    /// device.
    pub open spec fn with_stream(self, stream: StreamInfo) -> SplitSettings {
        SplitSettings {
            selected_node: Some(stream.node_id),
            channel_devices: no_devices(stream.channel_count as nat),
            ..self
        }
    }

    /// The configuration with the first devices replaced by endpoints, as many
    /// as there are of both.
    pub open spec fn with_endpoints(self, names: Seq<Seq<char>>) -> SplitSettings {
        SplitSettings {
            channel_devices: Seq::new(
                self.channel_devices.len(),
                |i: int|
                    if i < names.len() {
                        Some(names[i])
                    } else {
                        self.channel_devices[i]
                    },
            ),
            ..self
        }
    }

    /// What keeps the session from being started.
    pub open spec fn obstacle(self, streams: Seq<DiscoveredStream>) -> Option<Seq<char>> {
        match selected_stream(streams, self.selected_node) {
            None => Some(STREAM_MISSING@),
            Some(stream) => if !is_usable_port(self.bind_port) {
                Some(PORT_INVALID@)
            } else if self.channel_devices.len() != stream.channel_count
                || self.channel_devices.len() == 0 {
                Some(ROUTING_MISMATCH@)
            } else {
                None
            },
        }
    }
}

pub const ROUTING_MISMATCH: &'static str = "Channel routing does not match the stream";

pub const SPLIT_INVALID: &'static str = "Select a stream and enter a valid UDP port.";

pub const PLAYBACK_ENDPOINTS_CREATED: &'static str = "SAR playback endpoints created. Restart your DAW's ASIO connection, configure the new playback endpoints, then refresh devices.";

pub const SESSION_ENDPOINTS_LEFT: &'static str = "The session was removed, but its SAR endpoints could not be removed: ";

/// What is needed to play each channel on a device of its own.
pub struct SplitPlan {
    pub bind_addr: String,
    pub device_targets: Vec<Option<String>>,
    pub record_each: bool,
    pub thread_name: String,
}

/// A new session that plays each channel on a device of its own.
pub fn new_split_session(id: u64, now: u64) -> (session: Session<SplitSubscribePreset>)
    ensures
        session.id == id,
        session.control@ == ControlState::idle(now),
        session.config@ == SplitSettings::fresh(id),
{
    let config = SplitSubscribePreset {
        session_tag: join_number("split", id as u128),
        selected_discovered_node_id: None,
        bind_port: port_text(6990, id),
        channel_devices: Vec::new(),
        record: false,
    };
    assert(config@ =~= SplitSettings::fresh(id));
    Session { id, control: SessionControl::idle(now), config }
}

/// A list without devices.
fn empty_devices(count: usize) -> (devices: Vec<Option<String>>)
    ensures
        option_texts(devices@) == no_devices(count as nat),
{
    let mut devices: Vec<Option<String>> = Vec::new();
    let mut i: usize = 0;
    while i < count
        invariant
            i <= count,
            devices@.len() == i,
            forall|j: int| 0 <= j < i ==> #[trigger] devices@[j] is None,
        decreases count - i,
    {
        devices.push(None);
        i = i + 1;
    }
    assert(option_texts(devices@) =~= no_devices(count as nat));
    devices
}

impl Session<SplitSubscribePreset> {
    /// Selects a stream, unless the session runs.
    pub fn select_stream(&mut self, stream: &DiscoveredStream)
        ensures
            final(self).id == old(self).id,
            final(self).control == old(self).control,
            final(self).config@ == if old(self).control.running {
                old(self).config@
            } else {
                old(self).config@.with_stream(stream@)
            },
    {
        if self.control.running {
            return;
        }
        self.config.selected_discovered_node_id = Some(stream.node_id.clone());
        self.config.channel_devices = empty_devices(stream.channel_count);
    }

    /// Puts all channels on the default device, unless the session runs.
    pub fn clear_devices(&mut self)
        ensures
            final(self).id == old(self).id,
            final(self).control == old(self).control,
            final(self).config@ == if old(self).control.running {
                old(self).config@
            } else {
                SplitSettings {
                    channel_devices: no_devices(old(self).config@.channel_devices.len()),
                    ..old(self).config@
                }
            },
    {
        if self.control.running {
            return;
        }
        let count: usize = self.config.channel_devices.len();
        self.config.channel_devices = empty_devices(count);
    }

    /// Takes in that endpoints were created for the channels, or why not.  A
    /// session that runs takes no notice.
    pub fn endpoints_created(&mut self, result: Result<Vec<String>, String>, banners: &mut Banners)
        ensures
            final(self).id == old(self).id,
            final(self).control == old(self).control,
            old(self).control.running ==> {
                &&& final(self).config == old(self).config
                &&& *final(banners) == *old(banners)
            },
            !old(self).control.running ==> (result matches Ok(names) ==> {
                &&& final(self).config@ == old(self).config@.with_endpoints(texts(names@))
                &&& option_text(final(banners).info) == Some(PLAYBACK_ENDPOINTS_CREATED@)
                &&& final(banners).error == old(banners).error
            }),
            !old(self).control.running ==> (result matches Err(error) ==> {
                &&& final(self).config == old(self).config
                &&& option_text(final(banners).error) == Some(friendly(error@))
                &&& final(banners).info == old(banners).info
            }),
    {
        if self.control.running {
            return;
        }
        match result {
            Ok(names) => {
                let ghost start = self.config.channel_devices@;
                let mut i: usize = 0;
                while i < self.config.channel_devices.len() && i < names.len()
                    invariant
                        self.id == old(self).id,
                        self.control == old(self).control,
                        self.config == (SplitSubscribePreset {
                            channel_devices: self.config.channel_devices,
                            ..old(self).config
                        }),
                        start == old(self).config.channel_devices@,
                        self.config.channel_devices@.len() == start.len(),
                        i <= start.len(),
                        i <= names@.len(),
                        forall|j: int|
                            0 <= j < i ==> #[trigger] self.config.channel_devices@[j] == Some(
                                names@[j],
                            ),
                        forall|j: int|
                            i <= j < start.len() ==> self.config.channel_devices@[j] == start[j],
                    decreases start.len() - i,
                {
                    self.config.channel_devices.set(i, Some(names[i].clone()));
                    i = i + 1;
                }
                assert(self.config@.channel_devices =~= old(self).config@.with_endpoints(
                    texts(names@),
                ).channel_devices);
                banners.info = Some(PLAYBACK_ENDPOINTS_CREATED.to_string());
            },
            Err(error) => {
                banners.error = Some(friendly_error(error.as_str()));
            },
        }
    }

    /// Whether the button that starts the session reacts.
    pub fn start_enabled(&self, now: u64, streams: &Vec<DiscoveredStream>) -> (yes: bool)
        ensures
            yes == (!self.control.running && self.control@.debounced(now) && self.config@.obstacle(
                streams@,
            ) is None),
    {
        !self.control.running && self.control.debounce_ready(now) && self.start_hint(
            streams,
        ).is_none()
    }

    /// What keeps the session from being started, apart from its button.
    pub fn start_hint(&self, streams: &Vec<DiscoveredStream>) -> (hint: Option<&'static str>)
        ensures
            hint is None <==> self.config@.obstacle(streams@) is None,
            hint matches Some(text) ==> self.config@.obstacle(streams@) == Some(text@),
    {
        match lookup_stream(streams, &self.config.selected_discovered_node_id) {
            None => Some(STREAM_MISSING),
            Some(stream) => {
                if parse_usable_port(self.config.bind_port.as_str()).is_none() {
                    Some(PORT_INVALID)
                } else if self.config.channel_devices.len() != stream.channel_count
                    || self.config.channel_devices.len() == 0 {
                    Some(ROUTING_MISMATCH)
                } else {
                    None
                }
            },
        }
    }

    /// Begins to start the session: clears the error banner and hands out what
    /// is to be asked of the publisher, or reports what is missing.
    pub fn start_request(
        &mut self,
        now: u64,
        streams: &Vec<DiscoveredStream>,
        banners: &mut Banners,
    ) -> (request: Option<SubscribeRequest>)
        ensures
            final(self).id == old(self).id,
            final(self).config == old(self).config,
            final(self).control@ == (ControlState { last_toggle: now, ..old(self).control@ }),
            final(banners).info == old(banners).info,
            request is Some <==> selected_stream(streams@, old(self).config@.selected_node) is Some
                && is_usable_port(old(self).config.bind_port@),
            request matches Some(r) ==> {
                &&& final(banners).error is None
                &&& udp_port(old(self).config.bind_port@) == Some(r.port as nat)
                &&& r.asks(
                    selected_stream(streams@, old(self).config@.selected_node)->0@,
                    r.port,
                )
            },
            request is None ==> option_text(final(banners).error) == Some(SPLIT_INVALID@),
    {
        self.control.last_toggle = now;
        let port = parse_usable_port(self.config.bind_port.as_str());
        match (lookup_stream(streams, &self.config.selected_discovered_node_id), port) {
            (Some(stream), Some(port)) => {
                banners.error = None;
                Some(SubscribeRequest::new(stream, port))
            },
            _ => {
                banners.error = Some(SPLIT_INVALID.to_string());
                None
            },
        }
    }

    /// Takes in the answer of the publisher.
    pub fn publisher_answered(
        &mut self,
        request: &SubscribeRequest,
        result: &Result<(), String>,
        banners: &mut Banners,
    ) -> (plan: Option<SplitPlan>)
        ensures
            final(self).id == old(self).id,
            final(self).config == old(self).config,
            final(banners).info == old(banners).info,
            plan is Some <==> result is Ok,
            result matches Err(error) ==> {
                &&& final(self).control == old(self).control
                &&& option_text(final(banners).error) == Some(friendly(error@))
            },
            plan matches Some(p) ==> {
                &&& final(banners).error == old(banners).error
                &&& final(self).control@ == (ControlState {
                    running: true,
                    status: "Receiving '"@ + request.stream_name@ + "' and routing "@ + decimal(
                        old(self).config@.channel_devices.len(),
                    ) + " channel(s)..."@,
                    ..old(self).control@
                })
                &&& p.bind_addr@ == bind_address(request.port)
                &&& option_texts(p.device_targets@) == old(self).config@.channel_devices
                &&& p.record_each == old(self).config.record
                &&& p.thread_name@ == "split-subscribe-"@ + decimal(request.port as nat)
            },
    {
        match result {
            Ok(()) => {
                let mut status = "Receiving '".to_string();
                status.append(request.stream_name.as_str());
                status.append("' and routing ");
                push_decimal(&mut status, self.config.channel_devices.len() as u128);
                status.append(" channel(s)...");
                self.control.running = true;
                self.control.status = status;
                Some(
                    SplitPlan {
                        bind_addr: join_number("0.0.0.0:", request.port as u128),
                        device_targets: clone_options(&self.config.channel_devices),
                        record_each: self.config.record,
                        thread_name: join_number("split-subscribe-", request.port as u128),
                    },
                )
            },
            Err(error) => {
                banners.error = Some(friendly_error(error.as_str()));
                None
            },
        }
    }
}

/// A new session for which a stream with channels was selected lacks nothing,
/// as long as the stream is announced under the first entry of its node.
pub proof fn lemma_fresh_split_lacks_only_a_stream(
    id: u64,
    streams: Seq<DiscoveredStream>,
    stream: DiscoveredStream,
)
    requires
        selected_stream(streams, Some(stream@.node_id)) == Some(stream),
        stream.channel_count > 0,
    ensures
        SplitSettings::fresh(id).with_stream(stream@).obstacle(streams) is None,
{
    lemma_fresh_port_is_usable(6990, id);
}

/// No two sessions with endpoints of their own share a tag.
pub proof fn lemma_tags_differ(a: u64, b: u64)
    ensures
        a != b ==> SplitSettings::fresh(a).session_tag != SplitSettings::fresh(b).session_tag,
        a != b ==> CombineSettings::fresh(a).session_tag != CombineSettings::fresh(b).session_tag,
        SplitSettings::fresh(a).session_tag != CombineSettings::fresh(b).session_tag,
{
    reveal_strlit("split");
    reveal_strlit("combine");
    let split_a = SplitSettings::fresh(a).session_tag;
    let split_b = SplitSettings::fresh(b).session_tag;
    let combine_a = CombineSettings::fresh(a).session_tag;
    let combine_b = CombineSettings::fresh(b).session_tag;
    assert(split_a[0] == 's');
    assert(combine_b[0] == 'c');
    assert(split_a.skip(5) =~= decimal(a as nat));
    assert(split_b.skip(5) =~= decimal(b as nat));
    assert(combine_a.skip(7) =~= decimal(a as nat));
    assert(combine_b.skip(7) =~= decimal(b as nat));
    if a != b && (split_a == split_b || combine_a == combine_b) {
        lemma_decimal_injective(a as nat, b as nat);
    }
}

/// Selecting another stream, clearing the devices and creating endpoints keep
/// one device per channel.
pub proof fn lemma_split_keeps_one_device_per_channel(
    settings: SplitSettings,
    stream: StreamInfo,
    names: Seq<Seq<char>>,
)
    ensures
        settings.with_stream(stream).channel_devices.len() == stream.channel_count,
        settings.with_stream(stream).with_endpoints(names).channel_devices.len()
            == stream.channel_count,
        settings.with_endpoints(names).channel_devices.len() == settings.channel_devices.len(),
{
}

/// A written port can be listened on exactly if it is one of those from 1 to 65535.
pub proof fn lemma_usable_ports(port: nat)
    ensures
        is_usable_port(decimal(port)) <==> 1 <= port <= 65_535,
        udp_port(decimal(port)) is Some <==> port <= 65_535,
        port <= 65_535 ==> udp_port(decimal(port)) == Some(port),
{
    if port <= 65_535 {
        lemma_parse_of_decimal(port, 65_535);
    } else {
        crate::text::lemma_what_is_read(port, 65_535, Seq::empty(), 0);
    }
}

/// New sessions listen on ports that follow one another, up to the last one.
pub proof fn lemma_ports_follow_one_another(base: u64, id: u64)
    requires
        base <= 65_535,
    ensures
        port_for(base, 0) == base,
        base + id < 65_535 ==> port_for(base, (id + 1) as u64) == port_for(base, id) + 1,
        base + id <= 65_535 ==> port_for(base, id) - id == base,
        base + id > 65_535 ==> port_for(base, id) == 65_535,
{
}

/// A new session plays at full volume on the default device, records nothing and
/// has no stream; the two kinds count their ports from different numbers.
pub proof fn lemma_new_playback(id: u64)
    requires
        id < 10_000,
    ensures
        SubscribeSettings::fresh(id).bind_port == decimal((6_980 + id) as nat),
        SplitSettings::fresh(id).bind_port == decimal((6_990 + id) as nat),
        SubscribeSettings::fresh(id).selected_node is None,
        SubscribeSettings::fresh(id).selected_output is None,
        SubscribeSettings::fresh(id).volume.bits == 0x3f80_0000,
        !SubscribeSettings::fresh(id).record,
        SplitSettings::fresh(id).selected_node is None,
        SplitSettings::fresh(id).channel_devices.len() == 0,
        !SplitSettings::fresh(id).record,
{
}

/// A loop begins with a request, and ends at once when its session does not run.
pub proof fn lemma_renewal_begins_and_ends(waits: u32)
    ensures
        renewal(true, WAITS_PER_RENEWAL) == RenewalStep::Send,
        renewal(false, waits) == RenewalStep::Stop,
        renewal(true, waits) != RenewalStep::Stop,
        waits_after(RenewalStep::Send, waits) == 0,
{
}

/// Playback needs a stream that is announced and a port that can be listened on;
/// with a device per channel it also needs a channel and as many devices as the
/// stream has channels.
pub proof fn lemma_what_playback_needs(
    single: SubscribeSettings,
    split: SplitSettings,
    streams: Seq<DiscoveredStream>,
)
    ensures
        single.obstacle(streams) is None <==> {
            &&& selected_stream(streams, single.selected_node) is Some
            &&& udp_port(single.bind_port) matches Some(port)
            &&& port >= 1
        },
        split.obstacle(streams) is None <==> {
            &&& selected_stream(streams, split.selected_node) matches Some(stream)
            &&& udp_port(split.bind_port) matches Some(port)
            &&& port >= 1
            &&& split.channel_devices.len() == stream.channel_count
            &&& stream.channel_count >= 1
        },
        selected_stream(streams, single.selected_node) is None ==> single.obstacle(streams) == Some(
            "Select a discovered stream"@,
        ),
        selected_stream(streams, split.selected_node) is None ==> split.obstacle(streams) == Some(
            "Select a discovered stream"@,
        ),
{
}

/// Selecting a stream puts each of its channels on the default device; endpoints
/// take the places of the first devices.  Tag, port and recording stay.
pub proof fn lemma_split_devices(
    settings: SplitSettings,
    stream: StreamInfo,
    names: Seq<Seq<char>>,
    i: int,
)
    ensures
        ({
            let after = settings.with_stream(stream);
            &&& after.selected_node == Some(stream.node_id)
            &&& after.channel_devices.len() == stream.channel_count
            &&& 0 <= i < stream.channel_count ==> after.channel_devices[i] is None
            &&& after.session_tag == settings.session_tag
            &&& after.bind_port == settings.bind_port
            &&& after.record == settings.record
        }),
        ({
            let after = settings.with_endpoints(names);
            &&& after.channel_devices.len() == settings.channel_devices.len()
            &&& 0 <= i < settings.channel_devices.len() && i < names.len()
                ==> after.channel_devices[i] == Some(names[i])
            &&& names.len() <= i < settings.channel_devices.len() ==> after.channel_devices[i]
                == settings.channel_devices[i]
            &&& after.selected_node == settings.selected_node
            &&& after.session_tag == settings.session_tag
            &&& after.bind_port == settings.bind_port
            &&& after.record == settings.record
        }),
        0 <= i < settings.channel_devices.len() ==> no_devices(settings.channel_devices.len())[i]
            is None,
        no_devices(settings.channel_devices.len()).len() == settings.channel_devices.len(),
{
}

/// A request goes to the publisher of the stream, for that stream, and names the
/// port that was given.
pub proof fn lemma_request_goes_to_the_publisher(
    request: SubscribeRequest,
    stream: DiscoveredStream,
    port: u16,
)
    requires
        request.asks(stream@, port),
    ensures
        request.ip@ == stream.ip@,
        request.control_port == stream.control_port,
        request.stream_id == stream.stream_id,
        request.port == port,
        request.stream_name@ == stream.stream_name@,
        request.node_name@ == stream.node_name@,
{
}

/// A port is opened on all interfaces; the number stands behind the colon.
pub proof fn lemma_bind_addresses(a: u16, b: u16)
    ensures
        bind_address(a) == "0.0.0.0:"@ + decimal(a as nat),
        bind_address(a) == bind_address(b) ==> a == b,
{
    if bind_address(a) == bind_address(b) {
        let n = "0.0.0.0:"@.len() as int;
        assert(bind_address(a).skip(n) =~= decimal(a as nat));
        assert(bind_address(b).skip(n) =~= decimal(b as nat));
        crate::text::lemma_decimal_injective(a as nat, b as nat);
    }
}

} // verus!
