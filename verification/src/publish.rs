//! Publishing sessions: one device, one device per channel, or the channels of
//! an ASIO driver.

use crate::asio_locks::{
    held_after_release, held_after_reserve, reserve_asio_device, reservation, AsioDeviceLocks,
};
use crate::channels::{
    all_channels, announced, announced_labels, default_labels, first_channels, fit_labels, fitted,
    toggle_channel, toggled, QuickSelection,
};
use crate::control::{Banners, ControlState, Session, SessionControl};
use crate::devices::{device_names, find_device, first_place, AsioDriverInfo, DeviceInfo};
use crate::messages::{friendly, friendly_error};
use crate::preset::{
    clone_indices, sources, AsioPublishPreset, AsioSettings, CombinePublishPreset, CombineSettings,
    PublishPreset, PublishSettings,
};
use crate::text::{
    blank, decimal, is_blank, join_number, join_number_between, option_text, push_decimal, texts,
};
use vstd::prelude::*;

verus! {

/// The stream number of the session `id`, counted from `base` as far as the
/// numbers reach.
pub open spec fn stream_number(base: u32, id: u64) -> u32 {
    if base + id <= u32::MAX {
        (base + id) as u32
    } else {
        u32::MAX
    }
}

/// The stream number of the session `id`.
pub fn stream_id_for(base: u32, id: u64) -> (number: u32)
    ensures
        number == stream_number(base, id),
{
    let capped: u32 = if id < u32::MAX as u64 {
        id as u32
    } else {
        u32::MAX
    };
    base.saturating_add(capped)
}

/// Stream numbers of different sessions differ as long as they are below the
/// largest number.
pub proof fn lemma_stream_numbers_differ(base: u32, a: u64, b: u64)
    requires
        a != b,
        stream_number(base, a) < u32::MAX,
    ensures
        stream_number(base, a) != stream_number(base, b),
{
}

/// The name that a new session gives its node.
pub open spec fn node_name_for(id: u64) -> Seq<char> {
    "OpenAudio Node "@ + decimal(id as nat)
}

// ---------------------------------------------------------------------------
// One device
// ---------------------------------------------------------------------------

impl PublishSettings {
    /// The configuration of a new session.
    pub open spec fn fresh(id: u64) -> PublishSettings {
        PublishSettings {
            node_name: node_name_for(id),
            stream_name: "Stream "@ + decimal(id as nat),
            stream_id: stream_number(3000, id),
            selected_input: None,
            is_loopback: false,
            record: false,
            channel_labels: fitted(Seq::empty(), 2),
        }
    }

    /// Whether node and stream have names.
    pub open spec fn has_names(self) -> bool {
        !is_blank(self.node_name) && !is_blank(self.stream_name)
    }

    /// How many channels the selected device has: two where the device is not
    /// known, and one at least.
    pub open spec fn device_channels(
        self,
        inputs: Seq<DeviceInfo>,
        outputs: Seq<DeviceInfo>,
    ) -> nat {
        let devices = if self.is_loopback {
            outputs
        } else {
            inputs
        };
        let place = match self.selected_input {
            Some(name) => first_place(device_names(devices), name),
            None => None,
        };
        let count = match place {
            Some(i) => if self.is_loopback {
                devices[i].max_output_channels
            } else {
                devices[i].max_input_channels
            },
            None => 2,
        };
        if count < 1 {
            1
        } else {
            count as nat
        }
    }

    /// The status of a session that starts.
    pub open spec fn starting_status(self) -> Seq<char> {
        if self.is_loopback {
            "Starting loopback capture..."@
        } else {
            "Starting input capture..."@
        }
    }
}

/// What is needed to capture one device.
pub struct PublishPlan {
    pub config: PublishPreset,
    /// The first part of the name of the recording, where there is one.
    pub record_prefix: Option<String>,
    pub thread_name: String,
}

/// A new session that publishes one device.
pub fn new_publish_session(id: u64, now: u64) -> (session: Session<PublishPreset>)
    ensures
        session.id == id,
        session.control@ == ControlState::idle(now),
        session.config@ == PublishSettings::fresh(id),
{
    Session {
        id,
        control: SessionControl::idle(now),
        config: PublishPreset {
            node_name: join_number("OpenAudio Node ", id as u128),
            stream_name: join_number("Stream ", id as u128),
            stream_id: stream_id_for(3000, id),
            selected_input: None,
            is_loopback: false,
            record: false,
            channel_labels: default_labels(2),
        },
    }
}

pub const NAMES_MISSING: &'static str = "Enter node and stream names";

impl Session<PublishPreset> {
    /// Brings the channel labels to the number of channels of the selected
    /// device.
    pub fn sync_labels(&mut self, inputs: &Vec<DeviceInfo>, outputs: &Vec<DeviceInfo>)
        ensures
            final(self).id == old(self).id,
            final(self).control == old(self).control,
            final(self).config@ == (PublishSettings {
                channel_labels: fitted(
                    old(self).config@.channel_labels,
                    old(self).config@.device_channels(inputs@, outputs@),
                ),
                ..old(self).config@
            }),
    {
        let devices = if self.config.is_loopback {
            outputs
        } else {
            inputs
        };
        let place = match &self.config.selected_input {
            Some(name) => find_device(devices, name.as_str()),
            None => None,
        };
        let count: usize = match place {
            Some(i) => if self.config.is_loopback {
                devices[i].max_output_channels
            } else {
                devices[i].max_input_channels
            },
            None => 2,
        };
        fit_labels(
            &mut self.config.channel_labels,
            if count < 1 {
                1
            } else {
                count
            },
        );
    }

    /// Whether the button that starts the session reacts.
    pub fn start_enabled(&self, now: u64) -> (yes: bool)
        ensures
            yes == (!self.control.running && self.control@.debounced(now)
                && self.config@.has_names()),
    {
        !self.control.running && self.control.debounce_ready(now) && self.start_hint().is_none()
    }

    /// What keeps the session from being started, apart from its button.
    pub fn start_hint(&self) -> (hint: Option<&'static str>)
        ensures
            hint is None <==> self.config@.has_names(),
            hint matches Some(text) ==> text@ == NAMES_MISSING@,
    {
        if blank(self.config.node_name.as_str()) || blank(self.config.stream_name.as_str()) {
            Some(NAMES_MISSING)
        } else {
            None
        }
    }

    /// Starts the session: clears the error banner and hands out what the
    /// worker needs.
    pub fn start(&mut self, now: u64, banners: &mut Banners) -> (plan: PublishPlan)
        ensures
            final(self).id == old(self).id,
            final(self).config == old(self).config,
            final(self).control@ == old(self).control@.started(
                now,
                old(self).config@.starting_status(),
            ),
            final(banners).error is None,
            final(banners).info == old(banners).info,
            plan.config@ == old(self).config@,
            option_text(plan.record_prefix) == if old(self).config.record {
                Some("publish_"@ + decimal(old(self).config.stream_id as nat))
            } else {
                None
            },
            plan.thread_name@ == "wasapi-publish-"@ + decimal(old(self).config.stream_id as nat),
    {
        banners.error = None;
        let status = if self.config.is_loopback {
            "Starting loopback capture..."
        } else {
            "Starting input capture..."
        };
        self.control.start(now, status.to_string());
        PublishPlan {
            config: self.config.duplicate(),
            record_prefix: if self.config.record {
                Some(join_number("publish_", self.config.stream_id as u128))
            } else {
                None
            },
            thread_name: join_number("wasapi-publish-", self.config.stream_id as u128),
        }
    }
}

// ---------------------------------------------------------------------------
// One device per channel
// ---------------------------------------------------------------------------

impl CombineSettings {
    /// The configuration of a new session.
    pub open spec fn fresh(id: u64) -> CombineSettings {
        CombineSettings {
            session_tag: "combine"@ + decimal(id as nat),
            node_name: node_name_for(id),
            stream_name: "Combined Stream "@ + decimal(id as nat),
            stream_id: stream_number(4000, id),
            channel_count: 2,
            channel_sources: seq![(None, false), (None, false)],
            record: false,
            channel_labels: fitted(Seq::empty(), 2),
        }
    }

    /// The configuration with another number of channels: sources and labels
    /// are cut or filled up, a new source being the default device.
    pub open spec fn resized(self, count: usize) -> CombineSettings {
        CombineSettings {
            channel_count: count,
            channel_sources: Seq::new(
                count as nat,
                |i: int|
                    if i < self.channel_sources.len() {
                        self.channel_sources[i]
                    } else {
                        (None, false)
                    },
            ),
            channel_labels: fitted(self.channel_labels, count as nat),
            ..self
        }
    }

    /// The configuration with the first sources replaced by endpoints, as many
    /// as there are of both.
    pub open spec fn with_endpoints(self, names: Seq<Seq<char>>) -> CombineSettings {
        CombineSettings {
            channel_sources: Seq::new(
                self.channel_sources.len(),
                |i: int|
                    if i < names.len() {
                        (Some(names[i]), false)
                    } else {
                        self.channel_sources[i]
                    },
            ),
            ..self
        }
    }

    /// Whether there is a source for each channel, a channel at least, and
    /// names for node and stream.
    pub open spec fn is_complete(self) -> bool {
        &&& self.channel_count > 0
        &&& self.channel_sources.len() == self.channel_count
        &&& !is_blank(self.node_name)
        &&& !is_blank(self.stream_name)
    }
}

/// What is needed to capture one device per channel.
pub struct CombinePlan {
    pub config: CombinePublishPreset,
    pub thread_name: String,
}

/// The least and the most channels of a combined stream that the window offers.
pub const LEAST_COMBINED_CHANNELS: usize = 1;

pub const MOST_COMBINED_CHANNELS: usize = 64;

pub const COMBINE_INCOMPLETE: &'static str = "Complete the stream names and channel configuration";

pub const RECORDING_ENDPOINTS_CREATED: &'static str = "SAR recording endpoints created. Restart your DAW's ASIO connection, route tracks to the new OpenAudio recording endpoints, then refresh devices.";

pub const STREAM_ENDPOINTS_LEFT: &'static str = "The stream was removed, but its SAR endpoints could not be removed: ";

/// A new session that publishes one device per channel.
pub fn new_combine_session(id: u64, now: u64) -> (session: Session<CombinePublishPreset>)
    ensures
        session.id == id,
        session.control@ == ControlState::idle(now),
        session.config@ == CombineSettings::fresh(id),
{
    let mut channel_sources: Vec<(Option<String>, bool)> = Vec::new();
    channel_sources.push((None, false));
    channel_sources.push((None, false));
    assert(sources(channel_sources@) =~= seq![(None, false), (None, false)]);
    Session {
        id,
        control: SessionControl::idle(now),
        config: CombinePublishPreset {
            session_tag: join_number("combine", id as u128),
            node_name: join_number("OpenAudio Node ", id as u128),
            stream_name: join_number("Combined Stream ", id as u128),
            stream_id: stream_id_for(4000, id),
            channel_count: 2,
            channel_sources,
            record: false,
            channel_labels: default_labels(2),
        },
    }
}

impl Session<CombinePublishPreset> {
    /// Gives the stream another number of channels, unless the session runs.
    pub fn set_channel_count(&mut self, count: usize)
        ensures
            final(self).id == old(self).id,
            final(self).control == old(self).control,
            final(self).config@ == if old(self).control.running {
                old(self).config@
            } else {
                old(self).config@.resized(count)
            },
    {
        if self.control.running {
            return;
        }
        self.config.channel_count = count;
        self.config.channel_sources.truncate(count);
        let ghost start = self.config.channel_sources@;
        while self.config.channel_sources.len() < count
            invariant
                self.id == old(self).id,
                self.control == old(self).control,
                self.config == (CombinePublishPreset {
                    channel_count: count,
                    channel_sources: self.config.channel_sources,
                    ..old(self).config
                }),
                start.len() <= self.config.channel_sources@.len() <= count,
                forall|i: int|
                    0 <= i < self.config.channel_sources@.len() ==> #[trigger]
                    self.config.channel_sources@[i] == if i < start.len() {
                        start[i]
                    } else {
                        (None, false)
                    },
            decreases count - self.config.channel_sources.len(),
        {
            self.config.channel_sources.push((None, false));
        }
        fit_labels(&mut self.config.channel_labels, count);
        assert(self.config@.channel_sources =~= old(self).config@.resized(count).channel_sources);
    }

    /// Takes in that endpoints were created for the channels, or why not.  A
    /// session that runs takes no notice.
    pub fn endpoints_created(&mut self, result: Result<Vec<String>, String>, banners: &mut Banners)
        ensures
            final(self).id == old(self).id,
            final(self).control == old(self).control,
            old(self).control.running ==> {
                &&& final(self).config == old(self).config
                &&& *final(banners) == *old(banners)
            },
            !old(self).control.running ==> (result matches Ok(names) ==> {
                &&& final(self).config@ == old(self).config@.with_endpoints(texts(names@))
                &&& option_text(final(banners).info) == Some(RECORDING_ENDPOINTS_CREATED@)
                &&& final(banners).error == old(banners).error
            }),
            !old(self).control.running ==> (result matches Err(error) ==> {
                &&& final(self).config == old(self).config
                &&& option_text(final(banners).error) == Some(friendly(error@))
                &&& final(banners).info == old(banners).info
            }),
    {
        if self.control.running {
            return;
        }
        match result {
            Ok(names) => {
                let ghost start = self.config.channel_sources@;
                let mut i: usize = 0;
                while i < self.config.channel_sources.len() && i < names.len()
                    invariant
                        self.id == old(self).id,
                        self.control == old(self).control,
                        self.config == (CombinePublishPreset {
                            channel_sources: self.config.channel_sources,
                            ..old(self).config
                        }),
                        start == old(self).config.channel_sources@,
                        self.config.channel_sources@.len() == start.len(),
                        i <= start.len(),
                        i <= names@.len(),
                        forall|j: int|
                            0 <= j < i ==> #[trigger] self.config.channel_sources@[j] == (
                                Some(names@[j]),
                                false,
                            ),
                        forall|j: int|
                            i <= j < start.len() ==> self.config.channel_sources@[j] == start[j],
                    decreases start.len() - i,
                {
                    self.config.channel_sources.set(i, (Some(names[i].clone()), false));
                    i = i + 1;
                }
                assert(self.config@.channel_sources =~= old(self).config@.with_endpoints(
                    texts(names@),
                ).channel_sources);
                banners.info = Some(RECORDING_ENDPOINTS_CREATED.to_string());
            },
            Err(error) => {
                banners.error = Some(friendly_error(error.as_str()));
            },
        }
    }

    /// Whether the button that starts the session reacts.
    pub fn start_enabled(&self, now: u64) -> (yes: bool)
        ensures
            yes == (!self.control.running && self.control@.debounced(now)
                && self.config@.is_complete()),
    {
        !self.control.running && self.control.debounce_ready(now) && self.start_hint().is_none()
    }

    /// What keeps the session from being started, apart from its button.
    pub fn start_hint(&self) -> (hint: Option<&'static str>)
        ensures
            hint is None <==> self.config@.is_complete(),
            hint matches Some(text) ==> text@ == COMBINE_INCOMPLETE@,
    {
        if self.config.channel_count > 0 && self.config.channel_sources.len()
            == self.config.channel_count && !blank(self.config.node_name.as_str()) && !blank(
            self.config.stream_name.as_str(),
        ) {
            None
        } else {
            Some(COMBINE_INCOMPLETE)
        }
    }

    /// Starts the session.
    pub fn start(&mut self, now: u64, banners: &mut Banners) -> (plan: CombinePlan)
        ensures
            final(self).id == old(self).id,
            final(self).config == old(self).config,
            final(self).control@ == old(self).control@.started(
                now,
                "Combining and advertising "@ + decimal(
                    old(self).config.channel_sources@.len(),
                ) + " channel(s)..."@,
            ),
            final(banners).error is None,
            final(banners).info == old(banners).info,
            plan.config@ == old(self).config@,
            plan.thread_name@ == "combined-publish-"@ + decimal(old(self).config.stream_id as nat),
    {
        banners.error = None;
        let status = join_number_between(
            "Combining and advertising ",
            self.config.channel_sources.len() as u128,
            " channel(s)...",
        );
        self.control.start(now, status);
        CombinePlan {
            config: self.config.duplicate(),
            thread_name: join_number("combined-publish-", self.config.stream_id as u128),
        }
    }
}

/// A channel count that was just set leaves names as the only thing that the
/// session may lack.
pub proof fn lemma_resized_is_complete(settings: CombineSettings, count: usize)
    requires
        count > 0,
    ensures
        settings.resized(count).is_complete() <==> !is_blank(settings.node_name) && !is_blank(
            settings.stream_name,
        ),
        settings.resized(count).channel_labels.len() == count,
{
}

// ---------------------------------------------------------------------------
// Channels of an ASIO driver
// ---------------------------------------------------------------------------

/// The configuration of a session that publishes channels of an ASIO driver,
/// with the number of channels that the driver has.
pub struct AsioPublishSetup {
    pub preset: AsioPublishPreset,
    pub driver_channel_count: usize,
}

impl AsioSettings {
    /// The configuration of a new session.
    pub open spec fn fresh(id: u64) -> AsioSettings {
        AsioSettings {
            node_name: node_name_for(id),
            stream_name: "ASIO Stream "@ + decimal(id as nat),
            stream_id: stream_number(6000, id),
            selected_driver: None,
            channel_indices: Seq::empty(),
            channel_labels: Seq::empty(),
        }
    }

    /// The configuration with a driver of `count` input channels, all of them
    /// selected and none named.
    pub open spec fn with_driver(self, name: Seq<char>, count: usize) -> AsioSettings {
        AsioSettings {
            selected_driver: Some(name),
            channel_indices: first_channels(count as nat),
            channel_labels: fitted(Seq::empty(), count as nat),
            ..self
        }
    }

    /// The configuration without a driver.
    pub open spec fn without_driver(self) -> AsioSettings {
        AsioSettings {
            selected_driver: None,
            channel_indices: Seq::empty(),
            channel_labels: Seq::empty(),
            ..self
        }
    }

    /// What keeps the session from being started.
    pub open spec fn obstacle(self) -> Option<Seq<char>> {
        if self.selected_driver is None {
            Some("Select an ASIO driver"@)
        } else if self.channel_indices.len() == 0 {
            Some("Select at least one channel"@)
        } else if is_blank(self.node_name) || is_blank(self.stream_name) {
            Some(NAMES_MISSING@)
        } else {
            None
        }
    }

    /// The name of the driver, or nothing.
    pub open spec fn driver_name(self) -> Seq<char> {
        match self.selected_driver {
            Some(name) => name,
            None => Seq::empty(),
        }
    }

    /// The status of a session that starts.
    pub open spec fn starting_status(self) -> Seq<char> {
        "Streaming "@ + decimal(self.channel_indices.len()) + " channel(s) from '"@
            + self.driver_name() + "'..."@
    }
}

/// What is needed to capture channels of an ASIO driver.
pub struct AsioPublishPlan {
    pub node_name: String,
    pub stream_name: String,
    pub stream_id: u32,
    pub driver_name: String,
    pub channel_indices: Vec<usize>,
    pub channel_labels: Vec<String>,
    pub thread_name: String,
}

pub const DRIVER_BUSY: &'static str = "ASIO driver busy.";

/// A new session that publishes channels of an ASIO driver.
pub fn new_asio_publish_session(id: u64, now: u64) -> (session: Session<AsioPublishSetup>)
    ensures
        session.id == id,
        session.control@ == ControlState::idle(now),
        session.config.preset@ == AsioSettings::fresh(id),
        session.config.driver_channel_count == 0,
{
    let preset = AsioPublishPreset {
        node_name: join_number("OpenAudio Node ", id as u128),
        stream_name: join_number("ASIO Stream ", id as u128),
        stream_id: stream_id_for(6000, id),
        selected_driver: None,
        channel_indices: Vec::new(),
        channel_labels: Vec::new(),
    };
    assert(preset@ =~= AsioSettings::fresh(id));
    Session {
        id,
        control: SessionControl::idle(now),
        config: AsioPublishSetup { preset, driver_channel_count: 0 },
    }
}

impl Session<AsioPublishSetup> {
    /// Selects a driver and all of its input channels, unless the session
    /// runs.
    pub fn select_driver(&mut self, driver: &AsioDriverInfo)
        ensures
            final(self).id == old(self).id,
            final(self).control == old(self).control,
            final(self).config.driver_channel_count == if old(self).control.running {
                old(self).config.driver_channel_count
            } else {
                driver.max_input_channels
            },
            final(self).config.preset@ == if old(self).control.running {
                old(self).config.preset@
            } else {
                old(self).config.preset@.with_driver(driver.name@, driver.max_input_channels)
            },
    {
        if self.control.running {
            return;
        }
        self.config.preset.selected_driver = Some(driver.name.clone());
        self.config.driver_channel_count = driver.max_input_channels;
        self.config.preset.channel_indices = all_channels(driver.max_input_channels);
        self.config.preset.channel_labels = default_labels(driver.max_input_channels);
    }

    /// Gives up the selected driver, unless the session runs.
    pub fn clear_driver(&mut self)
        ensures
            final(self).id == old(self).id,
            final(self).control == old(self).control,
            final(self).config.driver_channel_count == if old(self).control.running {
                old(self).config.driver_channel_count
            } else {
                0
            },
            final(self).config.preset@ == if old(self).control.running {
                old(self).config.preset@
            } else {
                old(self).config.preset@.without_driver()
            },
    {
        if self.control.running {
            return;
        }
        self.config.preset.selected_driver = None;
        self.config.driver_channel_count = 0;
        self.config.preset.channel_indices.clear();
        self.config.preset.channel_labels.clear();
        assert(self.config.preset@ =~= old(self).config.preset@.without_driver());
    }

    /// Selects channels by one button, if it is offered for the driver and the
    /// session does not run.
    pub fn pick_channels(&mut self, selection: QuickSelection)
        ensures
            final(self).id == old(self).id,
            final(self).control == old(self).control,
            final(self).config.driver_channel_count == old(self).config.driver_channel_count,
            final(self).config.preset@ == if !old(self).control.running && selection.is_offered(
                old(self).config.driver_channel_count,
            ) {
                AsioSettings {
                    channel_indices: first_channels(
                        selection.width(old(self).config.driver_channel_count),
                    ),
                    ..old(self).config.preset@
                }
            } else {
                old(self).config.preset@
            },
    {
        let count: usize = self.config.driver_channel_count;
        if !self.control.running && selection.offered(count) {
            self.config.preset.channel_indices = selection.channels(count);
        }
    }

    /// Selects a channel that was not selected, or the other way round, unless
    /// the session runs.
    pub fn toggle_channel(&mut self, channel: usize)
        ensures
            final(self).id == old(self).id,
            final(self).control == old(self).control,
            final(self).config.driver_channel_count == old(self).config.driver_channel_count,
            final(self).config.preset@ == (AsioSettings {
                channel_indices: final(self).config.preset@.channel_indices,
                ..old(self).config.preset@
            }),
            if old(self).control.running {
                final(self).config.preset@ == old(self).config.preset@
            } else {
                toggled(
                    old(self).config.preset@.channel_indices,
                    channel,
                    final(self).config.preset@.channel_indices,
                )
            },
    {
        if !self.control.running {
            toggle_channel(&mut self.config.preset.channel_indices, channel);
        }
    }

    /// What the driver selector shows.
    pub fn driver_text(&self) -> (text: String)
        ensures
            text@ == {
                let name = match self.config.preset.selected_driver {
                    Some(name) => name@,
                    None => "Select a driver"@,
                };
                if self.config.driver_channel_count > 0 {
                    name + " ("@ + decimal(self.config.driver_channel_count as nat) + " inputs)"@
                } else {
                    name
                }
            },
    {
        let mut text = match &self.config.preset.selected_driver {
            Some(name) => name.clone(),
            None => "Select a driver".to_string(),
        };
        if self.config.driver_channel_count > 0 {
            text.append(" (");
            push_decimal(&mut text, self.config.driver_channel_count as u128);
            text.append(" inputs)");
        }
        text
    }

    /// Whether the button that starts the session reacts.
    pub fn start_enabled(&self, now: u64) -> (yes: bool)
        ensures
            yes == (!self.control.running && self.control@.debounced(now)
                && self.config.preset@.obstacle() is None),
    {
        !self.control.running && self.control.debounce_ready(now) && self.start_hint().is_none()
    }

    /// What keeps the session from being started, apart from its button.
    pub fn start_hint(&self) -> (hint: Option<&'static str>)
        ensures
            hint is None <==> self.config.preset@.obstacle() is None,
            hint matches Some(text) ==> self.config.preset@.obstacle() == Some(text@),
    {
        let preset = &self.config.preset;
        if preset.selected_driver.is_none() {
            Some("Select an ASIO driver")
        } else if preset.channel_indices.len() == 0 {
            Some("Select at least one channel")
        } else if blank(preset.node_name.as_str()) || blank(preset.stream_name.as_str()) {
            Some(NAMES_MISSING)
        } else {
            None
        }
    }

    /// Starts the session, if its driver is free.  A driver that is taken is
    /// reported in the banner and in the status line.
    pub fn start(&mut self, now: u64, locks: &mut AsioDeviceLocks, banners: &mut Banners) -> (plan:
        Option<AsioPublishPlan>)
        requires
            old(locks).well_formed(),
        ensures
            final(locks).well_formed(),
            final(locks)@ == held_after_reserve(
                old(locks)@,
                old(self).config.preset@.driver_name(),
            ),
            final(self).id == old(self).id,
            final(self).config == old(self).config,
            final(banners).info == old(banners).info,
            match reservation(old(locks)@, old(self).config.preset@.driver_name()) {
                Ok(()) => {
                    &&& plan is Some
                    &&& final(banners).error is None
                    &&& final(self).control@ == old(self).control@.started(
                        now,
                        old(self).config.preset@.starting_status(),
                    )
                },
                Err(message) => {
                    &&& plan is None
                    &&& option_text(final(banners).error) == Some(message)
                    &&& final(self).control@ == (ControlState {
                        running: false,
                        status: DRIVER_BUSY@,
                        last_toggle: now,
                    })
                },
            },
            plan matches Some(p) ==> {
                let settings = old(self).config.preset@;
                &&& p.node_name@ == settings.node_name
                &&& p.stream_name@ == settings.stream_name
                &&& p.stream_id == settings.stream_id
                &&& p.driver_name@ == settings.driver_name()
                &&& p.channel_indices@ == settings.channel_indices
                &&& texts(p.channel_labels@) == announced(
                    settings.channel_indices,
                    settings.channel_labels,
                )
                &&& p.thread_name@ == "asio-publish-"@ + decimal(settings.stream_id as nat)
            },
    {
        banners.error = None;
        let driver_name = match &self.config.preset.selected_driver {
            Some(name) => name.clone(),
            None => String::new(),
        };
        assert(driver_name@ =~= self.config.preset@.driver_name());
        let mut status = join_number_between(
            "Streaming ",
            self.config.preset.channel_indices.len() as u128,
            " channel(s) from '",
        );
        status.append(driver_name.as_str());
        status.append("'...");
        self.control.start(now, status);
        match reserve_asio_device(locks, driver_name.as_str()) {
            Err(message) => {
                banners.error = Some(message);
                self.control.fail(DRIVER_BUSY);
                None
            },
            Ok(()) => {
                let preset = &self.config.preset;
                Some(
                    AsioPublishPlan {
                        node_name: preset.node_name.clone(),
                        stream_name: preset.stream_name.clone(),
                        stream_id: preset.stream_id,
                        driver_name,
                        channel_indices: clone_indices(&preset.channel_indices),
                        channel_labels: announced_labels(
                            &preset.channel_indices,
                            &preset.channel_labels,
                        ),
                        thread_name: join_number("asio-publish-", preset.stream_id as u128),
                    },
                )
            },
        }
    }
}

/// A session that lacks nothing and whose driver is free starts.
pub proof fn lemma_unobstructed_session_starts(settings: AsioSettings, held: Set<Seq<char>>)
    requires
        settings.obstacle() is None,
        !is_blank(settings.driver_name()),
        !held.contains(crate::text::trimmed(settings.driver_name())),
    ensures
        reservation(held, settings.driver_name()) is Ok,
{
}

/// A driver is free again once the session that reserved it has ended, and all
/// other reservations are as before.
pub proof fn lemma_ended_session_frees_its_driver(settings: AsioSettings, held: Set<Seq<char>>)
    requires
        reservation(held, settings.driver_name()) is Ok,
    ensures
        held_after_release(
            held_after_reserve(held, settings.driver_name()),
            settings.driver_name(),
        ) == held,
{
    crate::asio_locks::lemma_release_undoes_reserve(held, settings.driver_name());
}

/// Stream numbers follow one another from their base on, until the numbers end.
pub proof fn lemma_stream_numbers_follow_one_another(base: u32, id: u64)
    ensures
        stream_number(base, 0) == base,
        base + id < u32::MAX ==> stream_number(base, (id + 1) as u64) == stream_number(base, id) + 1,
        base + id <= u32::MAX ==> stream_number(base, id) - id == base,
        base + id > u32::MAX ==> stream_number(base, id) == u32::MAX,
{
}

/// Each kind of session counts its streams from a thousand of its own, and a new
/// session has names, labels for all of its channels, and neither a device nor a
/// driver.
pub proof fn lemma_new_publishers(id: u64)
    requires
        id < 1_000_000,
    ensures
        PublishSettings::fresh(id).stream_id == 3_000 + id,
        CombineSettings::fresh(id).stream_id == 4_000 + id,
        AsioSettings::fresh(id).stream_id == 6_000 + id,
        PublishSettings::fresh(id).has_names(),
        CombineSettings::fresh(id).is_complete(),
        CombineSettings::fresh(id).channel_labels.len() == 2,
        PublishSettings::fresh(id).channel_labels.len() == 2,
        PublishSettings::fresh(id).selected_input is None,
        !PublishSettings::fresh(id).is_loopback,
        !PublishSettings::fresh(id).record,
        !CombineSettings::fresh(id).record,
        AsioSettings::fresh(id).selected_driver is None,
        AsioSettings::fresh(id).channel_indices.len() == 0,
{
    reveal_strlit("OpenAudio Node ");
    reveal_strlit("Stream ");
    reveal_strlit("Combined Stream ");
    let node = node_name_for(id);
    assert(node[0] == 'O');
    crate::text::lemma_blank_is_white_space(node);
    assert(!crate::text::is_white_space(node[0]));
    let stream = PublishSettings::fresh(id).stream_name;
    assert(stream[0] == 'S');
    crate::text::lemma_blank_is_white_space(stream);
    assert(!crate::text::is_white_space(stream[0]));
    let combined = CombineSettings::fresh(id).stream_name;
    assert(combined[0] == 'C');
    crate::text::lemma_blank_is_white_space(combined);
    assert(!crate::text::is_white_space(combined[0]));
}

/// A session has as many labels as the device that it captures has channels: the
/// inputs of an input device, or the outputs of an output device in loopback.  A
/// device that is not known counts as a pair of channels, one without channels as
/// a single one.
pub proof fn lemma_labels_follow_the_device(
    settings: PublishSettings,
    inputs: Seq<DeviceInfo>,
    outputs: Seq<DeviceInfo>,
    i: int,
)
    ensures
        settings.selected_input is None ==> settings.device_channels(inputs, outputs) == 2,
        !settings.is_loopback && 0 <= i < inputs.len() && settings.selected_input == Some(
            inputs[i].name@,
        ) && (forall|j: int| 0 <= j < i ==> (#[trigger] inputs[j]).name@ != inputs[i].name@)
            && inputs[i].max_input_channels > 0 ==> settings.device_channels(inputs, outputs)
            == inputs[i].max_input_channels,
        settings.is_loopback && 0 <= i < outputs.len() && settings.selected_input == Some(
            outputs[i].name@,
        ) && (forall|j: int| 0 <= j < i ==> (#[trigger] outputs[j]).name@ != outputs[i].name@)
            && outputs[i].max_output_channels > 0 ==> settings.device_channels(inputs, outputs)
            == outputs[i].max_output_channels,
        !settings.is_loopback && (settings.selected_input matches Some(name) && forall|j: int|
            0 <= j < inputs.len() ==> (#[trigger] inputs[j]).name@ != name)
            ==> settings.device_channels(inputs, outputs) == 2,
        settings.is_loopback && (settings.selected_input matches Some(name) && forall|j: int|
            0 <= j < outputs.len() ==> (#[trigger] outputs[j]).name@ != name)
            ==> settings.device_channels(inputs, outputs) == 2,
        settings.device_channels(inputs, outputs) >= 1,
{
    if let Some(name) = settings.selected_input {
        let devices = if settings.is_loopback {
            outputs
        } else {
            inputs
        };
        let names = device_names(devices);
        crate::devices::lemma_first_place(names, name);
        if 0 <= i < devices.len() && devices[i].name@ == name && (forall|j: int|
            0 <= j < i ==> (#[trigger] devices[j]).name@ != name) {
            assert(names[i] == name);
            assert(names.contains(name));
            let p = first_place(names, name)->0;
            assert(names[p] == devices[p].name@);
            assert(p == i);
        }
        if names.contains(name) {
            let p = first_place(names, name)->0;
            assert(devices[p].name@ == name);
        }
    }
}

/// Another number of channels leaves every channel that was there before its
/// source and its label; only added channels get the default device and are
/// numbered.  Nothing else changes.
pub proof fn lemma_resizing_keeps_channels(settings: CombineSettings, count: usize, i: int)
    requires
        0 <= i < count,
    ensures
        ({
            let after = settings.resized(count);
            &&& after.channel_count == count
            &&& after.channel_sources.len() == count
            &&& after.channel_labels.len() == count
            &&& i < settings.channel_labels.len() ==> after.channel_labels[i]
                == settings.channel_labels[i]
            &&& i >= settings.channel_labels.len() ==> after.channel_labels[i] == "Channel "@
                + decimal((i + 1) as nat)
            &&& i < settings.channel_sources.len() ==> after.channel_sources[i]
                == settings.channel_sources[i]
            &&& i >= settings.channel_sources.len() ==> after.channel_sources[i] == (
                None::<Seq<char>>,
                false,
            )
            &&& after.session_tag == settings.session_tag
            &&& after.node_name == settings.node_name
            &&& after.stream_name == settings.stream_name
            &&& after.stream_id == settings.stream_id
            &&& after.record == settings.record
        }),
{
    crate::channels::lemma_fitted_labels(settings.channel_labels, count as nat, i);
}

/// Endpoints take the places of the first sources, without loopback; further
/// sources and all else stay.
pub proof fn lemma_endpoints_become_sources(
    settings: CombineSettings,
    names: Seq<Seq<char>>,
    i: int,
)
    requires
        0 <= i < settings.channel_sources.len(),
    ensures
        ({
            let after = settings.with_endpoints(names);
            &&& after.channel_sources.len() == settings.channel_sources.len()
            &&& i < names.len() ==> after.channel_sources[i] == (Some(names[i]), false)
            &&& i >= names.len() ==> after.channel_sources[i] == settings.channel_sources[i]
            &&& after.channel_labels == settings.channel_labels
            &&& after.channel_count == settings.channel_count
            &&& after.session_tag == settings.session_tag
            &&& after.node_name == settings.node_name
            &&& after.stream_name == settings.stream_name
            &&& after.stream_id == settings.stream_id
            &&& after.record == settings.record
        }),
{
}

/// Selecting a driver selects each of its inputs, and numbers them; giving it up
/// leaves no channel.  Names and stream number stay.
pub proof fn lemma_selecting_a_driver(
    settings: AsioSettings,
    name: Seq<char>,
    count: usize,
    c: usize,
)
    ensures
        ({
            let after = settings.with_driver(name, count);
            &&& after.selected_driver == Some(name)
            &&& after.channel_indices.len() == count
            &&& after.channel_indices.contains(c) <==> c < count
            &&& after.channel_labels.len() == count
            &&& c < count ==> after.channel_labels[c as int] == "Channel "@ + decimal(
                (c + 1) as nat,
            )
            &&& after.node_name == settings.node_name
            &&& after.stream_name == settings.stream_name
            &&& after.stream_id == settings.stream_id
        }),
        ({
            let after = settings.without_driver();
            &&& after.selected_driver is None
            &&& after.channel_indices.len() == 0
            &&& after.channel_labels.len() == 0
            &&& after.node_name == settings.node_name
            &&& after.stream_name == settings.stream_name
            &&& after.stream_id == settings.stream_id
        }),
{
    crate::channels::lemma_first_channels(count as nat, c);
}

/// A session needs a name for its node and one for its stream, of which some
/// character is no white space; a combined one also a channel and a source for
/// each, one on an ASIO driver the driver and a channel.
pub proof fn lemma_what_publishers_need(
    single: PublishSettings,
    combined: CombineSettings,
    asio: AsioSettings,
)
    ensures
        single.has_names() <==> some_ink(single.node_name) && some_ink(single.stream_name),
        combined.is_complete() <==> some_ink(combined.node_name) && some_ink(combined.stream_name)
            && combined.channel_count >= 1 && combined.channel_sources.len()
            == combined.channel_count,
        asio.obstacle() is None <==> some_ink(asio.node_name) && some_ink(asio.stream_name)
            && asio.selected_driver is Some && asio.channel_indices.len() >= 1,
        asio.selected_driver matches Some(name) ==> asio.driver_name() == name,
{
    lemma_ink(single.node_name);
    lemma_ink(single.stream_name);
    lemma_ink(combined.node_name);
    lemma_ink(combined.stream_name);
    lemma_ink(asio.node_name);
    lemma_ink(asio.stream_name);
}

/// Whether some character of a text is no white space.
pub open spec fn some_ink(s: Seq<char>) -> bool {
    exists|i: int| 0 <= i < s.len() && !crate::text::is_white_space(#[trigger] s[i])
}

proof fn lemma_ink(s: Seq<char>)
    ensures
        some_ink(s) <==> !is_blank(s),
{
    crate::text::lemma_blank_is_white_space(s);
}

/// A new combined session has the default device for each of its two channels; the
/// names of new sessions end with their number.
pub proof fn lemma_names_of_new_publishers(id: u64, i: int)
    requires
        0 <= i < 2,
    ensures
        CombineSettings::fresh(id).channel_count == 2,
        CombineSettings::fresh(id).channel_sources.len() == 2,
        CombineSettings::fresh(id).channel_sources[i] == (None::<Seq<char>>, false),
        CombineSettings::fresh(id).channel_labels[i] == "Channel "@ + decimal((i + 1) as nat),
        PublishSettings::fresh(id).channel_labels[i] == "Channel "@ + decimal((i + 1) as nat),
        PublishSettings::fresh(id).node_name == "OpenAudio Node "@ + decimal(id as nat),
        CombineSettings::fresh(id).node_name == "OpenAudio Node "@ + decimal(id as nat),
        AsioSettings::fresh(id).node_name == "OpenAudio Node "@ + decimal(id as nat),
        PublishSettings::fresh(id).stream_name == "Stream "@ + decimal(id as nat),
        CombineSettings::fresh(id).stream_name == "Combined Stream "@ + decimal(id as nat),
        AsioSettings::fresh(id).stream_name == "ASIO Stream "@ + decimal(id as nat),
        AsioSettings::fresh(id).channel_labels.len() == 0,
{
    crate::channels::lemma_fitted_labels(Seq::empty(), 2, i);
}

/// Combined sessions have different tags.
pub proof fn lemma_tags_differ(a: u64, b: u64)
    requires
        CombineSettings::fresh(a).session_tag == CombineSettings::fresh(b).session_tag,
    ensures
        a == b,
{
    let n = "combine"@.len() as int;
    assert(CombineSettings::fresh(a).session_tag.skip(n) =~= decimal(a as nat));
    assert(CombineSettings::fresh(b).session_tag.skip(n) =~= decimal(b as nat));
    crate::text::lemma_decimal_injective(a as nat, b as nat);
}

/// The status of a session that starts tells what it captures: an output in
/// loopback or an input, or so many channels of a driver.
pub proof fn lemma_starting_status(single: PublishSettings, asio: AsioSettings)
    ensures
        single.is_loopback ==> single.starting_status() == "Starting loopback capture..."@,
        !single.is_loopback ==> single.starting_status() == "Starting input capture..."@,
        crate::text::starts_with_text(
            asio.starting_status(),
            "Streaming "@ + decimal(asio.channel_indices.len()) + " channel(s)"@,
        ),
        crate::text::contains_text(asio.starting_status(), "from '"@ + asio.driver_name() + "'"@),
        asio.selected_driver is None ==> asio.driver_name().len() == 0,
{
    reveal_strlit(" channel(s) from '");
    reveal_strlit(" channel(s)");
    reveal_strlit(" ");
    reveal_strlit("from '");
    reveal_strlit("'");
    reveal_strlit("...");
    reveal_strlit("'...");
    let count = "Streaming "@ + decimal(asio.channel_indices.len()) + " channel(s)"@;
    let driver = "from '"@ + asio.driver_name() + "'"@;
    let status = asio.starting_status();
    assert(status =~= count + (" "@ + driver + "..."@));
    crate::text::lemma_what_is_found(Seq::empty(), count, " "@ + driver + "..."@);
    assert(status =~= (count + " "@) + driver + "..."@);
    crate::text::lemma_what_is_found(count + " "@, driver, "..."@);
}

/// From one to 64 channels are offered, and each of them can be resized to.
pub proof fn lemma_offered_sizes(settings: CombineSettings, count: usize)
    requires
        LEAST_COMBINED_CHANNELS <= count <= MOST_COMBINED_CHANNELS,
    ensures
        1 <= settings.resized(count).channel_count <= 64,
        LEAST_COMBINED_CHANNELS == 1,
        MOST_COMBINED_CHANNELS == 64,
{
}

} // verus!
