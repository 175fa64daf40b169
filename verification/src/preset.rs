//! Presets: what a saved configuration file holds.

use crate::level::Volume;
use crate::text::{clone_option, clone_texts, option_text, texts};
use vstd::prelude::*;

verus! {

/// The mark of a preset file.
pub const PRESET_FORMAT: &'static str = "OpenAudio preset";

/// The version of the preset format.
pub const PRESET_VERSION: u32 = 1;

/// The name of the access mode with a password.
pub const PASSWORD_PROTECTED: &'static str = "password_protected";

/// The name of the access mode without one.
pub const OPEN_LAN: &'static str = "open_lan";

/// All that a preset file holds.
pub struct PresetFile {
    pub format: String,
    pub version: u32,
    pub publish_sessions: Vec<PublishPreset>,
    pub combine_publish_sessions: Vec<CombinePublishPreset>,
    pub asio_publish_sessions: Vec<AsioPublishPreset>,
    pub subscribe_sessions: Vec<SubscribePreset>,
    pub split_subscribe_sessions: Vec<SplitSubscribePreset>,
    pub browser: BrowserPreset,
}

/// The configuration of a session that publishes one device.
pub struct PublishPreset {
    pub node_name: String,
    pub stream_name: String,
    pub stream_id: u32,
    pub selected_input: Option<String>,
    pub is_loopback: bool,
    pub record: bool,
    pub channel_labels: Vec<String>,
}

/// The configuration of a session that publishes one device per channel.
pub struct CombinePublishPreset {
    pub session_tag: String,
    pub node_name: String,
    pub stream_name: String,
    pub stream_id: u32,
    pub channel_count: usize,
    pub channel_sources: Vec<(Option<String>, bool)>,
    pub record: bool,
    pub channel_labels: Vec<String>,
}

/// The configuration of a session that publishes channels of an ASIO driver.
pub struct AsioPublishPreset {
    pub node_name: String,
    pub stream_name: String,
    pub stream_id: u32,
    pub selected_driver: Option<String>,
    pub channel_indices: Vec<usize>,
    pub channel_labels: Vec<String>,
}

/// The configuration of a session that plays a stream on one device.
pub struct SubscribePreset {
    pub selected_discovered_node_id: Option<String>,
    pub bind_port: String,
    pub selected_output: Option<String>,
    pub volume: Volume,
    pub record: bool,
}

/// The configuration of a session that plays each channel on a device of its
/// own.
pub struct SplitSubscribePreset {
    pub session_tag: String,
    pub selected_discovered_node_id: Option<String>,
    pub bind_port: String,
    pub channel_devices: Vec<Option<String>>,
    pub record: bool,
}

/// The configuration of the browser gateway.
pub struct BrowserPreset {
    pub access_mode: String,
    pub password: String,
}

// ---------------------------------------------------------------------------
// Mathematical counterparts
// ---------------------------------------------------------------------------

#[verifier::ext_equal]
pub struct PublishSettings {
    pub node_name: Seq<char>,
    pub stream_name: Seq<char>,
    pub stream_id: u32,
    pub selected_input: Option<Seq<char>>,
    pub is_loopback: bool,
    pub record: bool,
    pub channel_labels: Seq<Seq<char>>,
}

#[verifier::ext_equal]
pub struct CombineSettings {
    pub session_tag: Seq<char>,
    pub node_name: Seq<char>,
    pub stream_name: Seq<char>,
    pub stream_id: u32,
    pub channel_count: usize,
    pub channel_sources: Seq<(Option<Seq<char>>, bool)>,
    pub record: bool,
    pub channel_labels: Seq<Seq<char>>,
}

#[verifier::ext_equal]
pub struct AsioSettings {
    pub node_name: Seq<char>,
    pub stream_name: Seq<char>,
    pub stream_id: u32,
    pub selected_driver: Option<Seq<char>>,
    pub channel_indices: Seq<usize>,
    pub channel_labels: Seq<Seq<char>>,
}

#[verifier::ext_equal]
pub struct SubscribeSettings {
    pub selected_node: Option<Seq<char>>,
    pub bind_port: Seq<char>,
    pub selected_output: Option<Seq<char>>,
    pub volume: Volume,
    pub record: bool,
}

#[verifier::ext_equal]
pub struct SplitSettings {
    pub session_tag: Seq<char>,
    pub selected_node: Option<Seq<char>>,
    pub bind_port: Seq<char>,
    pub channel_devices: Seq<Option<Seq<char>>>,
    pub record: bool,
}

#[verifier::ext_equal]
pub struct BrowserSettings {
    pub access_mode: Seq<char>,
    pub password: Seq<char>,
}

#[verifier::ext_equal]
pub struct PresetContents {
    pub format: Seq<char>,
    pub version: u32,
    pub publish_sessions: Seq<PublishSettings>,
    pub combine_publish_sessions: Seq<CombineSettings>,
    pub asio_publish_sessions: Seq<AsioSettings>,
    pub subscribe_sessions: Seq<SubscribeSettings>,
    pub split_subscribe_sessions: Seq<SplitSettings>,
    pub browser: BrowserSettings,
}

/// The devices of a list of channel sources.
pub open spec fn sources(list: Seq<(Option<String>, bool)>) -> Seq<(Option<Seq<char>>, bool)> {
    list.map_values(|source: (Option<String>, bool)| (option_text(source.0), source.1))
}

/// The names of a list of optional devices.
pub open spec fn option_texts(list: Seq<Option<String>>) -> Seq<Option<Seq<char>>> {
    list.map_values(|device: Option<String>| option_text(device))
}

impl View for PublishPreset {
    type V = PublishSettings;

    open spec fn view(&self) -> PublishSettings {
        PublishSettings {
            node_name: self.node_name@,
            stream_name: self.stream_name@,
            stream_id: self.stream_id,
            selected_input: option_text(self.selected_input),
            is_loopback: self.is_loopback,
            record: self.record,
            channel_labels: texts(self.channel_labels@),
        }
    }
}

impl View for CombinePublishPreset {
    type V = CombineSettings;

    open spec fn view(&self) -> CombineSettings {
        CombineSettings {
            session_tag: self.session_tag@,
            node_name: self.node_name@,
            stream_name: self.stream_name@,
            stream_id: self.stream_id,
            channel_count: self.channel_count,
            channel_sources: sources(self.channel_sources@),
            record: self.record,
            channel_labels: texts(self.channel_labels@),
        }
    }
}

impl View for AsioPublishPreset {
    type V = AsioSettings;

    open spec fn view(&self) -> AsioSettings {
        AsioSettings {
            node_name: self.node_name@,
            stream_name: self.stream_name@,
            stream_id: self.stream_id,
            selected_driver: option_text(self.selected_driver),
            channel_indices: self.channel_indices@,
            channel_labels: texts(self.channel_labels@),
        }
    }
}

impl View for SubscribePreset {
    type V = SubscribeSettings;

    open spec fn view(&self) -> SubscribeSettings {
        SubscribeSettings {
            selected_node: option_text(self.selected_discovered_node_id),
            bind_port: self.bind_port@,
            selected_output: option_text(self.selected_output),
            volume: self.volume,
            record: self.record,
        }
    }
}

impl View for SplitSubscribePreset {
    type V = SplitSettings;

    open spec fn view(&self) -> SplitSettings {
        SplitSettings {
            session_tag: self.session_tag@,
            selected_node: option_text(self.selected_discovered_node_id),
            bind_port: self.bind_port@,
            channel_devices: option_texts(self.channel_devices@),
            record: self.record,
        }
    }
}

impl View for BrowserPreset {
    type V = BrowserSettings;

    open spec fn view(&self) -> BrowserSettings {
        BrowserSettings { access_mode: self.access_mode@, password: self.password@ }
    }
}

impl View for PresetFile {
    type V = PresetContents;

    open spec fn view(&self) -> PresetContents {
        PresetContents {
            format: self.format@,
            version: self.version,
            publish_sessions: self.publish_sessions@.map_values(|p: PublishPreset| p@),
            combine_publish_sessions: self.combine_publish_sessions@.map_values(
                |p: CombinePublishPreset| p@,
            ),
            asio_publish_sessions: self.asio_publish_sessions@.map_values(|p: AsioPublishPreset| p@),
            subscribe_sessions: self.subscribe_sessions@.map_values(|p: SubscribePreset| p@),
            split_subscribe_sessions: self.split_subscribe_sessions@.map_values(
                |p: SplitSubscribePreset| p@,
            ),
            browser: self.browser@,
        }
    }
}

impl PresetContents {
    /// Whether this is a preset of the format and the version that the
    /// application reads.
    pub open spec fn is_supported(self) -> bool {
        self.format == PRESET_FORMAT@ && self.version == PRESET_VERSION
    }

    /// A preset without sessions.
    pub open spec fn blank() -> PresetContents {
        PresetContents {
            format: PRESET_FORMAT@,
            version: PRESET_VERSION,
            publish_sessions: Seq::empty(),
            combine_publish_sessions: Seq::empty(),
            asio_publish_sessions: Seq::empty(),
            subscribe_sessions: Seq::empty(),
            split_subscribe_sessions: Seq::empty(),
            browser: BrowserSettings {
                access_mode: PASSWORD_PROTECTED@,
                password: Seq::empty(),
            },
        }
    }
}

// ---------------------------------------------------------------------------
// Copies
// ---------------------------------------------------------------------------

/// A copy of a list of optional texts.
pub fn clone_options(list: &Vec<Option<String>>) -> (copy: Vec<Option<String>>)
    ensures
        copy@ == list@,
{
    let mut copy: Vec<Option<String>> = Vec::new();
    let mut i: usize = 0;
    while i < list.len()
        invariant
            i <= list@.len(),
            copy@ =~= list@.take(i as int),
        decreases list.len() - i,
    {
        copy.push(clone_option(&list[i]));
        i = i + 1;
    }
    copy
}

/// A copy of a list of channel sources.
pub fn clone_sources(list: &Vec<(Option<String>, bool)>) -> (copy: Vec<(Option<String>, bool)>)
    ensures
        copy@ == list@,
{
    let mut copy: Vec<(Option<String>, bool)> = Vec::new();
    let mut i: usize = 0;
    while i < list.len()
        invariant
            i <= list@.len(),
            copy@ =~= list@.take(i as int),
        decreases list.len() - i,
    {
        copy.push((clone_option(&list[i].0), list[i].1));
        i = i + 1;
    }
    copy
}

/// A copy of a list of channels.
pub fn clone_indices(list: &Vec<usize>) -> (copy: Vec<usize>)
    ensures
        copy@ == list@,
{
    let mut copy: Vec<usize> = Vec::new();
    let mut i: usize = 0;
    while i < list.len()
        invariant
            i <= list@.len(),
            copy@ =~= list@.take(i as int),
        decreases list.len() - i,
    {
        copy.push(list[i]);
        i = i + 1;
    }
    copy
}

impl PublishPreset {
    /// A copy.
    pub fn duplicate(&self) -> (copy: Self)
        ensures
            copy@ == self@,
    {
        PublishPreset {
            node_name: self.node_name.clone(),
            stream_name: self.stream_name.clone(),
            stream_id: self.stream_id,
            selected_input: clone_option(&self.selected_input),
            is_loopback: self.is_loopback,
            record: self.record,
            channel_labels: clone_texts(&self.channel_labels),
        }
    }
}

impl CombinePublishPreset {
    /// A copy.
    pub fn duplicate(&self) -> (copy: Self)
        ensures
            copy@ == self@,
    {
        CombinePublishPreset {
            session_tag: self.session_tag.clone(),
            node_name: self.node_name.clone(),
            stream_name: self.stream_name.clone(),
            stream_id: self.stream_id,
            channel_count: self.channel_count,
            channel_sources: clone_sources(&self.channel_sources),
            record: self.record,
            channel_labels: clone_texts(&self.channel_labels),
        }
    }
}

impl AsioPublishPreset {
    /// A copy.
    pub fn duplicate(&self) -> (copy: Self)
        ensures
            copy@ == self@,
    {
        AsioPublishPreset {
            node_name: self.node_name.clone(),
            stream_name: self.stream_name.clone(),
            stream_id: self.stream_id,
            selected_driver: clone_option(&self.selected_driver),
            channel_indices: clone_indices(&self.channel_indices),
            channel_labels: clone_texts(&self.channel_labels),
        }
    }
}

impl SubscribePreset {
    /// A copy.
    pub fn duplicate(&self) -> (copy: Self)
        ensures
            copy@ == self@,
    {
        SubscribePreset {
            selected_discovered_node_id: clone_option(&self.selected_discovered_node_id),
            bind_port: self.bind_port.clone(),
            selected_output: clone_option(&self.selected_output),
            volume: self.volume,
            record: self.record,
        }
    }
}

impl SplitSubscribePreset {
    /// A copy.
    pub fn duplicate(&self) -> (copy: Self)
        ensures
            copy@ == self@,
    {
        SplitSubscribePreset {
            session_tag: self.session_tag.clone(),
            selected_discovered_node_id: clone_option(&self.selected_discovered_node_id),
            bind_port: self.bind_port.clone(),
            channel_devices: clone_options(&self.channel_devices),
            record: self.record,
        }
    }
}

impl Default for PresetFile {
    /// A preset without sessions.
    fn default() -> (preset: Self)
        ensures
            preset@ == PresetContents::blank(),
    {
        let preset = PresetFile {
            format: PRESET_FORMAT.to_string(),
            version: PRESET_VERSION,
            publish_sessions: Vec::new(),
            combine_publish_sessions: Vec::new(),
            asio_publish_sessions: Vec::new(),
            subscribe_sessions: Vec::new(),
            split_subscribe_sessions: Vec::new(),
            browser: BrowserPreset {
                access_mode: PASSWORD_PROTECTED.to_string(),
                password: String::new(),
            },
        };
        assert(preset@ =~= PresetContents::blank());
        preset
    }
}

/// The view of a configuration tells all of it.
pub proof fn lemma_publish_view_is_complete(a: PublishPreset, b: PublishPreset)
    requires
        a@ == b@,
    ensures
        a.node_name@ == b.node_name@,
        a.stream_name@ == b.stream_name@,
        a.stream_id == b.stream_id,
        option_text(a.selected_input) == option_text(b.selected_input),
        a.is_loopback == b.is_loopback,
        a.record == b.record,
        texts(a.channel_labels@) == texts(b.channel_labels@),
{
}

/// The view of a configuration tells all of it.
pub proof fn lemma_combine_view_is_complete(
    a: CombinePublishPreset,
    b: CombinePublishPreset,
    i: int,
)
    requires
        a@ == b@,
        0 <= i < a.channel_sources@.len(),
    ensures
        a.session_tag@ == b.session_tag@,
        a.node_name@ == b.node_name@,
        a.stream_name@ == b.stream_name@,
        a.stream_id == b.stream_id,
        a.channel_count == b.channel_count,
        a.channel_sources@.len() == b.channel_sources@.len(),
        option_text(a.channel_sources@[i].0) == option_text(b.channel_sources@[i].0),
        a.channel_sources@[i].1 == b.channel_sources@[i].1,
        a.record == b.record,
        texts(a.channel_labels@) == texts(b.channel_labels@),
{
    assert(sources(a.channel_sources@).len() == sources(b.channel_sources@).len());
    assert(sources(a.channel_sources@)[i] == sources(b.channel_sources@)[i]);
}

/// The view of a configuration tells all of it.
pub proof fn lemma_asio_view_is_complete(a: AsioPublishPreset, b: AsioPublishPreset)
    requires
        a@ == b@,
    ensures
        a.node_name@ == b.node_name@,
        a.stream_name@ == b.stream_name@,
        a.stream_id == b.stream_id,
        option_text(a.selected_driver) == option_text(b.selected_driver),
        a.channel_indices@ == b.channel_indices@,
        texts(a.channel_labels@) == texts(b.channel_labels@),
{
}

/// The view of a configuration tells all of it.
pub proof fn lemma_subscribe_view_is_complete(a: SubscribePreset, b: SubscribePreset)
    requires
        a@ == b@,
    ensures
        option_text(a.selected_discovered_node_id) == option_text(b.selected_discovered_node_id),
        a.bind_port@ == b.bind_port@,
        option_text(a.selected_output) == option_text(b.selected_output),
        a.volume == b.volume,
        a.record == b.record,
{
}

/// The view of a configuration tells all of it.
pub proof fn lemma_split_view_is_complete(
    a: SplitSubscribePreset,
    b: SplitSubscribePreset,
    i: int,
)
    requires
        a@ == b@,
        0 <= i < a.channel_devices@.len(),
    ensures
        a.session_tag@ == b.session_tag@,
        option_text(a.selected_discovered_node_id) == option_text(b.selected_discovered_node_id),
        a.bind_port@ == b.bind_port@,
        a.channel_devices@.len() == b.channel_devices@.len(),
        option_text(a.channel_devices@[i]) == option_text(b.channel_devices@[i]),
        a.record == b.record,
{
    assert(option_texts(a.channel_devices@).len() == option_texts(b.channel_devices@).len());
    assert(option_texts(a.channel_devices@)[i] == option_texts(b.channel_devices@)[i]);
}

/// The view of a preset tells all of it.
pub proof fn lemma_preset_view_is_complete(a: PresetFile, b: PresetFile, i: int)
    requires
        a@ == b@,
        i >= 0,
    ensures
        a.format@ == b.format@,
        a.version == b.version,
        a.publish_sessions@.len() == b.publish_sessions@.len(),
        a.combine_publish_sessions@.len() == b.combine_publish_sessions@.len(),
        a.asio_publish_sessions@.len() == b.asio_publish_sessions@.len(),
        a.subscribe_sessions@.len() == b.subscribe_sessions@.len(),
        a.split_subscribe_sessions@.len() == b.split_subscribe_sessions@.len(),
        i < a.publish_sessions@.len() ==> a.publish_sessions@[i]@ == b.publish_sessions@[i]@,
        i < a.combine_publish_sessions@.len() ==> a.combine_publish_sessions@[i]@
            == b.combine_publish_sessions@[i]@,
        i < a.asio_publish_sessions@.len() ==> a.asio_publish_sessions@[i]@
            == b.asio_publish_sessions@[i]@,
        i < a.subscribe_sessions@.len() ==> a.subscribe_sessions@[i]@ == b.subscribe_sessions@[i]@,
        i < a.split_subscribe_sessions@.len() ==> a.split_subscribe_sessions@[i]@
            == b.split_subscribe_sessions@[i]@,
        a.browser.access_mode@ == b.browser.access_mode@,
        a.browser.password@ == b.browser.password@,
{
    assert(a@.publish_sessions.len() == a.publish_sessions@.len());
    assert(b@.publish_sessions.len() == b.publish_sessions@.len());
    assert(a@.combine_publish_sessions.len() == a.combine_publish_sessions@.len());
    assert(b@.combine_publish_sessions.len() == b.combine_publish_sessions@.len());
    assert(a@.asio_publish_sessions.len() == a.asio_publish_sessions@.len());
    assert(b@.asio_publish_sessions.len() == b.asio_publish_sessions@.len());
    assert(a@.subscribe_sessions.len() == a.subscribe_sessions@.len());
    assert(b@.subscribe_sessions.len() == b.subscribe_sessions@.len());
    assert(a@.split_subscribe_sessions.len() == a.split_subscribe_sessions@.len());
    assert(b@.split_subscribe_sessions.len() == b.split_subscribe_sessions@.len());
    assert(a@.browser == b@.browser);
    if i < a.publish_sessions@.len() {
        assert(a@.publish_sessions[i] == a.publish_sessions@[i]@);
        assert(b@.publish_sessions[i] == b.publish_sessions@[i]@);
    }
    if i < a.combine_publish_sessions@.len() {
        assert(a@.combine_publish_sessions[i] == a.combine_publish_sessions@[i]@);
        assert(b@.combine_publish_sessions[i] == b.combine_publish_sessions@[i]@);
    }
    if i < a.asio_publish_sessions@.len() {
        assert(a@.asio_publish_sessions[i] == a.asio_publish_sessions@[i]@);
        assert(b@.asio_publish_sessions[i] == b.asio_publish_sessions@[i]@);
    }
    if i < a.subscribe_sessions@.len() {
        assert(a@.subscribe_sessions[i] == a.subscribe_sessions@[i]@);
        assert(b@.subscribe_sessions[i] == b.subscribe_sessions@[i]@);
    }
    if i < a.split_subscribe_sessions@.len() {
        assert(a@.split_subscribe_sessions[i] == a.split_subscribe_sessions@[i]@);
        assert(b@.split_subscribe_sessions[i] == b.split_subscribe_sessions@[i]@);
    }
}

} // verus!
