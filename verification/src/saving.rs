//! Saving the sessions to a preset and loading them again.

use crate::app::OpenAudioApp;
use crate::browser::BrowserAccessMode;
use crate::control::{any_running, load_sessions, nth_id, some_running, ControlState, Session};
use crate::devices::{lookup_driver, selected_driver, AsioDriverInfo};
use crate::preset::{
    AsioPublishPreset, AsioSettings, BrowserSettings, CombinePublishPreset, CombineSettings,
    PresetContents, PresetFile, PublishPreset, PublishSettings, SplitSettings,
    SplitSubscribePreset, SubscribePreset, SubscribeSettings, PRESET_FORMAT, PRESET_VERSION,
};
use crate::publish::AsioPublishSetup;
use crate::text::{join2, join3, option_text, same_text};
use vstd::prelude::*;

verus! {

pub const PRESET_UNSUPPORTED: &'static str = "unsupported OpenAudio preset format or version";

pub const PRESET_BLOCKED: &'static str = "stop all active audio sessions before loading a preset";

pub const SAVE_FAILED: &'static str = "Could not save preset: ";

pub const LOAD_FAILED: &'static str = "Could not load preset: ";

// ---------------------------------------------------------------------------
// What is saved
// ---------------------------------------------------------------------------

/// The settings of sessions that publish one device.
pub open spec fn publish_settings(sessions: Seq<Session<PublishPreset>>) -> Seq<PublishSettings> {
    sessions.map_values(|s: Session<PublishPreset>| s.config@)
}

/// The settings of sessions that publish one device per channel.
pub open spec fn combine_settings(sessions: Seq<Session<CombinePublishPreset>>) -> Seq<
    CombineSettings,
> {
    sessions.map_values(|s: Session<CombinePublishPreset>| s.config@)
}

/// The settings of sessions that publish channels of an ASIO driver.
pub open spec fn asio_settings(sessions: Seq<Session<AsioPublishSetup>>) -> Seq<AsioSettings> {
    sessions.map_values(|s: Session<AsioPublishSetup>| s.config.preset@)
}

/// The settings of sessions that play a stream on one device.
pub open spec fn subscribe_settings(sessions: Seq<Session<SubscribePreset>>) -> Seq<
    SubscribeSettings,
> {
    sessions.map_values(|s: Session<SubscribePreset>| s.config@)
}

/// The settings of sessions that play each channel on a device of its own.
pub open spec fn split_settings(sessions: Seq<Session<SplitSubscribePreset>>) -> Seq<
    SplitSettings,
> {
    sessions.map_values(|s: Session<SplitSubscribePreset>| s.config@)
}

impl SubscribeSettings {
    /// The settings with the volume brought into its range.
    pub open spec fn accepted(self) -> SubscribeSettings {
        SubscribeSettings { volume: self.volume.accepted(), ..self }
    }
}

impl PresetContents {
    /// What is left of a preset once it was loaded: volumes are in their range
    /// and the access mode is a known one.
    pub open spec fn accepted(self) -> PresetContents {
        PresetContents {
            subscribe_sessions: self.subscribe_sessions.map_values(
                |s: SubscribeSettings| s.accepted(),
            ),
            browser: BrowserSettings {
                access_mode: BrowserAccessMode::named(self.browser.access_mode).name(),
                ..self.browser
            },
            ..self
        }
    }

    /// How many sessions a preset holds.
    pub open spec fn session_count(self) -> nat {
        self.publish_sessions.len() + self.combine_publish_sessions.len()
            + self.asio_publish_sessions.len() + self.subscribe_sessions.len()
            + self.split_subscribe_sessions.len()
    }
}

impl OpenAudioApp {
    /// The preset that the application saves.
    pub open spec fn contents(self) -> PresetContents {
        PresetContents {
            format: PRESET_FORMAT@,
            version: PRESET_VERSION,
            publish_sessions: publish_settings(self.publish_sessions@),
            combine_publish_sessions: combine_settings(self.combine_publish_sessions@),
            asio_publish_sessions: asio_settings(self.asio_publish_sessions@),
            subscribe_sessions: subscribe_settings(self.subscribe_sessions@),
            split_subscribe_sessions: split_settings(self.split_subscribe_sessions@),
            browser: self.browser@.settings(),
        }
    }
}

fn save_publish(sessions: &Vec<Session<PublishPreset>>) -> (presets: Vec<PublishPreset>)
    ensures
        presets@.map_values(|p: PublishPreset| p@) == publish_settings(sessions@),
{
    let mut presets: Vec<PublishPreset> = Vec::new();
    let mut i: usize = 0;
    while i < sessions.len()
        invariant
            i <= sessions@.len(),
            presets@.len() == i,
            forall|k: int| 0 <= k < i ==> (#[trigger] presets@[k])@ == sessions@[k].config@,
        decreases sessions.len() - i,
    {
        presets.push(sessions[i].config.duplicate());
        i = i + 1;
    }
    assert(presets@.map_values(|p: PublishPreset| p@) =~= publish_settings(sessions@));
    presets
}

fn save_combine(sessions: &Vec<Session<CombinePublishPreset>>) -> (presets: Vec<
    CombinePublishPreset,
>)
    ensures
        presets@.map_values(|p: CombinePublishPreset| p@) == combine_settings(sessions@),
{
    let mut presets: Vec<CombinePublishPreset> = Vec::new();
    let mut i: usize = 0;
    while i < sessions.len()
        invariant
            i <= sessions@.len(),
            presets@.len() == i,
            forall|k: int| 0 <= k < i ==> (#[trigger] presets@[k])@ == sessions@[k].config@,
        decreases sessions.len() - i,
    {
        presets.push(sessions[i].config.duplicate());
        i = i + 1;
    }
    assert(presets@.map_values(|p: CombinePublishPreset| p@) =~= combine_settings(sessions@));
    presets
}

fn save_asio(sessions: &Vec<Session<AsioPublishSetup>>) -> (presets: Vec<AsioPublishPreset>)
    ensures
        presets@.map_values(|p: AsioPublishPreset| p@) == asio_settings(sessions@),
{
    let mut presets: Vec<AsioPublishPreset> = Vec::new();
    let mut i: usize = 0;
    while i < sessions.len()
        invariant
            i <= sessions@.len(),
            presets@.len() == i,
            forall|k: int| 0 <= k < i ==> (#[trigger] presets@[k])@ == sessions@[k].config.preset@,
        decreases sessions.len() - i,
    {
        presets.push(sessions[i].config.preset.duplicate());
        i = i + 1;
    }
    assert(presets@.map_values(|p: AsioPublishPreset| p@) =~= asio_settings(sessions@));
    presets
}

fn save_subscribe(sessions: &Vec<Session<SubscribePreset>>) -> (presets: Vec<SubscribePreset>)
    ensures
        presets@.map_values(|p: SubscribePreset| p@) == subscribe_settings(sessions@),
{
    let mut presets: Vec<SubscribePreset> = Vec::new();
    let mut i: usize = 0;
    while i < sessions.len()
        invariant
            i <= sessions@.len(),
            presets@.len() == i,
            forall|k: int| 0 <= k < i ==> (#[trigger] presets@[k])@ == sessions@[k].config@,
        decreases sessions.len() - i,
    {
        presets.push(sessions[i].config.duplicate());
        i = i + 1;
    }
    assert(presets@.map_values(|p: SubscribePreset| p@) =~= subscribe_settings(sessions@));
    presets
}

fn save_split(sessions: &Vec<Session<SplitSubscribePreset>>) -> (presets: Vec<SplitSubscribePreset>)
    ensures
        presets@.map_values(|p: SplitSubscribePreset| p@) == split_settings(sessions@),
{
    let mut presets: Vec<SplitSubscribePreset> = Vec::new();
    let mut i: usize = 0;
    while i < sessions.len()
        invariant
            i <= sessions@.len(),
            presets@.len() == i,
            forall|k: int| 0 <= k < i ==> (#[trigger] presets@[k])@ == sessions@[k].config@,
        decreases sessions.len() - i,
    {
        presets.push(sessions[i].config.duplicate());
        i = i + 1;
    }
    assert(presets@.map_values(|p: SplitSubscribePreset| p@) =~= split_settings(sessions@));
    presets
}

// ---------------------------------------------------------------------------
// What is loaded
// ---------------------------------------------------------------------------

/// The input channels of a driver that a preset names, or zero where the driver
/// is not there.
pub open spec fn driver_inputs(drivers: Seq<AsioDriverInfo>, driver: Option<Seq<char>>) -> usize {
    match selected_driver(drivers, driver) {
        Some(found) => found.max_input_channels,
        None => 0,
    }
}

/// Completes the presets of ASIO publishers with what their drivers have.
fn asio_setups(presets: Vec<AsioPublishPreset>, drivers: &Vec<AsioDriverInfo>) -> (setups: Vec<
    AsioPublishSetup,
>)
    ensures
        setups@.len() == presets@.len(),
        forall|k: int|
            0 <= k < setups@.len() ==> {
                &&& (#[trigger] setups@[k]).preset == presets@[k]
                &&& setups@[k].driver_channel_count == driver_inputs(
                    drivers@,
                    presets@[k]@.selected_driver,
                )
            },
{
    let mut setups: Vec<AsioPublishSetup> = Vec::new();
    for preset in items: presets
        invariant
            items.seq() == presets@,
            setups@.len() == items.index(),
            forall|k: int|
                0 <= k < setups@.len() ==> {
                    &&& (#[trigger] setups@[k]).preset == presets@[k]
                    &&& setups@[k].driver_channel_count == driver_inputs(
                        drivers@,
                        presets@[k]@.selected_driver,
                    )
                },
    {
        let driver_channel_count: usize = match lookup_driver(drivers, &preset.selected_driver) {
            Some(driver) => driver.max_input_channels,
            None => 0,
        };
        setups.push(AsioPublishSetup { preset, driver_channel_count });
    }
    setups
}

/// Brings the volumes of presets into their range.
fn accept_volumes(presets: Vec<SubscribePreset>) -> (accepted: Vec<SubscribePreset>)
    ensures
        accepted@.len() == presets@.len(),
        forall|k: int|
            0 <= k < accepted@.len() ==> (#[trigger] accepted@[k])@ == presets@[k]@.accepted(),
{
    let mut accepted: Vec<SubscribePreset> = Vec::new();
    for preset in items: presets
        invariant
            items.seq() == presets@,
            accepted@.len() == items.index(),
            forall|k: int|
                0 <= k < accepted@.len() ==> (#[trigger] accepted@[k])@ == presets@[k]@.accepted(),
    {
        let mut preset = preset;
        preset.volume = preset.volume.accept();
        accepted.push(preset);
    }
    accepted
}

/// Whether the sessions of some kind are numbered from `next` on and idle.
pub open spec fn freshly_numbered<C>(sessions: Seq<Session<C>>, next: u64, now: u64) -> bool {
    forall|k: int|
        0 <= k < sessions.len() ==> (#[trigger] sessions[k]).id == nth_id(next, k as nat)
            && sessions[k].control@ == ControlState::idle(now)
}

/// The state after a preset was loaded.
pub open spec fn preset_loaded(
    before: OpenAudioApp,
    after: OpenAudioApp,
    preset: PresetContents,
    now: u64,
) -> bool {
    let combine_from = nth_id(before.next_id, preset.publish_sessions.len());
    let asio_from = nth_id(combine_from, preset.combine_publish_sessions.len());
    let subscribe_from = nth_id(asio_from, preset.asio_publish_sessions.len());
    let split_from = nth_id(subscribe_from, preset.subscribe_sessions.len());
    &&& after.contents() == preset.accepted()
    &&& after.next_id == nth_id(split_from, preset.split_subscribe_sessions.len())
    &&& freshly_numbered(after.publish_sessions@, before.next_id, now)
    &&& freshly_numbered(after.combine_publish_sessions@, combine_from, now)
    &&& freshly_numbered(after.asio_publish_sessions@, asio_from, now)
    &&& freshly_numbered(after.subscribe_sessions@, subscribe_from, now)
    &&& freshly_numbered(after.split_subscribe_sessions@, split_from, now)
    &&& forall|k: int|
        0 <= k < after.asio_publish_sessions@.len() ==> (
        #[trigger] after.asio_publish_sessions@[k]).config.driver_channel_count == driver_inputs(
            before.asio_drivers@,
            after.asio_publish_sessions@[k].config.preset@.selected_driver,
        )
    &&& after.browser@ == before.browser@.configured(preset.browser)
    &&& after == (OpenAudioApp {
        next_id: after.next_id,
        publish_sessions: after.publish_sessions,
        combine_publish_sessions: after.combine_publish_sessions,
        asio_publish_sessions: after.asio_publish_sessions,
        subscribe_sessions: after.subscribe_sessions,
        split_subscribe_sessions: after.split_subscribe_sessions,
        browser: after.browser,
        ..before
    })
}

/// Why a preset cannot be loaded.
pub open spec fn load_error(app: OpenAudioApp, preset: PresetContents) -> Option<Seq<char>> {
    if !preset.is_supported() {
        Some(PRESET_UNSUPPORTED@)
    } else if app.is_active() {
        Some(PRESET_BLOCKED@)
    } else {
        None
    }
}

impl OpenAudioApp {
    /// The preset that holds the sessions as they are configured.
    pub fn to_preset(&self) -> (preset: PresetFile)
        ensures
            preset@ == self.contents(),
    {
        let preset = PresetFile {
            format: PRESET_FORMAT.to_string(),
            version: PRESET_VERSION,
            publish_sessions: save_publish(&self.publish_sessions),
            combine_publish_sessions: save_combine(&self.combine_publish_sessions),
            asio_publish_sessions: save_asio(&self.asio_publish_sessions),
            subscribe_sessions: save_subscribe(&self.subscribe_sessions),
            split_subscribe_sessions: save_split(&self.split_subscribe_sessions),
            browser: self.browser.to_preset(),
        };
        assert(preset@ =~= self.contents());
        preset
    }

    /// Replaces the sessions by those of a preset, unless the preset is not
    /// supported or a session runs.
    pub fn apply_preset(&mut self, preset: PresetFile, now: u64) -> (result: Result<(), String>)
        ensures
            match load_error(*old(self), preset@) {
                Some(message) => {
                    &&& result matches Err(text)
                    &&& text@ == message
                    &&& *final(self) == *old(self)
                },
                None => {
                    &&& result is Ok
                    &&& preset_loaded(*old(self), *final(self), preset@, now)
                    &&& forall|k: int, d: int|
                        #![trigger final(self).asio_publish_sessions@[k], old(self).asio_drivers@[d]]
                        0 <= k < preset@.asio_publish_sessions.len() && 0 <= d
                            < old(self).asio_drivers@.len()
                            && preset@.asio_publish_sessions[k].selected_driver == Some(
                            old(self).asio_drivers@[d].name@,
                        ) && (forall|j: int|
                            0 <= j < d ==> (#[trigger] old(self).asio_drivers@[j]).name@
                                != old(self).asio_drivers@[d].name@)
                            ==> final(self).asio_publish_sessions@[k].config.driver_channel_count
                            == old(self).asio_drivers@[d].max_input_channels
                },
            },
    {
        if !same_text(preset.format.as_str(), PRESET_FORMAT) || preset.version != PRESET_VERSION {
            return Err(PRESET_UNSUPPORTED.to_string());
        }
        if any_running(&self.publish_sessions) || any_running(&self.combine_publish_sessions)
            || any_running(&self.asio_publish_sessions) || any_running(&self.subscribe_sessions)
            || any_running(&self.split_subscribe_sessions) {
            return Err(PRESET_BLOCKED.to_string());
        }
        let ghost loaded = preset@;
        let mut next_id: u64 = self.next_id;
        let publish_sessions = load_sessions(preset.publish_sessions, &mut next_id, now);
        let combine_sessions = load_sessions(preset.combine_publish_sessions, &mut next_id, now);
        let setups = asio_setups(preset.asio_publish_sessions, &self.asio_drivers);
        let asio_sessions = load_sessions(setups, &mut next_id, now);
        let playing = accept_volumes(preset.subscribe_sessions);
        let subscribe_sessions = load_sessions(playing, &mut next_id, now);
        let split_sessions = load_sessions(preset.split_subscribe_sessions, &mut next_id, now);
        self.next_id = next_id;
        self.publish_sessions = publish_sessions;
        self.combine_publish_sessions = combine_sessions;
        self.asio_publish_sessions = asio_sessions;
        self.subscribe_sessions = subscribe_sessions;
        self.split_subscribe_sessions = split_sessions;
        self.browser.apply_preset(preset.browser);
        proof {
            let wanted = loaded.accepted();
            assert(publish_settings(self.publish_sessions@) =~= wanted.publish_sessions);
            assert(combine_settings(self.combine_publish_sessions@)
                =~= wanted.combine_publish_sessions);
            assert(asio_settings(self.asio_publish_sessions@) =~= wanted.asio_publish_sessions);
            assert(subscribe_settings(self.subscribe_sessions@) =~= wanted.subscribe_sessions);
            assert(split_settings(self.split_subscribe_sessions@)
                =~= wanted.split_subscribe_sessions);
            assert(self.contents() =~= wanted);
            assert forall|k: int, d: int|
                #![trigger self.asio_publish_sessions@[k], old(self).asio_drivers@[d]]
                0 <= k < loaded.asio_publish_sessions.len() && 0 <= d
                    < old(self).asio_drivers@.len()
                    && loaded.asio_publish_sessions[k].selected_driver == Some(
                    old(self).asio_drivers@[d].name@,
                ) && (forall|j: int|
                    0 <= j < d ==> (#[trigger] old(self).asio_drivers@[j]).name@
                        != old(self).asio_drivers@[d].name@)
                implies self.asio_publish_sessions@[k].config.driver_channel_count
                == old(self).asio_drivers@[d].max_input_channels by {
                lemma_loaded_publisher_has_the_inputs_of_its_driver(
                    *old(self),
                    *self,
                    loaded,
                    now,
                    k,
                    d,
                );
            }
        }
        Ok(())
    }

    /// Takes in whether a preset was written to a file.
    pub fn save_preset(&mut self, path: &str, result: &Result<(), String>)
        ensures
            *final(self) == (OpenAudioApp { banners: final(self).banners, ..*old(self) }),
            match *result {
                Ok(()) => {
                    &&& option_text(final(self).banners.info) == Some(
                        "Preset saved to "@ + path@ + "."@,
                    )
                    &&& final(self).banners.error == old(self).banners.error
                },
                Err(error) => {
                    &&& option_text(final(self).banners.error) == Some(SAVE_FAILED@ + error@)
                    &&& final(self).banners.info == old(self).banners.info
                },
            },
    {
        match result {
            Ok(()) => {
                self.banners.info = Some(join3("Preset saved to ", path, "."));
            },
            Err(error) => {
                self.banners.error = Some(join2(SAVE_FAILED, error.as_str()));
            },
        }
    }

    /// Takes in a preset that was read from a file, or why none was.
    pub fn load_preset(&mut self, path: &str, read: Result<PresetFile, String>, now: u64)
        ensures
            match read {
                Err(error) => {
                    &&& *final(self) == (OpenAudioApp {
                        banners: final(self).banners,
                        ..*old(self)
                    })
                    &&& option_text(final(self).banners.error) == Some(LOAD_FAILED@ + error@)
                    &&& final(self).banners.info == old(self).banners.info
                },
                Ok(preset) => match load_error(*old(self), preset@) {
                    Some(message) => {
                        &&& *final(self) == (OpenAudioApp {
                            banners: final(self).banners,
                            ..*old(self)
                        })
                        &&& option_text(final(self).banners.error) == Some(LOAD_FAILED@ + message)
                        &&& final(self).banners.info == old(self).banners.info
                    },
                    None => {
                        &&& preset_loaded(
                            *old(self),
                            OpenAudioApp { banners: old(self).banners, ..*final(self) },
                            preset@,
                            now,
                        )
                        &&& option_text(final(self).banners.info) == Some(
                            "Preset loaded from "@ + path@ + "."@,
                        )
                        &&& final(self).banners.error == old(self).banners.error
                    },
                },
            },
    {
        let result = match read {
            Ok(preset) => self.apply_preset(preset, now),
            Err(error) => Err(error),
        };
        let ghost middle = *self;
        match result {
            Ok(()) => {
                self.banners.info = Some(join3("Preset loaded from ", path, "."));
            },
            Err(error) => {
                self.banners.error = Some(join2(LOAD_FAILED, error.as_str()));
            },
        }
        proof {
            if read is Ok && load_error(*old(self), read->Ok_0@) is None {
                assert(OpenAudioApp { banners: old(self).banners, ..*self } == middle);
            }
        }
    }
}

// ---------------------------------------------------------------------------
// Laws
// ---------------------------------------------------------------------------

/// Loading a preset is final: what was accepted once is accepted unchanged.
pub proof fn lemma_accepting_is_final(preset: PresetContents)
    ensures
        preset.accepted().accepted() == preset.accepted(),
        preset.is_supported() ==> preset.accepted().is_supported(),
        preset.accepted().session_count() == preset.session_count(),
{
    let once = preset.accepted();
    let twice = once.accepted();
    assert forall|i: int| 0 <= i < once.subscribe_sessions.len() implies
        twice.subscribe_sessions[i] == once.subscribe_sessions[i] by {
        preset.subscribe_sessions[i].volume.lemma_accepted_in_range();
    }
    assert(twice.subscribe_sessions =~= once.subscribe_sessions);
    crate::browser::lemma_mode_name_round_trip(
        BrowserAccessMode::named(preset.browser.access_mode),
    );
}

/// What the application saves can be loaded while nothing runs, and brings back
/// all sessions as they were configured, in the same order, as long as their
/// volumes are in their range.
pub proof fn lemma_saved_preset_comes_back(
    saved: OpenAudioApp,
    before: OpenAudioApp,
    after: OpenAudioApp,
    now: u64,
)
    requires
        forall|i: int|
            0 <= i < saved.subscribe_sessions@.len() ==> (
            #[trigger] saved.subscribe_sessions@[i]).config.volume.accepted()
                == saved.subscribe_sessions@[i].config.volume,
        preset_loaded(before, after, saved.contents(), now),
    ensures
        !before.is_active() ==> load_error(before, saved.contents()) is None,
        after.contents() == saved.contents(),
        after.browser.access_mode == saved.browser.access_mode,
        after.browser.password@ == saved.browser.password@,
{
    let contents = saved.contents();
    assert forall|i: int| 0 <= i < contents.subscribe_sessions.len() implies
        contents.accepted().subscribe_sessions[i] == contents.subscribe_sessions[i] by {
        assert(saved.subscribe_sessions@[i].config.volume.accepted()
            == saved.subscribe_sessions@[i].config.volume);
    }
    assert(contents.accepted().subscribe_sessions =~= contents.subscribe_sessions);
    crate::browser::lemma_settings_round_trip(saved.browser@, before.browser@);
    assert(contents.accepted() =~= contents);
}

/// After a preset was loaded no session runs, and no two sessions share an
/// identity as long as the numbers reach.
pub proof fn lemma_loaded_sessions_are_numbered(
    before: OpenAudioApp,
    after: OpenAudioApp,
    preset: PresetContents,
    now: u64,
)
    requires
        preset_loaded(before, after, preset, now),
    ensures
        !after.is_active(),
        before.next_id + preset.session_count() <= u64::MAX ==> after.well_numbered(),
        before.next_id + preset.session_count() <= u64::MAX ==> after.next_id == before.next_id
            + preset.session_count(),
{
    let c = after.contents();
    assert(c.publish_sessions.len() == preset.publish_sessions.len());
    assert(c.combine_publish_sessions.len() == preset.combine_publish_sessions.len());
    assert(c.asio_publish_sessions.len() == preset.asio_publish_sessions.len());
    assert(c.subscribe_sessions.len() == preset.subscribe_sessions.len());
    assert(c.split_subscribe_sessions.len() == preset.split_subscribe_sessions.len());
    let all = after.all_ids();
    assert(all.len() == preset.session_count());
    if before.next_id + preset.session_count() <= u64::MAX {
        assert forall|i: int| 0 <= i < all.len() implies #[trigger] all[i] == before.next_id
            + i by {
            let a = after.publish_sessions@.len() as int;
            let b = a + after.combine_publish_sessions@.len();
            let d = b + after.asio_publish_sessions@.len();
            let e = d + after.subscribe_sessions@.len();
            if i < a {
                assert(after.publish_sessions@[i].id == nth_id(before.next_id, i as nat));
            } else if i < b {
                assert(all[i] == after.combine_publish_sessions@[i - a].id);
            } else if i < d {
                assert(all[i] == after.asio_publish_sessions@[i - b].id);
            } else if i < e {
                assert(all[i] == after.subscribe_sessions@[i - d].id);
            } else {
                assert(all[i] == after.split_subscribe_sessions@[i - e].id);
            }
        }
    }
}

/// While a session runs no preset can be loaded.
pub proof fn lemma_running_session_blocks_loading(app: OpenAudioApp, preset: PresetContents)
    requires
        app.is_active(),
    ensures
        load_error(app, preset) is Some,
{
}

/// A loaded publisher can select among the inputs of its driver, as if the driver
/// had been selected by hand: the first installed one of that name.  Where no such
/// driver is installed there is nothing to select.
pub proof fn lemma_loaded_publisher_has_the_inputs_of_its_driver(
    before: OpenAudioApp,
    after: OpenAudioApp,
    preset: PresetContents,
    now: u64,
    k: int,
    d: int,
)
    requires
        preset_loaded(before, after, preset, now),
        0 <= k < preset.asio_publish_sessions.len(),
    ensures
        after.asio_publish_sessions@.len() == preset.asio_publish_sessions.len(),
        0 <= d < before.asio_drivers@.len() && preset.asio_publish_sessions[k].selected_driver
            == Some(before.asio_drivers@[d].name@) && (forall|j: int|
            0 <= j < d ==> (#[trigger] before.asio_drivers@[j]).name@
                != before.asio_drivers@[d].name@)
            ==> after.asio_publish_sessions@[k].config.driver_channel_count
            == before.asio_drivers@[d].max_input_channels
            && after.asio_publish_sessions@[k].config.driver_channel_count
            == preset.asio_publish_sessions[k].with_driver(
            before.asio_drivers@[d].name@,
            before.asio_drivers@[d].max_input_channels,
        ).channel_indices.len(),
        preset.asio_publish_sessions[k].selected_driver is None
            ==> after.asio_publish_sessions@[k].config.driver_channel_count == 0,
        (preset.asio_publish_sessions[k].selected_driver matches Some(name) && forall|j: int|
            0 <= j < before.asio_drivers@.len() ==> (#[trigger] before.asio_drivers@[j]).name@
                != name) ==> after.asio_publish_sessions@[k].config.driver_channel_count == 0,
{
    let contents = after.contents();
    assert(contents.asio_publish_sessions.len() == preset.asio_publish_sessions.len());
    assert(contents.asio_publish_sessions[k] == preset.asio_publish_sessions[k]);
    let session = after.asio_publish_sessions@[k];
    let drivers = before.asio_drivers@;
    if let Some(name) = preset.asio_publish_sessions[k].selected_driver {
        crate::devices::lemma_selected_driver(drivers, name, d);
    }
}

/// Every session of a saved preset comes back in its place with all that was
/// configured, whatever else the application held before.
pub proof fn lemma_sessions_come_back(
    saved: OpenAudioApp,
    before: OpenAudioApp,
    after: OpenAudioApp,
    now: u64,
    i: int,
)
    requires
        preset_loaded(before, after, saved.contents(), now),
        i >= 0,
    ensures
        after.publish_sessions@.len() == saved.publish_sessions@.len(),
        after.combine_publish_sessions@.len() == saved.combine_publish_sessions@.len(),
        after.asio_publish_sessions@.len() == saved.asio_publish_sessions@.len(),
        after.subscribe_sessions@.len() == saved.subscribe_sessions@.len(),
        after.split_subscribe_sessions@.len() == saved.split_subscribe_sessions@.len(),
        i < saved.publish_sessions@.len() ==> after.publish_sessions@[i].config@
            == saved.publish_sessions@[i].config@,
        i < saved.combine_publish_sessions@.len() ==> after.combine_publish_sessions@[i].config@
            == saved.combine_publish_sessions@[i].config@,
        i < saved.asio_publish_sessions@.len() ==> after.asio_publish_sessions@[i].config.preset@
            == saved.asio_publish_sessions@[i].config.preset@,
        i < saved.split_subscribe_sessions@.len() ==> after.split_subscribe_sessions@[i].config@
            == saved.split_subscribe_sessions@[i].config@,
        i < saved.subscribe_sessions@.len() ==> {
            let old = saved.subscribe_sessions@[i].config@;
            let new = after.subscribe_sessions@[i].config@;
            &&& new.selected_node == old.selected_node
            &&& new.bind_port == old.bind_port
            &&& new.selected_output == old.selected_output
            &&& new.record == old.record
            &&& new.volume == old.volume.accepted()
        },
{
    let now_held = after.contents();
    let was_held = saved.contents().accepted();
    assert(now_held.publish_sessions.len() == was_held.publish_sessions.len());
    assert(now_held.combine_publish_sessions.len() == was_held.combine_publish_sessions.len());
    assert(now_held.asio_publish_sessions.len() == was_held.asio_publish_sessions.len());
    assert(now_held.subscribe_sessions.len() == was_held.subscribe_sessions.len());
    assert(now_held.split_subscribe_sessions.len() == was_held.split_subscribe_sessions.len());
    if i < saved.publish_sessions@.len() {
        assert(now_held.publish_sessions[i] == was_held.publish_sessions[i]);
    }
    if i < saved.combine_publish_sessions@.len() {
        assert(now_held.combine_publish_sessions[i] == was_held.combine_publish_sessions[i]);
    }
    if i < saved.asio_publish_sessions@.len() {
        assert(now_held.asio_publish_sessions[i] == was_held.asio_publish_sessions[i]);
    }
    if i < saved.subscribe_sessions@.len() {
        assert(now_held.subscribe_sessions[i] == was_held.subscribe_sessions[i]);
    }
    if i < saved.split_subscribe_sessions@.len() {
        assert(now_held.split_subscribe_sessions[i] == was_held.split_subscribe_sessions[i]);
    }
}

/// Loading touches nothing but the sessions, their numbers and the settings of the
/// gateway; the gateway keeps running if it runs, and its password has to be
/// confirmed again.
pub proof fn lemma_loading_leaves_the_rest(
    before: OpenAudioApp,
    after: OpenAudioApp,
    preset: PresetContents,
    now: u64,
)
    requires
        preset_loaded(before, after, preset, now),
    ensures
        after.active_page == before.active_page,
        after.asio_subscribe_panel == before.asio_subscribe_panel,
        after.diagnostic_panel == before.diagnostic_panel,
        after.signal_monitor == before.signal_monitor,
        after.input_devices == before.input_devices,
        after.output_devices == before.output_devices,
        after.asio_drivers == before.asio_drivers,
        after.asio_drivers_error == before.asio_drivers_error,
        after.asio_locks == before.asio_locks,
        after.banners == before.banners,
        after.refreshing_devices == before.refreshing_devices,
        after.pending_device_refresh == before.pending_device_refresh,
        after.browser.running == before.browser.running,
        after.browser.thread_active == before.browser.thread_active,
        after.browser.status@ == before.browser.status@,
        after.browser.password@ == preset.browser.password,
        after.browser.confirmation@.len() == 0,
{
    assert(after.browser@.running == before.browser@.running);
    assert(after.browser@.thread_active == before.browser@.thread_active);
    assert(after.browser@.status == before.browser@.status);
    assert(after.browser@.password == preset.browser.password);
    assert(after.browser@.confirmation.len() == 0);
}

/// A preset is loaded exactly if it has the mark and the version of the format and
/// no session runs; what the application saves has both.
pub proof fn lemma_what_can_be_loaded(app: OpenAudioApp, preset: PresetContents)
    ensures
        load_error(app, preset) is None <==> preset.format == "OpenAudio preset"@ && preset.version
            == 1 && !some_running(app.publish_sessions@) && !some_running(
            app.combine_publish_sessions@,
        ) && !some_running(app.asio_publish_sessions@) && !some_running(app.subscribe_sessions@)
            && !some_running(app.split_subscribe_sessions@),
        app.contents().format == "OpenAudio preset"@,
        app.contents().version == 1,
        preset.format != "OpenAudio preset"@ ==> load_error(app, preset) == Some(
            "unsupported OpenAudio preset format or version"@,
        ),
{
}

/// Of a preset nothing but a volume out of its range and an access mode that is
/// not known change when it is loaded.
pub proof fn lemma_what_a_preset_loses(preset: PresetContents, i: int)
    ensures
        preset.accepted().browser.password == preset.browser.password,
        preset.browser.access_mode == "open_lan"@ ==> preset.accepted().browser == preset.browser,
        preset.browser.access_mode != "open_lan"@ ==> preset.accepted().browser.access_mode
            == "password_protected"@,
        preset.accepted().format == preset.format,
        preset.accepted().version == preset.version,
        preset.accepted().publish_sessions == preset.publish_sessions,
        preset.accepted().combine_publish_sessions == preset.combine_publish_sessions,
        preset.accepted().asio_publish_sessions == preset.asio_publish_sessions,
        preset.accepted().split_subscribe_sessions == preset.split_subscribe_sessions,
        preset.accepted().subscribe_sessions.len() == preset.subscribe_sessions.len(),
        0 <= i < preset.subscribe_sessions.len() ==> {
            let before = preset.subscribe_sessions[i];
            let after = preset.accepted().subscribe_sessions[i];
            &&& after.selected_node == before.selected_node
            &&& after.bind_port == before.bind_port
            &&& after.selected_output == before.selected_output
            &&& after.record == before.record
            &&& after.volume == before.volume.accepted()
        },
{
}

/// Loaded sessions are numbered one after the other, kind by kind, from the next
/// number on, and none of them runs.
pub proof fn lemma_kinds_are_numbered_in_turn(
    before: OpenAudioApp,
    after: OpenAudioApp,
    preset: PresetContents,
    now: u64,
    k: int,
)
    requires
        preset_loaded(before, after, preset, now),
        before.next_id + preset.session_count() <= u64::MAX,
        k >= 0,
    ensures
        ({
            let combine = before.next_id + preset.publish_sessions.len();
            let asio = combine + preset.combine_publish_sessions.len();
            let subscribe = asio + preset.asio_publish_sessions.len();
            let split = subscribe + preset.subscribe_sessions.len();
            &&& k < after.publish_sessions@.len() ==> after.publish_sessions@[k].id
                == before.next_id + k && !after.publish_sessions@[k].control.running
            &&& k < after.combine_publish_sessions@.len() ==> after.combine_publish_sessions@[k].id
                == combine + k && !after.combine_publish_sessions@[k].control.running
            &&& k < after.asio_publish_sessions@.len() ==> after.asio_publish_sessions@[k].id
                == asio + k && !after.asio_publish_sessions@[k].control.running
            &&& k < after.subscribe_sessions@.len() ==> after.subscribe_sessions@[k].id == subscribe
                + k && !after.subscribe_sessions@[k].control.running
            &&& k < after.split_subscribe_sessions@.len() ==> after.split_subscribe_sessions@[k].id
                == split + k && !after.split_subscribe_sessions@[k].control.running
            &&& after.next_id == split + preset.split_subscribe_sessions.len()
        }),
        preset.session_count() == preset.publish_sessions.len()
            + preset.combine_publish_sessions.len() + preset.asio_publish_sessions.len()
            + preset.subscribe_sessions.len() + preset.split_subscribe_sessions.len(),
{
    let contents = after.contents();
    assert(contents.publish_sessions.len() == preset.publish_sessions.len());
    assert(contents.combine_publish_sessions.len() == preset.combine_publish_sessions.len());
    assert(contents.asio_publish_sessions.len() == preset.asio_publish_sessions.len());
    assert(contents.subscribe_sessions.len() == preset.subscribe_sessions.len());
    assert(contents.split_subscribe_sessions.len() == preset.split_subscribe_sessions.len());
    if k < after.publish_sessions@.len() {
        assert(after.publish_sessions@[k].control@ == ControlState::idle(now));
    }
    if k < after.combine_publish_sessions@.len() {
        assert(after.combine_publish_sessions@[k].control@ == ControlState::idle(now));
    }
    if k < after.asio_publish_sessions@.len() {
        assert(after.asio_publish_sessions@[k].control@ == ControlState::idle(now));
    }
    if k < after.subscribe_sessions@.len() {
        assert(after.subscribe_sessions@[k].control@ == ControlState::idle(now));
    }
    if k < after.split_subscribe_sessions@.len() {
        assert(after.split_subscribe_sessions@[k].control@ == ControlState::idle(now));
    }
}

} // verus!
